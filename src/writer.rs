//! The color writer: the current color selection of an output stream, and the
//! exact bytes that printing a payload sends to that stream.
use vstd::prelude::*;
use vstd::string::is_ascii_spec_bytes;

use crate::color::{ansi_code, get_color, is_selection, lemma_selection_params, SupportedColors};
use crate::escape::{
    ascii_bytes, lemma_strip_frame, sgr_frame, sgr_open, sgr_reset, strip_sgr, BRACKET, ESC,
    RESET_PARAM, SGR_END,
};

verus! {

/// The standard stream a writer is bound to.
#[derive(Clone, Copy, Debug, PartialEq, Eq, Structural)]
pub enum StandardStreamTypes {
    Stdout,
    Stderr,
}

/// The code selected by an optional color: empty when there is none.
pub open spec fn selection_of(choice: Option<SupportedColors>) -> Seq<char> {
    match choice {
        Some(c) => ansi_code(c),
        None => Seq::empty(),
    }
}

/// A writer bound to one standard stream, with its current color selection.
///
/// Several writers on one stream are not synchronised with each other: their
/// output may interleave when they are used from several threads.
pub struct ColorWriter<'a> {
    stream_type: StandardStreamTypes,
    choice: &'a str,
}

/// Appends `bytes` to `out`.
fn push_bytes(out: &mut Vec<u8>, bytes: &[u8])
    ensures
        final(out)@ == old(out)@ + bytes@,
{
    let mut i: usize = 0;
    while i < bytes.len()
        invariant
            i <= bytes@.len(),
            out@ == old(out)@ + bytes@.subrange(0, i as int),
        decreases bytes.len() - i,
    {
        out.push(bytes[i]);
        i += 1;
        assert(bytes@.subrange(0, i as int) =~= bytes@.subrange(0, i - 1) + seq![bytes@[i - 1]]);
    }
    assert(bytes@.subrange(0, i as int) =~= bytes@);
}

impl<'a> ColorWriter<'a> {
    /// The stream this writer is bound to.
    pub closed spec fn destination(&self) -> StandardStreamTypes {
        self.stream_type
    }

    /// The current color selection: a color's code, or empty for none.
    pub closed spec fn code(&self) -> Seq<char> {
        self.choice@
    }

    /// The selection is empty or the code of one of the colors.
    pub open spec fn wf(&self) -> bool {
        is_selection(self.code())
    }

    /// The bytes that printing `payload` sends to the stream.
    pub open spec fn printed(&self, payload: Seq<u8>) -> Seq<u8> {
        sgr_frame(ascii_bytes(self.code()), payload)
    }

    /// A writer bound to `stream_type`, colored with `choice` if there is one.
    pub fn new(stream_type: StandardStreamTypes, choice: Option<SupportedColors>) -> (r: ColorWriter<'a>)
        ensures
            r.wf(),
            r.destination() == stream_type,
            r.code() == selection_of(choice),
    {
        proof {
            reveal_strlit("");
        }
        let choice = match choice {
            Some(color) => get_color(color),
            None => "",
        };
        ColorWriter { stream_type, choice }
    }

    /// The stream this writer is bound to.
    pub fn stream_type(&self) -> (r: StandardStreamTypes)
        ensures
            r == self.destination(),
    {
        self.stream_type
    }

    /// The exact bytes that printing `payload` sends, in one write, to the
    /// stream: `ESC [ <code> m`, the payload, then `ESC [ 0 m`. The payload is
    /// taken as opaque bytes.
    pub fn print(&self, payload: &[u8]) -> (r: Vec<u8>)
        requires
            self.wf(),
        ensures
            r@ == self.printed(payload@),
            r@.len() == payload@.len() + self.code().len() + 7,
    {
        proof {
            lemma_selection_params(self.code());
            is_ascii_spec_bytes(self.choice);
        }
        let code = self.choice.as_bytes();
        assert(code@ =~= ascii_bytes(self.code()));
        self.format_str(payload, code)
    }

    /// Frames `payload` with the rendition `color_code`:
    /// `ESC [ <color_code> m`, the payload, then `ESC [ 0 m`.
    pub fn format_str(&self, payload: &[u8], color_code: &[u8]) -> (r: Vec<u8>)
        ensures
            r@ == sgr_frame(color_code@, payload@),
    {
        let mut out: Vec<u8> = Vec::new();
        out.push(ESC);
        out.push(BRACKET);
        push_bytes(&mut out, color_code);
        out.push(SGR_END);
        push_bytes(&mut out, payload);
        out.push(ESC);
        out.push(BRACKET);
        out.push(RESET_PARAM);
        out.push(SGR_END);
        assert(out@ =~= sgr_frame(color_code@, payload@));
        out
    }

    /// Selects `color` for the prints that follow.
    pub fn set_color(&mut self, color: SupportedColors)
        ensures
            final(self).wf(),
            final(self).code() == ansi_code(color),
            final(self).destination() == old(self).destination(),
    {
        self.choice = get_color(color);
    }

    /// Clears the color selection: the prints that follow use the terminal's
    /// default color.
    pub fn reset(&mut self)
        ensures
            final(self).wf(),
            final(self).code() == Seq::<char>::empty(),
            final(self).destination() == old(self).destination(),
    {
        proof {
            reveal_strlit("");
        }
        self.choice = "";
    }
}

/// A writer colored with `color` frames every payload with that color's
/// two-digit code: `ESC [ <code> m`, the payload, then `ESC [ 0 m`, nine bytes
/// more than the payload.
pub proof fn lemma_colored_print(w: ColorWriter, color: SupportedColors, payload: Seq<u8>)
    requires
        w.wf(),
        w.code() == ansi_code(color),
    ensures
        w.printed(payload) == sgr_open(ascii_bytes(ansi_code(color))) + payload + sgr_reset(),
        w.printed(payload).len() == payload.len() + 9,
{
}

/// Printing nothing still sends the whole frame, with no byte between the
/// opening sequence and the reset.
pub proof fn lemma_print_empty(w: ColorWriter)
    requires
        w.wf(),
    ensures
        w.printed(Seq::empty()) == sgr_open(ascii_bytes(w.code())) + sgr_reset(),
{
    assert(w.printed(Seq::empty()) =~= sgr_open(ascii_bytes(w.code())) + sgr_reset());
}

/// Taking every `ESC [ <params> m` sequence out of what a print sends gives
/// the payload back, for any payload that holds no such sequence itself.
pub proof fn lemma_print_round_trip(w: ColorWriter, payload: Seq<u8>)
    requires
        w.wf(),
        strip_sgr(payload) == payload,
    ensures
        strip_sgr(w.printed(payload)) == payload,
{
    lemma_selection_params(w.code());
    lemma_strip_frame(ascii_bytes(w.code()), payload);
}

} // verus!
