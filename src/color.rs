//! The closed set of colors and their ANSI foreground codes.
use vstd::prelude::*;
use vstd::utf8::is_ascii_chars;

use crate::escape::{ascii_bytes, is_param_text};

verus! {

/// A foreground color that a writer can select.
#[derive(Clone, Copy, Debug, PartialEq, Eq, Structural)]
pub enum SupportedColors {
    Red,
    Green,
    Blue,
    Yellow,
    White,
    Magenta,
}

/// The textual ANSI foreground code of a color.
pub open spec fn ansi_code(color: SupportedColors) -> Seq<char> {
    match color {
        SupportedColors::Red => seq!['3', '1'],
        SupportedColors::Green => seq!['3', '2'],
        SupportedColors::Blue => seq!['3', '4'],
        SupportedColors::Yellow => seq!['3', '3'],
        SupportedColors::White => seq!['3', '7'],
        SupportedColors::Magenta => seq!['3', '5'],
    }
}

/// A code a writer may hold: empty (the terminal's default) or a color's code.
pub open spec fn is_selection(code: Seq<char>) -> bool {
    code.len() == 0 || exists|c: SupportedColors| code == #[trigger] ansi_code(c)
}

/// Every code a writer may hold is ASCII, and its bytes may stand between
/// `ESC [` and `m`.
pub proof fn lemma_selection_params(code: Seq<char>)
    requires
        is_selection(code),
    ensures
        is_ascii_chars(code),
        is_param_text(ascii_bytes(code)),
{
    if code.len() != 0 {
        let c = choose|c: SupportedColors| code == #[trigger] ansi_code(c);
        assert(code == ansi_code(c));
    }
}

/// Looks up the ANSI foreground code of `color`.
pub fn get_color<'a>(color: SupportedColors) -> (r: &'a str)
    ensures
        r@ == ansi_code(color),
{
    proof {
        reveal_strlit("31");
        reveal_strlit("32");
        reveal_strlit("34");
        reveal_strlit("33");
        reveal_strlit("37");
        reveal_strlit("35");
    }
    match color {
        SupportedColors::Red => "31",
        SupportedColors::Green => "32",
        SupportedColors::Blue => "34",
        SupportedColors::Yellow => "33",
        SupportedColors::White => "37",
        SupportedColors::Magenta => "35",
    }
}

} // verus!
