//! The wire format: `ESC [ <code> m`, the payload, then `ESC [ 0 m`; and the
//! removal of such escape sequences from a byte stream.
use vstd::prelude::*;

verus! {

/// The escape control byte.
pub const ESC: u8 = 0x1B;

/// `[`, which follows `ESC` to open a control sequence.
pub const BRACKET: u8 = 0x5B;

/// `m`, which ends a graphic-rendition sequence.
pub const SGR_END: u8 = 0x6D;

/// `0`, the parameter that restores the terminal's default rendition.
pub const RESET_PARAM: u8 = 0x30;

/// The bytes of an ASCII text, one per character.
pub open spec fn ascii_bytes(text: Seq<char>) -> Seq<u8> {
    Seq::new(text.len(), |i: int| text[i] as u8)
}

/// The sequence that selects the rendition `code`: `ESC [ <code> m`.
pub open spec fn sgr_open(code: Seq<u8>) -> Seq<u8> {
    seq![ESC, BRACKET] + code + seq![SGR_END]
}

/// The sequence that restores the default rendition: `ESC [ 0 m`.
pub open spec fn sgr_reset() -> Seq<u8> {
    seq![ESC, BRACKET, RESET_PARAM, SGR_END]
}

/// `payload` rendered with the rendition `code` and followed by a reset.
pub open spec fn sgr_frame(code: Seq<u8>, payload: Seq<u8>) -> Seq<u8> {
    sgr_open(code) + payload + sgr_reset()
}

/// A byte that may stand between `ESC [` and `m`: a digit or `;`.
pub open spec fn is_param_byte(b: u8) -> bool {
    (0x30 <= b && b <= 0x39) || b == 0x3B
}

/// Whether every byte of `code` is a parameter byte.
pub open spec fn is_param_text(code: Seq<u8>) -> bool {
    forall|j: int| 0 <= j < code.len() ==> is_param_byte(#[trigger] code[j])
}

/// The number of consecutive parameter bytes of `s` from index `i`.
pub open spec fn param_run(s: Seq<u8>, i: int) -> nat
    decreases s.len() - i,
{
    if 0 <= i < s.len() && is_param_byte(s[i]) {
        1 + param_run(s, i + 1)
    } else {
        0
    }
}

/// Whether `s` begins with a complete `ESC [ <params> m` sequence.
pub open spec fn starts_with_sgr(s: Seq<u8>) -> bool {
    &&& s.len() >= 2
    &&& s[0] == ESC
    &&& s[1] == BRACKET
    &&& 2 + param_run(s, 2) < s.len()
    &&& s[2 + param_run(s, 2) as int] == SGR_END
}

/// `s` with every complete `ESC [ <params> m` sequence taken out, scanning
/// from the front.
pub open spec fn strip_sgr(s: Seq<u8>) -> Seq<u8>
    decreases s.len(),
{
    if s.len() == 0 {
        Seq::empty()
    } else if starts_with_sgr(s) {
        strip_sgr(s.subrange(3 + param_run(s, 2) as int, s.len() as int))
    } else {
        seq![s[0]] + strip_sgr(s.subrange(1, s.len() as int))
    }
}

proof fn lemma_param_run_bound(s: Seq<u8>, i: int)
    requires
        0 <= i <= s.len(),
    ensures
        i + param_run(s, i) <= s.len(),
    decreases s.len() - i,
{
    if i < s.len() {
        lemma_param_run_bound(s, i + 1);
    }
}

proof fn lemma_param_run_exact(s: Seq<u8>, i: int, n: nat)
    requires
        0 <= i,
        i + n < s.len(),
        forall|j: int| i <= j < i + n ==> is_param_byte(#[trigger] s[j]),
        !is_param_byte(s[i + n]),
    ensures
        param_run(s, i) == n,
    decreases n,
{
    if n > 0 {
        lemma_param_run_exact(s, i + 1, (n - 1) as nat);
    }
}

proof fn lemma_param_run_append(p: Seq<u8>, t: Seq<u8>, i: int)
    requires
        0 <= i <= p.len(),
        t.len() > 0,
        !is_param_byte(t[0]),
    ensures
        param_run(p + t, i) == param_run(p, i),
    decreases p.len() - i,
{
    if i < p.len() {
        lemma_param_run_append(p, t, i + 1);
    }
}

/// Stripping distributes over a concatenation whose right part opens with
/// `ESC`: no sequence of `p` can run on into `t`.
proof fn lemma_strip_concat(p: Seq<u8>, t: Seq<u8>)
    requires
        t.len() > 0,
        t[0] == ESC,
    ensures
        strip_sgr(p + t) == strip_sgr(p) + strip_sgr(t),
    decreases p.len(),
{
    let s = p + t;
    if p.len() == 0 {
        assert(s =~= t);
        assert(strip_sgr(p) + strip_sgr(t) =~= strip_sgr(t));
    } else if starts_with_sgr(p) {
        let k = param_run(p, 2) as int;
        lemma_param_run_append(p, t, 2);
        assert(starts_with_sgr(s));
        assert(s.subrange(3 + k, s.len() as int) =~= p.subrange(3 + k, p.len() as int) + t);
        lemma_strip_concat(p.subrange(3 + k, p.len() as int), t);
    } else {
        if p.len() >= 2 {
            let k = param_run(p, 2) as int;
            lemma_param_run_append(p, t, 2);
            lemma_param_run_bound(p, 2);
            if 2 + k < p.len() {
                assert(s[2 + k] == p[2 + k]);
            } else {
                assert(s[2 + k] == t[0]);
            }
        }
        assert(!starts_with_sgr(s));
        assert(s.subrange(1, s.len() as int) =~= p.subrange(1, p.len() as int) + t);
        lemma_strip_concat(p.subrange(1, p.len() as int), t);
        assert(strip_sgr(s) =~= strip_sgr(p) + strip_sgr(t));
    }
}

proof fn lemma_strip_reset()
    ensures
        strip_sgr(sgr_reset()) == Seq::<u8>::empty(),
{
    let r = sgr_reset();
    lemma_param_run_exact(r, 2, 1);
    assert(starts_with_sgr(r));
    assert(r.subrange(4, 4) =~= Seq::<u8>::empty());
    assert(strip_sgr(Seq::<u8>::empty()) == Seq::<u8>::empty());
}

proof fn lemma_strip_open(code: Seq<u8>, rest: Seq<u8>)
    requires
        is_param_text(code),
    ensures
        strip_sgr(sgr_open(code) + rest) == strip_sgr(rest),
{
    let s = sgr_open(code) + rest;
    let n = code.len() as int;
    assert forall|j: int| 2 <= j < 2 + n implies is_param_byte(#[trigger] s[j]) by {
        assert(s[j] == code[j - 2]);
    }
    lemma_param_run_exact(s, 2, n as nat);
    assert(starts_with_sgr(s));
    assert(s.subrange(3 + n, s.len() as int) =~= rest);
}

/// Taking the escape sequences out of a framed payload leaves what taking
/// them out of the payload alone leaves.
pub proof fn lemma_strip_frame(code: Seq<u8>, payload: Seq<u8>)
    requires
        is_param_text(code),
    ensures
        strip_sgr(sgr_frame(code, payload)) == strip_sgr(payload),
{
    assert(sgr_frame(code, payload) =~= sgr_open(code) + (payload + sgr_reset()));
    lemma_strip_open(code, payload + sgr_reset());
    lemma_strip_concat(payload, sgr_reset());
    lemma_strip_reset();
    assert(strip_sgr(payload) + Seq::<u8>::empty() =~= strip_sgr(payload));
}

} // verus!
