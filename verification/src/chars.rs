//! Character facts the library takes from `unicode-width` and from std.

use vstd::prelude::*;

verus! {

/// What `UnicodeWidthChar::width` returns for a character: its display width
/// in terminal cells, or `None` for a control character.
pub uninterp spec fn unicode_char_width(c: char) -> Option<usize>;

/// The number of cells a character occupies, with control characters counted
/// as zero cells (`width().unwrap_or(0)`).
pub open spec fn cells(c: char) -> nat {
    match unicode_char_width(c) {
        Some(w) => w as nat,
        None => 0,
    }
}

/// Calls `unicode_width::UnicodeWidthChar::width` (non-CJK widths).
///
/// The result is the named value `unicode_char_width(c)`. The crate's source
/// (`lookup::single_char_width`) also shows: printable ASCII (`' '..'~'`) is
/// one cell wide; the C0 controls below U+0020 and the range U+007F..U+009F
/// give `None`; every character from U+00A0 on gives `Some` of a value read
/// from a `u8` table, so below 256. Which width a non-ASCII character has is
/// left unsaid: it is the crate's Unicode table.
#[verifier::external_body]
pub(crate) fn char_width(c: char) -> (w: Option<usize>)
    ensures
        w == unicode_char_width(c),
        0x20 <= (c as u32) < 0x7f ==> w == Some(1usize),
        (c as u32) < 0x20 || (0x7f <= (c as u32) && (c as u32) < 0xa0) ==> w is None,
        0xa0 <= (c as u32) ==> w is Some && w->0 < 256,
{
    unicode_width::UnicodeWidthChar::width(c)
}

/// What `char::is_alphanumeric` returns for a character (the Unicode
/// `Alphabetic` or `Numeric` properties).
pub uninterp spec fn unicode_is_alphanumeric(c: char) -> bool;

/// Calls `char::is_alphanumeric`. Its result is the named value
/// `unicode_is_alphanumeric(c)` (the Unicode `Alphabetic` or `Numeric`
/// properties). Of ASCII it states what std documents: ASCII letters and
/// digits are alphanumeric and no other ASCII character is; of other
/// characters it claims nothing.
#[verifier::external_body]
pub(crate) fn is_alphanumeric(c: char) -> (b: bool)
    ensures
        b == unicode_is_alphanumeric(c),
        (c as u32) < 0x80 ==> (b <==> (('a' <= c && c <= 'z') || ('A' <= c && c <= 'Z') || ('0'
            <= c && c <= '9'))),
{
    c.is_alphanumeric()
}

/// Calls `String::push`, which appends one character.
#[verifier::external_body]
pub(crate) fn push_char(s: &mut String, c: char)
    ensures
        final(s)@ == old(s)@.push(c),
{
    s.push(c)
}

/// The ASCII digit for a value below ten.
pub open spec fn digit_char(d: nat) -> char {
    (48 + d) as char
}

/// The decimal representation of a natural number, most significant digit
/// first, without leading zeros.
pub open spec fn decimal(n: nat) -> Seq<char>
    decreases n,
{
    if n < 10 {
        seq![digit_char(n)]
    } else {
        decimal(n / 10).push(digit_char(n % 10))
    }
}

/// Appends the decimal digits of `n` to `out`.
fn push_decimal(out: &mut String, n: usize)
    ensures
        final(out)@ == old(out)@ + decimal(n as nat),
    decreases n,
{
    if n >= 10 {
        push_decimal(out, n / 10);
    }
    let d = (48 + n % 10) as u8;
    push_char(out, d as char);
    proof {
        assert(old(out)@ + decimal(n as nat) =~= if n >= 10 {
            old(out)@ + decimal((n / 10) as nat) + seq![digit_char((n % 10) as nat)]
        } else {
            old(out)@ + seq![digit_char(n as nat)]
        });
    }
}

/// The decimal representation of `n`, as `n.to_string()` writes it.
pub(crate) fn usize_to_decimal(n: usize) -> (res: String)
    ensures
        res@ == decimal(n as nat),
{
    let mut out = String::new();
    push_decimal(&mut out, n);
    assert(out@ =~= decimal(n as nat));
    out
}

} // verus!
