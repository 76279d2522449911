//! Small string-building helpers shared by the renderer and the edit state.
//!
//! All sizes and positions here count characters, not bytes, so multi-byte
//! text is sliced only on character boundaries.

use vstd::prelude::*;

verus! {

/// Relies on `String::push`: appends the one character at the end.
#[verifier::external_body]
pub fn push_char(s: &mut String, c: char)
    ensures
        final(s)@ == old(s)@.push(c),
{
    s.push(c);
}

/// `n` spaces.
pub open spec fn spec_spaces(n: int) -> Seq<char>
    decreases n,
{
    if n <= 0 {
        Seq::empty()
    } else {
        spec_spaces(n - 1).push(' ')
    }
}

/// A string of `n` spaces.
pub fn spaces(n: usize) -> (r: String)
    ensures
        r@ == spec_spaces(n as int),
{
    let mut r = String::new();
    let mut i: usize = 0;
    while i < n
        invariant
            0 <= i <= n,
            r@ == spec_spaces(i as int),
        decreases n - i,
    {
        push_char(&mut r, ' ');
        i += 1;
    }
    r
}

/// `s` padded with trailing spaces or cut, whichever brings it to exactly
/// `n` characters.
pub open spec fn spec_fixed_length(s: Seq<char>, n: int) -> Seq<char> {
    if s.len() <= n {
        s + spec_spaces(n - s.len())
    } else {
        s.subrange(0, n)
    }
}

/// Pads `s` with trailing spaces, or truncates it, to exactly `n`
/// characters.  Truncation never fails; it drops trailing characters.
pub fn fixed_length_string(s: &str, n: usize) -> (r: String)
    ensures
        r@ == spec_fixed_length(s@, n as int),
{
    let len = s.unicode_len();
    if len < n {
        let mut r = s.to_owned();
        let pad = spaces(n - len);
        r.append(pad.as_str());
        r
    } else if len > n {
        let r = s.substring_char(0, n).to_owned();
        proof {
            assert(s@.len() > n ==> spec_fixed_length(s@, n as int) == s@.subrange(0, n as int));
        }
        r
    } else {
        let r = s.to_owned();
        proof {
            assert(r@ + spec_spaces(0) =~= r@);
        }
        r
    }
}

/// The decimal digits of `v`, most significant first.
pub open spec fn spec_decimal(v: nat) -> Seq<char>
    decreases v,
{
    if v < 10 {
        seq![spec_digit_char(v)]
    } else {
        spec_decimal(v / 10).push(spec_digit_char(v % 10))
    }
}

/// The character for one decimal digit.
pub open spec fn spec_digit_char(d: nat) -> char {
    (0x30 + d) as u8 as char
}

/// Writes `v` in decimal.
pub fn decimal_string(v: usize) -> (r: String)
    ensures
        r@ == spec_decimal(v as nat),
    decreases v,
{
    if v < 10 {
        let d: u8 = 0x30 + (v as u8);
        let mut r = String::new();
        push_char(&mut r, d as char);
        proof {
            assert(r@ =~= seq![spec_digit_char(v as nat)]);
        }
        r
    } else {
        let mut r = decimal_string(v / 10);
        let d: u8 = 0x30 + ((v % 10) as u8);
        push_char(&mut r, d as char);
        r
    }
}

/// The character for one hexadecimal digit.
pub open spec fn spec_hex_char(d: nat) -> char {
    if d < 10 {
        (0x30 + d) as u8 as char
    } else {
        (0x61 + (d - 10)) as u8 as char
    }
}

/// `0x` followed by the two hex digits of one byte and a trailing space, as
/// the pattern box's byte dump writes each byte.
pub open spec fn spec_hex_byte(b: u8) -> Seq<char> {
    seq!['0', 'x', spec_hex_char(b as nat / 16), spec_hex_char(b as nat % 16), ' ']
}

/// Appends the dump of one byte, `0x` then two hex digits then a space.
pub fn append_hex_byte(s: &mut String, b: u8)
    ensures
        final(s)@ == old(s)@ + spec_hex_byte(b),
{
    push_char(s, '0');
    push_char(s, 'x');
    let hi: u8 = b / 16;
    let lo: u8 = b % 16;
    let hic: u8 = if hi < 10 {
        0x30 + hi
    } else {
        0x61 + (hi - 10)
    };
    let loc: u8 = if lo < 10 {
        0x30 + lo
    } else {
        0x61 + (lo - 10)
    };
    push_char(s, hic as char);
    push_char(s, loc as char);
    push_char(s, ' ');
    proof {
        assert(s@ =~= old(s)@ + spec_hex_byte(b));
    }
}

} // verus!
