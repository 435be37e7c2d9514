//! The six-digit hexadecimal codes that identify bind sessions.

use vstd::prelude::*;
use crate::text::{chars_of, push_char, trim, trim_chars};

verus! {

/// The number of characters of a token's text.
pub const TOKEN_LENGTH: usize = 6;

/// Text that is not a token.
#[derive(PartialEq, Eq, Debug, Clone, Copy, Structural)]
pub enum InvalidFormat {
    /// Not six characters.
    InvalidLength,
    /// A character that is not a lower-case hexadecimal digit.
    InvalidChar(char),
}

/// The code of a bind session; its low 24 bits are shown as six hex digits.
pub struct Token(u32);

/// The lower-case hexadecimal digit for `n`, below 16.
pub open spec fn hex_digit(n: int) -> char {
    if n == 0 {
        '0'
    } else if n == 1 {
        '1'
    } else if n == 2 {
        '2'
    } else if n == 3 {
        '3'
    } else if n == 4 {
        '4'
    } else if n == 5 {
        '5'
    } else if n == 6 {
        '6'
    } else if n == 7 {
        '7'
    } else if n == 8 {
        '8'
    } else if n == 9 {
        '9'
    } else if n == 10 {
        'a'
    } else if n == 11 {
        'b'
    } else if n == 12 {
        'c'
    } else if n == 13 {
        'd'
    } else if n == 14 {
        'e'
    } else {
        'f'
    }
}

/// The value of a lower-case hexadecimal digit.
pub open spec fn hex_value(c: char) -> Option<u8> {
    if c == '0' {
        Some(0)
    } else if c == '1' {
        Some(1)
    } else if c == '2' {
        Some(2)
    } else if c == '3' {
        Some(3)
    } else if c == '4' {
        Some(4)
    } else if c == '5' {
        Some(5)
    } else if c == '6' {
        Some(6)
    } else if c == '7' {
        Some(7)
    } else if c == '8' {
        Some(8)
    } else if c == '9' {
        Some(9)
    } else if c == 'a' {
        Some(10)
    } else if c == 'b' {
        Some(11)
    } else if c == 'c' {
        Some(12)
    } else if c == 'd' {
        Some(13)
    } else if c == 'e' {
        Some(14)
    } else if c == 'f' {
        Some(15)
    } else {
        None
    }
}

/// The text of the token with value `v`: its three low bytes, lowest
/// first, each as two hex digits, high digit first.
pub open spec fn token_text(v: u32) -> Seq<char> {
    let b0 = v as int % 256;
    let b1 = (v as int / 256) % 256;
    let b2 = (v as int / 65536) % 256;
    seq![
        hex_digit(b0 / 16),
        hex_digit(b0 % 16),
        hex_digit(b1 / 16),
        hex_digit(b1 % 16),
        hex_digit(b2 / 16),
        hex_digit(b2 % 16),
    ]
}

/// The first character of `t` that is not a hex digit.
pub open spec fn first_bad(t: Seq<char>) -> Option<char>
    decreases t.len(),
{
    if t.len() == 0 {
        None
    } else if hex_value(t[0]) is None {
        Some(t[0])
    } else {
        first_bad(t.drop_first())
    }
}

/// The byte that the hex digits `hi` and `lo` spell.
pub open spec fn byte_of(hi: char, lo: char) -> int {
    16 * hex_value(hi)->0 + hex_value(lo)->0
}

/// The token value that `t`, already trimmed, spells.
pub open spec fn parse_token_chars(t: Seq<char>) -> Result<u32, InvalidFormat> {
    if t.len() != 6 {
        Err(InvalidFormat::InvalidLength)
    } else if first_bad(t) is Some {
        Err(InvalidFormat::InvalidChar(first_bad(t)->0))
    } else {
        Ok(
            (byte_of(t[0], t[1]) + 256 * byte_of(t[2], t[3]) + 65536 * byte_of(t[4], t[5])) as u32,
        )
    }
}

/// The hex digit for `n`.
fn hex_char(n: u32) -> (c: char)
    requires
        n < 16,
    ensures
        c == hex_digit(n as int),
{
    if n == 0 {
        '0'
    } else if n == 1 {
        '1'
    } else if n == 2 {
        '2'
    } else if n == 3 {
        '3'
    } else if n == 4 {
        '4'
    } else if n == 5 {
        '5'
    } else if n == 6 {
        '6'
    } else if n == 7 {
        '7'
    } else if n == 8 {
        '8'
    } else if n == 9 {
        '9'
    } else if n == 10 {
        'a'
    } else if n == 11 {
        'b'
    } else if n == 12 {
        'c'
    } else if n == 13 {
        'd'
    } else if n == 14 {
        'e'
    } else {
        'f'
    }
}

/// The value of the hex digit `c`.
fn hex_val(c: char) -> (r: Option<u8>)
    ensures
        r == hex_value(c),
{
    if c == '0' {
        Some(0)
    } else if c == '1' {
        Some(1)
    } else if c == '2' {
        Some(2)
    } else if c == '3' {
        Some(3)
    } else if c == '4' {
        Some(4)
    } else if c == '5' {
        Some(5)
    } else if c == '6' {
        Some(6)
    } else if c == '7' {
        Some(7)
    } else if c == '8' {
        Some(8)
    } else if c == '9' {
        Some(9)
    } else if c == 'a' {
        Some(10)
    } else if c == 'b' {
        Some(11)
    } else if c == 'c' {
        Some(12)
    } else if c == 'd' {
        Some(13)
    } else if c == 'e' {
        Some(14)
    } else if c == 'f' {
        Some(15)
    } else {
        None
    }
}

/// Nanoseconds past the current second of the local clock. Relies on
/// `chrono::Local::now` and `DateTime::timestamp_subsec_nanos`; nothing is
/// promised of the reading.
#[verifier::external_body]
fn subsec_nanos() -> (r: u32) {
    chrono::Local::now().timestamp_subsec_nanos()
}

/// A scan that passes over `i` hex digits finds the first bad character
/// at `i`, or none at the end.
proof fn lemma_first_bad(t: Seq<char>, i: int)
    requires
        0 <= i <= t.len(),
        forall|k: int| 0 <= k < i ==> hex_value(#[trigger] t[k]) is Some,
    ensures
        i < t.len() && hex_value(t[i]) is None ==> first_bad(t) == Some(t[i]),
        i == t.len() ==> first_bad(t) is None,
    decreases i,
{
    if i > 0 {
        let u = t.drop_first();
        assert forall|k: int| 0 <= k < i - 1 implies hex_value(#[trigger] u[k]) is Some by {
            assert(u[k] == t[k + 1]);
        }
        lemma_first_bad(u, i - 1);
        if i < t.len() {
            assert(u[i - 1] == t[i]);
        }
    }
}

impl Token {
    /// The token's value.
    pub closed spec fn spec_val(&self) -> u32 {
        self.0
    }

    /// The token built from a clock reading: its nanoseconds past the second,
    /// shifted right by eight bits.
    pub fn from_nanos(nanos: u32) -> (r: Token)
        ensures
            r.spec_val() == nanos >> 8,
            r.spec_val() < 0x100_0000,
    {
        assert(nanos >> 8 < 0x100_0000) by (bit_vector);
        Token(nanos >> 8)
    }

    /// The token with value `v`, below 2^24.
    pub fn from_value(v: u32) -> (r: Token)
        requires
            v < 0x100_0000,
        ensures
            r.spec_val() == v,
    {
        Token(v)
    }

    /// A token drawn from the local clock.
    pub fn new() -> (r: Token)
        ensures
            r.spec_val() < 0x100_0000,
    {
        Token::from_nanos(subsec_nanos())
    }

    /// The token's value.
    pub fn val(&self) -> (r: u32)
        ensures
            r == self.spec_val(),
    {
        self.0
    }

    /// The token's six-character text.
    pub fn to_string(&self) -> (r: String)
        ensures
            r@ == token_text(self.spec_val()),
    {
        let v = self.0;
        let b0 = v % 256;
        let b1 = (v / 256) % 256;
        let b2 = (v / 65536) % 256;
        let mut r = String::new();
        push_char(&mut r, hex_char(b0 / 16));
        push_char(&mut r, hex_char(b0 % 16));
        push_char(&mut r, hex_char(b1 / 16));
        push_char(&mut r, hex_char(b1 % 16));
        push_char(&mut r, hex_char(b2 / 16));
        push_char(&mut r, hex_char(b2 % 16));
        assert(r@ =~= token_text(v));
        r
    }

    /// Reads a token from text that is already trimmed.
    pub fn parse_trimmed(t: &Vec<char>) -> (r: Result<Token, InvalidFormat>)
        ensures
            r matches Ok(tok) ==> parse_token_chars(t@) == Ok::<u32, InvalidFormat>(
                tok.spec_val(),
            ),
            r matches Err(e) ==> parse_token_chars(t@) == Err::<u32, InvalidFormat>(e),
    {
        if t.len() != TOKEN_LENGTH {
            return Err(InvalidFormat::InvalidLength);
        }
        let mut digits: Vec<u8> = Vec::new();
        for i in 0..6
            invariant
                t@.len() == 6,
                digits@.len() == i,
                forall|k: int| 0 <= k < i ==> hex_value(#[trigger] t@[k]) == Some(digits@[k]),
        {
            match hex_val(t[i]) {
                Some(d) => digits.push(d),
                None => {
                    proof {
                        lemma_first_bad(t@, i as int);
                    }
                    return Err(InvalidFormat::InvalidChar(t[i]));
                },
            }
        }
        proof {
            lemma_first_bad(t@, 6);
        }
        let x0 = 16 * digits[0] as u32 + digits[1] as u32;
        let x1 = 16 * digits[2] as u32 + digits[3] as u32;
        let x2 = 16 * digits[4] as u32 + digits[5] as u32;
        Ok(Token(x0 + 256 * x1 + 65536 * x2))
    }

    /// Reads a token; surrounding whitespace is ignored.
    pub fn from_str(s: &str) -> (r: Result<Token, InvalidFormat>)
        ensures
            r matches Ok(tok) ==> parse_token_chars(trim(s@)) == Ok::<u32, InvalidFormat>(
                tok.spec_val(),
            ),
            r matches Err(e) ==> parse_token_chars(trim(s@)) == Err::<u32, InvalidFormat>(e),
    {
        let cs = chars_of(s);
        let t = trim_chars(&cs);
        Token::parse_trimmed(&t)
    }
}

/// Reading a token's text gives the token back.
pub proof fn lemma_token_round_trip(v: u32)
    requires
        v < 0x100_0000,
    ensures
        parse_token_chars(token_text(v)) == Ok::<u32, InvalidFormat>(v),
{
    let t = token_text(v);
    let b0 = v as int % 256;
    let b1 = (v as int / 256) % 256;
    let b2 = (v as int / 65536) % 256;
    assert forall|n: int| 0 <= n < 16 implies hex_value(#[trigger] hex_digit(n)) == Some(n as u8)
        by {}
    assert(byte_of(t[0], t[1]) == b0);
    assert(byte_of(t[2], t[3]) == b1);
    assert(byte_of(t[4], t[5]) == b2);
    assert forall|k: int| 0 <= k < 6 implies hex_value(#[trigger] t[k]) is Some by {}
    lemma_first_bad(t, 6);
}

} // verus!
