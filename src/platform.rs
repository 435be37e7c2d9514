//! The platform tag of a bridge client.

use vstd::prelude::*;

verus! {

/// The platform a bridge client or a bridge user belongs to.
#[derive(PartialEq, Eq, Debug, Clone, Copy, Structural)]
pub enum BridgeClientPlatform {
    Discord,
    QQ,
    Cmd,
    Telegram,
}

/// A platform name that names no platform.
pub struct ParseEnumErr(pub String);

/// `c` equals the lower-case ASCII letter `lower` or its upper-case form.
pub open spec fn ascii_eq_ignore_case(c: char, lower: char, upper: char) -> bool {
    c == lower || c == upper
}

/// The platform whose code `s` is, ignoring ASCII case.
pub open spec fn parse_code(s: Seq<char>) -> Option<BridgeClientPlatform> {
    if s.len() == 2 && ascii_eq_ignore_case(s[0], 'd', 'D') && ascii_eq_ignore_case(s[1], 'c', 'C') {
        Some(BridgeClientPlatform::Discord)
    } else if s.len() == 2 && ascii_eq_ignore_case(s[0], 'q', 'Q') && ascii_eq_ignore_case(
        s[1],
        'q',
        'Q',
    ) {
        Some(BridgeClientPlatform::QQ)
    } else if s.len() == 3 && ascii_eq_ignore_case(s[0], 'c', 'C') && ascii_eq_ignore_case(
        s[1],
        'm',
        'M',
    ) && ascii_eq_ignore_case(s[2], 'd', 'D') {
        Some(BridgeClientPlatform::Cmd)
    } else if s.len() == 2 && ascii_eq_ignore_case(s[0], 't', 'T') && ascii_eq_ignore_case(
        s[1],
        'g',
        'G',
    ) {
        Some(BridgeClientPlatform::Telegram)
    } else {
        None
    }
}

/// The platform whose bit value is `v`.
pub open spec fn platform_of_bit(v: u64) -> Option<BridgeClientPlatform> {
    if v == 1 {
        Some(BridgeClientPlatform::Discord)
    } else if v == 2 {
        Some(BridgeClientPlatform::QQ)
    } else if v == 4 {
        Some(BridgeClientPlatform::Cmd)
    } else if v == 8 {
        Some(BridgeClientPlatform::Telegram)
    } else {
        None
    }
}

impl BridgeClientPlatform {
    /// The distinct power of two that stands for the platform in a bit set.
    pub open spec fn spec_bit(self) -> u64 {
        match self {
            BridgeClientPlatform::Discord => 1,
            BridgeClientPlatform::QQ => 2,
            BridgeClientPlatform::Cmd => 4,
            BridgeClientPlatform::Telegram => 8,
        }
    }

    /// The canonical code used as the platform's key in stored records.
    pub open spec fn spec_code(self) -> Seq<char> {
        match self {
            BridgeClientPlatform::Discord => seq!['D', 'C'],
            BridgeClientPlatform::QQ => seq!['Q', 'Q'],
            BridgeClientPlatform::Cmd => seq!['C', 'M', 'D'],
            BridgeClientPlatform::Telegram => seq!['T', 'G'],
        }
    }

    /// The platform's bit value.
    pub fn bit(&self) -> (r: u64)
        ensures
            r == self.spec_bit(),
    {
        match self {
            BridgeClientPlatform::Discord => 1,
            BridgeClientPlatform::QQ => 2,
            BridgeClientPlatform::Cmd => 4,
            BridgeClientPlatform::Telegram => 8,
        }
    }

    /// The bit set holding both platforms.
    pub fn bitor(self, rhs: BridgeClientPlatform) -> (r: u64)
        ensures
            r == self.spec_bit() | rhs.spec_bit(),
    {
        self.bit() | rhs.bit()
    }

    /// The platform whose bit value is `val`, if any.
    pub fn by_value(val: u64) -> (r: Option<BridgeClientPlatform>)
        ensures
            r == platform_of_bit(val),
    {
        if val == 1 {
            Some(BridgeClientPlatform::Discord)
        } else if val == 2 {
            Some(BridgeClientPlatform::QQ)
        } else if val == 4 {
            Some(BridgeClientPlatform::Cmd)
        } else if val == 8 {
            Some(BridgeClientPlatform::Telegram)
        } else {
            None
        }
    }

    /// The platform's code: `DC`, `QQ`, `CMD` or `TG`.
    pub fn to_string(&self) -> (r: String)
        ensures
            r@ == self.spec_code(),
    {
        let s = match self {
            BridgeClientPlatform::Discord => "DC",
            BridgeClientPlatform::QQ => "QQ",
            BridgeClientPlatform::Cmd => "CMD",
            BridgeClientPlatform::Telegram => "TG",
        };
        proof {
            reveal_strlit("DC");
            reveal_strlit("QQ");
            reveal_strlit("CMD");
            reveal_strlit("TG");
        }
        let r = String::from_str(s);
        assert(r@ =~= self.spec_code());
        r
    }

    /// Parses a platform code, ignoring ASCII case.
    pub fn from_str(s: &str) -> (r: Result<BridgeClientPlatform, ParseEnumErr>)
        ensures
            r is Ok <==> parse_code(s@) is Some,
            r matches Ok(p) ==> parse_code(s@) == Some(p),
    {
        let n = s.unicode_len();
        if n == 2 {
            let a = s.get_char(0);
            let b = s.get_char(1);
            if (a == 'd' || a == 'D') && (b == 'c' || b == 'C') {
                return Ok(BridgeClientPlatform::Discord);
            }
            if (a == 'q' || a == 'Q') && (b == 'q' || b == 'Q') {
                return Ok(BridgeClientPlatform::QQ);
            }
            if (a == 't' || a == 'T') && (b == 'g' || b == 'G') {
                return Ok(BridgeClientPlatform::Telegram);
            }
        } else if n == 3 {
            let a = s.get_char(0);
            let b = s.get_char(1);
            let c = s.get_char(2);
            if (a == 'c' || a == 'C') && (b == 'm' || b == 'M') && (c == 'd' || c == 'D') {
                return Ok(BridgeClientPlatform::Cmd);
            }
        }
        Err(ParseEnumErr(String::from_str(s)))
    }
}

/// Parsing a platform's code gives the platform back.
pub proof fn lemma_code_round_trip(p: BridgeClientPlatform)
    ensures
        parse_code(p.spec_code()) == Some(p),
{
}

/// Distinct platforms have distinct bit values.
pub proof fn lemma_bits_distinct(p: BridgeClientPlatform, q: BridgeClientPlatform)
    ensures
        p != q ==> p.spec_bit() != q.spec_bit(),
        platform_of_bit(p.spec_bit()) == Some(p),
{
}

} // verus!
