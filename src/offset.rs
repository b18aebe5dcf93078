use vstd::prelude::*;
use crate::decimal::{
    decimal_i64, lemma_ascii_byte, lemma_decimal_is_ascii, lemma_plus_zero_token, parse_i64,
};

verus! {

/// Where output starts: the `+0` sentinel, or a signed count of units.
/// A positive count `k` starts at the `k`-th unit (counting from 1); a
/// negative count `-k` keeps the last `k` units.
#[derive(Debug, Clone, Copy, PartialEq, Eq, Structural)]
pub enum TakeValue {
    PlusZero,
    TakeNum(i64),
}

/// The offset that a token denotes: `+0` is the sentinel; a leading `+`
/// keeps the sign; an unsigned count `n` means the last `n` units; an
/// explicit negative count stays as it is.
pub open spec fn offset_of(s: Seq<char>) -> Option<TakeValue> {
    if s =~= seq!['+', '0'] {
        Some(TakeValue::PlusZero)
    } else {
        match decimal_i64(s) {
            None => None,
            Some(n) => if s[0] == '+' || n < 0 {
                Some(TakeValue::TakeNum(n))
            } else {
                Some(TakeValue::TakeNum((-n) as i64))
            },
        }
    }
}

/// A malformed setting, reported before any source is read.
#[derive(Debug, PartialEq, Eq)]
pub enum ConfigError {
    /// The offset token is not an integer; it is carried verbatim.
    InvalidOffset(String),
    /// Both a line count and a byte count were given.
    ConflictingUnits,
}

impl ConfigError {
    /// The diagnostic text: the offending token itself, or a note on the
    /// conflicting units.
    pub fn to_string(&self) -> (r: String)
        ensures
            self matches ConfigError::InvalidOffset(t) ==> r@ == t@,
    {
        match self {
            ConfigError::InvalidOffset(t) => t.clone(),
            ConfigError::ConflictingUnits => String::from_str(
                "the line count and the byte count cannot be used together",
            ),
        }
    }
}

/// Reads an offset token: `+0` is the sentinel, `+k` starts at the `k`-th
/// unit, `k` and `-k` keep the last `k` units. Anything that is not a signed
/// 64-bit integer is refused with the token itself.
pub fn parse_num(input: &str) -> (r: Result<TakeValue, ConfigError>)
    ensures
        match r {
            Ok(v) => offset_of(input@) == Some(v),
            Err(e) => offset_of(input@) is None && (e matches ConfigError::InvalidOffset(t)
                && t@ == input@),
        },
{
    match parse_i64(input) {
        None => {
            proof {
                lemma_plus_zero_token();
            }
            assert(!(input@ =~= seq!['+', '0']));
            Err(ConfigError::InvalidOffset(input.to_owned()))
        },
        Some(n) => {
            let b = input.as_bytes();
            let ghost s = input@;
            proof {
                lemma_decimal_is_ascii(s);
                lemma_plus_zero_token();
                vstd::string::is_ascii_spec_bytes(input);
                assert(vstd::string::is_ascii(input));
                assert(b@.len() == s.len());
                lemma_ascii_byte(s[0]);
                if s.len() > 1 {
                    lemma_ascii_byte(s[1]);
                }
            }
            let plus = b[0] == 43u8;
            assert(plus == (s[0] == '+'));
            if plus && n == 0 && b.len() == 2 && b[1] == 48u8 {
                assert(s =~= seq!['+', '0']);
                Ok(TakeValue::PlusZero)
            } else if plus || n < 0 {
                Ok(TakeValue::TakeNum(n))
            } else {
                Ok(TakeValue::TakeNum(-n))
            }
        },
    }
}

} // verus!
