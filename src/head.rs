use vstd::prelude::*;
use crate::decimal::{decimal_usize, parse_usize};

verus! {

/// Reads a count that must be a positive integer; anything else is refused
/// with the token itself.
pub fn parse_positive_int(val: &str) -> (r: Result<usize, String>)
    ensures
        match decimal_usize(val@) {
            Some(n) => if n > 0 {
                r == Ok::<usize, String>(n)
            } else {
                (r matches Err(e) && e@ == val@)
            },
            None => (r matches Err(e) && e@ == val@),
        },
{
    match parse_usize(val) {
        Some(n) => if n > 0 {
            Ok(n)
        } else {
            Err(val.to_owned())
        },
        None => Err(val.to_owned()),
    }
}

} // verus!
