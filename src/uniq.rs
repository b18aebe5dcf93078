use vstd::prelude::*;
use crate::text::{chars_of, lower_of, to_lowercase};

verus! {

/// What `str::trim_end` leaves of a string.
pub uninterp spec fn trim_end_of(s: Seq<char>) -> Seq<char>;

/// Relies on `str::trim_end`: the string without its trailing whitespace.
#[verifier::external_body]
fn trim_end(s: &str) -> (r: &str)
    ensures
        r@ == trim_end_of(s@),
{
    s.trim_end()
}

/// The first `n` characters of `s` (all of them when `n` is `None` or
/// larger than `s`).
pub open spec fn leading(s: Seq<char>, n: Option<usize>) -> Seq<char> {
    match n {
        Some(k) => if k < s.len() { s.take(k as int) } else { s },
        None => s,
    }
}

/// The part of a line that decides whether it repeats the one before.
pub open spec fn line_key(s: Seq<char>, ignore_case: bool, n: Option<usize>) -> Seq<char> {
    leading(if ignore_case { lower_of(trim_end_of(s)) } else { trim_end_of(s) }, n)
}

/// Whether the first `check_chars` characters of the two strings differ.
pub fn differs(current: &str, prev: &str, check_chars: &Option<usize>) -> (r: bool)
    ensures
        r == (leading(current@, *check_chars) != leading(prev@, *check_chars)),
{
    let a = chars_of(current);
    let b = chars_of(prev);
    let la = match check_chars {
        Some(k) => if *k < a.len() { *k } else { a.len() },
        None => a.len(),
    };
    let lb = match check_chars {
        Some(k) => if *k < b.len() { *k } else { b.len() },
        None => b.len(),
    };
    let ghost ka = leading(current@, *check_chars);
    let ghost kb = leading(prev@, *check_chars);
    assert(ka =~= a@.take(la as int));
    assert(kb =~= b@.take(lb as int));
    if la != lb {
        return true;
    }
    let mut i: usize = 0;
    while i < la
        invariant
            i <= la == lb,
            la <= a@.len(),
            lb <= b@.len(),
            ka =~= a@.take(la as int),
            kb =~= b@.take(lb as int),
            ka == leading(current@, *check_chars),
            kb == leading(prev@, *check_chars),
            forall|j: int| 0 <= j < i ==> a@[j] == b@[j],
        decreases la - i,
    {
        if a[i] != b[i] {
            assert(ka[i as int] != kb[i as int]);
            return true;
        }
        i = i + 1;
    }
    assert(ka =~= kb);
    false
}

/// Whether `current` starts a new group after `prev`: their keys differ,
/// after trailing whitespace is dropped, case is folded if asked, and
/// only the first `check_chars` characters are kept.
pub fn check(current: &str, prev: &str, ignore_case: &bool, check_chars: &Option<usize>) -> (r:
    bool)
    ensures
        r == (line_key(current@, *ignore_case, *check_chars) != line_key(
            prev@,
            *ignore_case,
            *check_chars,
        )),
{
    let c = trim_end(current);
    let p = trim_end(prev);
    if *ignore_case {
        let lc = to_lowercase(c);
        let lp = to_lowercase(p);
        differs(lc.as_str(), lp.as_str(), check_chars)
    } else {
        differs(c, p, check_chars)
    }
}

} // verus!
