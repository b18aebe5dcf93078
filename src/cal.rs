use vstd::prelude::*;
use crate::decimal::{decimal_chars, decimal_string, decimal_upto, parse_upto};
use crate::text::{chars_of, lower_of, to_lowercase};

verus! {

/// The English name of month `i`, counting January as zero.
pub open spec fn month_name(i: int) -> Seq<char> {
    if i == 0 {
        "January"@
    } else if i == 1 {
        "February"@
    } else if i == 2 {
        "March"@
    } else if i == 3 {
        "April"@
    } else if i == 4 {
        "May"@
    } else if i == 5 {
        "June"@
    } else if i == 6 {
        "July"@
    } else if i == 7 {
        "August"@
    } else if i == 8 {
        "September"@
    } else if i == 9 {
        "October"@
    } else if i == 10 {
        "November"@
    } else {
        "December"@
    }
}

/// `s` begins with `p`.
pub open spec fn is_prefix(p: Seq<char>, s: Seq<char>) -> bool {
    p.len() <= s.len() && s.take(p.len() as int) == p
}

/// Whether `m` abbreviates the name of month `i`, ignoring case.
pub open spec fn abbreviates(m: Seq<char>, i: int) -> bool {
    is_prefix(lower_of(m), lower_of(month_name(i)))
}

/// The months among the first `k` whose names `m` abbreviates.
pub open spec fn months_abbreviated(m: Seq<char>, k: int) -> Seq<int>
    decreases k,
{
    if k <= 0 {
        Seq::empty()
    } else if abbreviates(m, k - 1) {
        months_abbreviated(m, k - 1).push(k - 1)
    } else {
        months_abbreviated(m, k - 1)
    }
}

/// The message for a month number outside 1 through 12.
pub open spec fn out_of_range_message(n: nat) -> Seq<char> {
    "month \""@ + decimal_chars(n) + "\" not in the range 1 through 12"@
}

/// The message for a month that is neither a number nor one name.
pub open spec fn invalid_month_message(m: Seq<char>) -> Seq<char> {
    "Invalid month \""@ + m + "\""@
}

/// A month given as a number from 1 to 12, or as a name or an abbreviation
/// of exactly one name, in any case.
pub open spec fn month_of(m: Seq<char>) -> Result<u32, Seq<char>> {
    match decimal_upto(m, u32::MAX as usize) {
        Some(n) => if 1 <= n <= 12 {
            Ok(n as u32)
        } else {
            Err(out_of_range_message(n as nat))
        },
        None => {
            let found = months_abbreviated(m, 12);
            if found.len() == 1 {
                Ok((found[0] + 1) as u32)
            } else {
                Err(invalid_month_message(m))
            }
        },
    }
}

fn name_of_month(i: usize) -> (r: &'static str)
    requires
        i < 12,
    ensures
        r@ == month_name(i as int),
{
    match i {
        0 => "January",
        1 => "February",
        2 => "March",
        3 => "April",
        4 => "May",
        5 => "June",
        6 => "July",
        7 => "August",
        8 => "September",
        9 => "October",
        10 => "November",
        _ => "December",
    }
}

/// Whether `p` is a prefix of `s`.
pub fn starts_with(s: &Vec<char>, p: &Vec<char>) -> (r: bool)
    ensures
        r == is_prefix(p@, s@),
{
    if p.len() > s.len() {
        return false;
    }
    let mut i: usize = 0;
    while i < p.len()
        invariant
            i <= p@.len() <= s@.len(),
            forall|k: int| 0 <= k < i ==> s@[k] == p@[k],
        decreases p@.len() - i,
    {
        if s[i] != p[i] {
            assert(s@.take(p@.len() as int)[i as int] != p@[i as int]);
            return false;
        }
        i = i + 1;
    }
    assert(s@.take(p@.len() as int) =~= p@);
    true
}

/// Reads a month: a number from 1 to 12, or a name or the abbreviation of
/// exactly one name, in any case.
pub fn parse_month(month: &str) -> (r: Result<u32, String>)
    ensures
        match month_of(month@) {
            Ok(n) => r == Ok::<u32, String>(n),
            Err(m) => (r matches Err(e) && e@ == m),
        },
{
    match parse_upto(month, u32::MAX as usize) {
        Some(n) => {
            if 1 <= n && n <= 12 {
                Ok(n as u32)
            } else {
                let mut e = String::from_str("month \"");
                let digits = decimal_string(n);
                e.append(digits.as_str());
                e.append("\" not in the range 1 through 12");
                Err(e)
            }
        },
        None => {
            let lowered = to_lowercase(month);
            let wanted = chars_of(lowered.as_str());
            let mut count: usize = 0;
            let mut found: usize = 0;
            let mut i: usize = 0;
            while i < 12
                invariant
                    i <= 12,
                    wanted@ == lower_of(month@),
                    count == months_abbreviated(month@, i as int).len(),
                    count > 0 ==> found == months_abbreviated(month@, i as int).last(),
                    count <= i,
                    found < 12,
                decreases 12 - i,
            {
                let name = to_lowercase(name_of_month(i));
                let name_chars = chars_of(name.as_str());
                if starts_with(&name_chars, &wanted) {
                    count = count + 1;
                    found = i;
                }
                i = i + 1;
            }
            if count == 1 {
                assert(months_abbreviated(month@, 12).len() == 1);
                Ok((found + 1) as u32)
            } else {
                let mut e = String::from_str("Invalid month \"");
                e.append(month);
                e.append("\"");
                Err(e)
            }
        },
    }
}

} // verus!
