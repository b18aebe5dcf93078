use vstd::prelude::*;
use core::ops::Range;
use crate::decimal::{decimal_chars, decimal_string, decimal_usize, parse_usize};
use crate::split::{split_at_char, split_chars, views};
use crate::text::{chars_of, decode_lossy, lossy_utf8, string_from_chars};

verus! {

/// The part of `s` that a position range covers, cut short at the end of `s`.
pub open spec fn clip<A>(s: Seq<A>, r: Range<usize>) -> Seq<A> {
    let lo = if r.start < s.len() { r.start as int } else { s.len() as int };
    let hi = if r.end < s.len() { r.end as int } else { s.len() as int };
    s.subrange(lo, hi)
}

/// The parts of `s` that the ranges cover, one after the other, in the order
/// of the ranges.
pub open spec fn select<A>(s: Seq<A>, ranges: Seq<Range<usize>>) -> Seq<A>
    decreases ranges.len(),
{
    if ranges.len() == 0 {
        Seq::empty()
    } else {
        select(s, ranges.drop_last()) + clip(s, ranges.last())
    }
}

/// Each range's bytes of `b`, decoded on its own, one after the other.
pub open spec fn select_decoded(b: Seq<u8>, ranges: Seq<Range<usize>>) -> Seq<char>
    decreases ranges.len(),
{
    if ranges.len() == 0 {
        Seq::empty()
    } else {
        select_decoded(b, ranges.drop_last()) + lossy_utf8(clip(b, ranges.last()))
    }
}

/// Every range starts no later than it ends.
pub open spec fn ordered(ranges: Seq<Range<usize>>) -> bool {
    forall|i: int| 0 <= i < ranges.len() ==> (#[trigger] ranges[i]).start <= ranges[i].end
}

fn clip_bounds(len: usize, r: &Range<usize>) -> (b: (usize, usize))
    requires
        r.start <= r.end,
    ensures
        b.0 <= b.1 <= len,
        b.0 == if r.start < len { r.start } else { len },
        b.1 == if r.end < len { r.end } else { len },
{
    let lo = if r.start < len { r.start } else { len };
    let hi = if r.end < len { r.end } else { len };
    (lo, hi)
}

/// The characters of `line` at the given zero-based positions, range after
/// range; positions past the end select nothing.
pub fn extract_chars(line: &str, char_pos: &[Range<usize>]) -> (r: String)
    requires
        ordered(char_pos@),
    ensures
        r@ == select(line@, char_pos@),
{
    let chars = chars_of(line);
    let mut out: Vec<char> = Vec::new();
    let mut i: usize = 0;
    while i < char_pos.len()
        invariant
            i <= char_pos@.len(),
            ordered(char_pos@),
            chars@ == line@,
            out@ == select(line@, char_pos@.subrange(0, i as int)),
        decreases char_pos@.len() - i,
    {
        let r = &char_pos[i];
        assert(char_pos@[i as int].start <= char_pos@[i as int].end);
        let (lo, hi) = clip_bounds(chars.len(), r);
        let ghost before = out@;
        let mut j: usize = lo;
        while j < hi
            invariant
                lo <= j <= hi <= chars@.len(),
                out@ == before + chars@.subrange(lo as int, j as int),
            decreases hi - j,
        {
            out.push(chars[j]);
            assert(chars@.subrange(lo as int, j + 1) =~= chars@.subrange(lo as int, j as int).push(
                chars@[j as int],
            ));
            j = j + 1;
        }
        assert(char_pos@.subrange(0, i + 1).drop_last() =~= char_pos@.subrange(0, i as int));
        i = i + 1;
    }
    assert(char_pos@.subrange(0, char_pos@.len() as int) =~= char_pos@);
    string_from_chars(out.as_slice())
}

/// The bytes of `line` at the given zero-based positions, each range decoded
/// on its own (a broken character becomes U+FFFD), range after range.
pub fn extract_bytes(line: &str, byte_pos: &[Range<usize>]) -> (r: String)
    requires
        ordered(byte_pos@),
    ensures
        r@ == select_decoded(vstd::utf8::encode_utf8(line@), byte_pos@),
{
    let bytes = line.as_bytes();
    let mut out = String::new();
    let mut i: usize = 0;
    while i < byte_pos.len()
        invariant
            i <= byte_pos@.len(),
            ordered(byte_pos@),
            bytes@ == vstd::utf8::encode_utf8(line@),
            out@ == select_decoded(bytes@, byte_pos@.subrange(0, i as int)),
        decreases byte_pos@.len() - i,
    {
        let r = &byte_pos[i];
        assert(byte_pos@[i as int].start <= byte_pos@[i as int].end);
        let (lo, hi) = clip_bounds(bytes.len(), r);
        let piece = decode_lossy(&bytes[lo..hi]);
        out.append(piece.as_str());
        assert(byte_pos@.subrange(0, i + 1).drop_last() =~= byte_pos@.subrange(0, i as int));
        i = i + 1;
    }
    assert(byte_pos@.subrange(0, byte_pos@.len() as int) =~= byte_pos@);
    out
}

/// What `char::is_alphabetic` says of a character.
pub uninterp spec fn alphabetic(c: char) -> bool;

/// Relies on `char::is_alphabetic`: whether the character has the Unicode
/// Alphabetic property.
#[verifier::external_body]
fn is_alphabetic(c: char) -> (r: bool)
    ensures
        r == alphabetic(c),
{
    c.is_alphabetic()
}

/// The message for a list item that is not a position.
pub open spec fn illegal_value(t: Seq<char>) -> Seq<char> {
    "illegal list value: \""@ + t + "\""@
}

/// The message for a range whose first number is not below its second.
pub open spec fn order_message(a: nat, b: nat) -> Seq<char> {
    "First number in range ("@ + decimal_chars(a) + ") must be lower than second number ("@
        + decimal_chars(b) + ")"@
}

/// A position counted from 1: a decimal integer above zero.
pub open spec fn positive_value(t: Seq<char>) -> Option<usize> {
    match decimal_usize(t) {
        Some(n) => if n > 0 {
            Some(n)
        } else {
            None
        },
        None => None,
    }
}

/// A character that no list item may hold.
pub open spec fn refused_char(c: char) -> bool {
    c == '+' || alphabetic(c)
}

/// One item of a position list: `n` selects position `n`, `a-b` positions
/// `a` through `b` (with `a` below `b`); the result counts from zero and
/// excludes its end.
pub open spec fn range_of(p: Seq<char>) -> Result<Range<usize>, Seq<char>> {
    if exists|i: int| 0 <= i < p.len() && refused_char(#[trigger] p[i]) {
        Err(illegal_value(p))
    } else {
        let parts = split_at_char(p, '-');
        if parts.len() == 1 {
            match positive_value(parts[0]) {
                None => Err(illegal_value(parts[0])),
                Some(n) => Ok(Range { start: (n - 1) as usize, end: n }),
            }
        } else if parts.len() == 2 {
            match positive_value(parts[0]) {
                None => Err(illegal_value(parts[0])),
                Some(a) => match positive_value(parts[1]) {
                    None => Err(illegal_value(parts[1])),
                    Some(b) => if b <= a {
                        Err(order_message(a as nat, b as nat))
                    } else {
                        Ok(Range { start: (a - 1) as usize, end: b })
                    },
                },
            }
        } else {
            Err("illegal list values"@)
        }
    }
}

/// The ranges of the items, in order, or the message of the first item that
/// is refused.
pub open spec fn ranges_of(items: Seq<Seq<char>>) -> Result<Seq<Range<usize>>, Seq<char>>
    decreases items.len(),
{
    if items.len() == 0 {
        Ok(Seq::empty())
    } else {
        match ranges_of(items.drop_last()) {
            Err(m) => Err(m),
            Ok(rs) => match range_of(items.last()) {
                Err(m) => Err(m),
                Ok(r) => Ok(rs.push(r)),
            },
        }
    }
}

fn illegal(t: &Vec<char>) -> (r: String)
    ensures
        r@ == illegal_value(t@),
{
    let mut m = String::from_str("illegal list value: \"");
    let body = string_from_chars(t.as_slice());
    m.append(body.as_str());
    m.append("\"");
    m
}

fn positive(t: &Vec<char>) -> (r: Option<usize>)
    ensures
        r == positive_value(t@),
{
    let text = string_from_chars(t.as_slice());
    match parse_usize(text.as_str()) {
        Some(n) => if n > 0 {
            Some(n)
        } else {
            None
        },
        None => None,
    }
}

fn parse_range(p: &Vec<char>) -> (r: Result<Range<usize>, String>)
    ensures
        match range_of(p@) {
            Ok(x) => r == Ok::<Range<usize>, String>(x),
            Err(m) => (r matches Err(e) && e@ == m),
        },
{
    let mut j: usize = 0;
    while j < p.len()
        invariant
            j <= p@.len(),
            forall|k: int| 0 <= k < j ==> !refused_char(#[trigger] p@[k]),
        decreases p@.len() - j,
    {
        if p[j] == '+' || is_alphabetic(p[j]) {
            assert(refused_char(p@[j as int]));
            return Err(illegal(p));
        }
        j = j + 1;
    }
    let parts = split_chars(p, '-');
    assert(views(parts@).len() == parts@.len());
    if parts.len() == 1 {
        assert(views(parts@)[0] == parts@[0]@);
        match positive(&parts[0]) {
            None => Err(illegal(&parts[0])),
            Some(n) => Ok(Range { start: n - 1, end: n }),
        }
    } else if parts.len() == 2 {
        assert(views(parts@)[0] == parts@[0]@);
        assert(views(parts@)[1] == parts@[1]@);
        match positive(&parts[0]) {
            None => Err(illegal(&parts[0])),
            Some(a) => match positive(&parts[1]) {
                None => Err(illegal(&parts[1])),
                Some(b) => if b <= a {
                    let mut m = String::from_str("First number in range (");
                    let sa = decimal_string(a);
                    m.append(sa.as_str());
                    m.append(") must be lower than second number (");
                    let sb = decimal_string(b);
                    m.append(sb.as_str());
                    m.append(")");
                    assert(m@ =~= order_message(a as nat, b as nat));
                    Err(m)
                } else {
                    Ok(Range { start: a - 1, end: b })
                },
            },
        }
    } else {
        Err(String::from_str("illegal list values"))
    }
}

/// Reads a list of positions such as `1,3-5`: items separated by commas,
/// each a position or a range of positions counted from 1. The result
/// counts from zero; the first refused item decides the error message.
pub fn parse_pos(range: &str) -> (r: Result<Vec<Range<usize>>, String>)
    ensures
        match ranges_of(split_at_char(range@, ',')) {
            Ok(rs) => (r matches Ok(v) && v@ == rs),
            Err(m) => (r matches Err(e) && e@ == m),
        },
{
    let chars = chars_of(range);
    let items = split_chars(&chars, ',');
    let ghost all = views(items@);
    let mut result: Vec<Range<usize>> = Vec::new();
    let mut i: usize = 0;
    while i < items.len()
        invariant
            i <= items@.len(),
            all == views(items@),
            all == split_at_char(range@, ','),
            ranges_of(all.take(i as int)) == Ok::<Seq<Range<usize>>, Seq<char>>(result@),
        decreases items@.len() - i,
    {
        assert(all.take(i + 1).drop_last() =~= all.take(i as int));
        assert(all[i as int] == items@[i as int]@);
        match parse_range(&items[i]) {
            Ok(x) => {
                result.push(x);
            },
            Err(e) => {
                proof {
                    lemma_ranges_of_error(all, i as int + 1);
                }
                return Err(e);
            },
        }
        i = i + 1;
    }
    assert(all.take(all.len() as int) =~= all);
    Ok(result)
}

proof fn lemma_ranges_of_error(items: Seq<Seq<char>>, k: int)
    requires
        0 < k <= items.len(),
        ranges_of(items.take(k)) is Err,
    ensures
        ranges_of(items) == ranges_of(items.take(k)),
    decreases items.len() - k,
{
    if k < items.len() {
        assert(items.take(k + 1).drop_last() =~= items.take(k));
        lemma_ranges_of_error(items, k + 1);
    } else {
        assert(items.take(k) =~= items);
    }
}

} // verus!
