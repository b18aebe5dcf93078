use vstd::prelude::*;
use crate::text::string_from_chars;

verus! {

/// The magnitude of the most negative `i64`.
pub const I64_MIN_MAGNITUDE: u64 = 9223372036854775808;

/// An ASCII decimal digit.
pub open spec fn is_digit(c: char) -> bool {
    '0' <= c && c <= '9'
}

/// Every character of `s` is a decimal digit.
pub open spec fn all_digits(s: Seq<char>) -> bool {
    forall|i: int| 0 <= i < s.len() ==> is_digit(#[trigger] s[i])
}

/// The value of a string of decimal digits, most significant first.
pub open spec fn digits_value(s: Seq<char>) -> int
    decreases s.len(),
{
    if s.len() == 0 {
        0
    } else {
        digits_value(s.drop_last()) * 10 + (s.last() as int - '0' as int)
    }
}

/// The signed decimal integer that `s` spells: an optional `+` or `-`, then
/// one or more digits, with a value that fits in an `i64`.
pub open spec fn decimal_i64(s: Seq<char>) -> Option<i64> {
    let signed = s.len() > 0 && (s[0] == '+' || s[0] == '-');
    let body = if signed { s.drop_first() } else { s };
    let v = if signed && s[0] == '-' { -digits_value(body) } else { digits_value(body) };
    if body.len() > 0 && all_digits(body) && i64::MIN <= v <= i64::MAX {
        Some(v as i64)
    } else {
        None
    }
}

pub(crate) proof fn lemma_digits_value_prefix(s: Seq<char>, j: int, k: int)
    requires
        0 <= j <= k <= s.len(),
        all_digits(s),
    ensures
        0 <= digits_value(s.subrange(0, j)) <= digits_value(s.subrange(0, k)),
    decreases k - j,
{
    if j < k {
        lemma_digits_value_prefix(s, j, k - 1);
        assert(s.subrange(0, k).drop_last() =~= s.subrange(0, k - 1));
        assert(is_digit(s[k - 1]));
    } else {
        lemma_digits_value_nonneg(s.subrange(0, j));
    }
}

pub(crate) proof fn lemma_digits_value_nonneg(s: Seq<char>)
    requires
        all_digits(s),
    ensures
        digits_value(s) >= 0,
    decreases s.len(),
{
    if s.len() > 0 {
        assert(all_digits(s.drop_last()));
        lemma_digits_value_nonneg(s.drop_last());
        assert(is_digit(s[s.len() - 1]));
    }
}

pub(crate) proof fn lemma_ascii_byte(c: char)
    requires
        c <= '\u{7f}',
    ensures
        (c as u8) as int == c as int,
{
    let x = c as u32;
    assert(x < 128);
    assert(x as u8 == x) by (bit_vector)
        requires
            x < 128,
    ;
}

pub(crate) proof fn lemma_decimal_is_ascii(s: Seq<char>)
    requires
        decimal_i64(s) is Some,
    ensures
        vstd::utf8::is_ascii_chars(s),
{
    let signed = s.len() > 0 && (s[0] == '+' || s[0] == '-');
    let body = if signed { s.drop_first() } else { s };
    assert forall|i: int| 0 <= i < s.len() implies '\0' <= #[trigger] s[i] <= '\u{7f}' by {
        if signed {
            if i > 0 {
                assert(is_digit(body[i - 1]));
            }
        } else {
            assert(is_digit(body[i]));
        }
    }
}

pub(crate) proof fn lemma_plus_zero_token()
    ensures
        decimal_i64(seq!['+', '0']) == Some(0i64),
{
    let s = seq!['+', '0'];
    let body = s.drop_first();
    assert(body =~= seq!['0']);
    assert(body.drop_last() =~= Seq::<char>::empty());
    assert(digits_value(body.drop_last()) == 0);
    assert(digits_value(body) == 0);
}

/// Reads a signed decimal integer that fits in an `i64`.
pub fn parse_i64(input: &str) -> (r: Option<i64>)
    ensures
        r == decimal_i64(input@),
{
    if !input.is_ascii() {
        proof {
            let s = input@;
            let i = choose|i: int| 0 <= i < s.len() && !('\0' <= s[i] && s[i] <= '\u{7f}');
            if s.len() > 0 && (s[0] == '+' || s[0] == '-') {
                assert(!is_digit(s.drop_first()[i - 1]));
            } else {
                assert(!is_digit(s[i]));
            }
        }
        return None;
    }
    let b = input.as_bytes();
    proof {
        vstd::string::is_ascii_spec_bytes(input);
    }
    let ghost s = input@;
    let len = b.len();
    assert(len == s.len());
    proof {
        if len > 0 {
            lemma_ascii_byte(s[0]);
        }
    }
    let signed = len > 0 && (b[0] == 43u8 || b[0] == 45u8);
    let negative = len > 0 && b[0] == 45u8;
    let first: usize = if signed { 1 } else { 0 };
    let ghost body = if signed { s.drop_first() } else { s };
    assert(signed == (s.len() > 0 && (s[0] == '+' || s[0] == '-')));
    assert(negative == (s.len() > 0 && s[0] == '-'));
    if first == len {
        return None;
    }
    let mut acc: u64 = 0;
    let mut i: usize = first;
    while i < len
        invariant
            first <= i <= len,
            len == b@.len() == s.len(),
            forall|k: int| 0 <= k < len ==> b@[k] == #[trigger] s[k] as u8,
            forall|k: int| 0 <= k < len ==> #[trigger] s[k] <= '\u{7f}',
            s == input@,
            signed == (s.len() > 0 && (s[0] == '+' || s[0] == '-')),
            negative == (s.len() > 0 && s[0] == '-'),
            first == (if signed { 1usize } else { 0usize }),
            body == (if signed { s.drop_first() } else { s }),
            body =~= s.subrange(first as int, len as int),
            all_digits(body.subrange(0, i - first)),
            acc == digits_value(body.subrange(0, i - first)),
            acc <= I64_MIN_MAGNITUDE,
        decreases len - i,
    {
        let c = b[i];
        proof {
            lemma_ascii_byte(s[i as int]);
        }
        assert(body[i - first] == s[i as int]);
        if c < 48u8 || c > 57u8 {
            assert(!is_digit(body[i - first]));
            assert(!all_digits(body));
            return None;
        }
        assert(is_digit(body[i - first]));
        let d: u64 = (c - 48u8) as u64;
        // Past a tenth of the bound, one more digit leaves the range.
        if acc > 922337203685477580 {
            proof {
                if all_digits(body) {
                    lemma_digits_value_prefix(body, i - first + 1, body.len() as int);
                    assert(body.subrange(0, body.len() as int) =~= body);
                    assert(body.subrange(0, i - first + 1).drop_last() =~= body.subrange(0, i - first));
                    assert(digits_value(body.subrange(0, i - first + 1)) == acc * 10 + d);
                    assert((acc as int) * 10 + (d as int) > I64_MIN_MAGNITUDE) by (nonlinear_arith)
                        requires
                            acc > 922337203685477580,
                            d >= 0,
                    ;
                }
            }
            return None;
        }
        assert(body.subrange(0, i - first + 1).drop_last() =~= body.subrange(0, i - first));
        assert(digits_value(body.subrange(0, i - first + 1)) == acc * 10 + d);
        acc = acc * 10 + d;
        if acc > I64_MIN_MAGNITUDE {
            proof {
                if all_digits(body) {
                    lemma_digits_value_prefix(body, i - first + 1, body.len() as int);
                    assert(body.subrange(0, body.len() as int) =~= body);
                }
            }
            return None;
        }
        i = i + 1;
    }
    assert(body.subrange(0, len - first) =~= body);
    if negative {
        if acc == I64_MIN_MAGNITUDE {
            Some(i64::MIN)
        } else {
            Some(-(acc as i64))
        }
    } else if acc == I64_MIN_MAGNITUDE {
        None
    } else {
        Some(acc as i64)
    }
}

/// The unsigned decimal integer that `s` spells: an optional `+`, then one
/// or more digits, with a value of at most `limit`.
pub open spec fn decimal_upto(s: Seq<char>, limit: usize) -> Option<usize> {
    let body = if s.len() > 0 && s[0] == '+' { s.drop_first() } else { s };
    if body.len() > 0 && all_digits(body) && digits_value(body) <= limit {
        Some(digits_value(body) as usize)
    } else {
        None
    }
}

/// The unsigned decimal integer that `s` spells, if it fits in a `usize`.
pub open spec fn decimal_usize(s: Seq<char>) -> Option<usize> {
    decimal_upto(s, usize::MAX)
}

/// Reads an unsigned decimal integer that fits in a `usize`.
pub fn parse_usize(input: &str) -> (r: Option<usize>)
    ensures
        r == decimal_usize(input@),
{
    parse_upto(input, usize::MAX)
}

/// Reads an unsigned decimal integer of at most `limit`.
pub fn parse_upto(input: &str, limit: usize) -> (r: Option<usize>)
    ensures
        r == decimal_upto(input@, limit),
{
    if !input.is_ascii() {
        proof {
            let s = input@;
            let i = choose|i: int| 0 <= i < s.len() && !('\0' <= s[i] && s[i] <= '\u{7f}');
            if s.len() > 0 && s[0] == '+' {
                assert(!is_digit(s.drop_first()[i - 1]));
            } else {
                assert(!is_digit(s[i]));
            }
        }
        return None;
    }
    let b = input.as_bytes();
    proof {
        vstd::string::is_ascii_spec_bytes(input);
    }
    let ghost s = input@;
    let len = b.len();
    assert(len == s.len());
    proof {
        if len > 0 {
            lemma_ascii_byte(s[0]);
        }
    }
    let plus = len > 0 && b[0] == 43u8;
    let first: usize = if plus { 1 } else { 0 };
    let ghost body = if plus { s.drop_first() } else { s };
    assert(plus == (s.len() > 0 && s[0] == '+'));
    if first == len {
        return None;
    }
    let mut acc: usize = 0;
    let mut i: usize = first;
    while i < len
        invariant
            first <= i <= len,
            len == b@.len() == s.len(),
            forall|k: int| 0 <= k < len ==> b@[k] == #[trigger] s[k] as u8,
            forall|k: int| 0 <= k < len ==> #[trigger] s[k] <= '\u{7f}',
            s == input@,
            plus == (s.len() > 0 && s[0] == '+'),
            first == (if plus { 1usize } else { 0usize }),
            body == (if plus { s.drop_first() } else { s }),
            body =~= s.subrange(first as int, len as int),
            all_digits(body.subrange(0, i - first)),
            acc == digits_value(body.subrange(0, i - first)),
            acc <= limit,
        decreases len - i,
    {
        let c = b[i];
        proof {
            lemma_ascii_byte(s[i as int]);
        }
        assert(body[i - first] == s[i as int]);
        if c < 48u8 || c > 57u8 {
            assert(!is_digit(body[i - first]));
            assert(!all_digits(body));
            return None;
        }
        assert(is_digit(body[i - first]));
        let d: usize = (c - 48u8) as usize;
        assert(body.subrange(0, i - first + 1).drop_last() =~= body.subrange(0, i - first));
        assert(digits_value(body.subrange(0, i - first + 1)) == acc * 10 + d);
        if d > limit || acc > (limit - d) / 10 {
            proof {
                assert((acc as int) * 10 + (d as int) > limit) by (nonlinear_arith)
                    requires
                        d > limit || acc > (limit - d) / 10,
                        d <= 9,
                ;
                if all_digits(body) {
                    lemma_digits_value_prefix(body, i - first + 1, body.len() as int);
                    assert(body.subrange(0, body.len() as int) =~= body);
                }
            }
            return None;
        }
        assert((acc as int) * 10 + (d as int) <= limit) by (nonlinear_arith)
            requires
                d <= limit,
                acc <= (limit - d) / 10,
                d <= 9,
        ;
        acc = acc * 10 + d;
        i = i + 1;
    }
    assert(body.subrange(0, len - first) =~= body);
    Some(acc)
}

/// The digit that stands for `d`, for `d` below ten.
pub open spec fn digit_char(d: int) -> char {
    if d == 0 {
        '0'
    } else if d == 1 {
        '1'
    } else if d == 2 {
        '2'
    } else if d == 3 {
        '3'
    } else if d == 4 {
        '4'
    } else if d == 5 {
        '5'
    } else if d == 6 {
        '6'
    } else if d == 7 {
        '7'
    } else if d == 8 {
        '8'
    } else {
        '9'
    }
}

/// `n` written in decimal, without leading zeros.
pub open spec fn decimal_chars(n: nat) -> Seq<char>
    decreases n,
{
    if n < 10 {
        seq![digit_char(n as int)]
    } else {
        decimal_chars(n / 10).push(digit_char((n % 10) as int))
    }
}

fn digit(d: usize) -> (c: char)
    requires
        d < 10,
    ensures
        c == digit_char(d as int),
{
    match d {
        0 => '0',
        1 => '1',
        2 => '2',
        3 => '3',
        4 => '4',
        5 => '5',
        6 => '6',
        7 => '7',
        8 => '8',
        _ => '9',
    }
}

/// `n` written in decimal.
pub fn decimal_string(n: usize) -> (r: String)
    ensures
        r@ == decimal_chars(n as nat),
    decreases n,
{
    if n < 10 {
        string_from_chars(vec![digit(n)].as_slice())
    } else {
        let mut t = decimal_string(n / 10);
        let last = string_from_chars(vec![digit(n % 10)].as_slice());
        t.append(last.as_str());
        t
    }
}

} // verus!
