use vstd::prelude::*;
use crate::offset::TakeValue;

verus! {

/// The zero-based position at which emission begins, or `None` when nothing
/// is emitted, for `offset` applied to a source of `total` units.
pub open spec fn start_index(offset: TakeValue, total: int) -> Option<int> {
    match offset {
        TakeValue::PlusZero => if total > 0 { Some(0) } else { None },
        TakeValue::TakeNum(n) => {
            if n == 0 || total == 0 || n > total {
                None
            } else if n < 0 {
                if -n > total { Some(0) } else { Some(total + n) }
            } else {
                Some(n - 1)
            }
        },
    }
}

/// Resolves `take_val` against a source of `total` units.
pub fn get_start_index(take_val: &TakeValue, total: i64) -> (r: Option<u64>)
    requires
        total >= 0,
    ensures
        match r {
            Some(s) => start_index(*take_val, total as int) == Some(s as int),
            None => start_index(*take_val, total as int) is None,
        },
{
    match take_val {
        TakeValue::PlusZero => {
            if total > 0 {
                Some(0)
            } else {
                None
            }
        },
        TakeValue::TakeNum(num) => {
            let num = *num;
            if num == 0 || total == 0 || num > total {
                None
            } else {
                let start: i64 = if num < 0 { total + num } else { num - 1 };
                Some(if start < 0 { 0 } else { start as u64 })
            }
        },
    }
}

/// `+0` yields the first unit exactly when the source is nonempty.
pub proof fn lemma_plus_zero(total: int)
    requires
        total >= 0,
    ensures
        (start_index(TakeValue::PlusZero, total) is None) <==> total == 0,
        total > 0 ==> start_index(TakeValue::PlusZero, total) == Some(0int),
{
}

/// Asking for zero units yields nothing, whatever the size of the source.
pub proof fn lemma_take_zero(total: int)
    ensures
        start_index(TakeValue::TakeNum(0), total) is None,
{
}

/// A positive offset `k` within the source starts at position `k - 1`.
pub proof fn lemma_positive_in_range(k: i64, total: int)
    requires
        1 <= k <= total,
    ensures
        start_index(TakeValue::TakeNum(k), total) == Some(k - 1),
{
}

/// A negative offset `-k` within the source keeps exactly the last `k` units.
pub proof fn lemma_negative_in_range(k: i64, total: int)
    requires
        1 <= k <= total,
    ensures
        start_index(TakeValue::TakeNum((-k) as i64), total) == Some(total - k),
{
}

} // verus!
