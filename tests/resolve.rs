use tailr::get_start_index;
use tailr::TakeValue::{PlusZero, TakeNum};

#[test]
fn test_get_start_index() {
    // +0 from an empty file (0 lines/bytes) returns None
    assert_eq!(get_start_index(&PlusZero, 0), None);
    // +0 from a nonempty file returns an index that
    // is one less than the number of lines/bytes
    assert_eq!(get_start_index(&PlusZero, 1), Some(0));
    // Taking 0 lines/bytes returns None
    assert_eq!(get_start_index(&TakeNum(0), 1), None);
    // Taking any lines/bytes from an empty file returns None
    assert_eq!(get_start_index(&TakeNum(1), 0), None);
    // Taking more lines/bytes than is available returns None
    assert_eq!(get_start_index(&TakeNum(2), 1), None);
    // When starting line/byte is less than total lines/bytes,
    // return one less than starting numbe
    assert_eq!(get_start_index(&TakeNum(1), 10), Some(0));
    assert_eq!(get_start_index(&TakeNum(2), 10), Some(1));
    assert_eq!(get_start_index(&TakeNum(3), 10), Some(2));
    // When starting line/byte is negative and less than total,
    // return total - start
    assert_eq!(get_start_index(&TakeNum(-1), 10), Some(9));
    assert_eq!(get_start_index(&TakeNum(-2), 10), Some(8));
    assert_eq!(get_start_index(&TakeNum(-3), 10), Some(7));

    // When starting line/byte is negative and more than total,
    // return 0 to print the whole file
    assert_eq!(get_start_index(&TakeNum(-20), 10), Some(0));
}

#[test]
fn plus_zero_starts_at_first_unit_of_nonempty_source() {
    assert_eq!(get_start_index(&PlusZero, 0), None);
    assert_eq!(get_start_index(&PlusZero, 7), Some(0));
    assert_eq!(get_start_index(&PlusZero, i64::MAX), Some(0));
}

#[test]
fn taking_zero_units_yields_nothing() {
    assert_eq!(get_start_index(&TakeNum(0), 0), None);
    assert_eq!(get_start_index(&TakeNum(0), 5), None);
    assert_eq!(get_start_index(&TakeNum(0), i64::MAX), None);
}

#[test]
fn positive_offset_on_empty_source_yields_nothing() {
    assert_eq!(get_start_index(&TakeNum(1), 0), None);
    assert_eq!(get_start_index(&TakeNum(2), 0), None);
    assert_eq!(get_start_index(&TakeNum(-2), 0), None);
}

#[test]
fn positive_offset_past_the_end_yields_nothing() {
    assert_eq!(get_start_index(&TakeNum(2), 1), None);
    assert_eq!(get_start_index(&TakeNum(i64::MAX), 10), None);
}

#[test]
fn positive_offset_in_range_starts_one_before() {
    for total in 1..6i64 {
        for k in 1..=total {
            assert_eq!(get_start_index(&TakeNum(k), total), Some((k - 1) as u64));
        }
    }
    assert_eq!(get_start_index(&TakeNum(10), 10), Some(9));
}

#[test]
fn negative_offset_in_range_keeps_last_units() {
    for total in 1..6i64 {
        for k in 1..=total {
            assert_eq!(get_start_index(&TakeNum(-k), total), Some((total - k) as u64));
        }
    }
    assert_eq!(get_start_index(&TakeNum(-10), 10), Some(0));
}

#[test]
fn negative_offset_beyond_total_clamps_to_start() {
    assert_eq!(get_start_index(&TakeNum(-20), 10), Some(0));
    assert_eq!(get_start_index(&TakeNum(i64::MIN), 3), Some(0));
}
