use tailr::extent::{count_lines_bytes, ExtentCounter};

#[test]
fn test_count_lines_bytes() {
    let one = b"Each line is 24 bytes.\r\n";
    assert_eq!(count_lines_bytes(one), (1, 24));
    let ten = b"One\nTwo\nThree\nFour\nFive\nSix\nSeven\nEight\nNine\nTen\n";
    assert_eq!(count_lines_bytes(ten), (10, 49));
}

#[test]
fn empty_source_has_no_extent() {
    assert_eq!(count_lines_bytes(b""), (0, 0));
    assert_eq!(ExtentCounter::new().extent(), (0, 0));
}

#[test]
fn unterminated_last_line_counts() {
    assert_eq!(count_lines_bytes(b"hello"), (1, 5));
    assert_eq!(count_lines_bytes(b"a\nb"), (2, 3));
    assert_eq!(count_lines_bytes(b"\n"), (1, 1));
    assert_eq!(count_lines_bytes(b"\n\n"), (2, 2));
}

#[test]
fn chunking_does_not_change_the_extent() {
    let data = b"alpha\nbeta\ngamma";
    for size in 1..data.len() + 1 {
        let mut counter = ExtentCounter::new();
        for chunk in data.chunks(size) {
            assert!(counter.feed(chunk));
        }
        assert_eq!(counter.extent(), count_lines_bytes(data));
    }
    assert_eq!(count_lines_bytes(data), (3, 16));
}
