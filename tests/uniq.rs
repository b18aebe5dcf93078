use tailr::uniq::{check, differs};

#[test]
fn trailing_whitespace_is_ignored() {
    assert!(!check("a \n", "a\n", &false, &None));
    assert!(check("a\n", "b\n", &false, &None));
}

#[test]
fn case_is_folded_when_asked() {
    assert!(check("ABC\n", "abc\n", &false, &None));
    assert!(!check("ABC\n", "abc\n", &true, &None));
}

#[test]
fn only_leading_characters_are_compared() {
    assert!(!check("abcX\n", "abcY\n", &false, &Some(3)));
    assert!(check("abcX\n", "abcY\n", &false, &Some(4)));
    assert!(!check("ABx\n", "aby\n", &true, &Some(2)));
    assert!(check("ab\n", "abc\n", &false, &Some(5)));
}

#[test]
fn differs_compares_prefixes() {
    assert!(!differs("hello", "help", &Some(3)));
    assert!(differs("hello", "help", &Some(4)));
    assert!(differs("a", "", &None));
    assert!(!differs("", "", &Some(0)));
    assert!(!differs("xyz", "abc", &Some(0)));
}
