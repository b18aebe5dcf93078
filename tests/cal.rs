use tailr::cal::{parse_month, starts_with};

#[test]
fn test_parse_month() {
    let res = parse_month("1");
    assert!(res.is_ok());
    assert_eq!(res.unwrap(), 1u32);
    let res = parse_month("12");
    assert!(res.is_ok());
    assert_eq!(res.unwrap(), 12u32);
    let res = parse_month("jan");
    assert!(res.is_ok());
    assert_eq!(res.unwrap(), 1u32);
    let res = parse_month("0");
    assert!(res.is_err());
    assert_eq!(
        res.unwrap_err().to_string(),
        "month \"0\" not in the range 1 through 12"
    );
    let res = parse_month("13");
    assert!(res.is_err());
    assert_eq!(
        res.unwrap_err().to_string(),
        "month \"13\" not in the range 1 through 12"
    );
    let res = parse_month("foo");
    assert!(res.is_err());
    assert_eq!(res.unwrap_err().to_string(), "Invalid month \"foo\"");
}

#[test]
fn ambiguous_abbreviations_are_refused() {
    assert_eq!(parse_month("ju").unwrap_err(), "Invalid month \"ju\"");
    assert_eq!(parse_month("ma").unwrap_err(), "Invalid month \"ma\"");
    assert_eq!(parse_month("").unwrap_err(), "Invalid month \"\"");
    assert_eq!(parse_month("jul"), Ok(7));
    assert_eq!(parse_month("MAR"), Ok(3));
    assert_eq!(parse_month("december"), Ok(12));
    assert_eq!(parse_month("Decembers").unwrap_err(), "Invalid month \"Decembers\"");
}

#[test]
fn numbers_are_read_as_u32() {
    assert_eq!(parse_month("+4"), Ok(4));
    assert_eq!(parse_month("004"), Ok(4));
    assert_eq!(
        parse_month("0013").unwrap_err(),
        "month \"13\" not in the range 1 through 12"
    );
    assert_eq!(
        parse_month("4294967295").unwrap_err(),
        "month \"4294967295\" not in the range 1 through 12"
    );
    assert_eq!(parse_month("4294967296").unwrap_err(), "Invalid month \"4294967296\"");
}

#[test]
fn starts_with_compares_prefixes() {
    let s: Vec<char> = "march".chars().collect();
    let p: Vec<char> = "mar".chars().collect();
    let q: Vec<char> = "may".chars().collect();
    assert!(starts_with(&s, &p));
    assert!(!starts_with(&s, &q));
    assert!(starts_with(&s, &Vec::new()));
    assert!(!starts_with(&p, &s));
}
