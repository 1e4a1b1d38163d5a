use sheet_accounts::text::{
    drop_last_eight_bytes, ends_with_account_suffix, i32_to_text, parse_i32, with_account_suffix,
};

#[test]
fn i32_to_text_matches_to_string() {
    for x in [0, 7, 10, -1, -10, 123, -123, 2147483647, -2147483648, 1000000, -905] {
        assert_eq!(i32_to_text(x), x.to_string());
    }
}

#[test]
fn parse_i32_matches_std_parse() {
    let cases = [
        "0", "+5", "-0", "", "-", "+", "12a", "a12", " 12", "12 ", "2147483647", "2147483648",
        "-2147483648", "-2147483649", "0007", "-0007", "99999999999999999999", "--1", "+-1", "1.5",
        "٣",
    ];
    for c in cases {
        assert_eq!(parse_i32(c), c.parse::<i32>().ok(), "case {:?}", c);
    }
}

#[test]
fn parse_reads_back_what_to_text_writes() {
    for x in [0, 1, -1, 42, -42, i32::MAX, i32::MIN, 314159, -271828] {
        assert_eq!(parse_i32(&i32_to_text(x)), Some(x));
    }
}

#[test]
fn account_suffix_is_appended_and_detected() {
    let title = with_account_suffix("Michael_Wu");
    assert_eq!(title, "Michael_Wu_ACCOUNT");
    assert!(ends_with_account_suffix(&title));
    assert!(ends_with_account_suffix("_ACCOUNT"));
    assert!(!ends_with_account_suffix("ACCOUNT"));
    assert!(!ends_with_account_suffix("Bob_ACCOUNTS"));
    assert!(!ends_with_account_suffix("Bob_account"));
}

#[test]
fn dropping_eight_bytes_removes_the_suffix() {
    assert_eq!(drop_last_eight_bytes("Michael_Wu_ACCOUNT"), "Michael_Wu");
    assert_eq!(drop_last_eight_bytes("élan_ACCOUNT"), "élan");
    assert_eq!(drop_last_eight_bytes("12345678"), "");
    // bytes, not characters: "ééé" is six bytes
    assert_eq!(drop_last_eight_bytes("abééé__"), "ab");
}
