use plansight::text::{
    chars_of, contains_str, find_char, find_pattern, leading_whitespace, parse_u64,
    tokenize, trim_bounds, Separators,
};

#[test]
fn parse_u64_matches_std() {
    for s in ["0", "42", "+7", "18446744073709551615", "18446744073709551616", "", "+", "-1", "1 ", "x1"] {
        assert_eq!(parse_u64(s), s.parse::<u64>().ok(), "input {s:?}");
    }
}

#[test]
fn trimming_and_indentation() {
    let v = chars_of("  \t hello world \n");
    let (a, b) = trim_bounds(&v, 0, v.len());
    let t: String = v[a..b].iter().collect();
    assert_eq!(t, "  \t hello world \n".trim());
    assert_eq!(leading_whitespace(&v), 4);
    assert_eq!(leading_whitespace(&chars_of("")), 0);
}

#[test]
fn tokens_and_search() {
    let v = chars_of("shared hit=3 read=350, temp read=1");
    let toks: Vec<String> = tokenize(&v, Separators::SpaceOrComma).iter().map(|t| t.iter().collect()).collect();
    let expected: Vec<String> = "shared hit=3 read=350, temp read=1"
        .split([' ', ','])
        .filter(|t| !t.is_empty())
        .map(|t| t.to_string())
        .collect();
    assert_eq!(toks, expected);
    assert_eq!(find_char(&v, '='), Some(10));
    assert_eq!(find_pattern(&v, &chars_of("temp")), Some(23));
    assert_eq!(find_pattern(&v, &chars_of("wal")), None);
    assert!(contains_str(&v, "read=350"));
    assert!(!contains_str(&v, "READ"));
}
