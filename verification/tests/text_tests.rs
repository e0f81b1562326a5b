use byebyecode::text::{
    chars_of, contains_exec, decimal_string, find_exec, parse_u64_exec, split_once_exec,
    strip_prefix_exec, trim_chars, trim_end_char_chars,
};

fn s(v: &Vec<char>) -> String {
    v.iter().collect()
}

#[test]
fn trims_unicode_whitespace() {
    assert_eq!(s(&trim_chars(&chars_of(" \t high \u{3000}\n"))), "high");
    assert_eq!(s(&trim_chars(&chars_of("   "))), "");
    assert_eq!(s(&trim_chars(&chars_of("a b"))), "a b");
}

#[test]
fn trims_trailing_runs_of_a_char() {
    assert_eq!(s(&trim_end_char_chars(&chars_of("12ZZZ"), 'Z')), "12");
    assert_eq!(s(&trim_end_char_chars(&chars_of("Z1Z"), 'Z')), "Z1");
}

#[test]
fn finds_first_occurrence() {
    let hay = chars_of("a<b>c<b>");
    assert_eq!(find_exec(&hay, &chars_of("<b>")), Some(1));
    assert_eq!(find_exec(&hay, &chars_of("<x>")), None);
    assert_eq!(find_exec(&hay, &chars_of("")), Some(0));
    assert!(contains_exec(&chars_of("über effort"), &chars_of("effort")));
}

#[test]
fn strips_prefixes() {
    assert_eq!(strip_prefix_exec(&chars_of("/effort max"), &chars_of("/effort ")).map(|v| s(&v)), Some("max".to_string()));
    assert_eq!(strip_prefix_exec(&chars_of("/effortmax"), &chars_of("/effort ")), None);
}

#[test]
fn splits_once_at_the_first_separator() {
    let parts = split_once_exec(&chars_of("a.b.c"), '.');
    assert_eq!(parts.iter().map(|p| s(p)).collect::<Vec<_>>(), vec!["a", "b.c"]);
    let parts = split_once_exec(&chars_of("abc"), '.');
    assert_eq!(parts.iter().map(|p| s(p)).collect::<Vec<_>>(), vec!["abc"]);
}

#[test]
fn parses_u64_like_from_str() {
    for text in ["0", "007", "+5", "18446744073709551615", "", "+", "-5", "1a", "18446744073709551616", " 1"] {
        assert_eq!(parse_u64_exec(&chars_of(text)), text.parse::<u64>().ok(), "{:?}", text);
    }
}

#[test]
fn writes_decimals() {
    for n in [0u64, 7, 10, 114, 255, 1000, u64::MAX] {
        assert_eq!(decimal_string(n), n.to_string());
    }
}
