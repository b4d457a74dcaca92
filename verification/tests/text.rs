use melange::text::{
    chars_of, decimal_string, parse_u64, replace_chars, split_whitespace_chars, string_of, trim_char_chars, trim_str,
};

#[test]
fn decimal_round_trip() {
    for n in [0u64, 7, 10, 4096, 187514, u64::MAX] {
        let s = decimal_string(n);
        assert_eq!(s, n.to_string());
        assert_eq!(parse_u64(&s), Some(n));
    }
}

#[test]
fn parse_matches_std() {
    for s in ["", "+", "+0", "00042", "-1", "1 ", "18446744073709551616", "٣"] {
        assert_eq!(parse_u64(s), s.parse::<u64>().ok(), "{:?}", s);
    }
}

#[test]
fn trimming_and_replacing() {
    let t: String = trim_str("\u{3000} hi there\t\n").into_iter().collect();
    assert_eq!(t, "hi there");
    let q: String = trim_char_chars(&chars_of("\"\"quoted\""), '"').into_iter().collect();
    assert_eq!(q, "quoted");
    let r = replace_chars(&chars_of("a--b--c"), &chars_of("--"), &chars_of("+"));
    assert_eq!(string_of(&r), "a+b+c");
}

#[test]
fn words_split_at_whitespace() {
    let words: Vec<String> = split_whitespace_chars(&chars_of(" one\ttwo  three ")).iter().map(|w| string_of(w)).collect();
    assert_eq!(words, vec!["one", "two", "three"]);
}
