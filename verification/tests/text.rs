use c4dart::text::{
    append_decimal, append_numeral, char_is_whitespace, from_chars, split_lines, to_chars,
    trim_chars,
};

fn chars(s: &str) -> Vec<char> {
    s.chars().collect()
}

#[test]
fn whitespace_is_what_std_calls_whitespace() {
    let mut n: u32 = 0;
    while n <= 0x10ffff {
        if let Some(c) = char::from_u32(n) {
            assert_eq!(char_is_whitespace(c), c.is_whitespace(), "U+{:04X}", n);
        }
        n += 1;
    }
}

#[test]
fn chars_round_trip() {
    let v = to_chars("añ→b");
    assert_eq!(v, vec!['a', 'ñ', '→', 'b']);
    assert_eq!(from_chars(&v), "añ→b");
}

#[test]
fn trim_is_what_std_trims() {
    let samples = ["", "   ", " a b ", "\t\r\nx\u{a0}\u{3000}", "x", "\u{2003}é \u{85}"];
    for s in samples {
        assert_eq!(from_chars(&trim_chars(&chars(s))), s.trim());
    }
}

#[test]
fn lines_are_what_std_splits() {
    let samples = [
        "", "a", "a\n", "a\nb", "a\r\nb\r\n", "\n", "\n\n", "a\rb\n", "a\n\r\nb\r", "\r\n", "\r",
        "x\r\r\ny",
    ];
    for s in samples {
        let got: Vec<String> = split_lines(&chars(s)).iter().map(|l| l.iter().collect()).collect();
        let want: Vec<String> = s.lines().map(|l| l.to_string()).collect();
        assert_eq!(got, want, "{:?}", s);
    }
}

#[test]
fn numerals_are_decimal() {
    let mut s = String::from("n=");
    append_numeral(&mut s, 0);
    append_numeral(&mut s, 7);
    append_numeral(&mut s, 10);
    append_numeral(&mut s, u64::MAX);
    assert_eq!(s, "n=071018446744073709551615");
    let mut t = String::new();
    append_decimal(&mut t, -1);
    append_decimal(&mut t, 0);
    append_decimal(&mut t, i64::MIN);
    assert_eq!(t, "-10-9223372036854775808");
}
