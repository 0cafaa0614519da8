use sozin::text::{
    chars_of, contains, find, is_whitespace, push_text, same_text, split_line, split_word,
    starts_with, string_of, strip_prefix, text_after, text_before, trim, trim_end,
    trim_end_matches, trim_start,
};

fn cs(s: &str) -> Vec<char> {
    s.chars().collect()
}

fn st(c: &[char]) -> String {
    c.iter().collect()
}

#[test]
fn chars_and_strings_round_trip() {
    assert_eq!(chars_of("héllo wörld"), cs("héllo wörld"));
    assert_eq!(chars_of(""), Vec::<char>::new());
    assert_eq!(string_of(&cs("SSID: café")), "SSID: café");
    assert_eq!(string_of(&[]), "");
}

#[test]
fn push_text_appends_in_order() {
    let mut out = String::from("ab");
    push_text(&mut out, &cs("cd"));
    assert_eq!(out, "abcd");
    push_text(&mut out, &[]);
    assert_eq!(out, "abcd");
}

#[test]
fn same_text_compares_characters() {
    assert!(same_text("aa:bb", "aa:bb"));
    assert!(!same_text("aa:bb", "aa:bc"));
    assert!(!same_text("aa:bb", "aa:b"));
    assert!(same_text("", ""));
}

#[test]
fn whitespace_is_the_unicode_property() {
    for c in [' ', '\t', '\n', '\r', '\u{b}', '\u{c}', '\u{85}', '\u{a0}', '\u{1680}', '\u{2000}', '\u{200a}', '\u{2028}', '\u{2029}', '\u{202f}', '\u{205f}', '\u{3000}'] {
        assert!(is_whitespace(c));
    }
    for c in ['a', '0', ':', '\u{8}', '\u{e}', '\u{200b}', '\u{1f}', '\u{2007}'] {
        assert_eq!(is_whitespace(c), c.is_whitespace());
    }
}

#[test]
fn whitespace_agrees_with_std_on_every_character() {
    let mut code: u32 = 0;
    while code <= 0x10ffff {
        if let Some(c) = char::from_u32(code) {
            assert_eq!(is_whitespace(c), c.is_whitespace());
        }
        code += 1;
    }
}

#[test]
fn trim_removes_both_ends_only() {
    assert_eq!(st(trim(&cs("  \t a b \r\n"))), "a b");
    assert_eq!(st(trim(&cs("   "))), "");
    assert_eq!(st(trim(&cs(""))), "");
    assert_eq!(st(trim(&cs("x"))), "x");
    assert_eq!(st(trim_start(&cs("  a "))), "a ");
    assert_eq!(st(trim_end(&cs("  a "))), "  a");
}

#[test]
fn trim_end_matches_removes_every_trailing_copy() {
    assert_eq!(st(trim_end_matches(&cs("eth0:"), ':')), "eth0");
    assert_eq!(st(trim_end_matches(&cs("eth0::"), ':')), "eth0");
    assert_eq!(st(trim_end_matches(&cs(":eth0"), ':')), ":eth0");
    assert_eq!(st(trim_end_matches(&cs(":::"), ':')), "");
    assert_eq!(st(trim_end_matches(&cs("eth0"), ':')), "eth0");
}

#[test]
fn prefixes() {
    assert!(starts_with(&cs("BSS aa"), "BSS "));
    assert!(!starts_with(&cs("BSS"), "BSS "));
    assert!(!starts_with(&cs(" BSS aa"), "BSS "));
    assert!(starts_with(&cs("abc"), ""));
    assert_eq!(strip_prefix(&cs("SSID: home"), "SSID:").map(st), Some(" home".to_string()));
    assert_eq!(strip_prefix(&cs("SSID"), "SSID:").map(st), None);
}

#[test]
fn find_gives_the_first_occurrence() {
    assert_eq!(find(&cs("a channel b channel"), "channel"), Some(2));
    assert_eq!(find(&cs("chanchannel"), "channel"), Some(4));
    assert_eq!(find(&cs("chan"), "channel"), None);
    assert_eq!(find(&cs("abc"), ""), Some(0));
    assert_eq!(find(&cs(""), ""), Some(0));
    assert_eq!(find(&cs("aaa"), "aa"), Some(0));
    assert!(contains(&cs("link state UP mode"), "state UP"));
    assert!(!contains(&cs("link state up mode"), "state UP"));
}

#[test]
fn before_and_after_a_pattern() {
    assert_eq!(st(text_before(&cs("aa:bb(on wlan0)"), "(")), "aa:bb");
    assert_eq!(st(text_before(&cs("aa:bb"), "(")), "aa:bb");
    assert_eq!(st(text_before(&cs("(x"), "(")), "");
    assert_eq!(text_after(&cs("DS Parameter set: channel 6"), "channel").map(st), Some(" 6".to_string()));
    assert_eq!(text_after(&cs("DS Parameter set: 6"), "channel").map(st), None);
}

#[test]
fn words_are_separated_by_whitespace() {
    let line = cs("  2: wlan0: <UP>  mtu");
    let (first, rest) = split_word(&line);
    assert_eq!(st(first), "2:");
    assert_eq!(st(rest), " wlan0: <UP>  mtu");
    let (second, rest) = split_word(rest);
    assert_eq!(st(second), "wlan0:");
    assert_eq!(st(rest), " <UP>  mtu");
    let blank = cs("   ");
    let (none, rest) = split_word(&blank);
    assert_eq!(st(none), "");
    assert_eq!(st(rest), "");
}

#[test]
fn lines_end_at_line_feeds() {
    let text = cs("one\r\ntwo\n\nlast\r");
    let (a, rest) = split_line(&text);
    assert_eq!(st(a), "one");
    let (b, rest) = split_line(rest);
    assert_eq!(st(b), "two");
    let (c, rest) = split_line(rest);
    assert_eq!(st(c), "");
    let (d, rest) = split_line(rest);
    assert_eq!(st(d), "last\r");
    assert!(rest.is_empty());
}

#[test]
fn lines_agree_with_std() {
    for text in ["", "a", "a\n", "a\nb", "\n", "\n\n", "a\r\nb\r\n", "a\rb\n", "\r\n", "x\n\r\ny", "tail\r"] {
        let chars = cs(text);
        let mut rest: &[char] = &chars;
        let mut got: Vec<String> = Vec::new();
        while !rest.is_empty() {
            let (line, next) = split_line(rest);
            got.push(st(line));
            rest = next;
        }
        let want: Vec<String> = text.lines().map(|l| l.to_string()).collect();
        assert_eq!(got, want);
    }
}
