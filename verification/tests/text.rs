use rzem_ai_inference::text::truncate;

#[test]
fn truncate_keeps_short_text() {
    assert_eq!(truncate("short", 40), "short");
    assert_eq!(truncate("abcd", 4), "abcd");
    assert_eq!(truncate("", 0), "");
}

#[test]
fn truncate_cuts_three_bytes_early() {
    assert_eq!(truncate("abcdefghij", 8), "abcde...");
    assert_eq!(truncate("abcdef", 2), "...");
    assert_eq!(truncate("abcdef", 3), "...");
    assert_eq!(truncate("abcdef", 5), "ab...");
}

#[test]
fn truncate_counts_utf8_bytes() {
    assert_eq!(truncate("\u{65e5}\u{672c}\u{8a9e}\u{30c6}\u{30ad}", 9), "\u{65e5}\u{672c}...");
    assert_eq!(truncate("caf\u{e9}", 5), "caf\u{e9}");
}
