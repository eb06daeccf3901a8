use rack_firmware::text::{last_segment_of, split_on, trimmed};

#[test]
fn split_on_commas_keeps_empty_pieces() {
    assert_eq!(split_on("a,,b,", ','), vec!["a".to_string(), "".to_string(), "b".to_string(), "".to_string()]);
    assert_eq!(split_on("", ','), vec!["".to_string()]);
}

#[test]
fn trimmed_strips_both_ends() {
    assert_eq!(trimmed("  a b \t\n"), "a b");
    assert_eq!(trimmed("\u{3000}x\u{a0}"), "x");
    assert_eq!(trimmed("   "), "");
}

#[test]
fn last_segment_follows_last_separator() {
    assert_eq!(last_segment_of("https://host/a/b.bin", '/'), "b.bin");
    assert_eq!(last_segment_of("plain", '/'), "plain");
    assert_eq!(last_segment_of("dir/", '/'), "");
}
