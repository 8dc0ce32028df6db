use commit_ingest::sanitize::sanitize_for_mysql;

#[test]
fn sanitize_keeps_plain_text() {
    assert_eq!(sanitize_for_mysql("Hello, World!", 500), "Hello, World!");
}

#[test]
fn sanitize_removes_control_characters() {
    assert_eq!(sanitize_for_mysql("a\0b\u{1}c\u{7f}d", 500), "abcd");
}

#[test]
fn sanitize_keeps_line_breaks_and_tabs() {
    assert_eq!(sanitize_for_mysql("a\nb\r\nc\td", 500), "a\nb\r\nc\td");
}

#[test]
fn sanitize_keeps_common_unicode() {
    assert_eq!(sanitize_for_mysql("caf\u{e9} \u{4e2d}\u{fffe}", 500), "caf\u{e9} \u{4e2d}\u{fffe}");
}

#[test]
fn sanitize_removes_high_code_points() {
    assert_eq!(sanitize_for_mysql("a\u{ffff}b\u{1f600}c", 500), "abc");
}

#[test]
fn sanitize_cuts_to_the_limit() {
    assert_eq!(sanitize_for_mysql("abcdef", 3), "abc");
    assert_eq!(sanitize_for_mysql("abcdef", 0), "");
    assert_eq!(sanitize_for_mysql("abcdef", 6), "abcdef");
}

#[test]
fn sanitize_counts_only_kept_characters() {
    assert_eq!(sanitize_for_mysql("\0a\0b\0c\0d", 3), "abc");
}

#[test]
fn sanitize_counts_characters_not_bytes() {
    assert_eq!(sanitize_for_mysql("\u{e9}\u{e9}\u{e9}", 2), "\u{e9}\u{e9}");
}

#[test]
fn sanitize_of_empty_is_empty() {
    assert_eq!(sanitize_for_mysql("", 10), "");
}
