use nhentai_downloader::escape::replace_unicode_escapes;

#[test]
fn valid_escape_decodes() {
    assert_eq!(replace_unicode_escapes(r"\u0041"), "A");
}

#[test]
fn valid_escape_inside_text() {
    assert_eq!(replace_unicode_escapes(r"a\u0042c"), "aBc");
}

#[test]
fn quote_escape_decodes() {
    assert_eq!(replace_unicode_escapes(r"{\u0022id\u0022:1}"), "{\u{22}id\u{22}:1}");
}

#[test]
fn truncated_escape_is_kept_verbatim() {
    assert_eq!(replace_unicode_escapes(r"\u12"), r"\u12");
}

#[test]
fn truncated_escape_at_end_after_text() {
    assert_eq!(replace_unicode_escapes(r"abc\u9"), r"abc\u9");
}

#[test]
fn invalid_hex_leaves_bare_marker() {
    assert_eq!(replace_unicode_escapes(r"\uzzzz"), r"\u");
}

#[test]
fn unpaired_surrogate_leaves_bare_marker() {
    assert_eq!(replace_unicode_escapes(r"\uD800x"), r"\ux");
}

#[test]
fn no_marker_text_is_unchanged() {
    assert_eq!(replace_unicode_escapes("hello world"), "hello world");
}

#[test]
fn repair_is_idempotent_without_markers() {
    let once = replace_unicode_escapes("plain text, no escapes at all");
    let twice = replace_unicode_escapes(&once);
    assert_eq!(once, twice);
}

#[test]
fn marker_followed_by_marker() {
    // The four characters after the first marker, `\u00`, are not four hex
    // digits, so they are consumed and only the bare marker stays; the
    // digits left over pass through untouched.
    assert_eq!(replace_unicode_escapes(r"\u\u0041"), r"\u41");
}

#[test]
fn lowercase_and_uppercase_hex() {
    assert_eq!(replace_unicode_escapes(r"\u00e9"), "é");
    assert_eq!(replace_unicode_escapes(r"\u00E9"), "é");
}
