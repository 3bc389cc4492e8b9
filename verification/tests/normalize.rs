use gcm_exporter::{normalize_label_key, sanitize_string};

#[test]
fn test_normalize_label_key() {
    assert_eq!(normalize_label_key("valid_key_1"), "valid_key_1");
    assert_eq!(normalize_label_key("hellø"), "hellø");
    assert_eq!(normalize_label_key("123"), "key_123");
    assert_eq!(normalize_label_key("key!321"), "key_321");
    assert_eq!(normalize_label_key("hyphens-dots.slashes/"), "hyphens_dots_slashes_");
    assert_eq!(normalize_label_key("non_letters_:£¢$∞"), "non_letters______");
}

#[test]
fn test_normalize_empty_passes_through() {
    assert_eq!(normalize_label_key(""), "");
}

#[test]
fn test_normalize_all_non_alphanumeric() {
    assert_eq!(normalize_label_key("!@#$"), "____");
    assert_eq!(normalize_label_key("...."), "____");
}

#[test]
fn test_normalize_is_idempotent_on_samples() {
    for s in [
        "valid_key_1",
        "hellø",
        "123",
        "key!321",
        "hyphens-dots.slashes/",
        "non_letters_:£¢$∞",
        "",
        "1some.invalid$\\key",
        "a\u{310}e\u{301}",
    ] {
        let once = normalize_label_key(s);
        let twice = normalize_label_key(&once);
        assert_eq!(twice, once);
    }
}

#[test]
fn test_normalize_digit_leading_gets_prefix() {
    assert_eq!(normalize_label_key("1some.invalid$\\key"), "key_1some_invalid__key");
    assert_eq!(normalize_label_key("9"), "key_9");
    // a key that already starts with a letter gets no prefix
    assert_eq!(normalize_label_key("key_123"), "key_123");
}

#[test]
fn test_sanitize_replaces_combining_cluster_with_one_underscore() {
    // "a" followed by a combining mark is one grapheme cluster that is not
    // purely alphanumeric: it becomes a single underscore, not two.
    assert_eq!(sanitize_string("a\u{310}"), "_");
    assert_eq!(sanitize_string("xa\u{310}y"), "x_y");
}
