use noteflow_backend::errors::AppError;
use noteflow_backend::validation::{
    sanitize_string, validate_email, validate_note_content, validate_note_title,
    validate_password, validate_tag_name,
};

fn validation_message(r: Result<(), AppError>) -> String {
    match r.unwrap_err() {
        AppError::ValidationError(m) => m,
        other => panic!("expected a validation error, got {:?}", other),
    }
}

#[test]
fn email_rules() {
    assert!(validate_email("a@b.c").is_ok());
    assert!(validate_email("user@example.com").is_ok());
    assert_eq!(validation_message(validate_email("no-at-sign.com")), "Invalid email format");
    assert_eq!(validation_message(validate_email("a@b")), "Invalid email format");
    let long = format!("{}@example.com", "x".repeat(250));
    assert_eq!(validation_message(validate_email(&long)), "Invalid email format");
}

#[test]
fn password_rules() {
    assert!(validate_password("12345678").is_ok());
    assert!(validate_password(&"p".repeat(128)).is_ok());
    assert_eq!(
        validation_message(validate_password("1234567")),
        "Password must be at least 8 characters"
    );
    assert_eq!(
        validation_message(validate_password(&"p".repeat(129))),
        "Password must be less than 128 characters"
    );
}

#[test]
fn note_content_rules() {
    assert!(validate_note_content("hello", 5).is_ok());
    assert!(validate_note_content("", 0).is_ok());
    assert_eq!(
        validation_message(validate_note_content("hello world", 10)),
        "Note content exceeds maximum size of 10 bytes"
    );
    assert_eq!(
        validation_message(validate_note_content("x", 0)),
        "Note content exceeds maximum size of 0 bytes"
    );
    assert_eq!(
        validation_message(validate_note_content(&"y".repeat(102401), 102400)),
        "Note content exceeds maximum size of 102400 bytes"
    );
}

#[test]
fn note_title_rules() {
    assert!(validate_note_title("a").is_ok());
    assert!(validate_note_title(&"t".repeat(255)).is_ok());
    assert_eq!(validation_message(validate_note_title("")), "Note title cannot be empty");
    assert_eq!(
        validation_message(validate_note_title(&"t".repeat(256))),
        "Note title must be less than 255 characters"
    );
}

#[test]
fn tag_name_rules() {
    assert!(validate_tag_name("rust").is_ok());
    assert!(validate_tag_name(&"g".repeat(50)).is_ok());
    assert_eq!(
        validation_message(validate_tag_name("")),
        "Tag name must be between 1 and 50 characters"
    );
    assert_eq!(
        validation_message(validate_tag_name(&"g".repeat(51))),
        "Tag name must be between 1 and 50 characters"
    );
}

#[test]
fn sanitize_trims_both_ends() {
    assert_eq!(sanitize_string("  hello  "), "hello");
    assert_eq!(sanitize_string("\t a b \n"), "a b");
    assert_eq!(sanitize_string("none"), "none");
    assert_eq!(sanitize_string("   "), "");
    assert_eq!(sanitize_string(""), "");
}

#[test]
fn sanitize_trims_unicode_whitespace() {
    // The whole White_Space set is trimmed, as str::trim does.
    assert_eq!(sanitize_string("\u{000b}x"), "x");
    assert_eq!(sanitize_string("\u{00a0}a\u{2003}"), "a");
    assert_eq!(sanitize_string("\u{3000}ideo\u{2028}"), "ideo");
    assert_eq!(sanitize_string("\u{0085}\u{205f}\u{1680}"), "");
    // Interior whitespace of any kind stays.
    assert_eq!(sanitize_string(" a\u{00a0}b "), "a\u{00a0}b");
    // Matches the standard library's notion exactly on these inputs.
    for s in ["\u{000b}x", "\u{00a0}a\u{2003}", " mixed\u{2009} ", "\u{202f}\u{2029}"] {
        assert_eq!(sanitize_string(s), s.trim());
    }
}

#[test]
fn byte_lengths_follow_utf8_encoding() {
    // Two-byte characters count double toward the byte bounds.
    let four_chars_eight_bytes = "\u{e9}\u{e9}\u{e9}\u{e9}";
    assert!(validate_note_content(four_chars_eight_bytes, 8).is_ok());
    assert!(validate_note_content(four_chars_eight_bytes, 7).is_err());
}
