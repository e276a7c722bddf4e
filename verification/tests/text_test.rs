use axum_backend::text::{contains, trim, white_space};
use axum_backend::todo::validated_title;
use axum_backend::AppError;

#[test]
fn trim_removes_surrounding_white_space() {
    assert_eq!(trim("  buy milk \t\n"), "buy milk");
    assert_eq!(trim("a b"), "a b");
    assert_eq!(trim("   "), "");
    assert_eq!(trim(""), "");
}

#[test]
fn trim_removes_unicode_white_space() {
    assert_eq!(trim("\u{3000}tea\u{2003}\u{85}"), "tea");
    assert_eq!(trim("\u{a0}x y\u{a0}"), "x y");
}

#[test]
fn contains_finds_fragments() {
    assert!(contains("sqlite::memory:", ":memory:"));
    assert!(contains("sqlite://:memory:?cache=shared", ":memory:"));
    assert!(!contains("sqlite://app.db", ":memory:"));
    assert!(contains("abc", ""));
    assert!(!contains("ab", "abc"));
    assert!(contains("aab", "ab"));
}

#[test]
fn blank_titles_are_refused() {
    match validated_title("  \t ") {
        Err(AppError::BadRequest(message)) => assert_eq!(message, "title cannot be empty"),
        other => panic!("unexpected {other:?}"),
    }
    match validated_title("") {
        Err(AppError::BadRequest(message)) => assert_eq!(message, "title cannot be empty"),
        other => panic!("unexpected {other:?}"),
    }
}

#[test]
fn titles_are_trimmed() {
    match validated_title("  learn Rust  ") {
        Ok(title) => assert_eq!(title, "learn Rust"),
        other => panic!("unexpected {other:?}"),
    }
}

#[test]
fn white_space_agrees_with_char_is_whitespace() {
    for code in 0u32..=0x10ffff {
        if let Some(c) = char::from_u32(code) {
            assert_eq!(white_space(c), c.is_whitespace(), "U+{code:04X}");
        }
    }
}
