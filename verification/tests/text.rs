use aethos::error::ConfigError;
use aethos::text::bytes_precede;
use aethos::text::char_is_space;
use aethos::text::first_chars;
use aethos::text::same_bytes;
use aethos::text::same_text;
use aethos::text::starts_with;
use aethos::text::strip;
use aethos::text::text_precedes;
use aethos::text::to_chars;
use aethos::text::trim;
use aethos::text::Strip;

#[test]
fn characters_come_in_order() {
    assert_eq!(to_chars("aß鍵"), vec!['a', 'ß', '鍵']);
    assert!(to_chars("").is_empty());
}

#[test]
fn equal_texts_are_the_same() {
    assert!(same_text("abc", "abc"));
    assert!(!same_text("abc", "abd"));
    assert!(!same_text("abc", "ab"));
    assert!(same_text("", ""));
    assert!(same_bytes(b"\x00\x01", b"\x00\x01"));
    assert!(!same_bytes(b"\x00", b"\x01"));
}

#[test]
fn byte_order_is_lexicographic() {
    assert!(bytes_precede(b"a", b"b"));
    assert!(!bytes_precede(b"b", b"a"));
    assert!(bytes_precede(b"ab", b"abc"));
    assert!(!bytes_precede(b"abc", b"ab"));
    assert!(!bytes_precede(b"abc", b"abc"));
    assert!(bytes_precede(b"", b"a"));
    assert!(!bytes_precede(b"", b""));
    assert!(bytes_precede(b"a\xff", b"b"));
    assert!(text_precedes("2024-01-01 10:00:00", "2024-01-01 10:00:01"));
    assert!(text_precedes("Anthropic", "OpenAI"));
    assert!(text_precedes("Z", "a"));
    assert!(!text_precedes("é", "z"));
}

#[test]
fn white_space_is_what_unicode_says() {
    for c in [' ', '\t', '\n', '\r', '\u{0b}', '\u{0c}', '\u{85}', '\u{a0}', '\u{1680}', '\u{2003}', '\u{2028}', '\u{3000}'] {
        assert!(char_is_space(c), "{c:?}");
        assert!(c.is_whitespace());
    }
    for c in ['a', '0', '\u{200b}', '\u{feff}', '"', '\0'] {
        assert!(!char_is_space(c), "{c:?}");
        assert!(!c.is_whitespace());
    }
}

#[test]
fn every_character_agrees_with_std_on_white_space() {
    for code in 0u32..0x11_0000 {
        if let Some(c) = char::from_u32(code) {
            assert_eq!(char_is_space(c), c.is_whitespace(), "{code:#x}");
        }
    }
}

#[test]
fn trimming_strips_both_ends_only() {
    assert_eq!(trim("  a b \n"), "a b");
    assert_eq!(trim("\u{3000}鍵\t"), "鍵");
    assert_eq!(trim("   "), "");
    assert_eq!(trim(""), "");
    assert_eq!(trim("x"), "x");
    assert_eq!(strip("\"\"Title\" here\"", Strip::Quote), "Title\" here");
    assert_eq!(strip("\"\"", Strip::Quote), "");
    assert_eq!(strip(" \"a\" ", Strip::Quote), " \"a\" ");
}

#[test]
fn prefixes_are_told_apart() {
    assert!(starts_with(&to_chars("data: x"), &to_chars("data:")));
    assert!(starts_with(&to_chars("data:"), &to_chars("data:")));
    assert!(!starts_with(&to_chars("dat"), &to_chars("data:")));
    assert!(!starts_with(&to_chars("event: x"), &to_chars("data:")));
    assert!(starts_with(&to_chars("x"), &to_chars("")));
}

#[test]
fn previews_count_characters_not_bytes() {
    assert_eq!(first_chars("hello", 3), "hel");
    assert_eq!(first_chars("hello", 5), "hello");
    assert_eq!(first_chars("hello", 200), "hello");
    assert_eq!(first_chars("", 200), "");
    let long: String = "鍵".repeat(250);
    let preview = first_chars(&long, 200);
    assert_eq!(preview.chars().count(), 200);
    assert_eq!(preview.len(), 600);
    assert_eq!(preview, "鍵".repeat(200));
}

#[test]
fn messages_name_the_variant_and_its_words() {
    assert_eq!(ConfigError::MissingProjectDir.message(), "failed to resolve project directory");
    assert_eq!(ConfigError::MissingDefaultProvider.message(), "no default provider configured");
    assert_eq!(ConfigError::Io("gone".into()).message(), "i/o error: gone");
    assert_eq!(ConfigError::Database("locked".into()).message(), "database error: locked");
    assert_eq!(ConfigError::Encryption("bad".into()).message(), "encryption error: bad");
    assert_eq!(ConfigError::InvalidPath("p".into()).message(), "invalid path: p");
    assert_eq!(ConfigError::Migration("m".into()).message(), "migration error: m");
    assert_eq!(ConfigError::Base64("b".into()).message(), "base64 error: b");
    assert_eq!(ConfigError::Utf8("u".into()).message(), "utf8 error: u");
    assert_eq!(ConfigError::Join("j".into()).message(), "task join error: j");
    assert!(matches!(ConfigError::encryption("x"), ConfigError::Encryption(words) if words == "x"));
    assert!(matches!(ConfigError::database("y"), ConfigError::Database(words) if words == "y"));
}

#[test]
fn generated_ids_are_21_letters_and_digits_and_differ() {
    let first = aethos::ids::generate_id().unwrap();
    let second = aethos::ids::generate_id().unwrap();
    for id in [&first, &second] {
        assert_eq!(id.chars().count(), 21);
        assert!(id.chars().all(|c| c.is_ascii_alphanumeric()));
    }
    assert_ne!(first, second);
}
