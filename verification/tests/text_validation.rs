use llm_translator::validation::text::TextValidationError;
use llm_translator::validation::text::TextValidator;

#[test]
fn test_empty_text() {
    let validator = TextValidator::new(1000, 250, 1);
    assert!(matches!(
        validator.validate(""),
        Err(TextValidationError::Empty)
    ));
}

#[test]
fn test_whitespace_only() {
    let validator = TextValidator::new(1000, 250, 1);
    assert!(matches!(
        validator.validate("   \n\t  "),
        Err(TextValidationError::OnlyWhitespace)
    ));
}

#[test]
fn test_too_short() {
    let validator = TextValidator::new(1000, 250, 10);
    assert!(matches!(
        validator.validate("hello"),
        Err(TextValidationError::TooShort { length: 5, min: 10 })
    ));
}

#[test]
fn test_too_long() {
    let validator = TextValidator::new(10, 5, 1);
    let long_text = "a".repeat(20);
    assert!(matches!(
        validator.validate(&long_text),
        Err(TextValidationError::TooLong { .. })
    ));
}

#[test]
fn test_binary_data() {
    let validator = TextValidator::new(1000, 250, 1);
    let text_with_null = "Hello\0World";
    assert!(matches!(
        validator.validate(text_with_null),
        Err(TextValidationError::ContainsBinary)
    ));
}

#[test]
fn test_valid_text() {
    let validator = TextValidator::new(1000, 250, 1);
    let result = validator.validate("Hello, world!");
    assert!(result.is_ok());
    assert_eq!(result.unwrap(), "Hello, world!");
}

#[test]
fn text_test_text_splitting() {
    let validator = TextValidator::new(50, 20, 1);
    let long_text = "This is a long text. It has multiple sentences. Each sentence should be split properly.";
    let chunks = validator.split_text(long_text);

    assert!(chunks.len() > 1);
    for chunk in &chunks {
        assert!(chunk.len() <= 50);
    }
}

#[test]
fn test_unicode_handling() {
    let validator = TextValidator::new(1000, 250, 1);
    let unicode_text = "Привет, мир! 你好世界 🌍";
    let result = validator.validate(unicode_text);
    assert!(result.is_ok());
}

#[test]
fn test_unicode_length_counting() {
    let validator = TextValidator::new(10, 10, 1);

    // This string has 10 characters but many more bytes
    let unicode_text = "你好世界🌍🌎🌏❤宇宙";
    let result = validator.validate(unicode_text);

    // Should pass because it's exactly 10 characters
    assert!(result.is_ok());

    // Now test with 11 characters
    let too_long = "你好世界🌍🌎🌏❤宇宙!";
    let result = validator.validate(too_long);

    // Should fail as too long
    assert!(matches!(result, Err(TextValidationError::TooLong { .. })));
}

#[test]
fn text_test_unicode_splitting() {
    let validator = TextValidator::new(5, 5, 1);

    // Test splitting with Unicode characters
    let text = "你好世界🌍 Hello!";
    let chunks = validator.split_text(text);

    // Each chunk should have at most 5 characters
    for chunk in &chunks {
        assert!(chunk.chars().count() <= 5);
    }

    // Ensure no characters were lost
    let combined: String = chunks.join("");
    assert_eq!(combined.chars().count(), text.chars().count());
}

#[test]
fn test_too_many_tokens() {
    let validator = TextValidator::new(1000, 2, 1);
    // Nine characters estimate to three tokens, over the cap of two.
    let result = validator.validate("abcdefghi");
    assert!(matches!(
        result,
        Err(TextValidationError::TooManyTokens { estimated: 3, max: 2 })
    ));
}

#[test]
fn test_whitespace_allowed_passes_through() {
    let validator = TextValidator::new(1000, 250, 1)
        .with_whitespace_allowed(true)
        .with_trim(false);
    let result = validator.validate("   ");
    assert!(result.is_ok());
    assert_eq!(result.unwrap(), "   ");
}

#[test]
fn test_binary_detection_can_be_disabled() {
    let validator = TextValidator::new(1000, 250, 1).with_binary_detection(false);
    let result = validator.validate("Hello\u{1}World");
    assert!(result.is_ok());
}

#[test]
fn test_validate_trims_before_checks() {
    let validator = TextValidator::new(1000, 250, 1);
    let result = validator.validate("  padded  ");
    assert_eq!(result.unwrap(), "padded");
}

#[test]
fn test_split_text_keeps_paragraphs_together() {
    let validator = TextValidator::new(30, 250, 1);
    let text = "First para.\n\nSecond para.\n\nThird one here.";
    let chunks = validator.split_text(text);
    assert!(chunks.len() > 1);
    for chunk in &chunks {
        assert!(chunk.chars().count() <= 30);
    }
}
