use llm_translator::hotkeys::listener::fallback_hotkeys;
use llm_translator::hotkeys::validator::Code;
use llm_translator::hotkeys::validator::HotkeyValidationError;
use llm_translator::hotkeys::validator::HotkeyValidator;
use llm_translator::hotkeys::validator::KeyCombo;
use llm_translator::hotkeys::validator::Modifiers;
use llm_translator::hotkeys::validator::Platform;
use llm_translator::hotkeys::validator::ValidationResult;

#[test]
fn test_parse_hotkey_string() {
    let combo = KeyCombo::from_string("Ctrl+Shift+T").unwrap();
    assert_eq!(combo.modifiers, Modifiers::control().or(Modifiers::shift()));
    assert_eq!(combo.key, Code::KeyT);
}

#[test]
fn test_parse_invalid_hotkey() {
    assert!(KeyCombo::from_string("").is_err());
    assert!(KeyCombo::from_string("Ctrl+").is_err());
    assert!(KeyCombo::from_string("InvalidKey").is_err());
}

#[test]
fn test_system_conflict_detection() {
    // Alt+Tab is a system shortcut on Windows and Linux.
    for platform in [Platform::Windows, Platform::Linux] {
        let validator = HotkeyValidator::new(platform);
        let combo = KeyCombo::new(Modifiers::alt(), Code::Tab);
        assert_eq!(validator.validate(&combo), ValidationResult::SystemConflict);
    }

    // Cmd+Q is a system shortcut on macOS.
    let validator = HotkeyValidator::new(Platform::MacOS);
    let combo = KeyCombo::new(Modifiers::meta(), Code::KeyQ);
    assert_eq!(validator.validate(&combo), ValidationResult::SystemConflict);
}

#[test]
fn test_too_simple_detection() {
    let validator = HotkeyValidator::new(Platform::Linux);
    let combo = KeyCombo::new(Modifiers::empty(), Code::KeyT);
    assert_eq!(validator.validate(&combo), ValidationResult::TooSimple);
}

#[test]
fn test_reserved_detection() {
    let validator = HotkeyValidator::new(Platform::Linux);

    // Ctrl+C should be reserved
    let combo = KeyCombo::new(Modifiers::control(), Code::KeyC);
    assert_eq!(validator.validate(&combo), ValidationResult::Reserved);

    // Ctrl+V should be reserved
    let combo = KeyCombo::new(Modifiers::control(), Code::KeyV);
    assert_eq!(validator.validate(&combo), ValidationResult::Reserved);
}

#[test]
fn test_registration() {
    let mut validator = HotkeyValidator::new(Platform::Linux);
    let combo = KeyCombo::new(Modifiers::control().or(Modifiers::shift()), Code::KeyT);

    // First registration should succeed
    assert!(validator.register(combo).is_ok());

    // Second registration of same combo should fail
    assert!(matches!(
        validator.register(combo),
        Err(HotkeyValidationError::AlreadyRegistered)
    ));
}

#[test]
fn test_suggest_alternatives() {
    let validator = HotkeyValidator::new(Platform::Linux);
    let combo = KeyCombo::new(Modifiers::alt(), Code::Tab); // System hotkey

    let alternatives = validator.suggest_alternatives(&combo);
    assert!(!alternatives.is_empty());

    // All alternatives should be valid
    for alt in &alternatives {
        assert_eq!(validator.validate(alt), ValidationResult::Valid);
    }
}

#[test]
fn test_hotkey_to_string() {
    let combo = KeyCombo::new(Modifiers::control().or(Modifiers::shift()), Code::KeyT);
    let string = combo.to_string();
    assert!(string.contains("Ctrl"));
    assert!(string.contains("Shift"));
    assert!(string.contains("T"));
}

#[test]
fn test_to_string_round_trip() {
    let combo = KeyCombo::new(Modifiers::control().or(Modifiers::alt()), Code::F5);
    let rendered = combo.to_string();
    assert_eq!(rendered, "Ctrl+Alt+F5");
    let parsed = KeyCombo::from_string(&rendered).unwrap();
    assert_eq!(parsed, combo);
}

#[test]
fn test_parse_accepts_any_case_and_synonyms() {
    let combo = KeyCombo::from_string("CONTROL+shift+escape").unwrap();
    assert_eq!(combo.modifiers, Modifiers::control().or(Modifiers::shift()));
    assert_eq!(combo.key, Code::Escape);

    let combo = KeyCombo::from_string("win+RETURN").unwrap();
    assert_eq!(combo.modifiers, Modifiers::meta());
    assert_eq!(combo.key, Code::Enter);
}

#[test]
fn test_unregister_frees_combo() {
    let mut validator = HotkeyValidator::new(Platform::Linux);
    let combo = KeyCombo::new(Modifiers::alt().or(Modifiers::shift()), Code::KeyL);
    validator.register(combo).unwrap();
    assert_eq!(validator.validate(&combo), ValidationResult::AlreadyRegistered);
    validator.unregister(&combo);
    assert_eq!(validator.validate(&combo), ValidationResult::Valid);
}

#[test]
fn test_fallback_hotkeys_list() {
    let fallbacks = fallback_hotkeys();
    assert_eq!(fallbacks.len(), 3);
    assert_eq!(
        fallbacks[0],
        KeyCombo::new(Modifiers::control().or(Modifiers::shift()), Code::KeyT)
    );
}
