use llm_translator::clipboard::PollStep;
use llm_translator::clipboard::SelectionError;
use llm_translator::clipboard::SelectionPoll;
use llm_translator::config::BehaviorSettings;
use llm_translator::config::GeneralSettings;
use llm_translator::config::HotkeySettings;
use llm_translator::config::LimitSettings;
use llm_translator::config::PromptPreset;
use llm_translator::config::PromptSettings;
use llm_translator::config::ValidationSettings;
use llm_translator::hotkeys::handlers::capture_event;
use llm_translator::hotkeys::handlers::should_auto_split;
use llm_translator::hotkeys::handlers::TranslationEvent;
use llm_translator::llm::api_types::ChatChoice;
use llm_translator::llm::api_types::ChatCompletionResponse;
use llm_translator::llm::api_types::ChatMessage;
use llm_translator::llm::api_types::ChatMessageResponse;
use llm_translator::llm::api_types::Usage;
use llm_translator::tray::stats_remaining_text;
use llm_translator::tray::stats_today_text;
use llm_translator::tray::style_label;
use llm_translator::tray::tray_event_for_menu_id;
use llm_translator::tray::TrayEvent;
use llm_translator::tray::TrayIconState;
use llm_translator::validation::text::TextValidator;

#[test]
fn test_default_config() {
    let general = GeneralSettings::default();
    assert!(general.auto_start);
    assert!(general.show_notifications);
    let hotkey = HotkeySettings::default();
    assert_eq!(hotkey.translate, "Ctrl+Shift+T");
    assert_eq!(hotkey.cancel, "Escape");
    let limits = LimitSettings::default();
    assert_eq!(limits.max_text_length, 5000);
    assert_eq!(limits.requests_per_minute, 30);
    assert_eq!(limits.requests_per_day, 500);
    let validation = ValidationSettings::default();
    assert!(validation.detect_binary_data);
    assert!(validation.trim_before_validate);
    assert!(!validation.allow_only_whitespace);
    let behavior = BehaviorSettings::default();
    assert!(behavior.preserve_clipboard);
    assert!(!behavior.auto_split_long_text);
}

#[test]
fn test_prompt_presets() {
    let mut prompts = PromptSettings::default();
    assert_eq!(prompts.active_preset, "general");
    let general = prompts.get("general").unwrap();
    assert_eq!(general.name, "Общий перевод");
    assert!(prompts.get("missing").is_none());

    assert!(!prompts.set_active_prompt("missing"));
    assert!(prompts.set_active_prompt("formal"));
    assert_eq!(prompts.active_preset, "formal");
    assert!(prompts.get_active_prompt().is_some());

    prompts.add_custom_prompt(
        "mine".to_string(),
        PromptPreset {
            name: "Mine".to_string(),
            system: "Translate".to_string(),
        },
    );
    assert!(prompts.get("mine").is_some());
    assert_eq!(prompts.get_all_prompts().len(), 6);
    let removed = prompts.remove_custom_prompt("mine").unwrap();
    assert_eq!(removed.name, "Mine");
    assert!(prompts.get("mine").is_none());
}

#[test]
fn test_tray_event_creation() {
    let events = vec![
        TrayEvent::Toggle,
        TrayEvent::OpenSettings,
        TrayEvent::ChangeStyle("general".to_string()),
        TrayEvent::ResetStatistics,
        TrayEvent::ShowHelp("docs".to_string()),
        TrayEvent::Quit,
    ];

    for event in events {
        // Just ensure they can be created and cloned
        let _cloned = event.clone();
    }
}

#[test]
fn test_tray_menu_event_mapping() {
    assert!(matches!(tray_event_for_menu_id("toggle"), Some(TrayEvent::Toggle)));
    assert!(matches!(tray_event_for_menu_id("quit"), Some(TrayEvent::Quit)));
    assert!(matches!(
        tray_event_for_menu_id("style_formal"),
        Some(TrayEvent::ChangeStyle(s)) if s == "formal"
    ));
    assert!(matches!(
        tray_event_for_menu_id("help_about"),
        Some(TrayEvent::ShowHelp(s)) if s == "about"
    ));
    assert!(tray_event_for_menu_id("status").is_none());
}

#[test]
fn test_tray_texts_and_tooltips() {
    assert_eq!(TrayIconState::Active.tooltip(), "LLM Translator - Ready");
    assert_eq!(TrayIconState::Loading.tooltip(), "LLM Translator - Processing...");
    assert_eq!(TrayIconState::Error.status_text(), "Status: Error");
    assert_eq!(TrayIconState::Active.color(), (0, 150, 136, 255));
    assert_eq!(stats_today_text(7), "Today: 7 translations");
    assert_eq!(stats_remaining_text(3, 250), "Remaining: 3/min, 250/day");
}

#[test]
fn test_style_label_toggling() {
    assert_eq!(style_label("General", true), "✓ General");
    assert_eq!(style_label("✓ General", true), "✓ General");
    assert_eq!(style_label("✓ General", false), "General");
    assert_eq!(style_label("General", false), "General");
}

#[test]
fn test_selection_poll_steps() {
    let mut poll = SelectionPoll::new(1000, 500);

    // Nothing captured yet: wait, with the interval doubling.
    assert!(matches!(poll.step(1010, None), PollStep::Sleep(10)));
    assert!(matches!(poll.step(1020, None), PollStep::Sleep(20)));
    assert!(matches!(poll.step(1040, Some(String::new())), PollStep::Sleep(40)));

    // Whitespace-only capture fails the attempt.
    let mut poll2 = SelectionPoll::new(1000, 500);
    assert!(matches!(
        poll2.step(1010, Some("   ".to_string())),
        PollStep::Fail(SelectionError::OnlyWhitespace)
    ));

    // A real capture comes back untrimmed.
    let mut poll3 = SelectionPoll::new(1000, 500);
    match poll3.step(1010, Some(" chosen text ".to_string())) {
        PollStep::Done(t) => assert_eq!(t, " chosen text "),
        _ => panic!("expected the captured text"),
    }

    // Past the deadline the attempt times out with the configured timeout.
    let mut poll4 = SelectionPoll::new(1000, 500);
    assert!(matches!(
        poll4.step(1501, None),
        PollStep::Fail(SelectionError::ClipboardTimeout(500))
    ));
}

#[test]
fn test_capture_event_mapping() {
    let validator = TextValidator::new(5000, 1250, 1);

    match capture_event(&validator, Err(SelectionError::NoSelection)) {
        TranslationEvent::ClipboardError(m) => {
            assert_eq!(m, "Please select some text first");
        }
        _ => panic!("expected a clipboard complaint"),
    }

    match capture_event(&validator, Ok("  bonjour  ".to_string())) {
        TranslationEvent::TranslateRequest(t) => assert_eq!(t, "bonjour"),
        _ => panic!("expected a translate request"),
    }

    let tight = TextValidator::new(3, 1250, 1);
    match capture_event(&tight, Ok("too long for this".to_string())) {
        TranslationEvent::ValidationError(m) => {
            assert_eq!(m, "Text is too long: 17 characters (max: 3)");
        }
        _ => panic!("expected a validation complaint"),
    }
}

#[test]
fn handlers_test_text_splitting() {
    let validator = TextValidator::new(5000, 1250, 1);
    let long_text = "a".repeat(10000);
    let chunks = validator.split_text(&long_text);

    assert!(chunks.len() > 1);
    for chunk in chunks {
        assert!(chunk.len() <= 5000); // Default max length
    }
}

#[test]
fn test_should_auto_split() {
    assert!(should_auto_split(true, 5, "123456"));
    assert!(!should_auto_split(true, 6, "123456"));
    assert!(!should_auto_split(false, 5, "123456"));
}

#[test]
fn test_response_accessors() {
    let response = ChatCompletionResponse {
        id: "chatcmpl-123".to_string(),
        object: "chat.completion".to_string(),
        created: 1677652288,
        model: "gpt-4.1-nano".to_string(),
        choices: vec![ChatChoice {
            index: 0,
            message: ChatMessageResponse {
                role: "assistant".to_string(),
                content: "Привет, мир".to_string(),
            },
            finish_reason: "stop".to_string(),
        }],
        usage: Usage {
            prompt_tokens: 10,
            completion_tokens: 5,
            total_tokens: 15,
        },
        system_fingerprint: None,
    };
    assert_eq!(response.get_content(), Some("Привет, мир"));
    assert!(response.is_complete());
    assert_eq!(response.usage.total_tokens, 15);

    let empty = ChatCompletionResponse {
        id: String::new(),
        object: String::new(),
        created: 0,
        model: String::new(),
        choices: Vec::new(),
        usage: Usage {
            prompt_tokens: 0,
            completion_tokens: 0,
            total_tokens: 0,
        },
        system_fingerprint: None,
    };
    assert_eq!(empty.get_content(), None);
    assert!(!empty.is_complete());
}

#[test]
fn test_chat_message_constructors() {
    assert!(matches!(
        ChatMessage::system("be terse"),
        ChatMessage::System { content } if content == "be terse"
    ));
    assert!(matches!(
        ChatMessage::user("hello"),
        ChatMessage::User { content } if content == "hello"
    ));
    assert!(matches!(
        ChatMessage::assistant("hi"),
        ChatMessage::Assistant { content } if content == "hi"
    ));
}
