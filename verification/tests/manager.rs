use llm_translator::config::PromptSettings;
use llm_translator::llm::api_types::ChatMessage;
use llm_translator::llm::manager::ChunkPlan;
use llm_translator::llm::manager::RequestPriority;
use llm_translator::llm::manager::TranslationEvent;
use llm_translator::llm::manager::TranslationManager;
use llm_translator::llm::manager::TranslationRequest;
use llm_translator::llm::text_splitter::TextSplitter;
use llm_translator::validation::limits::RateLimiter;

fn request(id: &str, text: &str, priority: RequestPriority) -> TranslationRequest {
    TranslationRequest {
        id: id.to_string(),
        text: text.to_string(),
        prompt_preset: "general".to_string(),
        priority,
        created_at_ms: 0,
    }
}

#[test]
fn test_request_priority_ordering() {
    let rate_limiter = RateLimiter::new(10, 100);
    let mut manager = TranslationManager::new(rate_limiter);

    // Add requests with different priorities
    manager.enqueue_request(request("1", "test", RequestPriority::Low));
    manager.enqueue_request(request("2", "test", RequestPriority::High));
    manager.enqueue_request(request("3", "test", RequestPriority::Normal));

    // High priority should be first
    let next = manager.get_next_request().unwrap();
    assert_eq!(next.id, "2");

    // Normal priority should be second
    let next = manager.get_next_request().unwrap();
    assert_eq!(next.id, "3");

    // Low priority should be last
    let next = manager.get_next_request().unwrap();
    assert_eq!(next.id, "1");
}

#[test]
fn test_cache_key_generation() {
    let manager = TranslationManager::new(RateLimiter::new(10, 100));

    let key1 = manager.cache_key("Hello world", "general");
    let key2 = manager.cache_key("Hello world", "formal");
    let key3 = manager.cache_key("Different text", "general");

    // Same text, different preset = different keys
    assert_ne!(key1, key2);

    // Different text, same preset = different keys
    assert_ne!(key1, key3);

    // Same inputs = same key
    let key4 = manager.cache_key("Hello world", "general");
    assert_eq!(key1, key4);
}

#[test]
fn test_duplicate_submission_shares_one_call() {
    let mut manager = TranslationManager::new(RateLimiter::new(10, 100));

    let first = manager.translate_at(
        "hello world".to_string(),
        "general".to_string(),
        RequestPriority::Normal,
        "id1".to_string(),
        1000,
    );
    assert_eq!(first, Ok("id1".to_string()));
    assert_eq!(manager.get_stats().queued, 1);

    // The same text while the first is pending: no second queue entry.
    let second = manager.translate_at(
        "hello world".to_string(),
        "general".to_string(),
        RequestPriority::Normal,
        "id2".to_string(),
        1001,
    );
    assert_eq!(second, Err("Request deduplicated".to_string()));
    assert_eq!(manager.get_stats().queued, 1);

    // Dispatch the one request and settle it.
    let req = manager.get_next_request_at(1002).unwrap();
    assert_eq!(req.id, "id1");
    manager.complete_request(req, "bonjour le monde".to_string(), 12, 250, 2000);

    // Both submissions resolve to the same result.
    let events = manager.take_events();
    let mut completed: Vec<(String, String)> = Vec::new();
    for e in events {
        match e {
            TranslationEvent::Completed(res) => {
                completed.push((res.request_id, res.translated_text));
            }
            _ => panic!("expected only Completed events"),
        }
    }
    assert_eq!(completed.len(), 2);
    assert_eq!(completed[0], ("id1".to_string(), "bonjour le monde".to_string()));
    assert_eq!(completed[1], ("id2".to_string(), "bonjour le monde".to_string()));
}

#[test]
fn test_cached_pair_resolves_without_queueing() {
    let mut manager = TranslationManager::new(RateLimiter::new(10, 100));

    manager
        .translate_at(
            "guten tag".to_string(),
            "general".to_string(),
            RequestPriority::Normal,
            "id1".to_string(),
            1000,
        )
        .unwrap();
    let req = manager.get_next_request_at(1001).unwrap();
    manager.complete_request(req, "good day".to_string(), 4, 90, 1500);
    let _ = manager.take_events();

    // Within the TTL, the same pair is answered from the cache alone.
    let hit = manager.translate_at(
        "guten tag".to_string(),
        "general".to_string(),
        RequestPriority::Normal,
        "id2".to_string(),
        200_000,
    );
    assert_eq!(hit, Ok("good day".to_string()));
    assert_eq!(manager.get_stats().queued, 0);
    assert!(manager.take_events().is_empty());

    // Past the five-minute TTL the entry no longer answers.
    let miss = manager.translate_at(
        "guten tag".to_string(),
        "general".to_string(),
        RequestPriority::Normal,
        "id3".to_string(),
        1500 + 300_000,
    );
    assert_eq!(miss, Ok("id3".to_string()));
    assert_eq!(manager.get_stats().queued, 1);
}

#[test]
fn test_cancel_queued_request() {
    let mut manager = TranslationManager::new(RateLimiter::new(10, 100));
    manager
        .translate_at(
            "abc".to_string(),
            "general".to_string(),
            RequestPriority::Normal,
            "id1".to_string(),
            1000,
        )
        .unwrap();
    assert_eq!(manager.get_stats().queued, 1);

    // Cancelling removes it from the queue and emits exactly one event.
    assert!(manager.cancel("id1"));
    assert_eq!(manager.get_stats().queued, 0);
    let events = manager.take_events();
    assert_eq!(events.len(), 1);
    assert!(matches!(
        &events[0],
        TranslationEvent::Cancelled { request_id } if request_id == "id1"
    ));

    // An unknown id returns false and emits nothing.
    assert!(!manager.cancel("missing"));
    assert!(manager.take_events().is_empty());
}

#[test]
fn test_rate_limited_request_requeues_at_front_of_band() {
    let mut manager = TranslationManager::new(RateLimiter::new(10, 100));
    manager.enqueue_request(request("a", "one", RequestPriority::Normal));
    manager.enqueue_request(request("b", "two", RequestPriority::Normal));

    let first = manager.get_next_request_at(1000).unwrap();
    assert_eq!(first.id, "a");

    // A throttled dispatch goes back before its band, not behind it.
    manager.requeue_rate_limited(first, 30000);
    let events = manager.take_events();
    assert_eq!(events.len(), 1);
    assert!(matches!(
        &events[0],
        TranslationEvent::RateLimited { request_id, wait_time_ms }
            if request_id == "a" && *wait_time_ms == 30000
    ));

    let again = manager.get_next_request_at(1001).unwrap();
    assert_eq!(again.id, "a");
}

#[test]
fn test_failed_request_fans_out_to_followers() {
    let mut manager = TranslationManager::new(RateLimiter::new(10, 100));
    manager
        .translate_at(
            "fail me".to_string(),
            "general".to_string(),
            RequestPriority::Normal,
            "id1".to_string(),
            1000,
        )
        .unwrap();
    let _ = manager.translate_at(
        "fail me".to_string(),
        "general".to_string(),
        RequestPriority::Normal,
        "id2".to_string(),
        1001,
    );
    let req = manager.get_next_request_at(1002).unwrap();
    manager.fail_request(req, "Service unavailable".to_string());

    let events = manager.take_events();
    assert_eq!(events.len(), 2);
    assert!(matches!(
        &events[0],
        TranslationEvent::Failed { request_id, error }
            if request_id == "id1" && error == "Service unavailable"
    ));
    assert!(matches!(
        &events[1],
        TranslationEvent::Failed { request_id, error }
            if request_id == "id2" && error == "Service unavailable"
    ));
    assert_eq!(manager.get_stats().active, 0);
}

#[test]
fn test_admission_denied_keeps_queue() {
    let mut manager = TranslationManager::new(RateLimiter::new(1, 100));
    manager.enqueue_request(request("a", "one", RequestPriority::Normal));
    manager.enqueue_request(request("b", "two", RequestPriority::Normal));

    let t0: u64 = 1_000_000;
    let first = manager.get_next_request_at(t0);
    assert!(first.is_some());
    // The window is full: nothing is dequeued on a denied tick.
    let denied = manager.get_next_request_at(t0 + 1);
    assert!(denied.is_none());
    assert_eq!(manager.get_stats().queued, 1);
}

#[test]
fn test_build_api_request_uses_preset() {
    let prompts = PromptSettings::default();
    let req = request("id9", "salut", RequestPriority::Normal);
    let plan = TranslationManager::build_api_request(&prompts, "gpt-4.1-nano", &req).unwrap();
    assert_eq!(plan.model, "gpt-4.1-nano");
    assert_eq!(plan.user, "id9");
    assert_eq!(plan.messages.len(), 2);
    assert!(matches!(&plan.messages[0], ChatMessage::System { .. }));
    assert!(matches!(
        &plan.messages[1],
        ChatMessage::User { content } if content == "salut"
    ));

    let req = request("id9", "salut", RequestPriority::Normal);
    let missing = TranslationManager::build_api_request(
        &prompts,
        "gpt-4.1-nano",
        &TranslationRequest { prompt_preset: "nope".to_string(), ..req },
    );
    match missing {
        Err(m) => assert_eq!(m, "Prompt preset 'nope' not found"),
        Ok(_) => panic!("expected an unknown-preset error"),
    }
}

#[test]
fn test_sweep_cache_drops_expired_entries() {
    let mut manager = TranslationManager::new(RateLimiter::new(10, 100));
    manager
        .translate_at(
            "old".to_string(),
            "general".to_string(),
            RequestPriority::Normal,
            "id1".to_string(),
            1000,
        )
        .unwrap();
    let req = manager.get_next_request_at(1001).unwrap();
    manager.complete_request(req, "alt".to_string(), 1, 10, 1000);
    assert_eq!(manager.get_stats().cached, 1);

    manager.sweep_cache_at(1000 + 400_000);
    assert_eq!(manager.get_stats().cached, 0);
}

#[test]
fn test_chunk_plan_drives_chunks_in_order() {
    let splitter = TextSplitter::new(100);
    let text = "A".repeat(250);
    let mut plan = ChunkPlan::new(&splitter, &text);

    let mut sent = 0;
    loop {
        let chunk_text = match plan.next_chunk() {
            Some(c) => c.text.clone(),
            None => break,
        };
        plan.record_translation(chunk_text, 10);
        sent += 1;
    }
    assert_eq!(sent, 3);
    assert!(plan.is_complete());
    let (merged, tokens) = plan.merge(&splitter);
    assert_eq!(tokens, 30);
    assert!(!merged.is_empty());
}

#[test]
fn test_translate_generates_request_ids() {
    let mut manager = TranslationManager::new(RateLimiter::new(10, 100));
    let r = manager
        .translate(
            "some text".to_string(),
            "general".to_string(),
            RequestPriority::default(),
        )
        .unwrap();
    assert!(r.starts_with("req_"));
    assert_eq!(manager.get_stats().queued, 1);
}
