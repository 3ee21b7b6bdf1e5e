use llm_translator::llm::text_splitter::TextSplitter;
use llm_translator::llm::text_splitter::TranslatedChunk;

#[test]
fn test_no_split_needed() {
    let splitter = TextSplitter::new(1000);
    let text = "Hello, world!";
    let chunks = splitter.split_for_translation(text);

    assert_eq!(chunks.len(), 1);
    assert_eq!(chunks[0].text, text);
    assert_eq!(chunks[0].index, 0);
    assert!(!chunks[0].is_continuation);
}

#[test]
fn test_split_at_sentence_boundary() {
    let splitter = TextSplitter::new(50);
    let text = "This is the first sentence. This is the second sentence. This is the third.";
    let chunks = splitter.split_for_translation(text);

    assert!(chunks.len() > 1);
    // First chunk should end at a sentence boundary
    assert!(chunks[0].text.ends_with('.') || chunks[0].text.ends_with(". "));
}

#[test]
fn test_split_with_overlap() {
    let splitter = TextSplitter::new(100);
    let text = "A".repeat(250); // Long text that needs splitting
    let chunks = splitter.split_for_translation(&text);

    assert_eq!(chunks.len(), 3);
    assert!(chunks[1].is_continuation);
    assert!(chunks[2].is_continuation);
    assert_eq!(chunks[1].overlap_start, 50);
}

#[test]
fn test_merge_translations() {
    let splitter = TextSplitter::new(100);

    let translated_chunks = vec![
        TranslatedChunk {
            index: 0,
            translated_text: "Первая часть текста.".to_string(),
            overlap_start: 0,
        },
        TranslatedChunk {
            index: 1,
            translated_text: "текста. Вторая часть текста.".to_string(),
            overlap_start: 7,
        },
    ];

    let merged = splitter.merge_translations(translated_chunks);
    assert!(merged.contains("Первая часть текста."));
    assert!(merged.contains("Вторая часть текста."));
    // Should not duplicate "текста."
    assert_eq!(merged.matches("текста.").count(), 2);
}

#[test]
fn text_splitter_test_unicode_splitting() {
    let splitter = TextSplitter::new(10);
    let text = "Привет, мир! Как дела? 你好世界！";
    let chunks = splitter.split_for_translation(text);

    // Should split but preserve complete characters
    assert!(chunks.len() > 1);
    for chunk in chunks {
        // Ensure no broken Unicode sequences
        assert!(chunk.text.is_char_boundary(0));
        assert!(chunk.text.is_char_boundary(chunk.text.len()));
    }
}

#[test]
fn test_emoji_boundaries_stay_whole() {
    let splitter = TextSplitter::new(4);
    let text = "🌍🌎🌏❤️🌍🌎🌏❤️👍👍";
    let chunks = splitter.split_for_translation(text);

    assert!(chunks.len() > 1);
    let mut seen = 0;
    for chunk in &chunks {
        assert!(chunk.text.is_char_boundary(0));
        assert!(chunk.text.is_char_boundary(chunk.text.len()));
        seen += chunk.text.chars().count();
    }
    // Overlapping chunks re-read characters but never fractions of one.
    assert!(seen >= text.chars().count());
}

#[test]
fn test_single_chunk_round_trip() {
    let splitter = TextSplitter::new(100);
    let text = "Ein kurzer Text, der ganz hineinpasst.";
    let chunks = splitter.split_for_translation(text);
    assert_eq!(chunks.len(), 1);

    let translated: Vec<TranslatedChunk> = chunks
        .into_iter()
        .map(|c| TranslatedChunk {
            index: c.index,
            translated_text: c.text,
            overlap_start: c.overlap_start,
        })
        .collect();
    let merged = splitter.merge_translations(translated);
    assert_eq!(merged, text);
}

#[test]
fn test_merge_inserts_single_space_at_seam() {
    let splitter = TextSplitter::new(100);
    let translated_chunks = vec![
        TranslatedChunk {
            index: 0,
            translated_text: "left".to_string(),
            overlap_start: 0,
        },
        TranslatedChunk {
            index: 1,
            translated_text: "right".to_string(),
            overlap_start: 0,
        },
    ];
    let merged = splitter.merge_translations(translated_chunks);
    assert_eq!(merged, "left right");
}

#[test]
fn test_merge_empty_input() {
    let splitter = TextSplitter::new(100);
    let merged = splitter.merge_translations(Vec::new());
    assert_eq!(merged, "");
}
