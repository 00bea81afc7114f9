//! Tests of entry-point validation, the worker envelope builders, the text
//! preparation routines and the toy generator.

use symbiont_bus::envelopes::{
    GenerateTextTask, SemanticSearchApiRequest, SentenceEmbedding, TextWithEmbeddingsMessage,
};
use symbiont_bus::ingest::{
    prepare_url_submission, validate_generate_text_task, validate_search_request, ValidationError,
};
use symbiont_bus::markov::MarkovModel;
use symbiont_bus::runtime::{chars_to_string, generate_uuid, str_to_chars};
use symbiont_bus::textproc::{clean_whitespace, split_sentences, split_words, trim_str};
use symbiont_bus::workers::{
    build_generated_text_message, build_point_payloads, build_query_embedding_reply,
    build_raw_text_message, build_search_reply, build_text_with_embeddings,
};

#[test]
fn url_is_trimmed_before_publish() {
    let task = prepare_url_submission(" http://x.test ").unwrap();
    assert_eq!(task.url, "http://x.test");
}

#[test]
fn empty_and_whitespace_urls_are_rejected() {
    assert_eq!(prepare_url_submission(""), Err(ValidationError::EmptyUrl));
    assert_eq!(
        prepare_url_submission(" \t\n "),
        Err(ValidationError::EmptyUrl)
    );
}

#[test]
fn max_length_zero_is_rejected_and_one_thousand_accepted() {
    let rejected = GenerateTextTask {
        task_id: "t1".to_string(),
        prompt: None,
        max_length: 0,
    };
    assert_eq!(
        validate_generate_text_task(&rejected),
        Err(ValidationError::MaxLengthOutOfRange)
    );
    let too_long = GenerateTextTask {
        task_id: "t1".to_string(),
        prompt: None,
        max_length: 1001,
    };
    assert_eq!(
        validate_generate_text_task(&too_long),
        Err(ValidationError::MaxLengthOutOfRange)
    );
    let accepted = GenerateTextTask {
        task_id: "t1".to_string(),
        prompt: None,
        max_length: 1000,
    };
    assert!(validate_generate_text_task(&accepted).is_ok());
}

#[test]
fn blank_task_id_is_rejected() {
    let task = GenerateTextTask {
        task_id: "  ".to_string(),
        prompt: None,
        max_length: 5,
    };
    assert_eq!(
        validate_generate_text_task(&task),
        Err(ValidationError::EmptyTaskId)
    );
}

#[test]
fn zero_top_k_is_rejected() {
    let req = SemanticSearchApiRequest {
        query_text: "q".to_string(),
        top_k: 0,
    };
    assert_eq!(
        validate_search_request(&req),
        Err(ValidationError::TopKZero)
    );
    let ok = SemanticSearchApiRequest {
        query_text: "q".to_string(),
        top_k: 1,
    };
    assert!(validate_search_request(&ok).is_ok());
}

#[test]
fn empty_scrape_is_not_published() {
    assert!(build_raw_text_message(
        "id-1".to_string(),
        "http://x.test".to_string(),
        String::new(),
        1,
    )
    .is_none());
    let msg = build_raw_text_message(
        "id-1".to_string(),
        "http://x.test".to_string(),
        "body text".to_string(),
        7,
    )
    .unwrap();
    assert_eq!(msg.id, "id-1");
    assert_eq!(msg.source_url, "http://x.test");
    assert_eq!(msg.raw_text, "body text");
    assert_eq!(msg.timestamp_ms, 7);
}

#[test]
fn generated_message_echoes_task_id() {
    let task = GenerateTextTask {
        task_id: "t42".to_string(),
        prompt: None,
        max_length: 4,
    };
    let msg = build_generated_text_message(&task, "some words".to_string(), 99);
    assert_eq!(msg.original_task_id, "t42");
    assert_eq!(msg.generated_text, "some words");
    assert_eq!(msg.timestamp_ms, 99);
}

#[test]
fn embedding_reply_sets_exactly_one_of_vector_and_error() {
    let ok = build_query_embedding_reply(
        "r1".to_string(),
        "test-model-v1".to_string(),
        Ok(vec![0.5f32.to_bits()]),
    );
    assert_eq!(ok.request_id, "r1");
    assert_eq!(ok.embedding, Some(vec![0.5f32.to_bits()]));
    assert!(ok.error_message.is_none());
    assert_eq!(ok.model_name, Some("test-model-v1".to_string()));

    let err = build_query_embedding_reply(
        "r2".to_string(),
        "test-model-v1".to_string(),
        Err("no embedding".to_string()),
    );
    assert!(err.embedding.is_none());
    assert_eq!(err.error_message, Some("no embedding".to_string()));
}

#[test]
fn search_reply_is_empty_on_error() {
    let err = build_search_reply("r3".to_string(), Err("store down".to_string()));
    assert_eq!(err.request_id, "r3");
    assert!(err.results.is_empty());
    assert_eq!(err.error_message, Some("store down".to_string()));
}

#[test]
fn point_payloads_carry_provenance_in_order() {
    let msg = TextWithEmbeddingsMessage {
        original_id: "doc-9".to_string(),
        source_url: "http://x.test".to_string(),
        embeddings_data: vec![
            SentenceEmbedding {
                sentence_text: "First.".to_string(),
                embedding: vec![1],
            },
            SentenceEmbedding {
                sentence_text: "Second.".to_string(),
                embedding: vec![2],
            },
        ],
        model_name: "test-model-v1".to_string(),
        timestamp_ms: 55,
    };
    let payloads = build_point_payloads(&msg);
    assert_eq!(payloads.len(), 2);
    assert_eq!(payloads[0].sentence_order, 0);
    assert_eq!(payloads[1].sentence_order, 1);
    assert_eq!(payloads[1].sentence_text, "Second.");
    assert_eq!(payloads[1].original_document_id, "doc-9");
    assert_eq!(payloads[1].source_url, "http://x.test");
    assert_eq!(payloads[1].model_name, "test-model-v1");
    assert_eq!(payloads[1].processed_at_ms, 55);
}

#[test]
fn text_with_embeddings_requires_matching_counts() {
    let mismatch = build_text_with_embeddings(
        "doc".to_string(),
        "http://x.test".to_string(),
        vec!["One.".to_string(), "Two.".to_string()],
        vec![vec![1]],
        "m".to_string(),
        1,
    );
    assert!(mismatch.is_err());
    let empty = build_text_with_embeddings(
        "doc".to_string(),
        "http://x.test".to_string(),
        vec![],
        vec![],
        "m".to_string(),
        1,
    );
    assert!(empty.is_err());
    let ok = build_text_with_embeddings(
        "doc".to_string(),
        "http://x.test".to_string(),
        vec!["One.".to_string()],
        vec![vec![3, 4]],
        "m".to_string(),
        1,
    )
    .unwrap();
    assert_eq!(ok.embeddings_data.len(), 1);
    assert_eq!(ok.embeddings_data[0].sentence_text, "One.");
    assert_eq!(ok.embeddings_data[0].embedding, vec![3, 4]);
}

#[test]
fn whitespace_is_collapsed() {
    assert_eq!(clean_whitespace("  hello \t world \n"), "hello world");
    assert_eq!(clean_whitespace(""), "");
    assert_eq!(clean_whitespace(" \t "), "");
    assert_eq!(clean_whitespace("solo"), "solo");
}

#[test]
fn sentences_split_on_terminators() {
    let got = split_sentences("One. Two? Three! And the rest");
    assert_eq!(got, vec!["One.", "Two?", "Three!", "And the rest"]);
    let fallback = split_sentences("no terminator here");
    assert_eq!(fallback, vec!["no terminator here"]);
    let empty: Vec<String> = split_sentences("");
    assert!(empty.is_empty());
}

#[test]
fn words_split_on_whitespace() {
    let got = split_words(" a  bb\tccc ");
    assert_eq!(got, vec!["a", "bb", "ccc"]);
    let none: Vec<String> = split_words("   ");
    assert!(none.is_empty());
}

#[test]
fn trimming_strips_both_ends() {
    assert_eq!(trim_str("  x y  "), "x y");
    assert_eq!(trim_str(""), "");
    assert_eq!(trim_str("xy"), "xy");
}

#[test]
fn markov_generation_is_deterministic_given_draws() {
    let mut model = MarkovModel::new();
    model.train("a b a c");
    // chain: a -> [b, c], b -> [a]; starters: [a]
    let picks = vec![0u64, 0, 0];
    let text = model.generate_seeded(3, &picks);
    assert_eq!(text, "a b a");
    let picks2 = vec![0u64, 1, 0];
    let text2 = model.generate_seeded(3, &picks2);
    assert_eq!(text2, "a c");
    let untrained = MarkovModel::new();
    assert_eq!(untrained.generate_seeded(3, &picks), "Model not trained.");
}

#[test]
fn markov_starters_stay_unique() {
    let mut model = MarkovModel::new();
    model.train("x y");
    model.train("x z");
    assert_eq!(model.starters.len(), 1);
    assert_eq!(model.starters[0], "x");
    let generated = model.generate(5);
    assert!(generated.starts_with("x"));
}

#[test]
fn uuid_wrapper_yields_hyphenated_ids() {
    let id = generate_uuid();
    assert_eq!(id.chars().count(), 36);
    let other = generate_uuid();
    assert_eq!(other.chars().count(), 36);
}

#[test]
fn char_string_conversions_round_trip() {
    let v = str_to_chars("grüße, 世界");
    assert_eq!(v.len(), 9);
    let s = chars_to_string(&v);
    assert_eq!(s, "grüße, 世界");
}
