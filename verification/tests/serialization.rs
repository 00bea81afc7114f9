//! Round-trip tests of the envelope wire codec, one per envelope type.

use symbiont_bus::envelopes::{
    GenerateTextTask, GeneratedTextMessage, PerceiveUrlTask, QdrantPointPayload,
    QueryEmbeddingResult, QueryForEmbeddingTask, RawTextMessage, SemanticSearchApiRequest,
    SemanticSearchApiResponse, SemanticSearchNatsResult, SemanticSearchNatsTask,
    SemanticSearchResultItem, SentenceEmbedding, TextWithEmbeddingsMessage,
    TokenizedTextMessage,
};
use symbiont_bus::runtime::{current_timestamp_ms, generate_uuid};
use symbiont_bus::wire::{
    decode_generate_text_task, decode_generated_text_message, decode_perceive_url_task,
    decode_qdrant_point_payload, decode_query_embedding_result, decode_query_for_embedding_task,
    decode_raw_text_message, decode_semantic_search_api_request,
    decode_semantic_search_api_response, decode_semantic_search_nats_result,
    decode_semantic_search_nats_task, decode_semantic_search_result_item,
    decode_sentence_embedding, decode_text_with_embeddings_message, encode_generate_text_task,
    encode_generated_text_message, encode_perceive_url_task, encode_qdrant_point_payload,
    encode_query_embedding_result, encode_query_for_embedding_task, encode_raw_text_message,
    encode_semantic_search_api_request, encode_semantic_search_api_response,
    encode_semantic_search_nats_result, encode_semantic_search_nats_task,
    encode_semantic_search_result_item, encode_sentence_embedding,
    encode_text_with_embeddings_message, decode_tokenized_text_message,
    encode_tokenized_text_message,
};

#[test]
fn test_perceive_url_task_serialization() {
    let task = PerceiveUrlTask {
        url: "http://example.com".to_string(),
    };
    let serialized = encode_perceive_url_task(&task);
    let deserialized: PerceiveUrlTask = decode_perceive_url_task(&serialized).unwrap();
    assert_eq!(task.url, deserialized.url);
}

#[test]
fn test_raw_text_message_serialization() {
    let msg = RawTextMessage {
        id: "test-id".to_string(),
        source_url: "http://example.com".to_string(),
        raw_text: "Hello world".to_string(),
        timestamp_ms: current_timestamp_ms(),
    };
    let serialized = encode_raw_text_message(&msg);
    let deserialized: RawTextMessage = decode_raw_text_message(&serialized).unwrap();
    assert_eq!(msg.id, deserialized.id);
    assert_eq!(msg.raw_text, deserialized.raw_text);
}

#[test]
fn test_tokenized_text_message_serialization() {
    let msg = TokenizedTextMessage {
        original_id: "test-id".to_string(),
        source_url: "http://example.com".to_string(),
        tokens: vec!["Hello".to_string(), "world".to_string()],
        sentences: vec!["Hello world.".to_string()],
        timestamp_ms: current_timestamp_ms(),
    };
    let serialized = encode_tokenized_text_message(&msg);
    let deserialized: TokenizedTextMessage = decode_tokenized_text_message(&serialized).unwrap();
    assert_eq!(msg.original_id, deserialized.original_id);
    assert_eq!(msg.tokens.len(), 2);
}

#[test]
fn test_generate_text_task_serialization() {
    let task = GenerateTextTask {
        task_id: generate_uuid(),
        prompt: Some("Hello".to_string()),
        max_length: 50,
    };
    let serialized = encode_generate_text_task(&task);
    let deserialized: GenerateTextTask = decode_generate_text_task(&serialized).unwrap();
    assert_eq!(task.task_id, deserialized.task_id);
    assert_eq!(task.prompt, deserialized.prompt);
}

#[test]
fn test_generated_text_message_serialization() {
    let msg = GeneratedTextMessage {
        original_task_id: "test-id".to_string(),
        generated_text: "Hello world".to_string(),
        timestamp_ms: current_timestamp_ms(),
    };
    let serialized = encode_generated_text_message(&msg);
    let deserialized: GeneratedTextMessage = decode_generated_text_message(&serialized).unwrap();
    assert_eq!(msg.original_task_id, deserialized.original_task_id);
    assert_eq!(msg.generated_text, deserialized.generated_text);
}

#[test]
fn test_sentence_embedding_serialization() {
    let se = SentenceEmbedding {
        sentence_text: "This is a test sentence.".to_string(),
        embedding: vec![0.1f32.to_bits(), 0.2f32.to_bits(), 0.3f32.to_bits()],
    };
    let serialized = encode_sentence_embedding(&se);
    let deserialized: SentenceEmbedding = decode_sentence_embedding(&serialized).unwrap();
    assert_eq!(se.sentence_text, deserialized.sentence_text);
    assert_eq!(se.embedding, deserialized.embedding);
}

#[test]
fn test_text_with_embeddings_message_serialization() {
    let msg = TextWithEmbeddingsMessage {
        original_id: "doc-123".to_string(),
        source_url: "http://example.com".to_string(),
        embeddings_data: vec![
            SentenceEmbedding {
                sentence_text: "Sentence one.".to_string(),
                embedding: vec![0.1f32.to_bits(), 0.2f32.to_bits()],
            },
            SentenceEmbedding {
                sentence_text: "Sentence two.".to_string(),
                embedding: vec![0.3f32.to_bits(), 0.4f32.to_bits()],
            },
        ],
        model_name: "test-model-v1".to_string(),
        timestamp_ms: current_timestamp_ms(),
    };
    let serialized = encode_text_with_embeddings_message(&msg);
    let deserialized: TextWithEmbeddingsMessage =
        decode_text_with_embeddings_message(&serialized).unwrap();
    assert_eq!(msg.original_id, deserialized.original_id);
    assert_eq!(msg.embeddings_data.len(), 2);
    assert_eq!(msg.embeddings_data[0].sentence_text, "Sentence one.");
    assert_eq!(msg.model_name, deserialized.model_name);
}

#[test]
fn test_semantic_search_api_request_serialization() {
    let req = SemanticSearchApiRequest {
        query_text: "Hello world".to_string(),
        top_k: 10,
    };
    let serialized = encode_semantic_search_api_request(&req);
    let deserialized: SemanticSearchApiRequest =
        decode_semantic_search_api_request(&serialized).unwrap();
    assert_eq!(req.query_text, deserialized.query_text);
    assert_eq!(req.top_k, deserialized.top_k);
}

#[test]
fn test_query_for_embedding_task_serialization() {
    let task = QueryForEmbeddingTask {
        request_id: generate_uuid(),
        text_to_embed: "Hello world".to_string(),
    };
    let serialized = encode_query_for_embedding_task(&task);
    let deserialized: QueryForEmbeddingTask =
        decode_query_for_embedding_task(&serialized).unwrap();
    assert_eq!(task.request_id, deserialized.request_id);
    assert_eq!(task.text_to_embed, deserialized.text_to_embed);
}

#[test]
fn test_query_embedding_result_serialization() {
    let result = QueryEmbeddingResult {
        request_id: generate_uuid(),
        embedding: Some(vec![0.1f32.to_bits(), 0.2f32.to_bits(), 0.3f32.to_bits()]),
        model_name: Some("test-model-v1".to_string()),
        error_message: None,
    };
    let serialized = encode_query_embedding_result(&result);
    let deserialized: QueryEmbeddingResult =
        decode_query_embedding_result(&serialized).unwrap();
    assert_eq!(result.request_id, deserialized.request_id);
    assert_eq!(result.embedding, deserialized.embedding);
    assert_eq!(result.model_name, deserialized.model_name);
}

#[test]
fn test_qdrant_point_payload_serialization() {
    let payload = QdrantPointPayload {
        original_document_id: "doc-123".to_string(),
        source_url: "http://example.com".to_string(),
        sentence_text: "This is a test sentence.".to_string(),
        sentence_order: 1,
        model_name: "test-model-v1".to_string(),
        processed_at_ms: current_timestamp_ms(),
    };
    let serialized = encode_qdrant_point_payload(&payload);
    let deserialized: QdrantPointPayload = decode_qdrant_point_payload(&serialized).unwrap();
    assert_eq!(
        payload.original_document_id,
        deserialized.original_document_id
    );
    assert_eq!(payload.source_url, deserialized.source_url);
    assert_eq!(payload.sentence_text, deserialized.sentence_text);
    assert_eq!(payload.sentence_order, deserialized.sentence_order);
    assert_eq!(payload.model_name, deserialized.model_name);
    assert_eq!(payload.processed_at_ms, deserialized.processed_at_ms);
}

#[test]
fn test_semantic_search_nats_task_serialization() {
    let task = SemanticSearchNatsTask {
        request_id: generate_uuid(),
        query_embedding: vec![0.1f32.to_bits(), 0.2f32.to_bits(), 0.3f32.to_bits()],
        top_k: 10,
    };
    let serialized = encode_semantic_search_nats_task(&task);
    let deserialized: SemanticSearchNatsTask =
        decode_semantic_search_nats_task(&serialized).unwrap();
    assert_eq!(task.request_id, deserialized.request_id);
    assert_eq!(task.query_embedding, deserialized.query_embedding);
    assert_eq!(task.top_k, deserialized.top_k);
}

#[test]
fn test_semantic_search_result_item_serialization() {
    let item = SemanticSearchResultItem {
        qdrant_point_id: "point-123".to_string(),
        score: 0.5f32.to_bits(),
        payload: QdrantPointPayload {
            original_document_id: "doc-123".to_string(),
            source_url: "http://example.com".to_string(),
            sentence_text: "This is a test sentence.".to_string(),
            sentence_order: 1,
            model_name: "test-model-v1".to_string(),
            processed_at_ms: current_timestamp_ms(),
        },
    };
    let serialized = encode_semantic_search_result_item(&item);
    let deserialized: SemanticSearchResultItem =
        decode_semantic_search_result_item(&serialized).unwrap();
    assert_eq!(item.qdrant_point_id, deserialized.qdrant_point_id);
    assert_eq!(item.score, deserialized.score);
    assert_eq!(
        item.payload.original_document_id,
        deserialized.payload.original_document_id
    );
    assert_eq!(item.payload.source_url, deserialized.payload.source_url);
    assert_eq!(
        item.payload.sentence_text,
        deserialized.payload.sentence_text
    );
    assert_eq!(
        item.payload.sentence_order,
        deserialized.payload.sentence_order
    );
    assert_eq!(item.payload.model_name, deserialized.payload.model_name);
    assert_eq!(
        item.payload.processed_at_ms,
        deserialized.payload.processed_at_ms
    );
}

#[test]
fn test_semantic_search_nats_result_serialization() {
    let result = SemanticSearchNatsResult {
        request_id: generate_uuid(),
        results: vec![
            SemanticSearchResultItem {
                qdrant_point_id: "point-123".to_string(),
                score: 0.5f32.to_bits(),
                payload: QdrantPointPayload {
                    original_document_id: "doc-123".to_string(),
                    source_url: "http://example.com".to_string(),
                    sentence_text: "This is a test sentence.".to_string(),
                    sentence_order: 1,
                    model_name: "test-model-v1".to_string(),
                    processed_at_ms: current_timestamp_ms(),
                },
            },
            SemanticSearchResultItem {
                qdrant_point_id: "point-456".to_string(),
                score: 0.4f32.to_bits(),
                payload: QdrantPointPayload {
                    original_document_id: "doc-456".to_string(),
                    source_url: "http://example.com".to_string(),
                    sentence_text: "This is another test sentence.".to_string(),
                    sentence_order: 2,
                    model_name: "test-model-v1".to_string(),
                    processed_at_ms: current_timestamp_ms(),
                },
            },
        ],
        error_message: None,
    };

    let serialized = encode_semantic_search_nats_result(&result);
    let deserialized: SemanticSearchNatsResult =
        decode_semantic_search_nats_result(&serialized).unwrap();
    assert_eq!(result.request_id, deserialized.request_id);
    assert_eq!(result.results.len(), 2);
    assert_eq!(
        result.results[0].qdrant_point_id,
        deserialized.results[0].qdrant_point_id
    );
    assert_eq!(result.results[0].score, deserialized.results[0].score);
    assert_eq!(
        result.results[0].payload.original_document_id,
        deserialized.results[0].payload.original_document_id
    );
    assert_eq!(
        result.results[0].payload.source_url,
        deserialized.results[0].payload.source_url
    );
    assert_eq!(
        result.results[0].payload.sentence_text,
        deserialized.results[0].payload.sentence_text
    );
    assert_eq!(
        result.results[0].payload.sentence_order,
        deserialized.results[0].payload.sentence_order
    );
    assert_eq!(
        result.results[0].payload.model_name,
        deserialized.results[0].payload.model_name
    );
    assert_eq!(
        result.results[0].payload.processed_at_ms,
        deserialized.results[0].payload.processed_at_ms
    );
    assert_eq!(
        result.results[1].qdrant_point_id,
        deserialized.results[1].qdrant_point_id
    );
    assert_eq!(result.results[1].score, deserialized.results[1].score);
    assert_eq!(
        result.results[1].payload.original_document_id,
        deserialized.results[1].payload.original_document_id
    );
    assert_eq!(
        result.results[1].payload.source_url,
        deserialized.results[1].payload.source_url
    );
    assert_eq!(
        result.results[1].payload.sentence_text,
        deserialized.results[1].payload.sentence_text
    );
    assert_eq!(
        result.results[1].payload.sentence_order,
        deserialized.results[1].payload.sentence_order
    );
    assert_eq!(
        result.results[1].payload.model_name,
        deserialized.results[1].payload.model_name
    );
    assert_eq!(
        result.results[1].payload.processed_at_ms,
        deserialized.results[1].payload.processed_at_ms
    );
}

#[test]
fn test_semantic_search_api_response_serialization() {
    let response = SemanticSearchApiResponse {
        search_request_id: generate_uuid(),
        results: vec![
            SemanticSearchResultItem {
                qdrant_point_id: "point-123".to_string(),
                score: 0.5f32.to_bits(),
                payload: QdrantPointPayload {
                    original_document_id: "doc-123".to_string(),
                    source_url: "http://example.com".to_string(),
                    sentence_text: "This is a test sentence.".to_string(),
                    sentence_order: 1,
                    model_name: "test-model-v1".to_string(),
                    processed_at_ms: current_timestamp_ms(),
                },
            },
            SemanticSearchResultItem {
                qdrant_point_id: "point-456".to_string(),
                score: 0.4f32.to_bits(),
                payload: QdrantPointPayload {
                    original_document_id: "doc-456".to_string(),
                    source_url: "http://example.com".to_string(),
                    sentence_text: "This is another test sentence.".to_string(),
                    sentence_order: 2,
                    model_name: "test-model-v1".to_string(),
                    processed_at_ms: current_timestamp_ms(),
                },
            },
        ],
        error_message: None,
    };

    let serialized = encode_semantic_search_api_response(&response);
    let deserialized: SemanticSearchApiResponse =
        decode_semantic_search_api_response(&serialized).unwrap();
    assert_eq!(response.search_request_id, deserialized.search_request_id);
    assert_eq!(response.results.len(), 2);
    assert_eq!(
        response.results[0].qdrant_point_id,
        deserialized.results[0].qdrant_point_id
    );
    assert_eq!(response.results[0].score, deserialized.results[0].score);
    assert_eq!(
        response.results[0].payload.original_document_id,
        deserialized.results[0].payload.original_document_id
    );
    assert_eq!(
        response.results[0].payload.source_url,
        deserialized.results[0].payload.source_url
    );
    assert_eq!(
        response.results[0].payload.sentence_text,
        deserialized.results[0].payload.sentence_text
    );
    assert_eq!(
        response.results[0].payload.sentence_order,
        deserialized.results[0].payload.sentence_order
    );
    assert_eq!(
        response.results[0].payload.model_name,
        deserialized.results[0].payload.model_name
    );
    assert_eq!(
        response.results[0].payload.processed_at_ms,
        deserialized.results[0].payload.processed_at_ms
    );
    assert_eq!(
        response.results[1].qdrant_point_id,
        deserialized.results[1].qdrant_point_id
    );
    assert_eq!(response.results[1].score, deserialized.results[1].score);
    assert_eq!(
        response.results[1].payload.original_document_id,
        deserialized.results[1].payload.original_document_id
    );
    assert_eq!(
        response.results[1].payload.source_url,
        deserialized.results[1].payload.source_url
    );
    assert_eq!(
        response.results[1].payload.sentence_text,
        deserialized.results[1].payload.sentence_text
    );
    assert_eq!(
        response.results[1].payload.sentence_order,
        deserialized.results[1].payload.sentence_order
    );
    assert_eq!(
        response.results[1].payload.model_name,
        deserialized.results[1].payload.model_name
    );
    assert_eq!(
        response.results[1].payload.processed_at_ms,
        deserialized.results[1].payload.processed_at_ms
    );
}

#[test]
fn encoded_envelope_is_plain_json() {
    let task = PerceiveUrlTask {
        url: "http://x.test".to_string(),
    };
    let serialized = encode_perceive_url_task(&task);
    let text: String = serialized.iter().collect();
    assert_eq!(text, "{\"url\":\"http://x.test\"}");
}

#[test]
fn encoder_escapes_special_characters() {
    let task = PerceiveUrlTask {
        url: "a\"b\\c\nd\te\rf".to_string(),
    };
    let serialized = encode_perceive_url_task(&task);
    let text: String = serialized.iter().collect();
    assert_eq!(text, "{\"url\":\"a\\\"b\\\\c\\nd\\te\\rf\"}");
    let decoded = decode_perceive_url_task(&serialized).unwrap();
    assert_eq!(decoded.url, task.url);
}

#[test]
fn decode_rejects_malformed_payloads() {
    let garbage: Vec<char> = "not json at all".chars().collect();
    assert!(decode_perceive_url_task(&garbage).is_none());
    let truncated: Vec<char> = "{\"url\":\"http://x.test\"".chars().collect();
    assert!(decode_perceive_url_task(&truncated).is_none());
    let trailing: Vec<char> = "{\"url\":\"http://x.test\"}extra".chars().collect();
    assert!(decode_perceive_url_task(&trailing).is_none());
    let wrong_field: Vec<char> = "{\"uri\":\"http://x.test\"}".chars().collect();
    assert!(decode_perceive_url_task(&wrong_field).is_none());
}

#[test]
fn decode_rejects_out_of_range_numbers() {
    let too_big: Vec<char> =
        "{\"query_text\":\"q\",\"top_k\":4294967296}".chars().collect();
    assert!(decode_semantic_search_api_request(&too_big).is_none());
    let leading_zero: Vec<char> = "{\"query_text\":\"q\",\"top_k\":007}".chars().collect();
    assert!(decode_semantic_search_api_request(&leading_zero).is_none());
}

#[test]
fn u64_boundary_round_trips() {
    let msg = GeneratedTextMessage {
        original_task_id: "t".to_string(),
        generated_text: String::new(),
        timestamp_ms: u64::MAX,
    };
    let serialized = encode_generated_text_message(&msg);
    let deserialized = decode_generated_text_message(&serialized).unwrap();
    assert_eq!(deserialized.timestamp_ms, u64::MAX);
    let text: String = serialized.iter().collect();
    assert!(text.ends_with(":18446744073709551615}"));
}
