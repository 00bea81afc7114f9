//! Scenario tests of the correlator, the orchestrator, the dispatch loop
//! and the broadcast bridge.

use symbiont_bus::bridge::{bridge_reencode, BridgeRecv, BroadcastBuffer};
use symbiont_bus::correlator::{
    correlate_embedding_reply, correlate_search_reply, QueryError, RawReply,
};
use symbiont_bus::dispatch::DispatchLog;
use symbiont_bus::envelopes::{
    GenerateTextTask, QdrantPointPayload, QueryEmbeddingResult, SemanticSearchNatsResult,
    SemanticSearchResultItem,
};
use symbiont_bus::orchestrator::{
    into_response, on_embedding_reply, on_search_reply, start_search, OrchestrationPhase,
    EMBEDDING_HOP_DEADLINE_MS, SEARCH_HOP_DEADLINE_MS,
};
use symbiont_bus::wire::{
    encode_generate_text_task, encode_generated_text_message, encode_query_embedding_result,
    encode_semantic_search_nats_result,
};
use symbiont_bus::envelopes::GeneratedTextMessage;

fn ok_embedding_reply(request_id: &str) -> Vec<char> {
    encode_query_embedding_result(&QueryEmbeddingResult {
        request_id: request_id.to_string(),
        embedding: Some(vec![0.5f32.to_bits(), 0.25f32.to_bits()]),
        model_name: Some("test-model-v1".to_string()),
        error_message: None,
    })
}

#[test]
fn correlator_accepts_reply_just_before_deadline() {
    let payload = ok_embedding_reply("r1");
    let outcome = correlate_embedding_reply(
        EMBEDDING_HOP_DEADLINE_MS,
        Some(RawReply::ArrivedAt(EMBEDDING_HOP_DEADLINE_MS - 1, payload)),
    );
    let reply = outcome.unwrap();
    assert_eq!(reply.request_id, "r1");
    assert_eq!(
        reply.embedding,
        Some(vec![0.5f32.to_bits(), 0.25f32.to_bits()])
    );
}

#[test]
fn correlator_times_out_at_and_after_deadline() {
    let payload = ok_embedding_reply("r1");
    let at_deadline = correlate_embedding_reply(
        EMBEDDING_HOP_DEADLINE_MS,
        Some(RawReply::ArrivedAt(EMBEDDING_HOP_DEADLINE_MS, payload.clone())),
    );
    assert_eq!(at_deadline.unwrap_err(), QueryError::Timeout);
    let after = correlate_embedding_reply(
        EMBEDDING_HOP_DEADLINE_MS,
        Some(RawReply::ArrivedAt(EMBEDDING_HOP_DEADLINE_MS + 1, payload)),
    );
    assert_eq!(after.unwrap_err(), QueryError::Timeout);
    let never = correlate_embedding_reply(EMBEDDING_HOP_DEADLINE_MS, None);
    assert_eq!(never.unwrap_err(), QueryError::Timeout);
}

#[test]
fn correlator_distinguishes_failure_kinds() {
    let transport = correlate_embedding_reply(
        1000,
        Some(RawReply::TransportFailed("connection reset".to_string())),
    );
    assert_eq!(
        transport.unwrap_err(),
        QueryError::Transport("connection reset".to_string())
    );
    let garbage: Vec<char> = "nope".chars().collect();
    let decode = correlate_embedding_reply(1000, Some(RawReply::ArrivedAt(10, garbage)));
    assert_eq!(decode.unwrap_err(), QueryError::DecodeFailure);
    let remote_payload = encode_query_embedding_result(&QueryEmbeddingResult {
        request_id: "r2".to_string(),
        embedding: None,
        model_name: Some("test-model-v1".to_string()),
        error_message: Some("model exploded".to_string()),
    });
    let remote = correlate_embedding_reply(1000, Some(RawReply::ArrivedAt(10, remote_payload)));
    assert_eq!(
        remote.unwrap_err(),
        QueryError::RemoteError("model exploded".to_string())
    );
}

#[test]
fn orchestrator_embedding_timeout_short_circuits() {
    let (o, task) = start_search("req-1".to_string(), "what is a bus".to_string(), 5);
    assert_eq!(task.request_id, "req-1");
    assert_eq!(task.text_to_embed, "what is a bus");
    let (o, search_task) = on_embedding_reply(o, Err(QueryError::Timeout));
    assert!(search_task.is_none(), "no search publish after embedding failure");
    let response = into_response(o);
    assert_eq!(response.search_request_id, "req-1");
    assert!(response.results.is_empty());
    let message = response.error_message.unwrap();
    assert!(message.contains("embedding"));
    assert_eq!(
        message,
        "Timeout: Failed to get embedding from preprocessing service within 15 seconds"
    );
}

#[test]
fn orchestrator_success_returns_five_results_for_top_k_five() {
    let (o, _task) = start_search("req-2".to_string(), "five things".to_string(), 5);
    let embedding_reply = QueryEmbeddingResult {
        request_id: "req-2".to_string(),
        embedding: Some(vec![1.0f32.to_bits()]),
        model_name: Some("test-model-v1".to_string()),
        error_message: None,
    };
    let (o, search_task) = on_embedding_reply(o, Ok(embedding_reply));
    let search_task = search_task.unwrap();
    assert_eq!(search_task.request_id, "req-2");
    assert_eq!(search_task.top_k, 5);
    assert_eq!(search_task.query_embedding, vec![1.0f32.to_bits()]);

    let items: Vec<SemanticSearchResultItem> = (0..5)
        .map(|i| SemanticSearchResultItem {
            qdrant_point_id: format!("point-{}", i),
            score: (1.0f32 - (i as f32) * 0.1).to_bits(),
            payload: QdrantPointPayload {
                original_document_id: "doc".to_string(),
                source_url: "http://example.com".to_string(),
                sentence_text: "s".to_string(),
                sentence_order: i,
                model_name: "test-model-v1".to_string(),
                processed_at_ms: 7,
            },
        })
        .collect();
    let search_reply = SemanticSearchNatsResult {
        request_id: "req-2".to_string(),
        results: items,
        error_message: None,
    };
    let o = on_search_reply(o, Ok(search_reply));
    assert!(matches!(o.phase, OrchestrationPhase::Done(_)));
    let response = into_response(o);
    assert_eq!(response.search_request_id, "req-2");
    assert_eq!(response.results.len(), 5);
    assert!(response.error_message.is_none());
}

#[test]
fn orchestrator_search_failure_names_the_search_hop() {
    let (o, _task) = start_search("req-3".to_string(), "q".to_string(), 3);
    let embedding_reply = QueryEmbeddingResult {
        request_id: "req-3".to_string(),
        embedding: Some(vec![2.0f32.to_bits()]),
        model_name: None,
        error_message: None,
    };
    let (o, search_task) = on_embedding_reply(o, Ok(embedding_reply));
    assert!(search_task.is_some());
    let o = on_search_reply(o, Err(QueryError::Timeout));
    let response = into_response(o);
    assert_eq!(response.search_request_id, "req-3");
    assert!(response.results.is_empty());
    assert_eq!(
        response.error_message.unwrap(),
        "Timeout: Failed to get search results from vector memory service within 20 seconds"
    );
    assert!(SEARCH_HOP_DEADLINE_MS > EMBEDDING_HOP_DEADLINE_MS);
}

#[test]
fn orchestrator_missing_embedding_is_an_internal_error() {
    let (o, _task) = start_search("req-4".to_string(), "q".to_string(), 1);
    let contract_violation = QueryEmbeddingResult {
        request_id: "req-4".to_string(),
        embedding: None,
        model_name: Some("test-model-v1".to_string()),
        error_message: None,
    };
    let (o, search_task) = on_embedding_reply(o, Ok(contract_violation));
    assert!(search_task.is_none());
    let response = into_response(o);
    assert_eq!(
        response.error_message.unwrap(),
        "Preprocessing service did not return an embedding."
    );
}

#[test]
fn dispatch_processes_second_message_despite_unfinished_first() {
    let mut log = DispatchLog::new();
    let first = encode_generate_text_task(&GenerateTextTask {
        task_id: "a".to_string(),
        prompt: None,
        max_length: 10,
    });
    let second = encode_generate_text_task(&GenerateTextTask {
        task_id: "b".to_string(),
        prompt: None,
        max_length: 20,
    });
    let handed_a = log.step(&first).unwrap();
    // the handler for `a` is never run: the loop state does not hold it
    let handed_b = log.step(&second).unwrap();
    assert_eq!(handed_a.task_id, "a");
    assert_eq!(handed_b.task_id, "b");
    assert_eq!(log.spawned.len(), 2);
    assert_eq!(log.spawned[1].task_id, "b");
    assert_eq!(log.dropped, 0);
}

#[test]
fn dispatch_drops_malformed_payloads_and_goes_on() {
    let mut log = DispatchLog::new();
    let bad: Vec<char> = "{broken".chars().collect();
    assert!(log.step(&bad).is_none());
    assert_eq!(log.dropped, 1);
    let good = encode_generate_text_task(&GenerateTextTask {
        task_id: "c".to_string(),
        prompt: Some("p".to_string()),
        max_length: 3,
    });
    assert!(log.step(&good).is_some());
    assert_eq!(log.spawned.len(), 1);
}

#[test]
fn slow_subscriber_lags_and_resumes_fast_subscriber_unaffected() {
    let mut buf = BroadcastBuffer::new(2);
    let mut slow = buf.subscribe();
    let mut fast = buf.subscribe();

    buf.offer("m1".to_string());
    buf.offer("m2".to_string());

    // the fast subscriber keeps up
    assert!(matches!(buf.poll(&mut fast), BridgeRecv::Message(m) if m == "m1"));
    assert!(matches!(buf.poll(&mut fast), BridgeRecv::Message(m) if m == "m2"));

    // a third offer pushes m1 out of the window; the slow subscriber lagged
    buf.offer("m3".to_string());
    assert!(matches!(buf.poll(&mut fast), BridgeRecv::Message(m) if m == "m3"));
    assert!(matches!(buf.poll(&mut fast), BridgeRecv::Empty));

    match buf.poll(&mut slow) {
        BridgeRecv::Lagged(n) => assert_eq!(n, 1),
        other => panic!("expected a lag signal, got {:?}", other),
    }
    // after the lag signal the slow subscriber resumes with fresh events
    assert!(matches!(buf.poll(&mut slow), BridgeRecv::Message(m) if m == "m2"));
    assert!(matches!(buf.poll(&mut slow), BridgeRecv::Message(m) if m == "m3"));
    assert!(matches!(buf.poll(&mut slow), BridgeRecv::Empty));
}

#[test]
fn new_subscriber_sees_only_later_events() {
    let mut buf = BroadcastBuffer::new(8);
    buf.offer("old".to_string());
    let mut sub = buf.subscribe();
    assert!(matches!(buf.poll(&mut sub), BridgeRecv::Empty));
    buf.offer("new".to_string());
    assert!(matches!(buf.poll(&mut sub), BridgeRecv::Message(m) if m == "new"));
}

#[test]
fn bridge_reencodes_events_and_skips_garbage() {
    let msg = GeneratedTextMessage {
        original_task_id: "t9".to_string(),
        generated_text: "words".to_string(),
        timestamp_ms: 123,
    };
    let payload = encode_generated_text_message(&msg);
    let reencoded = bridge_reencode(&payload).unwrap();
    assert_eq!(reencoded, payload);
    let garbage: Vec<char> = "{\"oops\":1}".chars().collect();
    assert!(bridge_reencode(&garbage).is_none());
}

#[test]
fn search_correlator_surfaces_remote_error() {
    let remote_payload = encode_semantic_search_nats_result(&SemanticSearchNatsResult {
        request_id: "r".to_string(),
        results: vec![],
        error_message: Some("collection missing".to_string()),
    });
    let outcome = correlate_search_reply(100, Some(RawReply::ArrivedAt(10, remote_payload)));
    assert_eq!(
        outcome.unwrap_err(),
        QueryError::RemoteError("collection missing".to_string())
    );
}
