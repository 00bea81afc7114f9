//! The envelope-shaping decisions of the worker processes: what each worker
//! publishes or replies, as a function of its inputs and of what its
//! external collaborator (page fetcher, embedding model, vector store)
//! handed back. The collaborators themselves are out of scope; the shell
//! runs them and passes plain values in.

use vstd::prelude::*;

use crate::envelopes::{
    GenerateTextTask, GeneratedTextMessage, QdrantPointPayload, QueryEmbeddingResult,
    RawTextMessage, SemanticSearchNatsResult, SemanticSearchResultItem, SentenceEmbedding,
    TextWithEmbeddingsMessage, embeddings_view, items_view,
};

verus! {

/// The perception worker's decision after a page was fetched: a document
/// that yielded no text is not published; otherwise the raw-text envelope
/// carries the source URL, the fresh id and the producer timestamp.
pub fn build_raw_text_message(id: String, source_url: String, raw_text: String, timestamp_ms: u64)
    -> (r: Option<RawTextMessage>)
    ensures
        raw_text@.len() == 0 ==> r is None,
        raw_text@.len() > 0 ==> (r matches Some(m) && m@.id == id@ && m@.source_url == source_url@
            && m@.raw_text == raw_text@ && m@.timestamp_ms == timestamp_ms),
{
    if raw_text.as_str().is_empty() {
        None
    } else {
        Some(RawTextMessage { id, source_url, raw_text, timestamp_ms })
    }
}

/// The generation worker's result envelope: the task's correlation id is
/// propagated unchanged into `original_task_id`.
pub fn build_generated_text_message(
    task: &GenerateTextTask,
    generated_text: String,
    timestamp_ms: u64,
) -> (r: GeneratedTextMessage)
    ensures
        r@.original_task_id == task@.task_id,
        r@.generated_text == generated_text@,
        r@.timestamp_ms == timestamp_ms,
{
    GeneratedTextMessage {
        original_task_id: task.task_id.clone(),
        generated_text,
        timestamp_ms,
    }
}

/// The preprocessing worker's document envelope: each sentence is paired
/// with the vector the model produced for it, in order. A sentence count
/// that does not match the vector count, or an empty sentence list, is an
/// error; the envelope is only published with nonempty embeddings.
pub fn build_text_with_embeddings(
    original_id: String,
    source_url: String,
    sentences: Vec<String>,
    embeddings: Vec<Vec<u32>>,
    model_name: String,
    timestamp_ms: u64,
) -> (r: Result<TextWithEmbeddingsMessage, String>)
    ensures
        sentences@.len() == 0 ==> r is Err,
        sentences@.len() != embeddings@.len() ==> r is Err,
        sentences@.len() > 0 && sentences@.len() == embeddings@.len() ==> (r matches Ok(m) && {
            &&& m@.original_id == original_id@
            &&& m@.source_url == source_url@
            &&& m@.model_name == model_name@
            &&& m@.timestamp_ms == timestamp_ms
            &&& m@.embeddings_data.len() == sentences@.len()
            &&& forall|i: int|
                0 <= i < sentences@.len() ==> (#[trigger] m@.embeddings_data[i]).sentence_text
                    == sentences.deep_view()[i] && m@.embeddings_data[i].embedding
                    == embeddings.deep_view()[i]
        }),
{
    if sentences.len() == 0 {
        return Err(String::from_str("no sentences to embed"));
    }
    if sentences.len() != embeddings.len() {
        return Err(String::from_str("sentence and embedding counts differ"));
    }
    let mut embeddings_data: Vec<SentenceEmbedding> = Vec::new();
    let n = sentences.len();
    let mut sentences = sentences;
    let mut embeddings = embeddings;
    let ghost sv = sentences.deep_view();
    let ghost ev = embeddings.deep_view();
    let mut k: usize = 0;
    proof {
        assert(embeddings_view(embeddings_data@) =~= Seq::<
            crate::envelopes::SentenceEmbeddingView,
        >::empty());
    }
    while k < n
        invariant
            k <= n,
            n == sentences@.len(),
            n == embeddings@.len(),
            sv == sentences.deep_view(),
            ev == embeddings.deep_view(),
            embeddings_view(embeddings_data@).len() == k,
            forall|i: int|
                0 <= i < k ==> (#[trigger] embeddings_view(embeddings_data@)[i]).sentence_text
                    == sv[i] && embeddings_view(embeddings_data@)[i].embedding == ev[i],
        decreases n - k,
    {
        let ghost pre = embeddings_view(embeddings_data@);
        let se = SentenceEmbedding {
            sentence_text: sentences[k].clone(),
            embedding: embeddings[k].clone(),
        };
        proof {
            assert(se@.sentence_text == sv[k as int]);
            assert(se.embedding@ =~= ev[k as int]);
        }
        embeddings_data.push(se);
        proof {
            assert(embeddings_view(embeddings_data@) =~= pre.push(se@));
        }
        k += 1;
    }
    Ok(
        TextWithEmbeddingsMessage {
            original_id,
            source_url,
            embeddings_data,
            model_name,
            timestamp_ms,
        },
    )
}

/// The preprocessing worker's reply to an embedding query: the request's
/// correlation id is echoed, and exactly one of the vector and the error is
/// set. The model name is reported either way.
pub fn build_query_embedding_reply(
    request_id: String,
    model_name: String,
    outcome: Result<Vec<u32>, String>,
) -> (r: QueryEmbeddingResult)
    ensures
        r@.request_id == request_id@,
        r@.model_name == Some(model_name@),
        r@.well_formed(),
        (match outcome {
            Ok(v) => r@.embedding == Some(v@) && r@.error_message is None,
            Err(m) => r@.embedding is None && r@.error_message == Some(m@),
        }),
{
    match outcome {
        Ok(v) => {
            proof {
                assert(v.deep_view() =~= v@);
            }
            QueryEmbeddingResult {
                request_id,
                embedding: Some(v),
                model_name: Some(model_name),
                error_message: None,
            }
        },
        Err(m) => QueryEmbeddingResult {
            request_id,
            embedding: None,
            model_name: Some(model_name),
            error_message: Some(m),
        },
    }
}

/// The vector-memory worker's reply to a search task: the request's
/// correlation id is echoed, and on failure the result list is empty.
pub fn build_search_reply(
    request_id: String,
    outcome: Result<Vec<SemanticSearchResultItem>, String>,
) -> (r: SemanticSearchNatsResult)
    ensures
        r@.request_id == request_id@,
        r@.well_formed(),
        (match outcome {
            Ok(items) => r@.results == items_view(items@) && r@.error_message is None,
            Err(m) => r@.results.len() == 0 && r@.error_message == Some(m@),
        }),
{
    match outcome {
        Ok(items) => SemanticSearchNatsResult { request_id, results: items, error_message: None },
        Err(m) => {
            let r = SemanticSearchNatsResult {
                request_id,
                results: Vec::new(),
                error_message: Some(m),
            };
            proof {
                assert(r@.results =~= Seq::<
                    crate::envelopes::SemanticSearchResultItemView,
                >::empty());
            }
            r
        },
    }
}

/// The vector-memory worker's persistence shaping: one point payload per
/// sentence embedding, carrying the document's provenance and the
/// sentence's position as its order.
pub fn build_point_payloads(msg: &TextWithEmbeddingsMessage) -> (r: Vec<QdrantPointPayload>)
    requires
        msg@.embeddings_data.len() <= u32::MAX,
    ensures
        r@.len() == msg@.embeddings_data.len(),
        forall|i: int|
            0 <= i < r@.len() ==> {
                &&& (#[trigger] r@[i])@.original_document_id == msg@.original_id
                &&& r@[i]@.source_url == msg@.source_url
                &&& r@[i]@.sentence_text == msg@.embeddings_data[i].sentence_text
                &&& r@[i]@.sentence_order == i
                &&& r@[i]@.model_name == msg@.model_name
                &&& r@[i]@.processed_at_ms == msg@.timestamp_ms
            },
{
    let mut out: Vec<QdrantPointPayload> = Vec::new();
    let n = msg.embeddings_data.len();
    let mut k: usize = 0;
    while k < n
        invariant
            k <= n,
            n == msg@.embeddings_data.len(),
            n <= u32::MAX,
            out@.len() == k,
            forall|i: int|
                0 <= i < k ==> {
                    &&& (#[trigger] out@[i])@.original_document_id == msg@.original_id
                    &&& out@[i]@.source_url == msg@.source_url
                    &&& out@[i]@.sentence_text == msg@.embeddings_data[i].sentence_text
                    &&& out@[i]@.sentence_order == i
                    &&& out@[i]@.model_name == msg@.model_name
                    &&& out@[i]@.processed_at_ms == msg@.timestamp_ms
                },
        decreases n - k,
    {
        let payload = QdrantPointPayload {
            original_document_id: msg.original_id.clone(),
            source_url: msg.source_url.clone(),
            sentence_text: msg.embeddings_data[k].sentence_text.clone(),
            sentence_order: k as u32,
            model_name: msg.model_name.clone(),
            processed_at_ms: msg.timestamp_ms,
        };
        proof {
            assert(msg@.embeddings_data[k as int] == msg.embeddings_data@[k as int]@);
        }
        out.push(payload);
        k += 1;
    }
    out
}

} // verus!
