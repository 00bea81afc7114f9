//! The typed envelopes exchanged on the bus subjects.
//!
//! Every envelope is a flat record of plain values. Envelopes that take part
//! in a multi-hop flow carry a correlation id that is propagated unchanged,
//! and a producer timestamp in epoch milliseconds assigned once at creation.
//!
//! Numeric vectors (sentence embeddings) and scores travel through this layer
//! opaquely: the pipeline never computes with them, so they are carried as
//! the 32-bit patterns of the floating-point values the model produced. The
//! unverified shell converts at the boundary where the values are made.

use vstd::prelude::*;

verus! {

/// Request to ingest one URL.
#[derive(Debug, Clone, PartialEq, Eq)]
pub struct PerceiveUrlTask {
    pub url: String,
}

pub ghost struct PerceiveUrlTaskView {
    pub url: Seq<char>,
}

impl View for PerceiveUrlTask {
    type V = PerceiveUrlTaskView;

    open spec fn view(&self) -> PerceiveUrlTaskView {
        PerceiveUrlTaskView { url: self.url@ }
    }
}

/// Fetched page content, identified once at discovery.
#[derive(Debug, Clone, PartialEq, Eq)]
pub struct RawTextMessage {
    pub id: String,
    pub source_url: String,
    pub raw_text: String,
    pub timestamp_ms: u64,
}

pub ghost struct RawTextMessageView {
    pub id: Seq<char>,
    pub source_url: Seq<char>,
    pub raw_text: Seq<char>,
    pub timestamp_ms: u64,
}

impl View for RawTextMessage {
    type V = RawTextMessageView;

    open spec fn view(&self) -> RawTextMessageView {
        RawTextMessageView {
            id: self.id@,
            source_url: self.source_url@,
            raw_text: self.raw_text@,
            timestamp_ms: self.timestamp_ms,
        }
    }
}

/// Sentence and token decomposition of one discovered document.
#[derive(Debug, Clone, PartialEq, Eq)]
pub struct TokenizedTextMessage {
    pub original_id: String,
    pub source_url: String,
    pub tokens: Vec<String>,
    pub sentences: Vec<String>,
    pub timestamp_ms: u64,
}

pub ghost struct TokenizedTextMessageView {
    pub original_id: Seq<char>,
    pub source_url: Seq<char>,
    pub tokens: Seq<Seq<char>>,
    pub sentences: Seq<Seq<char>>,
    pub timestamp_ms: u64,
}

impl View for TokenizedTextMessage {
    type V = TokenizedTextMessageView;

    open spec fn view(&self) -> TokenizedTextMessageView {
        TokenizedTextMessageView {
            original_id: self.original_id@,
            source_url: self.source_url@,
            tokens: self.tokens.deep_view(),
            sentences: self.sentences.deep_view(),
            timestamp_ms: self.timestamp_ms,
        }
    }
}

/// Request for the toy text generator.
#[derive(Debug, Clone, PartialEq, Eq)]
pub struct GenerateTextTask {
    pub task_id: String,
    pub prompt: Option<String>,
    pub max_length: u32,
}

pub ghost struct GenerateTextTaskView {
    pub task_id: Seq<char>,
    pub prompt: Option<Seq<char>>,
    pub max_length: u32,
}

impl View for GenerateTextTask {
    type V = GenerateTextTaskView;

    open spec fn view(&self) -> GenerateTextTaskView {
        GenerateTextTaskView {
            task_id: self.task_id@,
            prompt: self.prompt.deep_view(),
            max_length: self.max_length,
        }
    }
}

/// Result of one generation task; `original_task_id` echoes the task's id.
#[derive(Debug, Clone, PartialEq, Eq)]
pub struct GeneratedTextMessage {
    pub original_task_id: String,
    pub generated_text: String,
    pub timestamp_ms: u64,
}

pub ghost struct GeneratedTextMessageView {
    pub original_task_id: Seq<char>,
    pub generated_text: Seq<char>,
    pub timestamp_ms: u64,
}

impl View for GeneratedTextMessage {
    type V = GeneratedTextMessageView;

    open spec fn view(&self) -> GeneratedTextMessageView {
        GeneratedTextMessageView {
            original_task_id: self.original_task_id@,
            generated_text: self.generated_text@,
            timestamp_ms: self.timestamp_ms,
        }
    }
}

/// One sentence and its embedding vector, carried as raw 32-bit patterns.
#[derive(Debug, Clone, PartialEq, Eq)]
pub struct SentenceEmbedding {
    pub sentence_text: String,
    pub embedding: Vec<u32>,
}

pub ghost struct SentenceEmbeddingView {
    pub sentence_text: Seq<char>,
    pub embedding: Seq<u32>,
}

impl View for SentenceEmbedding {
    type V = SentenceEmbeddingView;

    open spec fn view(&self) -> SentenceEmbeddingView {
        SentenceEmbeddingView { sentence_text: self.sentence_text@, embedding: self.embedding@ }
    }
}

/// All sentence embeddings produced for one document.
#[derive(Debug, Clone, PartialEq, Eq)]
pub struct TextWithEmbeddingsMessage {
    pub original_id: String,
    pub source_url: String,
    pub embeddings_data: Vec<SentenceEmbedding>,
    pub model_name: String,
    pub timestamp_ms: u64,
}

pub ghost struct TextWithEmbeddingsMessageView {
    pub original_id: Seq<char>,
    pub source_url: Seq<char>,
    pub embeddings_data: Seq<SentenceEmbeddingView>,
    pub model_name: Seq<char>,
    pub timestamp_ms: u64,
}

pub open spec fn embeddings_view(v: Seq<SentenceEmbedding>) -> Seq<SentenceEmbeddingView> {
    v.map_values(|e: SentenceEmbedding| e@)
}

impl View for TextWithEmbeddingsMessage {
    type V = TextWithEmbeddingsMessageView;

    open spec fn view(&self) -> TextWithEmbeddingsMessageView {
        TextWithEmbeddingsMessageView {
            original_id: self.original_id@,
            source_url: self.source_url@,
            embeddings_data: embeddings_view(self.embeddings_data@),
            model_name: self.model_name@,
            timestamp_ms: self.timestamp_ms,
        }
    }
}

/// Externally supplied search request: free text plus the wanted result count.
#[derive(Debug, Clone, PartialEq, Eq)]
pub struct SemanticSearchApiRequest {
    pub query_text: String,
    pub top_k: u32,
}

pub ghost struct SemanticSearchApiRequestView {
    pub query_text: Seq<char>,
    pub top_k: u32,
}

impl View for SemanticSearchApiRequest {
    type V = SemanticSearchApiRequestView;

    open spec fn view(&self) -> SemanticSearchApiRequestView {
        SemanticSearchApiRequestView { query_text: self.query_text@, top_k: self.top_k }
    }
}

/// First orchestration hop: resolve query text to an embedding vector.
#[derive(Debug, Clone, PartialEq, Eq)]
pub struct QueryForEmbeddingTask {
    pub request_id: String,
    pub text_to_embed: String,
}

pub ghost struct QueryForEmbeddingTaskView {
    pub request_id: Seq<char>,
    pub text_to_embed: Seq<char>,
}

impl View for QueryForEmbeddingTask {
    type V = QueryForEmbeddingTaskView;

    open spec fn view(&self) -> QueryForEmbeddingTaskView {
        QueryForEmbeddingTaskView {
            request_id: self.request_id@,
            text_to_embed: self.text_to_embed@,
        }
    }
}

/// Reply to [`QueryForEmbeddingTask`]; exactly one of `embedding` and
/// `error_message` is set on a well-formed reply.
#[derive(Debug, Clone, PartialEq, Eq)]
pub struct QueryEmbeddingResult {
    pub request_id: String,
    pub embedding: Option<Vec<u32>>,
    pub model_name: Option<String>,
    pub error_message: Option<String>,
}

pub ghost struct QueryEmbeddingResultView {
    pub request_id: Seq<char>,
    pub embedding: Option<Seq<u32>>,
    pub model_name: Option<Seq<char>>,
    pub error_message: Option<Seq<char>>,
}

impl View for QueryEmbeddingResult {
    type V = QueryEmbeddingResultView;

    open spec fn view(&self) -> QueryEmbeddingResultView {
        QueryEmbeddingResultView {
            request_id: self.request_id@,
            embedding: self.embedding.deep_view(),
            model_name: self.model_name.deep_view(),
            error_message: self.error_message.deep_view(),
        }
    }
}

impl QueryEmbeddingResultView {
    /// A well-formed reply reports either a vector or an error, never both
    /// and never neither.
    pub open spec fn well_formed(self) -> bool {
        self.embedding is Some <==> self.error_message is None
    }
}

/// Denormalized provenance stored beside each vector-store point.
#[derive(Debug, Clone, PartialEq, Eq)]
pub struct QdrantPointPayload {
    pub original_document_id: String,
    pub source_url: String,
    pub sentence_text: String,
    pub sentence_order: u32,
    pub model_name: String,
    pub processed_at_ms: u64,
}

pub ghost struct QdrantPointPayloadView {
    pub original_document_id: Seq<char>,
    pub source_url: Seq<char>,
    pub sentence_text: Seq<char>,
    pub sentence_order: u32,
    pub model_name: Seq<char>,
    pub processed_at_ms: u64,
}

impl View for QdrantPointPayload {
    type V = QdrantPointPayloadView;

    open spec fn view(&self) -> QdrantPointPayloadView {
        QdrantPointPayloadView {
            original_document_id: self.original_document_id@,
            source_url: self.source_url@,
            sentence_text: self.sentence_text@,
            sentence_order: self.sentence_order,
            model_name: self.model_name@,
            processed_at_ms: self.processed_at_ms,
        }
    }
}

/// Second orchestration hop: resolve a vector to ranked points.
#[derive(Debug, Clone, PartialEq, Eq)]
pub struct SemanticSearchNatsTask {
    pub request_id: String,
    pub query_embedding: Vec<u32>,
    pub top_k: u32,
}

pub ghost struct SemanticSearchNatsTaskView {
    pub request_id: Seq<char>,
    pub query_embedding: Seq<u32>,
    pub top_k: u32,
}

impl View for SemanticSearchNatsTask {
    type V = SemanticSearchNatsTaskView;

    open spec fn view(&self) -> SemanticSearchNatsTaskView {
        SemanticSearchNatsTaskView {
            request_id: self.request_id@,
            query_embedding: self.query_embedding@,
            top_k: self.top_k,
        }
    }
}

/// One ranked vector-store point; `score` is the raw 32-bit pattern of the
/// similarity score.
#[derive(Debug, Clone, PartialEq, Eq)]
pub struct SemanticSearchResultItem {
    pub qdrant_point_id: String,
    pub score: u32,
    pub payload: QdrantPointPayload,
}

pub ghost struct SemanticSearchResultItemView {
    pub qdrant_point_id: Seq<char>,
    pub score: u32,
    pub payload: QdrantPointPayloadView,
}

impl View for SemanticSearchResultItem {
    type V = SemanticSearchResultItemView;

    open spec fn view(&self) -> SemanticSearchResultItemView {
        SemanticSearchResultItemView {
            qdrant_point_id: self.qdrant_point_id@,
            score: self.score,
            payload: self.payload@,
        }
    }
}

pub open spec fn items_view(v: Seq<SemanticSearchResultItem>) -> Seq<SemanticSearchResultItemView> {
    v.map_values(|e: SemanticSearchResultItem| e@)
}

/// Reply to [`SemanticSearchNatsTask`]; `results` is empty whenever
/// `error_message` is set.
#[derive(Debug, Clone, PartialEq, Eq)]
pub struct SemanticSearchNatsResult {
    pub request_id: String,
    pub results: Vec<SemanticSearchResultItem>,
    pub error_message: Option<String>,
}

pub ghost struct SemanticSearchNatsResultView {
    pub request_id: Seq<char>,
    pub results: Seq<SemanticSearchResultItemView>,
    pub error_message: Option<Seq<char>>,
}

impl View for SemanticSearchNatsResult {
    type V = SemanticSearchNatsResultView;

    open spec fn view(&self) -> SemanticSearchNatsResultView {
        SemanticSearchNatsResultView {
            request_id: self.request_id@,
            results: items_view(self.results@),
            error_message: self.error_message.deep_view(),
        }
    }
}

impl SemanticSearchNatsResultView {
    pub open spec fn well_formed(self) -> bool {
        self.error_message is Some ==> self.results.len() == 0
    }
}

/// Externally returned search result; `search_request_id` is generated fresh
/// for each external call, and `error_message` is set exactly when the
/// orchestration failed, in which case `results` is empty.
#[derive(Debug, Clone, PartialEq, Eq)]
pub struct SemanticSearchApiResponse {
    pub search_request_id: String,
    pub results: Vec<SemanticSearchResultItem>,
    pub error_message: Option<String>,
}

pub ghost struct SemanticSearchApiResponseView {
    pub search_request_id: Seq<char>,
    pub results: Seq<SemanticSearchResultItemView>,
    pub error_message: Option<Seq<char>>,
}

impl View for SemanticSearchApiResponse {
    type V = SemanticSearchApiResponseView;

    open spec fn view(&self) -> SemanticSearchApiResponseView {
        SemanticSearchApiResponseView {
            search_request_id: self.search_request_id@,
            results: items_view(self.results@),
            error_message: self.error_message.deep_view(),
        }
    }
}

impl SemanticSearchApiResponseView {
    pub open spec fn well_formed(self) -> bool {
        self.error_message is Some ==> self.results.len() == 0
    }
}

} // verus!
