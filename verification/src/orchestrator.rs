//! The two-stage search orchestration: resolve a text query to a vector via
//! one request/reply hop, then resolve the vector to ranked results via a
//! second hop, short-circuiting on the first failure.
//!
//! The state machine is `Start -> EmbeddingRequested -> VectorSearchRequested
//! -> Done | Failed`. The transport loop lives in the unverified shell: it
//! performs the request the returned task describes, resolves the reply with
//! the correlator, and hands the outcome back to the next step here. Each
//! failure message identifies which hop failed, and the two hops' deadlines
//! are independent of each other.

use vstd::prelude::*;

use crate::correlator::{QueryError, QueryErrorView};
use crate::envelopes::{
    QueryEmbeddingResult, QueryEmbeddingResultView, QueryForEmbeddingTask,
    QueryForEmbeddingTaskView, SemanticSearchApiResponse, SemanticSearchApiResponseView,
    SemanticSearchNatsResult, SemanticSearchNatsResultView, SemanticSearchNatsTask,
    SemanticSearchNatsTaskView, SemanticSearchResultItem, SemanticSearchResultItemView,
    items_view,
};

verus! {

/// Deadline of the embedding hop, in milliseconds.
pub const EMBEDDING_HOP_DEADLINE_MS: u64 = 15000;

/// Deadline of the vector-search hop, in milliseconds.
pub const SEARCH_HOP_DEADLINE_MS: u64 = 20000;

/// Where one orchestration stands.
#[derive(Debug, Clone, PartialEq, Eq)]
pub enum OrchestrationPhase {
    /// The embedding hop was issued; its reply is awaited.
    EmbeddingRequested,
    /// The embedding arrived and the search hop was issued.
    VectorSearchRequested,
    /// Both hops succeeded; the ranked results are held.
    Done(Vec<SemanticSearchResultItem>),
    /// A hop failed; the message says which and why.
    Failed(String),
}

pub ghost enum OrchestrationPhaseView {
    EmbeddingRequested,
    VectorSearchRequested,
    Done(Seq<SemanticSearchResultItemView>),
    Failed(Seq<char>),
}

impl View for OrchestrationPhase {
    type V = OrchestrationPhaseView;

    open spec fn view(&self) -> OrchestrationPhaseView {
        match self {
            OrchestrationPhase::EmbeddingRequested => OrchestrationPhaseView::EmbeddingRequested,
            OrchestrationPhase::VectorSearchRequested => OrchestrationPhaseView::VectorSearchRequested,
            OrchestrationPhase::Done(items) => OrchestrationPhaseView::Done(items_view(items@)),
            OrchestrationPhase::Failed(m) => OrchestrationPhaseView::Failed(m@),
        }
    }
}

/// One in-flight orchestration: the fresh client-visible correlation id, the
/// caller's requested result count, and the phase.
#[derive(Debug, Clone, PartialEq, Eq)]
pub struct SearchOrchestration {
    pub search_request_id: String,
    pub top_k: u32,
    pub phase: OrchestrationPhase,
}

pub ghost struct SearchOrchestrationView {
    pub search_request_id: Seq<char>,
    pub top_k: u32,
    pub phase: OrchestrationPhaseView,
}

impl View for SearchOrchestration {
    type V = SearchOrchestrationView;

    open spec fn view(&self) -> SearchOrchestrationView {
        SearchOrchestrationView {
            search_request_id: self.search_request_id@,
            top_k: self.top_k,
            phase: self.phase@,
        }
    }
}

/// The externally visible text for an embedding-hop failure. Every variant
/// names the embedding hop, so the caller can tell which stage broke.
pub open spec fn embedding_failure_message(e: QueryErrorView) -> Seq<char> {
    match e {
        QueryErrorView::Timeout => "Timeout: Failed to get embedding from preprocessing service within 15 seconds"@,
        QueryErrorView::Transport(d) => "Failed to get embedding from preprocessing service: "@
            + d,
        QueryErrorView::DecodeFailure => "Internal error: Failed to parse embedding service response"@,
        QueryErrorView::RemoteError(m) => "Error from preprocessing service: "@ + m,
    }
}

/// The externally visible text for a search-hop failure.
pub open spec fn search_failure_message(e: QueryErrorView) -> Seq<char> {
    match e {
        QueryErrorView::Timeout => "Timeout: Failed to get search results from vector memory service within 20 seconds"@,
        QueryErrorView::Transport(d) => "Failed to get search results from vector memory service: "@
            + d,
        QueryErrorView::DecodeFailure => "Internal error: Failed to parse search service response"@,
        QueryErrorView::RemoteError(m) => "Error from vector memory service: "@ + m,
    }
}

/// The message for a reply that carried neither a vector nor an error: a
/// service-contract violation, not a user error.
pub open spec fn missing_embedding_message() -> Seq<char> {
    "Preprocessing service did not return an embedding."@
}

fn embedding_failure_text(e: &QueryError) -> (r: String)
    ensures
        r@ == embedding_failure_message(e@),
{
    match e {
        QueryError::Timeout => String::from_str(
            "Timeout: Failed to get embedding from preprocessing service within 15 seconds",
        ),
        QueryError::Transport(d) => String::from_str(
            "Failed to get embedding from preprocessing service: ",
        ).concat(d.as_str()),
        QueryError::DecodeFailure => String::from_str(
            "Internal error: Failed to parse embedding service response",
        ),
        QueryError::RemoteError(m) => String::from_str(
            "Error from preprocessing service: ",
        ).concat(m.as_str()),
    }
}

fn search_failure_text(e: &QueryError) -> (r: String)
    ensures
        r@ == search_failure_message(e@),
{
    match e {
        QueryError::Timeout => String::from_str(
            "Timeout: Failed to get search results from vector memory service within 20 seconds",
        ),
        QueryError::Transport(d) => String::from_str(
            "Failed to get search results from vector memory service: ",
        ).concat(d.as_str()),
        QueryError::DecodeFailure => String::from_str(
            "Internal error: Failed to parse search service response",
        ),
        QueryError::RemoteError(m) => String::from_str(
            "Error from vector memory service: ",
        ).concat(m.as_str()),
    }
}

/// `Start`: take the fresh correlation id and the caller's request, issue the
/// embedding task, and move to `EmbeddingRequested`.
pub open spec fn spec_start_search(id: Seq<char>, query_text: Seq<char>, top_k: u32) -> (
    SearchOrchestrationView,
    QueryForEmbeddingTaskView,
) {
    (
        SearchOrchestrationView {
            search_request_id: id,
            top_k,
            phase: OrchestrationPhaseView::EmbeddingRequested,
        },
        QueryForEmbeddingTaskView { request_id: id, text_to_embed: query_text },
    )
}

pub fn start_search(search_request_id: String, query_text: String, top_k: u32) -> (r: (
    SearchOrchestration,
    QueryForEmbeddingTask,
))
    ensures
        (r.0@, r.1@) == spec_start_search(search_request_id@, query_text@, top_k),
{
    let task = QueryForEmbeddingTask {
        request_id: search_request_id.clone(),
        text_to_embed: query_text,
    };
    let o = SearchOrchestration {
        search_request_id,
        top_k,
        phase: OrchestrationPhase::EmbeddingRequested,
    };
    (o, task)
}

/// `EmbeddingRequested`: on failure move straight to `Failed` and issue no
/// search task; on a reply with a vector, build the search task with the
/// same correlation id and the caller's `top_k`; on a reply with neither a
/// vector nor an error, fail with the service-contract message.
pub open spec fn spec_on_embedding_reply(
    o: SearchOrchestrationView,
    outcome: Result<QueryEmbeddingResultView, QueryErrorView>,
) -> (SearchOrchestrationView, Option<SemanticSearchNatsTaskView>) {
    match outcome {
        Err(e) => (
            SearchOrchestrationView {
                phase: OrchestrationPhaseView::Failed(embedding_failure_message(e)),
                ..o
            },
            None,
        ),
        Ok(res) => match res.error_message {
            Some(m) => (
                SearchOrchestrationView {
                    phase: OrchestrationPhaseView::Failed(
                        embedding_failure_message(QueryErrorView::RemoteError(m)),
                    ),
                    ..o
                },
                None,
            ),
            None => match res.embedding {
                Some(vec) => (
                    SearchOrchestrationView {
                        phase: OrchestrationPhaseView::VectorSearchRequested,
                        ..o
                    },
                    Some(
                        SemanticSearchNatsTaskView {
                            request_id: o.search_request_id,
                            query_embedding: vec,
                            top_k: o.top_k,
                        },
                    ),
                ),
                None => (
                    SearchOrchestrationView {
                        phase: OrchestrationPhaseView::Failed(missing_embedding_message()),
                        ..o
                    },
                    None,
                ),
            },
        },
    }
}

pub fn on_embedding_reply(
    o: SearchOrchestration,
    outcome: Result<QueryEmbeddingResult, QueryError>,
) -> (r: (SearchOrchestration, Option<SemanticSearchNatsTask>))
    requires
        o@.phase is EmbeddingRequested,
    ensures
        r.0@ == spec_on_embedding_reply(
            o@,
            (match outcome {
                Ok(res) => Ok::<QueryEmbeddingResultView, QueryErrorView>(res@),
                Err(e) => Err::<QueryEmbeddingResultView, QueryErrorView>(e@),
            }),
        ).0,
        (match r.1 {
            Some(task) => spec_on_embedding_reply(
                o@,
                (match outcome {
                    Ok(res) => Ok::<QueryEmbeddingResultView, QueryErrorView>(res@),
                    Err(e) => Err::<QueryEmbeddingResultView, QueryErrorView>(e@),
                }),
            ).1 == Some(task@),
            None => spec_on_embedding_reply(
                o@,
                (match outcome {
                    Ok(res) => Ok::<QueryEmbeddingResultView, QueryErrorView>(res@),
                    Err(e) => Err::<QueryEmbeddingResultView, QueryErrorView>(e@),
                }),
            ).1 is None,
        }),
{
    match outcome {
        Err(e) => {
            let msg = embedding_failure_text(&e);
            (
                SearchOrchestration { phase: OrchestrationPhase::Failed(msg), ..o },
                None,
            )
        },
        Ok(res) => match res.error_message {
            Some(m) => {
                let msg = embedding_failure_text(&QueryError::RemoteError(m));
                (
                    SearchOrchestration { phase: OrchestrationPhase::Failed(msg), ..o },
                    None,
                )
            },
            None => match res.embedding {
                Some(vec) => {
                    proof {
                        assert(vec.deep_view() =~= vec@);
                    }
                    let task = SemanticSearchNatsTask {
                        request_id: o.search_request_id.clone(),
                        query_embedding: vec,
                        top_k: o.top_k,
                    };
                    (
                        SearchOrchestration {
                            phase: OrchestrationPhase::VectorSearchRequested,
                            ..o
                        },
                        Some(task),
                    )
                },
                None => (
                    SearchOrchestration {
                        phase: OrchestrationPhase::Failed(
                            String::from_str(
                                "Preprocessing service did not return an embedding.",
                            ),
                        ),
                        ..o
                    },
                    None,
                ),
            },
        },
    }
}

/// `VectorSearchRequested`: on failure move to `Failed` with a message that
/// names the search hop; on success hold the ranked results in `Done`.
pub open spec fn spec_on_search_reply(
    o: SearchOrchestrationView,
    outcome: Result<SemanticSearchNatsResultView, QueryErrorView>,
) -> SearchOrchestrationView {
    match outcome {
        Err(e) => SearchOrchestrationView {
            phase: OrchestrationPhaseView::Failed(search_failure_message(e)),
            ..o
        },
        Ok(res) => match res.error_message {
            Some(m) => SearchOrchestrationView {
                phase: OrchestrationPhaseView::Failed(
                    search_failure_message(QueryErrorView::RemoteError(m)),
                ),
                ..o
            },
            None => SearchOrchestrationView {
                phase: OrchestrationPhaseView::Done(res.results),
                ..o
            },
        },
    }
}

pub fn on_search_reply(
    o: SearchOrchestration,
    outcome: Result<SemanticSearchNatsResult, QueryError>,
) -> (r: SearchOrchestration)
    requires
        o@.phase is VectorSearchRequested,
    ensures
        r@ == spec_on_search_reply(
            o@,
            (match outcome {
                Ok(res) => Ok::<SemanticSearchNatsResultView, QueryErrorView>(res@),
                Err(e) => Err::<SemanticSearchNatsResultView, QueryErrorView>(e@),
            }),
        ),
{
    match outcome {
        Err(e) => {
            let msg = search_failure_text(&e);
            SearchOrchestration { phase: OrchestrationPhase::Failed(msg), ..o }
        },
        Ok(res) => match res.error_message {
            Some(m) => {
                let msg = search_failure_text(&QueryError::RemoteError(m));
                SearchOrchestration { phase: OrchestrationPhase::Failed(msg), ..o }
            },
            None => SearchOrchestration {
                phase: OrchestrationPhase::Done(res.results),
                ..o
            },
        },
    }
}

/// Map a finished orchestration to the externally returned response:
/// `Done` carries the results with no error, `Failed` carries the message
/// and an empty result list; either way the correlation id generated at
/// `Start` is returned.
pub open spec fn spec_into_response(o: SearchOrchestrationView) -> SemanticSearchApiResponseView {
    match o.phase {
        OrchestrationPhaseView::Done(items) => SemanticSearchApiResponseView {
            search_request_id: o.search_request_id,
            results: items,
            error_message: None,
        },
        OrchestrationPhaseView::Failed(m) => SemanticSearchApiResponseView {
            search_request_id: o.search_request_id,
            results: Seq::empty(),
            error_message: Some(m),
        },
        _ => SemanticSearchApiResponseView {
            search_request_id: o.search_request_id,
            results: Seq::empty(),
            error_message: None,
        },
    }
}

pub fn into_response(o: SearchOrchestration) -> (r: SemanticSearchApiResponse)
    requires
        o@.phase is Done || o@.phase is Failed,
    ensures
        r@ == spec_into_response(o@),
{
    match o.phase {
        OrchestrationPhase::Done(items) => SemanticSearchApiResponse {
            search_request_id: o.search_request_id,
            results: items,
            error_message: None,
        },
        OrchestrationPhase::Failed(m) => {
            let r = SemanticSearchApiResponse {
                search_request_id: o.search_request_id,
                results: Vec::new(),
                error_message: Some(m),
            };
            proof {
                assert(r@.results =~= Seq::<SemanticSearchResultItemView>::empty());
            }
            r
        },
        _ => {
            let r = SemanticSearchApiResponse {
                search_request_id: o.search_request_id,
                results: Vec::new(),
                error_message: None,
            };
            proof {
                assert(r@.results =~= Seq::<SemanticSearchResultItemView>::empty());
            }
            r
        },
    }
}

/// Law: a failure of the embedding hop short-circuits the orchestration. No
/// search task is issued — the search subject sees zero publishes — and the
/// external response carries the embedding hop's failure message, an empty
/// result list, and the correlation id generated at `Start`.
pub proof fn lemma_short_circuit_on_embedding_failure(
    id: Seq<char>,
    query_text: Seq<char>,
    top_k: u32,
    e: QueryErrorView,
)
    ensures
        ({
            let (o1, task1) = spec_start_search(id, query_text, top_k);
            let (o2, search_task) = spec_on_embedding_reply(o1, Err(e));
            let resp = spec_into_response(o2);
            search_task is None && resp.results.len() == 0 && resp.error_message == Some(
                embedding_failure_message(e),
            ) && resp.search_request_id == id
        }),
{
}

/// Law: when both hops succeed, the external response carries exactly the
/// correlation id generated at `Start` — the same id both hop tasks carried
/// — together with the second hop's ranked results and no error.
pub proof fn lemma_success_preserves_request_id(
    id: Seq<char>,
    query_text: Seq<char>,
    top_k: u32,
    res1: QueryEmbeddingResultView,
    res2: SemanticSearchNatsResultView,
)
    requires
        res1.error_message is None,
        res1.embedding is Some,
        res2.error_message is None,
    ensures
        ({
            let (o1, task1) = spec_start_search(id, query_text, top_k);
            let (o2, search_task) = spec_on_embedding_reply(o1, Ok(res1));
            let o3 = spec_on_search_reply(o2, Ok(res2));
            let resp = spec_into_response(o3);
            task1.request_id == id && search_task == Some(
                SemanticSearchNatsTaskView {
                    request_id: id,
                    query_embedding: res1.embedding->Some_0,
                    top_k,
                },
            ) && resp.search_request_id == id && resp.results == res2.results
                && resp.error_message is None
        }),
{
}

} // verus!
