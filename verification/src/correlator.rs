//! The request side of a request/reply exchange: one ephemeral reply address
//! is bound per call, and the arrival of exactly one reply races a timer.
//!
//! The transport work (binding the address, publishing, waiting) is done by
//! the unverified shell; it hands this module what it observed: a reply with
//! its arrival time, a transport failure, or nothing by the deadline. The
//! decision of what the caller sees is made here, and is total: a reply that
//! arrived at or after the deadline counts as a timeout, a reply that does
//! not decode is a decode failure, and a reply whose envelope reports an
//! error is surfaced as a remote error, distinct from transport trouble.

use vstd::prelude::*;

use crate::envelopes::{
    QueryEmbeddingResult, QueryEmbeddingResultView, SemanticSearchNatsResult,
    SemanticSearchNatsResultView,
};
use crate::wire::{
    decode_query_embedding_result, decode_semantic_search_nats_result,
    lemma_query_embedding_result_round_trip, spec_dec_query_embedding_result,
    spec_dec_semantic_search_nats_result, spec_enc_query_embedding_result,
};

verus! {

/// What a request/reply call can come back with.
#[derive(Debug, Clone, PartialEq, Eq)]
pub enum QueryError {
    /// The deadline elapsed with no reply.
    Timeout,
    /// The bus reported a failure before any reply could arrive.
    Transport(String),
    /// A reply arrived but its payload was not a well-formed envelope.
    DecodeFailure,
    /// The replying service itself reported failure in its envelope.
    RemoteError(String),
}

pub ghost enum QueryErrorView {
    Timeout,
    Transport(Seq<char>),
    DecodeFailure,
    RemoteError(Seq<char>),
}

impl View for QueryError {
    type V = QueryErrorView;

    open spec fn view(&self) -> QueryErrorView {
        match self {
            QueryError::Timeout => QueryErrorView::Timeout,
            QueryError::Transport(d) => QueryErrorView::Transport(d@),
            QueryError::DecodeFailure => QueryErrorView::DecodeFailure,
            QueryError::RemoteError(m) => QueryErrorView::RemoteError(m@),
        }
    }
}

/// What the transport observed for one request/reply call.
#[derive(Debug, Clone, PartialEq, Eq)]
pub enum RawReply {
    /// A reply payload arrived at the given time (epoch milliseconds).
    ArrivedAt(u64, Vec<char>),
    /// The bus failed before a reply could arrive.
    TransportFailed(String),
}

pub ghost enum RawReplyView {
    ArrivedAt(u64, Seq<char>),
    TransportFailed(Seq<char>),
}

impl View for RawReply {
    type V = RawReplyView;

    open spec fn view(&self) -> RawReplyView {
        match self {
            RawReply::ArrivedAt(t, p) => RawReplyView::ArrivedAt(*t, p@),
            RawReply::TransportFailed(d) => RawReplyView::TransportFailed(d@),
        }
    }
}

pub open spec fn raw_reply_view(raw: Option<RawReply>) -> Option<RawReplyView> {
    match raw {
        None => None,
        Some(r) => Some(r@),
    }
}

/// The correlator's whole decision for the embedding hop, as a function of
/// the deadline and what the transport observed.
pub open spec fn spec_correlate_embedding(deadline_ms: u64, raw: Option<RawReplyView>) -> Result<
    QueryEmbeddingResultView,
    QueryErrorView,
> {
    match raw {
        None => Err(QueryErrorView::Timeout),
        Some(RawReplyView::TransportFailed(d)) => Err(QueryErrorView::Transport(d)),
        Some(RawReplyView::ArrivedAt(t, p)) => if t >= deadline_ms {
            Err(QueryErrorView::Timeout)
        } else {
            match spec_dec_query_embedding_result(p) {
                None => Err(QueryErrorView::DecodeFailure),
                Some(res) => match res.error_message {
                    Some(m) => Err(QueryErrorView::RemoteError(m)),
                    None => Ok(res),
                },
            }
        },
    }
}

/// Resolve one embedding-hop request/reply call.
pub fn correlate_embedding_reply(deadline_ms: u64, raw: Option<RawReply>) -> (r: Result<
    QueryEmbeddingResult,
    QueryError,
>)
    ensures
        (match r {
            Ok(res) => spec_correlate_embedding(deadline_ms, raw_reply_view(raw)) == Ok::<
                QueryEmbeddingResultView,
                QueryErrorView,
            >(res@),
            Err(e) => spec_correlate_embedding(deadline_ms, raw_reply_view(raw)) == Err::<
                QueryEmbeddingResultView,
                QueryErrorView,
            >(e@),
        }),
{
    match raw {
        None => Err(QueryError::Timeout),
        Some(RawReply::TransportFailed(d)) => Err(QueryError::Transport(d)),
        Some(RawReply::ArrivedAt(t, p)) => {
            if t >= deadline_ms {
                Err(QueryError::Timeout)
            } else {
                match decode_query_embedding_result(&p) {
                    None => Err(QueryError::DecodeFailure),
                    Some(res) => {
                        if res.error_message.is_some() {
                            let m = match res.error_message {
                                Some(m) => m,
                                None => String::new(),
                            };
                            Err(QueryError::RemoteError(m))
                        } else {
                            Ok(res)
                        }
                    },
                }
            }
        },
    }
}

/// The correlator's whole decision for the vector-search hop.
pub open spec fn spec_correlate_search(deadline_ms: u64, raw: Option<RawReplyView>) -> Result<
    SemanticSearchNatsResultView,
    QueryErrorView,
> {
    match raw {
        None => Err(QueryErrorView::Timeout),
        Some(RawReplyView::TransportFailed(d)) => Err(QueryErrorView::Transport(d)),
        Some(RawReplyView::ArrivedAt(t, p)) => if t >= deadline_ms {
            Err(QueryErrorView::Timeout)
        } else {
            match spec_dec_semantic_search_nats_result(p) {
                None => Err(QueryErrorView::DecodeFailure),
                Some(res) => match res.error_message {
                    Some(m) => Err(QueryErrorView::RemoteError(m)),
                    None => Ok(res),
                },
            }
        },
    }
}

/// Resolve one search-hop request/reply call.
pub fn correlate_search_reply(deadline_ms: u64, raw: Option<RawReply>) -> (r: Result<
    SemanticSearchNatsResult,
    QueryError,
>)
    ensures
        (match r {
            Ok(res) => spec_correlate_search(deadline_ms, raw_reply_view(raw)) == Ok::<
                SemanticSearchNatsResultView,
                QueryErrorView,
            >(res@),
            Err(e) => spec_correlate_search(deadline_ms, raw_reply_view(raw)) == Err::<
                SemanticSearchNatsResultView,
                QueryErrorView,
            >(e@),
        }),
{
    match raw {
        None => Err(QueryError::Timeout),
        Some(RawReply::TransportFailed(d)) => Err(QueryError::Transport(d)),
        Some(RawReply::ArrivedAt(t, p)) => {
            if t >= deadline_ms {
                Err(QueryError::Timeout)
            } else {
                match decode_semantic_search_nats_result(&p) {
                    None => Err(QueryError::DecodeFailure),
                    Some(res) => {
                        if res.error_message.is_some() {
                            let m = match res.error_message {
                                Some(m) => m,
                                None => String::new(),
                            };
                            Err(QueryError::RemoteError(m))
                        } else {
                            Ok(res)
                        }
                    },
                }
            }
        },
    }
}

/// Law: a well-formed reply that arrives strictly before the deadline is
/// accepted and decoded; the correlator returns exactly that reply.
pub proof fn lemma_correlator_accepts_before_deadline(
    deadline_ms: u64,
    t: u64,
    res: QueryEmbeddingResultView,
)
    requires
        t < deadline_ms,
        res.error_message is None,
    ensures
        spec_correlate_embedding(
            deadline_ms,
            Some(RawReplyView::ArrivedAt(t, spec_enc_query_embedding_result(res))),
        ) == Ok::<QueryEmbeddingResultView, QueryErrorView>(res),
{
    lemma_query_embedding_result_round_trip(res);
}

/// Law: with no reply, or a reply at or after the deadline, the correlator
/// returns `Timeout` — whatever the payload was.
pub proof fn lemma_correlator_timeout(deadline_ms: u64, raw: Option<RawReplyView>)
    requires
        (match raw {
            None => true,
            Some(RawReplyView::ArrivedAt(t, _)) => t >= deadline_ms,
            Some(RawReplyView::TransportFailed(_)) => false,
        }),
    ensures
        spec_correlate_embedding(deadline_ms, raw) == Err::<
            QueryEmbeddingResultView,
            QueryErrorView,
        >(QueryErrorView::Timeout),
        spec_correlate_search(deadline_ms, raw) == Err::<
            SemanticSearchNatsResultView,
            QueryErrorView,
        >(QueryErrorView::Timeout),
{
}

} // verus!
