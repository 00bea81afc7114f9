//! Verified core of a subject-addressed publish/subscribe worker pipeline.
//!
//! The crate models the messaging and orchestration layer shared by a family
//! of worker processes: the typed envelopes exchanged on bus subjects, their
//! JSON wire codec, input validation at the entry points, the per-message
//! dispatch model, the reply correlator used for request/reply hops, the
//! two-stage search orchestration state machine, and the bounded broadcast
//! buffer that bridges bus events to long-lived client streams.
//!
//! Transport (the bus connection itself), HTML extraction, model inference
//! and the external stores are collaborators behind narrow interfaces; they
//! are driven by an unverified shell and hand this library plain values.

pub mod bridge;
pub mod codec;
pub mod correlator;
pub mod dispatch;
pub mod envelopes;
pub mod ingest;
pub mod json;
pub mod markov;
pub mod orchestrator;
pub mod runtime;
pub mod textproc;
pub mod wire;
pub mod workers;
