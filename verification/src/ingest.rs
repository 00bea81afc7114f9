//! Validation at the external entry points. A request that fails a
//! precondition is rejected here, before anything reaches the bus.

use vstd::prelude::*;

use crate::envelopes::{GenerateTextTask, PerceiveUrlTask, SemanticSearchApiRequest};
use crate::textproc::{spec_trim, trim_str};

verus! {

/// Why a caller-supplied request was rejected.
#[derive(Debug, Clone, Copy, PartialEq, Eq, Structural)]
pub enum ValidationError {
    /// The URL is empty once trimmed.
    EmptyUrl,
    /// The task id is empty once trimmed.
    EmptyTaskId,
    /// `max_length` lies outside `1..=1000`.
    MaxLengthOutOfRange,
    /// `top_k` is zero.
    TopKZero,
}

/// Largest accepted `max_length` of a generation task.
pub const MAX_GENERATION_LENGTH: u32 = 1000;

/// Accept a URL to ingest: the URL is trimmed, and an empty or
/// whitespace-only URL is rejected before any bus interaction.
pub fn prepare_url_submission(url: &str) -> (r: Result<PerceiveUrlTask, ValidationError>)
    ensures
        spec_trim(url@).len() == 0 ==> r == Err::<PerceiveUrlTask, ValidationError>(
            ValidationError::EmptyUrl,
        ),
        spec_trim(url@).len() > 0 ==> (r matches Ok(task) && task@.url == spec_trim(url@)),
{
    let trimmed = trim_str(url);
    if trimmed.as_str().is_empty() {
        Err(ValidationError::EmptyUrl)
    } else {
        Ok(PerceiveUrlTask { url: trimmed })
    }
}

/// Accept a generation task: the task id must be nonempty once trimmed and
/// `max_length` must lie in `1..=1000`; anything else is rejected before any
/// bus interaction.
pub fn validate_generate_text_task(task: &GenerateTextTask) -> (r: Result<(), ValidationError>)
    ensures
        spec_trim(task@.task_id).len() == 0 ==> r == Err::<(), ValidationError>(
            ValidationError::EmptyTaskId,
        ),
        spec_trim(task@.task_id).len() > 0 && (task@.max_length == 0 || task@.max_length
            > MAX_GENERATION_LENGTH) ==> r == Err::<(), ValidationError>(
            ValidationError::MaxLengthOutOfRange,
        ),
        spec_trim(task@.task_id).len() > 0 && 1 <= task@.max_length && task@.max_length
            <= MAX_GENERATION_LENGTH ==> r is Ok,
{
    let trimmed = trim_str(task.task_id.as_str());
    if trimmed.as_str().is_empty() {
        Err(ValidationError::EmptyTaskId)
    } else if task.max_length == 0 || task.max_length > MAX_GENERATION_LENGTH {
        Err(ValidationError::MaxLengthOutOfRange)
    } else {
        Ok(())
    }
}

/// Accept a search request: `top_k` must be positive.
pub fn validate_search_request(req: &SemanticSearchApiRequest) -> (r: Result<(), ValidationError>)
    ensures
        req@.top_k == 0 ==> r == Err::<(), ValidationError>(ValidationError::TopKZero),
        req@.top_k > 0 ==> r is Ok,
{
    if req.top_k == 0 {
        Err(ValidationError::TopKZero)
    } else {
        Ok(())
    }
}

} // verus!
