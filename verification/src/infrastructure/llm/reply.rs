//! What a provider's HTTP status means for a completion.

use vstd::prelude::*;

use crate::domain::ports::llm_provider::LlmError;
use crate::text::{concat2, decimal, fmt_u64, owned};

verus! {

/// Map a completion's HTTP status to its outcome: success for 200, an
/// authorization failure for 401 and 403, a missing model for 404, and an
/// unreachable provider for anything else.
pub fn completion_outcome(code: u16, model: &str) -> (r: Result<(), LlmError>)
    ensures
        code == 200 ==> r is Ok,
        (code == 401 || code == 403) ==> r == Err::<(), LlmError>(LlmError::Unauthorized),
        code == 404 ==> (r matches Err(LlmError::ModelMissing(m)) && m@ == model@),
        (code != 200 && code != 401 && code != 403 && code != 404) ==> (r matches Err(
            LlmError::Unreachable(m),
        ) && m@ == "unexpected status "@ + decimal(code as nat)),
{
    if code == 200 {
        Ok(())
    } else if code == 401 || code == 403 {
        Err(LlmError::Unauthorized)
    } else if code == 404 {
        Err(LlmError::ModelMissing(owned(model)))
    } else {
        Err(LlmError::Unreachable(concat2("unexpected status ", fmt_u64(code as u64).as_str())))
    }
}

} // verus!
