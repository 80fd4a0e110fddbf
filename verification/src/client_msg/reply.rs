//! [`Reply`] — what the daemon sends back to a client.
use vstd::prelude::*;
use crate::client_msg::{RequestId, WirePath};
pub use crate::cli_msg::WorkingStage;

verus! {

#[derive(Clone, Debug, PartialEq, Eq)]
pub enum Reply {
    /// `Send` received and accepted.
    Ack,
    /// Probe response: still working, at this stage.
    Working { stage: WorkingStage },
    /// The request completed.
    Done { reply_text: String },
    /// The request completed and the reply was also written to the
    /// fallback path.
    DoneWithFallback { reply_text: String, fallback_path: WirePath },
    /// Failed before reaching criome.
    Failed { error: String },
    /// Cancellation acknowledged.
    Cancelled,
    /// The reply of an earlier request, retrieved from its fallback path.
    ResumedReply { original_request_id: RequestId, reply_text: String },
    /// The fallback path was empty or missing.
    ResumeNotReady,
    /// The reply was computed but writing the fallback failed.
    FailedFallback { reply_text: String, fallback_error: String },
}

} // verus!
