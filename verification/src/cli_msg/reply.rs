//! [`CliReply`] — what the daemon sends back to the command-line client.
use vstd::prelude::*;
use crate::cli_msg::CliRequestId;
use crate::client_msg::WirePath;

verus! {

#[derive(Clone, Debug, PartialEq, Eq)]
pub enum CliReply {
    /// `Send` received and accepted.
    Ack,
    /// Probe response: still working, at this stage.
    Working { stage: WorkingStage },
    /// The request completed.
    Done { reply_text: String },
    /// The request completed and the daemon also wrote the reply to the
    /// fallback path the client supplied.
    DoneWithFallback { reply_text: String, fallback_path: WirePath },
    /// Failed before reaching criome (parse error, transport failure).
    Failed { error: String },
    /// Cancellation acknowledged.
    Cancelled,
    /// The reply of an earlier request, retrieved from its fallback path;
    /// the daemon has deleted the file.
    ResumedReply { original_request_id: CliRequestId, reply_text: String },
    /// The fallback path was empty or did not exist.
    ResumeNotReady,
    /// The reply was computed but the fallback write failed.
    FailedFallback { reply_text: String, fallback_error: String },
}

#[derive(Clone, Copy, Debug, PartialEq, Eq, Structural)]
pub enum WorkingStage {
    /// Still parsing the nexus text.
    Parsing,
    /// Waiting on criome.
    AwaitingCriomed,
    /// Got criome's reply; rendering it back to nexus text.
    SerialisingReply,
}

} // verus!
