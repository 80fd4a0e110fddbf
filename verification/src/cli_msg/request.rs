//! [`CliRequest`] — what the command-line client sends to the daemon.
use vstd::prelude::*;
use crate::cli_msg::CliRequestId;
use crate::client_msg::FallbackSpec;

verus! {

#[derive(Clone, Debug, PartialEq, Eq)]
pub enum CliRequest {
    /// Submit a nexus message.
    Send { nexus_text: String, fallback: Option<FallbackSpec> },
    /// Probe an outstanding `Send`.
    Heartbeat,
    /// Cancel an in-flight request.
    Cancel,
    /// Resume an earlier request whose reply went to its fallback path.
    Resume { original_request_id: CliRequestId, fallback: FallbackSpec },
}

} // verus!
