//! [`Request`] — what a client sends to the daemon.
use vstd::prelude::*;
use crate::client_msg::{FallbackSpec, RequestId};

verus! {

#[derive(Clone, Debug, PartialEq, Eq)]
pub enum Request {
    /// Submit a nexus message: the daemon parses it, forwards it to criome,
    /// and answers with the rendered reply.
    Send {
        /// Raw nexus text.
        nexus_text: String,
        /// Where to write the reply if the requester's socket disappears
        /// before the reply is ready.
        fallback: Option<FallbackSpec>,
    },
    /// "Still waiting, is everything ok?" — sent periodically while a
    /// `Send` is outstanding.
    Heartbeat,
    /// Cancel an in-flight request.
    Cancel,
    /// Resume an earlier request whose reply was written to a fallback
    /// path. The enclosing frame's id is this resume's own id; the original
    /// request's id is in the payload.
    Resume { original_request_id: RequestId, fallback: FallbackSpec },
}

} // verus!
