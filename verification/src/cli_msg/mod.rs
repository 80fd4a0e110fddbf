//! cli_msg — the protocol between the command-line client and the daemon.
//!
//! Every request carries a client-generated [`CliRequestId`]; the space is
//! the client's, the daemon uses it for correlation, and criome never sees
//! it. The client does not time out on its own: it probes with
//! [`CliRequest::Heartbeat`], and the daemon answers [`CliReply::Working`]
//! or [`CliReply::Done`]. If the requester's socket drops while the daemon
//! is still working, the daemon writes the eventual reply to the fallback
//! path the client gave, and a later [`CliRequest::Resume`] picks it up.
//!
//! Each wire message is a 4-byte big-endian body length followed by the
//! archived [`CliFrame`] of that length.

pub mod frame;
pub mod reply;
pub mod request;

pub use crate::client_msg::{FallbackFormat, FallbackSpec};
pub use frame::{CliBody, CliFrame, CliRequestId, FrameDecodeError};
pub use reply::{CliReply, WorkingStage};
pub use request::CliRequest;
