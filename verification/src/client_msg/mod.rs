//! client_msg — the protocol any client speaks to the daemon.
//!
//! Clients (the command line, editor integrations, scripts, agents) share
//! this protocol. Every request carries a client-generated [`RequestId`];
//! the id space is the client's, the daemon uses it for correlation, and
//! criome never sees it. Clients do not time out on their own: they probe
//! with [`Request::Heartbeat`] and the daemon answers [`Reply::Working`] or
//! [`Reply::Done`]. If the requester's socket drops while the daemon is
//! still working, the daemon writes the eventual reply to the path the
//! client gave in a [`FallbackSpec`], and a later [`Request::Resume`] picks
//! it up.
//!
//! The wire carries a stream of [`Frame`] archives; both parties know the
//! frame schema, so framing is intrinsic to it.

pub mod fallback;
pub mod frame;
pub mod path;
pub mod reply;
pub mod request;

pub use fallback::{FallbackFormat, FallbackSpec};
pub use frame::{Body, Frame, FrameDecodeError, RequestId};
pub use path::WirePath;
pub use reply::{Reply, WorkingStage};
pub use request::Request;
