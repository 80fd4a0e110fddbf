//! [`FallbackSpec`] — where the daemon writes a reply if the client socket
//! disappears before the reply is ready.
use vstd::prelude::*;
use crate::client_msg::WirePath;

verus! {

#[derive(Clone, Debug, PartialEq, Eq)]
pub struct FallbackSpec {
    /// The path the daemon writes to, as raw OS path bytes.
    pub path: WirePath,
    /// What format the reply is written in.
    pub format: FallbackFormat,
}

#[derive(Clone, Copy, Debug, PartialEq, Eq, Structural)]
pub enum FallbackFormat {
    /// Human-readable nexus text, the same as a `Done` reply's text.
    Nexus,
    /// The archived reply, so that a resuming client decodes it the same
    /// way as a live wire reply.
    Rkyv,
}

} // verus!
