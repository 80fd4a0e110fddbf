//! [`WirePath`] — raw OS path bytes for wire transport.
//!
//! Paths on Unix are byte sequences, not strings. The bytes are the
//! canonical representation: round-tripping through a UTF-8 string would
//! lose non-UTF-8 byte sequences.
use vstd::prelude::*;

verus! {

/// Raw OS path bytes.
#[derive(Clone, Debug, PartialEq, Eq, Hash)]
pub struct WirePath(pub Vec<u8>);

} // verus!
