//! rkyv archives of the client protocol's frames.
//!
//! A frame is archived as one flat record of plain values (numbers,
//! strings, bytes), so that rkyv archives it without any type of this
//! library having to implement rkyv's traits. The mapping between frames
//! and records is in the protocol modules; this module holds the two calls
//! into rkyv.
use vstd::prelude::*;

verus! {

/// The flat record a protocol frame is archived as: request id, body tag,
/// variant tag, first text, second text, path bytes, fallback format,
/// whether a fallback is present, a second request id, working stage.
pub type WireRecord = (u128, u8, u8, String, String, Vec<u8>, u8, bool, u128, u8);

/// The value of a [`WireRecord`]: its strings and bytes as sequences.
pub type WireRecordView = (u128, u8, u8, Seq<char>, Seq<char>, Seq<u8>, u8, bool, u128, u8);

/// The bytes of rkyv's archive of a record, when rkyv produces one.
pub uninterp spec fn rkyv_archive(record: WireRecordView) -> Option<Seq<u8>>;

/// The record rkyv reads back from archive bytes, when they validate.
pub uninterp spec fn rkyv_unarchive(bytes: Seq<u8>) -> Option<WireRecordView>;

/// Archives a record with `rkyv::to_bytes`. Its result is a function of
/// the record's contents alone; nothing more is claimed of the bytes.
#[verifier::external_body]
pub(crate) fn archive_record(record: &WireRecord) -> (bytes: Option<Vec<u8>>)
    ensures
        match bytes {
            Some(b) => rkyv_archive(record@) == Some(b@),
            None => rkyv_archive(record@) == None::<Seq<u8>>,
        },
{
    rkyv::to_bytes::<rkyv::rancor::Error>(record).ok().map(|aligned| aligned.to_vec())
}

/// Reads a record back with `rkyv::from_bytes`, which validates the bytes
/// first; the bytes are copied to an aligned buffer before the call. Its
/// result is a function of the bytes alone, and, as rkyv documents, the
/// bytes that `rkyv::to_bytes` wrote for a record read back as that record.
#[verifier::external_body]
pub(crate) fn unarchive_record(bytes: &[u8]) -> (record: Option<WireRecord>)
    ensures
        match record {
            Some(r) => rkyv_unarchive(bytes@) == Some(r@),
            None => rkyv_unarchive(bytes@) == None::<WireRecordView>,
        },
        match record {
            Some(r) => forall|v: WireRecordView| #[trigger] rkyv_archive(v) == Some(bytes@) ==> r@ == v,
            None => forall|v: WireRecordView| #[trigger] rkyv_archive(v) != Some(bytes@),
        },
{
    let mut aligned = rkyv::util::AlignedVec::<16>::new();
    aligned.extend_from_slice(bytes);
    rkyv::from_bytes::<WireRecord, rkyv::rancor::Error>(&aligned).ok()
}

} // verus!
