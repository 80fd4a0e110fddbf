//! [`CliFrame`] — the wire envelope between the command-line client and
//! the daemon: a 4-byte big-endian body length, then the archived frame.
use vstd::prelude::*;
use crate::archive::{archive_record, rkyv_archive, rkyv_unarchive, unarchive_record, WireRecord, WireRecordView};
use crate::cli_msg::{CliReply, CliRequest, WorkingStage};
use crate::client_msg::frame::{canonical_record, format_code, lemma_frame_record_canonical, message_record, record_holds_frame, same_fallback, same_optional_fallback, stage_code};
use crate::client_msg::{FallbackFormat, FallbackSpec, WirePath};
use crate::criome_link::{be_bytes, be_value, frame_bytes, frame_length, max_frame_length};
use crate::entropy::{random_u64, unix_time_nanos};

verus! {

/// Client-generated correlation id of the command-line protocol.
#[derive(Clone, Copy, Debug, PartialEq, Eq, Hash, Structural)]
pub struct CliRequestId(pub u64);

/// The id for a time in Unix milliseconds and a random number: the low 40
/// bits of the time above the low 24 bits of the random number, so that
/// ids sort by the millisecond they were made in.
pub open spec fn timed_id(unix_ms: nat, random: nat) -> nat {
    (unix_ms % 0x100_0000_0000) * 0x100_0000 + random % 0x100_0000
}

impl CliRequestId {
    pub fn from_parts(unix_ms: u64, random: u64) -> (id: CliRequestId)
        ensures
            id.0 as nat == timed_id(unix_ms as nat, random as nat),
    {
        CliRequestId((unix_ms % 0x100_0000_0000) * 0x100_0000 + random % 0x100_0000)
    }

    /// A fresh id from the current time and fresh random bits. Nothing is
    /// claimed of its value: it depends on the clock and on chance.
    pub fn fresh() -> (id: CliRequestId) {
        let unix_ms: u64 = match unix_time_nanos() {
            Some(nanos) => ((nanos / 1_000_000) % 0x100_0000_0000) as u64,
            None => 0,
        };
        Self::from_parts(unix_ms, random_u64())
    }
}

#[derive(Debug)]
pub struct CliFrame {
    pub cli_request_id: CliRequestId,
    pub body: CliBody,
}

#[derive(Debug)]
pub enum CliBody {
    Request(CliRequest),
    Reply(CliReply),
}

/// Why bytes off the socket are not a command-line frame.
#[derive(Clone, Copy, Debug, PartialEq, Eq, Structural)]
pub enum FrameDecodeError {
    /// Fewer bytes than the length prefix, or than the length it gives.
    BadLength,
    /// The archive does not validate, or does not hold a frame.
    BadArchive,
    /// Bytes follow the frame.
    TrailingBytes,
}

// ─── frames as flat records ─────────────────────────────────────

pub open spec fn cli_request_record(id: u64, r: CliRequest) -> WireRecordView {
    let e = Seq::<char>::empty();
    match r {
        CliRequest::Send { nexus_text, fallback } => message_record(id as u128, 0, 0, nexus_text@, e, fallback, 0, 0),
        CliRequest::Heartbeat => message_record(id as u128, 0, 1, e, e, None, 0, 0),
        CliRequest::Cancel => message_record(id as u128, 0, 2, e, e, None, 0, 0),
        CliRequest::Resume { original_request_id, fallback } => message_record(
            id as u128,
            0,
            3,
            e,
            e,
            Some(fallback),
            original_request_id.0 as u128,
            0,
        ),
    }
}

pub open spec fn cli_reply_record(id: u64, r: CliReply) -> WireRecordView {
    let e = Seq::<char>::empty();
    match r {
        CliReply::Ack => message_record(id as u128, 1, 0, e, e, None, 0, 0),
        CliReply::Working { stage } => message_record(id as u128, 1, 1, e, e, None, 0, stage_code(stage)),
        CliReply::Done { reply_text } => message_record(id as u128, 1, 2, reply_text@, e, None, 0, 0),
        CliReply::DoneWithFallback { reply_text, fallback_path } => (
            id as u128,
            1,
            3,
            reply_text@,
            e,
            fallback_path.0@,
            0,
            false,
            0,
            0,
        ),
        CliReply::Failed { error } => message_record(id as u128, 1, 4, error@, e, None, 0, 0),
        CliReply::Cancelled => message_record(id as u128, 1, 5, e, e, None, 0, 0),
        CliReply::ResumedReply { original_request_id, reply_text } => message_record(
            id as u128,
            1,
            6,
            reply_text@,
            e,
            None,
            original_request_id.0 as u128,
            0,
        ),
        CliReply::ResumeNotReady => message_record(id as u128, 1, 7, e, e, None, 0, 0),
        CliReply::FailedFallback { reply_text, fallback_error } => message_record(
            id as u128,
            1,
            8,
            reply_text@,
            fallback_error@,
            None,
            0,
            0,
        ),
    }
}

/// The record a command-line frame is archived as.
pub open spec fn cli_frame_record(f: CliFrame) -> WireRecordView {
    match f.body {
        CliBody::Request(r) => cli_request_record(f.cli_request_id.0, r),
        CliBody::Reply(r) => cli_reply_record(f.cli_request_id.0, r),
    }
}

/// Whether two command-line requests are the same request: the same
/// variant, with the same contents.
pub open spec fn same_cli_request(a: CliRequest, b: CliRequest) -> bool {
    match a {
        CliRequest::Send { nexus_text, fallback } => b matches CliRequest::Send {
            nexus_text: t,
            fallback: f,
        } && nexus_text@ == t@ && same_optional_fallback(fallback, f),
        CliRequest::Heartbeat => b is Heartbeat,
        CliRequest::Cancel => b is Cancel,
        CliRequest::Resume { original_request_id, fallback } => b matches CliRequest::Resume {
            original_request_id: o,
            fallback: f,
        } && original_request_id == o && same_fallback(fallback, f),
    }
}

/// Whether two command-line replies are the same reply: the same variant,
/// with the same contents.
pub open spec fn same_cli_reply(a: CliReply, b: CliReply) -> bool {
    match a {
        CliReply::Ack => b is Ack,
        CliReply::Working { stage } => b matches CliReply::Working { stage: s } && stage == s,
        CliReply::Done { reply_text } => b matches CliReply::Done { reply_text: t } && reply_text@
            == t@,
        CliReply::DoneWithFallback { reply_text, fallback_path } => b matches CliReply::DoneWithFallback {
            reply_text: t,
            fallback_path: p,
        } && reply_text@ == t@ && fallback_path.0@ == p.0@,
        CliReply::Failed { error } => b matches CliReply::Failed { error: x } && error@ == x@,
        CliReply::Cancelled => b is Cancelled,
        CliReply::ResumedReply { original_request_id, reply_text } => b matches CliReply::ResumedReply {
            original_request_id: o,
            reply_text: t,
        } && original_request_id == o && reply_text@ == t@,
        CliReply::ResumeNotReady => b is ResumeNotReady,
        CliReply::FailedFallback { reply_text, fallback_error } => b matches CliReply::FailedFallback {
            reply_text: t,
            fallback_error: x,
        } && reply_text@ == t@ && fallback_error@ == x@,
    }
}

/// Whether two command-line frames are the same frame: the same id and
/// the same request or reply.
pub open spec fn same_cli_frame(f: CliFrame, g: CliFrame) -> bool {
    &&& f.cli_request_id == g.cli_request_id
    &&& match f.body {
        CliBody::Request(r) => g.body matches CliBody::Request(q) && same_cli_request(r, q),
        CliBody::Reply(r) => g.body matches CliBody::Reply(q) && same_cli_reply(r, q),
    }
}

/// Record law: the record a command-line frame is archived as keeps all of
/// the frame. Two frames with the same record are the same frame.
pub broadcast proof fn law_cli_frame_record_injective(f: CliFrame, g: CliFrame)
    requires
        cli_frame_record(f) == cli_frame_record(g),
    ensures
        #[trigger] same_cli_frame(f, g),
{
    match f.body {
        CliBody::Request(r) => match g.body {
            CliBody::Request(q) => {
                match r {
                    CliRequest::Send { fallback, .. } => match fallback {
                        Some(x) => {},
                        None => {},
                    },
                    _ => {},
                }
            },
            CliBody::Reply(q) => {},
        },
        CliBody::Reply(r) => {},
    }
}

/// Whether a record holds a command-line frame: it holds a frame and its
/// ids fit in 64 bits.
pub open spec fn record_holds_cli_frame(r: WireRecordView) -> bool {
    record_holds_frame(r) && r.0 <= u64::MAX && r.8 <= u64::MAX
}

fn format_code_of(f: FallbackFormat) -> (c: u8)
    ensures
        c == format_code(f),
{
    match f {
        FallbackFormat::Nexus => 0,
        FallbackFormat::Rkyv => 1,
    }
}

fn stage_code_of(s: WorkingStage) -> (c: u8)
    ensures
        c == stage_code(s),
{
    match s {
        WorkingStage::Parsing => 0,
        WorkingStage::AwaitingCriomed => 1,
        WorkingStage::SerialisingReply => 2,
    }
}

/// The record a command-line frame is archived as.
pub fn cli_frame_to_record(f: &CliFrame) -> (r: WireRecord)
    ensures
        r@ == cli_frame_record(*f),
{
    let id = f.cli_request_id.0 as u128;
    let none = || -> (r: (String, String, Vec<u8>))
        ensures
            r.0@ == Seq::<char>::empty() && r.1@ == Seq::<char>::empty() && r.2@ == Seq::<u8>::empty(),
        { (String::new(), String::new(), Vec::new()) };
    match &f.body {
        CliBody::Request(req) => match req {
            CliRequest::Send { nexus_text, fallback } => match fallback {
                Some(s) => (id, 0, 0, nexus_text.clone(), String::new(), s.path.0.clone(), format_code_of(s.format), true, 0, 0),
                None => (id, 0, 0, nexus_text.clone(), String::new(), Vec::new(), 0, false, 0, 0),
            },
            CliRequest::Heartbeat => {
                let (a, b, c) = none();
                (id, 0, 1, a, b, c, 0, false, 0, 0)
            },
            CliRequest::Cancel => {
                let (a, b, c) = none();
                (id, 0, 2, a, b, c, 0, false, 0, 0)
            },
            CliRequest::Resume { original_request_id, fallback } => (
                id,
                0,
                3,
                String::new(),
                String::new(),
                fallback.path.0.clone(),
                format_code_of(fallback.format),
                true,
                original_request_id.0 as u128,
                0,
            ),
        },
        CliBody::Reply(rep) => match rep {
            CliReply::Ack => {
                let (a, b, c) = none();
                (id, 1, 0, a, b, c, 0, false, 0, 0)
            },
            CliReply::Working { stage } => {
                let (a, b, c) = none();
                (id, 1, 1, a, b, c, 0, false, 0, stage_code_of(*stage))
            },
            CliReply::Done { reply_text } => (id, 1, 2, reply_text.clone(), String::new(), Vec::new(), 0, false, 0, 0),
            CliReply::DoneWithFallback { reply_text, fallback_path } => (
                id,
                1,
                3,
                reply_text.clone(),
                String::new(),
                fallback_path.0.clone(),
                0,
                false,
                0,
                0,
            ),
            CliReply::Failed { error } => (id, 1, 4, error.clone(), String::new(), Vec::new(), 0, false, 0, 0),
            CliReply::Cancelled => {
                let (a, b, c) = none();
                (id, 1, 5, a, b, c, 0, false, 0, 0)
            },
            CliReply::ResumedReply { original_request_id, reply_text } => (
                id,
                1,
                6,
                reply_text.clone(),
                String::new(),
                Vec::new(),
                0,
                false,
                original_request_id.0 as u128,
                0,
            ),
            CliReply::ResumeNotReady => {
                let (a, b, c) = none();
                (id, 1, 7, a, b, c, 0, false, 0, 0)
            },
            CliReply::FailedFallback { reply_text, fallback_error } => (
                id,
                1,
                8,
                reply_text.clone(),
                fallback_error.clone(),
                Vec::new(),
                0,
                false,
                0,
                0,
            ),
        },
    }
}

/// The command-line frame a record holds, or `BadArchive` when it holds
/// none.
pub fn cli_frame_from_record(r: WireRecord) -> (res: Result<CliFrame, FrameDecodeError>)
    ensures
        record_holds_cli_frame(r@) ==> (res matches Ok(f) && cli_frame_record(f) == canonical_record(r@)),
        !record_holds_cli_frame(r@) ==> res == Err::<CliFrame, FrameDecodeError>(
            FrameDecodeError::BadArchive,
        ),
{
    let (id, body, variant, text, text2, path, format, has_fallback, other_id, stage) = r;
    if id > u64::MAX as u128 || other_id > u64::MAX as u128 {
        return Err(FrameDecodeError::BadArchive);
    }
    let cli_request_id = CliRequestId(id as u64);
    let other = CliRequestId(other_id as u64);
    let format_value = if format == 0 {
        FallbackFormat::Nexus
    } else {
        FallbackFormat::Rkyv
    };
    if body == 0 {
        let request = if variant == 0 {
            if has_fallback && format > 1 {
                return Err(FrameDecodeError::BadArchive);
            }
            let fallback = if has_fallback {
                Some(FallbackSpec { path: WirePath(path), format: format_value })
            } else {
                None
            };
            CliRequest::Send { nexus_text: text, fallback }
        } else if variant == 1 {
            CliRequest::Heartbeat
        } else if variant == 2 {
            CliRequest::Cancel
        } else if variant == 3 {
            if !has_fallback || format > 1 {
                return Err(FrameDecodeError::BadArchive);
            }
            CliRequest::Resume {
                original_request_id: other,
                fallback: FallbackSpec { path: WirePath(path), format: format_value },
            }
        } else {
            return Err(FrameDecodeError::BadArchive);
        };
        Ok(CliFrame { cli_request_id, body: CliBody::Request(request) })
    } else if body == 1 {
        let reply = if variant == 0 {
            CliReply::Ack
        } else if variant == 1 {
            let s = if stage == 0 {
                WorkingStage::Parsing
            } else if stage == 1 {
                WorkingStage::AwaitingCriomed
            } else if stage == 2 {
                WorkingStage::SerialisingReply
            } else {
                return Err(FrameDecodeError::BadArchive);
            };
            CliReply::Working { stage: s }
        } else if variant == 2 {
            CliReply::Done { reply_text: text }
        } else if variant == 3 {
            CliReply::DoneWithFallback { reply_text: text, fallback_path: WirePath(path) }
        } else if variant == 4 {
            CliReply::Failed { error: text }
        } else if variant == 5 {
            CliReply::Cancelled
        } else if variant == 6 {
            CliReply::ResumedReply { original_request_id: other, reply_text: text }
        } else if variant == 7 {
            CliReply::ResumeNotReady
        } else if variant == 8 {
            CliReply::FailedFallback { reply_text: text, fallback_error: text2 }
        } else {
            return Err(FrameDecodeError::BadArchive);
        };
        Ok(CliFrame { cli_request_id, body: CliBody::Reply(reply) })
    } else {
        Err(FrameDecodeError::BadArchive)
    }
}

/// Every command-line frame's record holds a frame, and is its own
/// canonical record.
pub proof fn lemma_cli_frame_record_canonical(f: CliFrame)
    ensures
        record_holds_cli_frame(cli_frame_record(f)),
        canonical_record(cli_frame_record(f)) == cli_frame_record(f),
{
}

/// What the decoder makes of bytes that hold exactly one length-prefixed
/// archive: the frame of its record, or `BadArchive`.
pub open spec fn archive_decodes_as(res: Result<CliFrame, FrameDecodeError>, archive: Seq<u8>) -> bool {
    match rkyv_unarchive(archive) {
        None => res == Err::<CliFrame, FrameDecodeError>(FrameDecodeError::BadArchive),
        Some(r) => if record_holds_cli_frame(r) {
            res matches Ok(f) && cli_frame_record(f) == canonical_record(r)
        } else {
            res == Err::<CliFrame, FrameDecodeError>(FrameDecodeError::BadArchive)
        },
    }
}

impl CliFrame {
    /// The wire bytes of this frame: the 4-byte big-endian length of its
    /// rkyv archive, then the archive. `None` when rkyv produces no archive
    /// or the archive is longer than the prefix can say.
    pub fn encode(&self) -> (bytes: Option<Vec<u8>>)
        ensures
            match rkyv_archive(cli_frame_record(*self)) {
                None => bytes is None,
                Some(a) => if a.len() <= max_frame_length() {
                    bytes matches Some(b) && b@ == be_bytes(a.len()) + a
                } else {
                    bytes is None
                },
            },
    {
        let record = cli_frame_to_record(self);
        match archive_record(&record) {
            Some(archive) => match frame_bytes(archive.as_slice()) {
                Ok(b) => Some(b),
                Err(_) => None,
            },
            None => None,
        }
    }

    /// The frame in wire bytes read off the socket. The length prefix must
    /// announce exactly the bytes that follow it.
    pub fn decode(bytes: &[u8]) -> (res: Result<CliFrame, FrameDecodeError>)
        ensures
            bytes@.len() < 4 ==> res == Err::<CliFrame, FrameDecodeError>(
                FrameDecodeError::BadLength,
            ),
            bytes@.len() >= 4 ==> {
                let n = be_value(bytes@.take(4));
                &&& bytes@.len() < 4 + n ==> res == Err::<CliFrame, FrameDecodeError>(
                    FrameDecodeError::BadLength,
                )
                &&& bytes@.len() > 4 + n ==> res == Err::<CliFrame, FrameDecodeError>(
                    FrameDecodeError::TrailingBytes,
                )
                &&& bytes@.len() == 4 + n ==> archive_decodes_as(res, bytes@.subrange(4, bytes@.len() as int))
            },
            forall|g: CliFrame, a: Seq<u8>|
                #![trigger rkyv_archive(cli_frame_record(g)), be_bytes(a.len())]
                rkyv_archive(cli_frame_record(g)) == Some(a) && a.len() <= max_frame_length() && bytes@
                    == be_bytes(a.len()) + a ==> (res matches Ok(h) && cli_frame_record(h)
                    == cli_frame_record(g) && same_cli_frame(h, g)),
    {
        broadcast use law_cli_frame_record_injective;

        if bytes.len() < 4 {
            proof {
                assert forall|g: CliFrame, a: Seq<u8>|
                    #![trigger rkyv_archive(cli_frame_record(g)), be_bytes(a.len())]
                    rkyv_archive(cli_frame_record(g)) == Some(a) && a.len() <= max_frame_length() && bytes@
                        == be_bytes(a.len()) + a implies false by {
                    assert((be_bytes(a.len()) + a).len() >= 4);
                }
            }
            return Err(FrameDecodeError::BadLength);
        }
        let prefix: [u8; 4] = [bytes[0], bytes[1], bytes[2], bytes[3]];
        assert(prefix@ =~= bytes@.take(4));
        let n = frame_length(prefix) as usize;
        let rest = bytes.len() - 4;
        proof {
            assert forall|g: CliFrame, a: Seq<u8>|
                #![trigger rkyv_archive(cli_frame_record(g)), be_bytes(a.len())]
                rkyv_archive(cli_frame_record(g)) == Some(a) && a.len() <= max_frame_length() && bytes@
                    == be_bytes(a.len()) + a implies n == a.len() && bytes@.subrange(4, bytes@.len() as int) == a by {
                crate::criome_link::law_frame_roundtrip(a, Seq::empty());
                assert(be_bytes(a.len()) + a + Seq::<u8>::empty() =~= bytes@);
                assert(bytes@.subrange(4, bytes@.len() as int) =~= a);
            }
        }
        if rest < n {
            return Err(FrameDecodeError::BadLength);
        }
        if rest > n {
            return Err(FrameDecodeError::TrailingBytes);
        }
        let mut archive: Vec<u8> = Vec::new();
        let mut i: usize = 4;
        while i < bytes.len()
            invariant
                4 <= i <= bytes@.len(),
                archive@ == bytes@.subrange(4, i as int),
            decreases bytes@.len() - i,
        {
            archive.push(bytes[i]);
            i = i + 1;
            assert(archive@ =~= bytes@.subrange(4, i as int));
        }
        let decoded = unarchive_record(archive.as_slice());
        proof {
            assert forall|g: CliFrame, a: Seq<u8>|
                #![trigger rkyv_archive(cli_frame_record(g)), be_bytes(a.len())]
                rkyv_archive(cli_frame_record(g)) == Some(a) && a.len() <= max_frame_length() && bytes@
                    == be_bytes(a.len()) + a implies decoded matches Some(r) && r@ == cli_frame_record(g) by {
                lemma_cli_frame_record_canonical(g);
                assert(rkyv_archive(cli_frame_record(g)) == Some(archive@));
            }
        }
        match decoded {
            Some(record) => cli_frame_from_record(record),
            None => Err(FrameDecodeError::BadArchive),
        }
    }
}

} // verus!
