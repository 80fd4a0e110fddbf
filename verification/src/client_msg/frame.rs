//! [`Frame`] — the wire envelope between a client and the daemon.
use vstd::prelude::*;
use crate::archive::{archive_record, rkyv_archive, rkyv_unarchive, unarchive_record, WireRecord, WireRecordView};
use crate::cli_msg::WorkingStage;
use crate::client_msg::{FallbackFormat, FallbackSpec, Reply, Request, WirePath};
use crate::entropy::{random_u64, unix_time_nanos};

verus! {

/// Client-generated correlation id. Every client request carries one; the
/// daemon never invents ids in this space and criome never sees them.
#[derive(Clone, Copy, Debug, PartialEq, Eq, Hash, Structural)]
pub struct RequestId(pub u128);

/// The UUID version 7 layout: 48 bits of Unix milliseconds, the version
/// `7`, 12 random bits, the variant `0b10`, 62 random bits.
pub open spec fn uuid_v7(unix_ms: nat, random_a: nat, random_b: nat) -> nat {
    (unix_ms % 0x1_0000_0000_0000) * 0x1_0000_0000_0000_0000_0000 + 7 * 0x1000_0000_0000_0000_0000
        + (random_a % 0x1000) * 0x1_0000_0000_0000_0000 + 2 * 0x4000_0000_0000_0000 + (random_b
        % 0x4000_0000_0000_0000)
}

impl RequestId {
    /// The UUID version 7 id for a time in Unix milliseconds and two random
    /// numbers.
    pub fn from_uuid_v7_parts(unix_ms: u64, random_a: u64, random_b: u64) -> (id: RequestId)
        ensures
            id.0 as nat == uuid_v7(unix_ms as nat, random_a as nat, random_b as nat),
    {
        let ms = (unix_ms % 0x1_0000_0000_0000) as u128;
        let a = (random_a % 0x1000) as u128;
        let b = (random_b % 0x4000_0000_0000_0000) as u128;
        RequestId(
            ms * 0x1_0000_0000_0000_0000_0000 + 7 * 0x1000_0000_0000_0000_0000 + a
                * 0x1_0000_0000_0000_0000 + 2 * 0x4000_0000_0000_0000 + b,
        )
    }

    /// A fresh UUID version 7 id, from the current time and fresh random
    /// bits. Whatever the clock and the random source give, the id carries
    /// the version `7` and the variant `0b10`.
    pub fn fresh() -> (id: RequestId)
        ensures
            (id.0 as nat / 0x1000_0000_0000_0000_0000) % 16 == 7,
            (id.0 as nat / 0x4000_0000_0000_0000) % 4 == 2,
    {
        let unix_ms: u64 = match unix_time_nanos() {
            Some(nanos) => ((nanos / 1_000_000) % 0x1_0000_0000_0000) as u64,
            None => 0,
        };
        let id = Self::from_uuid_v7_parts(unix_ms, random_u64(), random_u64());
        proof {
            lemma_uuid_v7_markers(unix_ms as nat, 0, 0);
        }
        id
    }
}

/// Every UUID version 7 id carries the version `7` and the variant `0b10`.
pub proof fn lemma_uuid_v7_markers(unix_ms: nat, random_a: nat, random_b: nat)
    ensures
        forall|a: nat, b: nat|
            #![trigger uuid_v7(unix_ms, a, b)]
            (uuid_v7(unix_ms, a, b) / 0x1000_0000_0000_0000_0000) % 16 == 7 && (uuid_v7(
                unix_ms,
                a,
                b,
            ) / 0x4000_0000_0000_0000) % 4 == 2,
{
    assert forall|a: nat, b: nat|
        #![trigger uuid_v7(unix_ms, a, b)]
        (uuid_v7(unix_ms, a, b) / 0x1000_0000_0000_0000_0000) % 16 == 7 && (uuid_v7(unix_ms, a, b)
            / 0x4000_0000_0000_0000) % 4 == 2 by {
        let m = unix_ms % 0x1_0000_0000_0000;
        let x = a % 0x1000;
        let y = b % 0x4000_0000_0000_0000;
        let low = x * 0x1_0000_0000_0000_0000 + 2 * 0x4000_0000_0000_0000 + y;
        assert(uuid_v7(unix_ms, a, b) == (m * 16 + 7) * 0x1000_0000_0000_0000_0000 + low);
        assert(low < 0x1000_0000_0000_0000_0000);
        vstd::arithmetic::div_mod::lemma_fundamental_div_mod_converse(
            uuid_v7(unix_ms, a, b) as int,
            0x1000_0000_0000_0000_0000,
            (m * 16 + 7) as int,
            low as int,
        );
        vstd::arithmetic::div_mod::lemma_fundamental_div_mod_converse(
            (m * 16 + 7) as int,
            16,
            m as int,
            7,
        );
        let high = m * 16 + 7;
        assert(uuid_v7(unix_ms, a, b) == (high * 0x4000 + x * 4 + 2) * 0x4000_0000_0000_0000 + y);
        vstd::arithmetic::div_mod::lemma_fundamental_div_mod_converse(
            uuid_v7(unix_ms, a, b) as int,
            0x4000_0000_0000_0000,
            (high * 0x4000 + x * 4 + 2) as int,
            y as int,
        );
        vstd::arithmetic::div_mod::lemma_fundamental_div_mod_converse(
            (high * 0x4000 + x * 4 + 2) as int,
            4,
            (high * 0x1000 + x) as int,
            2,
        );
    }
}

#[derive(Debug)]
pub struct Frame {
    pub request_id: RequestId,
    pub body: Body,
}

#[derive(Debug)]
pub enum Body {
    Request(Request),
    Reply(Reply),
}

/// Why bytes off the socket are not a frame.
#[derive(Clone, Copy, Debug, PartialEq, Eq, Structural)]
pub enum FrameDecodeError {
    /// The archive does not validate, or does not hold a frame.
    BadArchive,
    /// Bytes follow the frame.
    TrailingBytes,
}

// ─── frames as flat records ─────────────────────────────────────

pub open spec fn format_code(f: FallbackFormat) -> u8 {
    match f {
        FallbackFormat::Nexus => 0,
        FallbackFormat::Rkyv => 1,
    }
}

pub open spec fn stage_code(s: WorkingStage) -> u8 {
    match s {
        WorkingStage::Parsing => 0,
        WorkingStage::AwaitingCriomed => 1,
        WorkingStage::SerialisingReply => 2,
    }
}

/// The record of a message: tags, texts, fallback and second id, with the
/// fields a variant does not use left empty.
pub open spec fn message_record(
    id: u128,
    body: u8,
    variant: u8,
    text: Seq<char>,
    text2: Seq<char>,
    fallback: Option<FallbackSpec>,
    other_id: u128,
    stage: u8,
) -> WireRecordView {
    match fallback {
        Some(f) => (id, body, variant, text, text2, f.path.0@, format_code(f.format), true, other_id, stage),
        None => (id, body, variant, text, text2, Seq::empty(), 0, false, other_id, stage),
    }
}

/// The record of a request with id `id`.
pub open spec fn request_record(id: u128, r: Request) -> WireRecordView {
    match r {
        Request::Send { nexus_text, fallback } => message_record(
            id,
            0,
            0,
            nexus_text@,
            Seq::empty(),
            fallback,
            0,
            0,
        ),
        Request::Heartbeat => message_record(id, 0, 1, Seq::empty(), Seq::empty(), None, 0, 0),
        Request::Cancel => message_record(id, 0, 2, Seq::empty(), Seq::empty(), None, 0, 0),
        Request::Resume { original_request_id, fallback } => message_record(
            id,
            0,
            3,
            Seq::empty(),
            Seq::empty(),
            Some(fallback),
            original_request_id.0,
            0,
        ),
    }
}

/// The record of a reply with id `id`.
pub open spec fn reply_record(id: u128, r: Reply) -> WireRecordView {
    let e = Seq::<char>::empty();
    match r {
        Reply::Ack => message_record(id, 1, 0, e, e, None, 0, 0),
        Reply::Working { stage } => message_record(id, 1, 1, e, e, None, 0, stage_code(stage)),
        Reply::Done { reply_text } => message_record(id, 1, 2, reply_text@, e, None, 0, 0),
        Reply::DoneWithFallback { reply_text, fallback_path } => (
            id,
            1,
            3,
            reply_text@,
            e,
            fallback_path.0@,
            0,
            false,
            0,
            0,
        ),
        Reply::Failed { error } => message_record(id, 1, 4, error@, e, None, 0, 0),
        Reply::Cancelled => message_record(id, 1, 5, e, e, None, 0, 0),
        Reply::ResumedReply { original_request_id, reply_text } => message_record(
            id,
            1,
            6,
            reply_text@,
            e,
            None,
            original_request_id.0,
            0,
        ),
        Reply::ResumeNotReady => message_record(id, 1, 7, e, e, None, 0, 0),
        Reply::FailedFallback { reply_text, fallback_error } => message_record(
            id,
            1,
            8,
            reply_text@,
            fallback_error@,
            None,
            0,
            0,
        ),
    }
}

/// The record a frame is archived as.
pub open spec fn frame_record(f: Frame) -> WireRecordView {
    match f.body {
        Body::Request(r) => request_record(f.request_id.0, r),
        Body::Reply(r) => reply_record(f.request_id.0, r),
    }
}

/// Whether two fallbacks are the same: the same path bytes and the same
/// format.
pub open spec fn same_fallback(a: FallbackSpec, b: FallbackSpec) -> bool {
    a.path.0@ == b.path.0@ && a.format == b.format
}

/// Whether two optional fallbacks are the same.
pub open spec fn same_optional_fallback(a: Option<FallbackSpec>, b: Option<FallbackSpec>) -> bool {
    match a {
        None => b is None,
        Some(x) => b matches Some(y) && same_fallback(x, y),
    }
}

/// Whether two requests are the same request: the same variant, with the
/// same contents.
pub open spec fn same_request(a: Request, b: Request) -> bool {
    match a {
        Request::Send { nexus_text, fallback } => b matches Request::Send {
            nexus_text: t,
            fallback: f,
        } && nexus_text@ == t@ && same_optional_fallback(fallback, f),
        Request::Heartbeat => b is Heartbeat,
        Request::Cancel => b is Cancel,
        Request::Resume { original_request_id, fallback } => b matches Request::Resume {
            original_request_id: o,
            fallback: f,
        } && original_request_id == o && same_fallback(fallback, f),
    }
}

/// Whether two replies are the same reply: the same variant, with the same
/// contents.
pub open spec fn same_reply(a: Reply, b: Reply) -> bool {
    match a {
        Reply::Ack => b is Ack,
        Reply::Working { stage } => b matches Reply::Working { stage: s } && stage == s,
        Reply::Done { reply_text } => b matches Reply::Done { reply_text: t } && reply_text@ == t@,
        Reply::DoneWithFallback { reply_text, fallback_path } => b matches Reply::DoneWithFallback {
            reply_text: t,
            fallback_path: p,
        } && reply_text@ == t@ && fallback_path.0@ == p.0@,
        Reply::Failed { error } => b matches Reply::Failed { error: x } && error@ == x@,
        Reply::Cancelled => b is Cancelled,
        Reply::ResumedReply { original_request_id, reply_text } => b matches Reply::ResumedReply {
            original_request_id: o,
            reply_text: t,
        } && original_request_id == o && reply_text@ == t@,
        Reply::ResumeNotReady => b is ResumeNotReady,
        Reply::FailedFallback { reply_text, fallback_error } => b matches Reply::FailedFallback {
            reply_text: t,
            fallback_error: x,
        } && reply_text@ == t@ && fallback_error@ == x@,
    }
}

/// Whether two frames are the same frame: the same id and the same
/// request or reply.
pub open spec fn same_frame(f: Frame, g: Frame) -> bool {
    &&& f.request_id == g.request_id
    &&& match f.body {
        Body::Request(r) => g.body matches Body::Request(q) && same_request(r, q),
        Body::Reply(r) => g.body matches Body::Reply(q) && same_reply(r, q),
    }
}

/// Record law: the record a frame is archived as keeps all of the frame.
/// Two frames with the same record are the same frame, so reading a
/// frame's record back gives that frame and no other.
pub broadcast proof fn law_frame_record_injective(f: Frame, g: Frame)
    requires
        frame_record(f) == frame_record(g),
    ensures
        #[trigger] same_frame(f, g),
{
    match f.body {
        Body::Request(r) => match g.body {
            Body::Request(q) => {
                match r {
                    Request::Send { fallback, .. } => match fallback {
                        Some(x) => {},
                        None => {},
                    },
                    _ => {},
                }
            },
            Body::Reply(q) => {},
        },
        Body::Reply(r) => {},
    }
}

/// Whether a record holds a frame: known tags, a known fallback format,
/// a known stage, and a fallback wherever the variant needs one.
pub open spec fn record_holds_frame(r: WireRecordView) -> bool {
    let (_, body, variant, _, _, _, format, has_fallback, _, stage) = r;
    ||| body == 0 && variant == 0 && (has_fallback ==> format <= 1)
    ||| body == 0 && (variant == 1 || variant == 2)
    ||| body == 0 && variant == 3 && has_fallback && format <= 1
    ||| body == 1 && variant <= 8 && variant != 1
    ||| body == 1 && variant == 1 && stage <= 2
}

/// The record with every field its variant does not use cleared.
pub open spec fn canonical_record(r: WireRecordView) -> WireRecordView {
    let (id, body, variant, text, text2, path, format, has_fallback, other_id, stage) = r;
    let e = Seq::<char>::empty();
    let no_path = Seq::<u8>::empty();
    if body == 0 {
        if variant == 0 {
            if has_fallback {
                (id, 0, 0, text, e, path, format, true, 0, 0)
            } else {
                (id, 0, 0, text, e, no_path, 0, false, 0, 0)
            }
        } else if variant == 3 {
            (id, 0, 3, e, e, path, format, true, other_id, 0)
        } else {
            (id, 0, variant, e, e, no_path, 0, false, 0, 0)
        }
    } else {
        if variant == 1 {
            (id, 1, 1, e, e, no_path, 0, false, 0, stage)
        } else if variant == 2 || variant == 4 {
            (id, 1, variant, text, e, no_path, 0, false, 0, 0)
        } else if variant == 3 {
            (id, 1, 3, text, e, path, 0, false, 0, 0)
        } else if variant == 6 {
            (id, 1, 6, text, e, no_path, 0, false, other_id, 0)
        } else if variant == 8 {
            (id, 1, 8, text, text2, no_path, 0, false, 0, 0)
        } else {
            (id, 1, variant, e, e, no_path, 0, false, 0, 0)
        }
    }
}

fn fallback_fields(f: &Option<FallbackSpec>) -> (r: (Vec<u8>, u8, bool))
    ensures
        match f {
            Some(s) => r.0@ == s.path.0@ && r.1 == format_code(s.format) && r.2,
            None => r.0@ == Seq::<u8>::empty() && r.1 == 0 && !r.2,
        },
{
    match f {
        Some(s) => (s.path.0.clone(), format_code_exec(s.format), true),
        None => (Vec::new(), 0, false),
    }
}

fn format_code_exec(f: FallbackFormat) -> (c: u8)
    ensures
        c == format_code(f),
{
    match f {
        FallbackFormat::Nexus => 0,
        FallbackFormat::Rkyv => 1,
    }
}

fn stage_code_exec(s: WorkingStage) -> (c: u8)
    ensures
        c == stage_code(s),
{
    match s {
        WorkingStage::Parsing => 0,
        WorkingStage::AwaitingCriomed => 1,
        WorkingStage::SerialisingReply => 2,
    }
}

/// The record a frame is archived as.
pub fn frame_to_record(f: &Frame) -> (r: WireRecord)
    ensures
        r@ == frame_record(*f),
{
    let id = f.request_id.0;
    match &f.body {
        Body::Request(req) => match req {
            Request::Send { nexus_text, fallback } => {
                let (path, format, has) = fallback_fields(fallback);
                (id, 0, 0, nexus_text.clone(), String::new(), path, format, has, 0, 0)
            },
            Request::Heartbeat => (id, 0, 1, String::new(), String::new(), Vec::new(), 0, false, 0, 0),
            Request::Cancel => (id, 0, 2, String::new(), String::new(), Vec::new(), 0, false, 0, 0),
            Request::Resume { original_request_id, fallback } => (
                id,
                0,
                3,
                String::new(),
                String::new(),
                fallback.path.0.clone(),
                format_code_exec(fallback.format),
                true,
                original_request_id.0,
                0,
            ),
        },
        Body::Reply(rep) => match rep {
            Reply::Ack => (id, 1, 0, String::new(), String::new(), Vec::new(), 0, false, 0, 0),
            Reply::Working { stage } => (
                id,
                1,
                1,
                String::new(),
                String::new(),
                Vec::new(),
                0,
                false,
                0,
                stage_code_exec(*stage),
            ),
            Reply::Done { reply_text } => (id, 1, 2, reply_text.clone(), String::new(), Vec::new(), 0, false, 0, 0),
            Reply::DoneWithFallback { reply_text, fallback_path } => (
                id,
                1,
                3,
                reply_text.clone(),
                String::new(),
                fallback_path.0.clone(),
                0,
                false,
                0,
                0,
            ),
            Reply::Failed { error } => (id, 1, 4, error.clone(), String::new(), Vec::new(), 0, false, 0, 0),
            Reply::Cancelled => (id, 1, 5, String::new(), String::new(), Vec::new(), 0, false, 0, 0),
            Reply::ResumedReply { original_request_id, reply_text } => (
                id,
                1,
                6,
                reply_text.clone(),
                String::new(),
                Vec::new(),
                0,
                false,
                original_request_id.0,
                0,
            ),
            Reply::ResumeNotReady => (id, 1, 7, String::new(), String::new(), Vec::new(), 0, false, 0, 0),
            Reply::FailedFallback { reply_text, fallback_error } => (
                id,
                1,
                8,
                reply_text.clone(),
                fallback_error.clone(),
                Vec::new(),
                0,
                false,
                0,
                0,
            ),
        },
    }
}

/// The frame a record holds, or `BadArchive` when it holds none.
pub fn frame_from_record(r: WireRecord) -> (res: Result<Frame, FrameDecodeError>)
    ensures
        record_holds_frame(r@) ==> (res matches Ok(f) && frame_record(f) == canonical_record(r@)),
        !record_holds_frame(r@) ==> res == Err::<Frame, FrameDecodeError>(
            FrameDecodeError::BadArchive,
        ),
{
    let (id, body, variant, text, text2, path, format, has_fallback, other_id, stage) = r;
    let request_id = RequestId(id);
    let format_value = if format == 0 {
        FallbackFormat::Nexus
    } else {
        FallbackFormat::Rkyv
    };
    if body == 0 {
        if variant == 0 {
            if has_fallback && format > 1 {
                return Err(FrameDecodeError::BadArchive);
            }
            let fallback = if has_fallback {
                Some(FallbackSpec { path: WirePath(path), format: format_value })
            } else {
                None
            };
            Ok(Frame { request_id, body: Body::Request(Request::Send { nexus_text: text, fallback }) })
        } else if variant == 1 {
            Ok(Frame { request_id, body: Body::Request(Request::Heartbeat) })
        } else if variant == 2 {
            Ok(Frame { request_id, body: Body::Request(Request::Cancel) })
        } else if variant == 3 {
            if !has_fallback || format > 1 {
                return Err(FrameDecodeError::BadArchive);
            }
            Ok(
                Frame {
                    request_id,
                    body: Body::Request(
                        Request::Resume {
                            original_request_id: RequestId(other_id),
                            fallback: FallbackSpec { path: WirePath(path), format: format_value },
                        },
                    ),
                },
            )
        } else {
            Err(FrameDecodeError::BadArchive)
        }
    } else if body == 1 {
        let reply = if variant == 0 {
            Reply::Ack
        } else if variant == 1 {
            let s = if stage == 0 {
                WorkingStage::Parsing
            } else if stage == 1 {
                WorkingStage::AwaitingCriomed
            } else if stage == 2 {
                WorkingStage::SerialisingReply
            } else {
                return Err(FrameDecodeError::BadArchive);
            };
            Reply::Working { stage: s }
        } else if variant == 2 {
            Reply::Done { reply_text: text }
        } else if variant == 3 {
            Reply::DoneWithFallback { reply_text: text, fallback_path: WirePath(path) }
        } else if variant == 4 {
            Reply::Failed { error: text }
        } else if variant == 5 {
            Reply::Cancelled
        } else if variant == 6 {
            Reply::ResumedReply { original_request_id: RequestId(other_id), reply_text: text }
        } else if variant == 7 {
            Reply::ResumeNotReady
        } else if variant == 8 {
            Reply::FailedFallback { reply_text: text, fallback_error: text2 }
        } else {
            return Err(FrameDecodeError::BadArchive);
        };
        Ok(Frame { request_id, body: Body::Reply(reply) })
    } else {
        Err(FrameDecodeError::BadArchive)
    }
}

/// Whether the first `k` bytes of `bytes` are exactly rkyv's archive of
/// the frame `g`.
pub open spec fn frame_archive_at(bytes: Seq<u8>, k: int, g: Frame) -> bool {
    rkyv_archive(frame_record(g)) == Some(bytes.take(k))
}

/// Whether a whole frame's archive ends before the end of `bytes`: some
/// proper prefix of them is exactly a frame's archive.
pub open spec fn frame_ends_early(bytes: Seq<u8>) -> bool {
    exists|k: int, g: Frame| 0 <= k < bytes.len() && #[trigger] frame_archive_at(bytes, k, g)
}

/// Whether the bytes, read as an rkyv archive, validate as a frame.
pub open spec fn validates_as_frame(bytes: Seq<u8>) -> bool {
    rkyv_unarchive(bytes) matches Some(r) && record_holds_frame(r)
}

/// Whether two byte strings are equal.
fn bytes_equal(x: &[u8], y: &[u8]) -> (b: bool)
    ensures
        b == (x@ == y@),
{
    if x.len() != y.len() {
        return false;
    }
    let mut i: usize = 0;
    while i < x.len()
        invariant
            i <= x@.len(),
            x@.len() == y@.len(),
            forall|j: int| 0 <= j < i ==> x@[j] == y@[j],
        decreases x@.len() - i,
    {
        if x[i] != y[i] {
            return false;
        }
        i = i + 1;
    }
    assert(x@ =~= y@);
    true
}

/// Whether `bytes` are exactly rkyv's archive of some frame: they read
/// back as a frame, and that frame archives to these very bytes.
fn is_frame_archive(bytes: &[u8]) -> (b: bool)
    ensures
        b == exists|g: Frame| #[trigger] rkyv_archive(frame_record(g)) == Some(bytes@),
{
    let decoded = unarchive_record(bytes);
    match decoded {
        None => false,
        Some(record) => {
            let ghost rv = record@;
            proof {
                assert forall|g: Frame| #[trigger] rkyv_archive(frame_record(g)) == Some(bytes@) implies rv == frame_record(g) && record_holds_frame(rv) && canonical_record(rv) == rv by {
                    lemma_frame_record_canonical(g);
                }
            }
            match frame_from_record(record) {
                Err(_) => false,
                Ok(f) => {
                    let again = frame_to_record(&f);
                    match archive_record(&again) {
                        None => false,
                        Some(a) => {
                            let same = bytes_equal(a.as_slice(), bytes);
                            proof {
                                if same {
                                    assert(rkyv_archive(frame_record(f)) == Some(bytes@));
                                }
                            }
                            same
                        },
                    }
                },
            }
        },
    }
}

impl Frame {
    /// The rkyv archive bytes of this frame, for a socket write; `None`
    /// when rkyv produces no archive.
    pub fn encode(&self) -> (bytes: Option<Vec<u8>>)
        ensures
            match bytes {
                Some(b) => rkyv_archive(frame_record(*self)) == Some(b@),
                None => rkyv_archive(frame_record(*self)) == None::<Seq<u8>>,
            },
    {
        let record = frame_to_record(self);
        archive_record(&record)
    }

    /// The frame in rkyv archive bytes read off the socket. Bytes that
    /// validate as a frame decode to it. Otherwise, when a frame's whole
    /// archive ends before the bytes do, the error is `TrailingBytes`
    /// (every proper prefix is tried, so this costs time quadratic in the
    /// length of rejected input); else it is `BadArchive`.
    pub fn decode(bytes: &[u8]) -> (res: Result<Frame, FrameDecodeError>)
        ensures
            match rkyv_unarchive(bytes@) {
                Some(r) if record_holds_frame(r) => res matches Ok(f) && frame_record(f)
                    == canonical_record(r),
                _ => if frame_ends_early(bytes@) {
                    res == Err::<Frame, FrameDecodeError>(FrameDecodeError::TrailingBytes)
                } else {
                    res == Err::<Frame, FrameDecodeError>(FrameDecodeError::BadArchive)
                },
            },
            forall|g: Frame|
                #[trigger] rkyv_archive(frame_record(g)) == Some(bytes@) ==> (res matches Ok(h)
                    && frame_record(h) == frame_record(g) && same_frame(h, g)),
            forall|g: Frame, k: int|
                0 <= k < bytes@.len() && #[trigger] frame_archive_at(bytes@, k, g)
                    && !validates_as_frame(bytes@) ==> res == Err::<Frame, FrameDecodeError>(
                    FrameDecodeError::TrailingBytes,
                ),
    {
        broadcast use law_frame_record_injective;

        let decoded = unarchive_record(bytes);
        proof {
            assert forall|g: Frame| #[trigger] rkyv_archive(frame_record(g)) == Some(bytes@) implies decoded matches Some(r) && r@ == frame_record(g) by {
                lemma_frame_record_canonical(g);
            }
        }
        match decoded {
            Some(record) => {
                match frame_from_record(record) {
                    Ok(f) => {
                        return Ok(f);
                    },
                    Err(_) => {},
                }
            },
            None => {},
        }
        assert(!validates_as_frame(bytes@));
        assert(forall|g: Frame| #[trigger] rkyv_archive(frame_record(g)) != Some(bytes@));
        let mut k: usize = 0;
        while k < bytes.len()
            invariant
                k <= bytes@.len(),
                !validates_as_frame(bytes@),
                forall|g: Frame| #[trigger] rkyv_archive(frame_record(g)) != Some(bytes@),
                forall|j: int, g: Frame| 0 <= j < k ==> !#[trigger] frame_archive_at(bytes@, j, g),
            decreases bytes@.len() - k,
        {
            let (prefix, _) = bytes.split_at(k);
            assert(prefix@ =~= bytes@.take(k as int));
            if is_frame_archive(prefix) {
                proof {
                    let g = choose|g: Frame| #[trigger] rkyv_archive(frame_record(g)) == Some(prefix@);
                    assert(frame_archive_at(bytes@, k as int, g));
                }
                return Err(FrameDecodeError::TrailingBytes);
            }
            k = k + 1;
        }
        Err(FrameDecodeError::BadArchive)
    }
}

/// Every frame's record holds a frame, and is its own canonical record.
pub proof fn lemma_frame_record_canonical(f: Frame)
    ensures
        record_holds_frame(frame_record(f)),
        canonical_record(frame_record(f)) == frame_record(f),
{
}

} // verus!
