//! The criome side of the daemon: the wire framing (a 4-byte big-endian
//! length prefix, then that many bytes of frame archive) and the decisions
//! of the post-handshake link: what the handshake sends, which handshake
//! answers let the link open, and which frame bodies are replies.
//!
//! The socket and the frame archive itself are the daemon's concern; what
//! is decided about them is here.
use vstd::prelude::*;
use crate::error::Error;
use crate::model::{Body, HandshakeRequest, Reply, Request, SIGNAL_PROTOCOL_VERSION};

verus! {

/// The name the daemon gives criome in its handshake.
pub const CLIENT_NAME: &'static str = "nexus";

/// The largest frame the length prefix can describe.
pub open spec fn max_frame_length() -> nat {
    0xffff_ffff
}

/// `n` as four big-endian bytes.
pub open spec fn be_bytes(n: nat) -> Seq<u8> {
    seq![
        ((n / 0x100_0000) % 0x100) as u8,
        ((n / 0x1_0000) % 0x100) as u8,
        ((n / 0x100) % 0x100) as u8,
        (n % 0x100) as u8,
    ]
}

/// The number that four big-endian bytes hold.
pub open spec fn be_value(b: Seq<u8>) -> nat {
    (b[0] as nat) * 0x100_0000 + (b[1] as nat) * 0x1_0000 + (b[2] as nat) * 0x100 + (b[3] as nat)
}

/// The handshake request the daemon opens every criome connection with.
pub fn handshake_request() -> (r: Request)
    ensures
        r matches Request::Handshake(h) && h.client_version == SIGNAL_PROTOCOL_VERSION
            && h.client_name@ == CLIENT_NAME@,
{
    Request::Handshake(
        HandshakeRequest {
            client_version: SIGNAL_PROTOCOL_VERSION,
            client_name: String::from_str(CLIENT_NAME),
        },
    )
}

/// What the handshake's answer means for the link.
pub open spec fn handshake_verdict(body: Body) -> Result<(), Error> {
    match body {
        Body::Reply(Reply::HandshakeAccepted(_)) => Ok(()),
        Body::Reply(Reply::HandshakeRejected(reason)) => Err(Error::HandshakeRejected { reason }),
        Body::Reply(Reply::Outcome(_)) => Err(
            Error::HandshakePostReplyShape { got: "Reply::Outcome" },
        ),
        Body::Reply(Reply::Outcomes(_)) => Err(
            Error::HandshakePostReplyShape { got: "Reply::Outcomes" },
        ),
        Body::Reply(Reply::Records(_)) => Err(
            Error::HandshakePostReplyShape { got: "Reply::Records" },
        ),
        Body::Request(_) => Err(Error::HandshakePostReplyShape { got: "Body::Request" }),
    }
}

/// Decides whether criome's answer to the handshake opens the link: only
/// `HandshakeAccepted` does. A rejection carries criome's reason; any other
/// body is a protocol error naming what came instead.
pub fn check_handshake_reply(body: Body) -> (res: Result<(), Error>)
    ensures
        res == handshake_verdict(body),
{
    match body {
        Body::Reply(Reply::HandshakeAccepted(_)) => Ok(()),
        Body::Reply(Reply::HandshakeRejected(reason)) => Err(Error::HandshakeRejected { reason }),
        Body::Reply(Reply::Outcome(_)) => Err(
            Error::HandshakePostReplyShape { got: "Reply::Outcome" },
        ),
        Body::Reply(Reply::Outcomes(_)) => Err(
            Error::HandshakePostReplyShape { got: "Reply::Outcomes" },
        ),
        Body::Reply(Reply::Records(_)) => Err(
            Error::HandshakePostReplyShape { got: "Reply::Records" },
        ),
        Body::Request(_) => Err(Error::HandshakePostReplyShape { got: "Body::Request" }),
    }
}

/// The body that carries `request` to criome.
pub fn request_body(request: Request) -> (b: Body)
    ensures
        b == Body::Request(request),
{
    Body::Request(request)
}

/// The reply in a frame body read after a request: criome answers a
/// request with a reply, never with a request.
pub fn reply_of(body: Body) -> (res: Result<Reply, Error>)
    ensures
        match body {
            Body::Reply(r) => res == Result::<Reply, Error>::Ok(r),
            Body::Request(_) => res == Result::<Reply, Error>::Err(
                Error::HandshakePostReplyShape { got: "Body::Request" },
            ),
        },
{
    match body {
        Body::Reply(reply) => Ok(reply),
        Body::Request(_) => Err(Error::HandshakePostReplyShape { got: "Body::Request" }),
    }
}

/// The length prefix of a frame of `length` bytes; a frame longer than
/// `u32::MAX` bytes cannot be framed.
pub fn length_prefix(length: usize) -> (res: Result<[u8; 4], Error>)
    ensures
        length <= max_frame_length() ==> (res matches Ok(b) && b@ == be_bytes(length as nat)),
        length > max_frame_length() ==> res == Result::<[u8; 4], Error>::Err(
            Error::FrameTooLarge { length },
        ),
{
    if length > 0xffff_ffffusize {
        return Err(Error::FrameTooLarge { length });
    }
    let n = length as u32;
    let b: [u8; 4] = [
        ((n / 0x100_0000) % 0x100) as u8,
        ((n / 0x1_0000) % 0x100) as u8,
        ((n / 0x100) % 0x100) as u8,
        (n % 0x100) as u8,
    ];
    assert(b@ =~= be_bytes(length as nat));
    Ok(b)
}

/// The frame length that a length prefix announces.
pub fn frame_length(prefix: [u8; 4]) -> (n: u32)
    ensures
        n as nat == be_value(prefix@),
{
    let n = (prefix[0] as u32) * 0x100_0000 + (prefix[1] as u32) * 0x1_0000 + (prefix[2] as u32)
        * 0x100 + (prefix[3] as u32);
    n
}

/// The bytes written for one frame: its length prefix, then the frame.
pub fn frame_bytes(archive: &[u8]) -> (res: Result<Vec<u8>, Error>)
    ensures
        archive@.len() <= max_frame_length() ==> (res matches Ok(v) && v@ == be_bytes(
            archive@.len(),
        ) + archive@),
        archive@.len() > max_frame_length() ==> res == Result::<Vec<u8>, Error>::Err(
            Error::FrameTooLarge { length: archive@.len() as usize },
        ),
{
    let prefix = length_prefix(archive.len())?;
    let mut out: Vec<u8> = Vec::new();
    out.push(prefix[0]);
    out.push(prefix[1]);
    out.push(prefix[2]);
    out.push(prefix[3]);
    let mut i: usize = 0;
    while i < archive.len()
        invariant
            i <= archive@.len(),
            out@ == be_bytes(archive@.len()) + archive@.take(i as int),
        decreases archive@.len() - i,
    {
        out.push(archive[i]);
        i = i + 1;
        assert(out@ =~= be_bytes(archive@.len()) + archive@.take(i as int));
    }
    assert(archive@.take(archive@.len() as int) =~= archive@);
    Ok(out)
}

/// Splits the first frame off a byte stream: `None` when the stream holds
/// less than a whole frame, else the frame's archive bytes and the number
/// of bytes the frame took, prefix included.
pub fn split_frame(stream: &[u8]) -> (res: Option<(Vec<u8>, usize)>)
    ensures
        stream@.len() < 4 ==> res is None,
        stream@.len() >= 4 ==> {
            let n = be_value(stream@.take(4));
            &&& stream@.len() < 4 + n ==> res is None
            &&& stream@.len() >= 4 + n ==> (res matches Some((body, used)) && used == 4 + n
                && body@ == stream@.subrange(4, (4 + n) as int))
        },
{
    if stream.len() < 4 {
        return None;
    }
    let prefix: [u8; 4] = [stream[0], stream[1], stream[2], stream[3]];
    assert(prefix@ =~= stream@.take(4));
    let n = frame_length(prefix) as usize;
    if stream.len() - 4 < n {
        return None;
    }
    let mut body: Vec<u8> = Vec::new();
    let mut i: usize = 0;
    while i < n
        invariant
            i <= n,
            4 + n <= stream@.len(),
            stream@.len() <= usize::MAX,
            body@ == stream@.subrange(4, 4 + i),
        decreases n - i,
    {
        body.push(stream[4 + i]);
        i = i + 1;
        assert(body@ =~= stream@.subrange(4, 4 + i));
    }
    Some((body, 4 + n))
}

/// Reading back a length prefix gives the length it was written for.
pub proof fn lemma_length_prefix_roundtrip(n: nat)
    requires
        n <= max_frame_length(),
    ensures
        be_value(be_bytes(n)) == n,
{
    let b3 = n % 0x100;
    let b2 = (n / 0x100) % 0x100;
    let b1 = (n / 0x1_0000) % 0x100;
    let b0 = (n / 0x100_0000) % 0x100;
    assert(b0 * 0x100_0000 + b1 * 0x1_0000 + b2 * 0x100 + b3 == n) by (nonlinear_arith)
        requires
            n <= 0xffff_ffff,
            b3 == n % 0x100,
            b2 == (n / 0x100) % 0x100,
            b1 == (n / 0x1_0000) % 0x100,
            b0 == (n / 0x100_0000) % 0x100,
    ;
}

/// Framing law: splitting the bytes written for a frame, with anything
/// after them, gives back exactly that frame and the number of bytes it
/// took.
pub proof fn law_frame_roundtrip(archive: Seq<u8>, rest: Seq<u8>)
    requires
        archive.len() <= max_frame_length(),
    ensures
        ({
            let stream = be_bytes(archive.len()) + archive + rest;
            &&& stream.len() >= 4
            &&& be_value(stream.take(4)) == archive.len()
            &&& stream.subrange(4, 4 + archive.len() as int) == archive
        }),
{
    let stream = be_bytes(archive.len()) + archive + rest;
    lemma_length_prefix_roundtrip(archive.len());
    assert(stream.take(4) =~= be_bytes(archive.len()));
    assert(stream.subrange(4, 4 + archive.len() as int) =~= archive);
}

} // verus!
