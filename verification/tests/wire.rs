//! Framing, handshake decisions and the client protocols' frames.

use nexus::cli_msg::FrameDecodeError as CliFrameDecodeError;
use nexus::cli_msg::{CliBody, CliFrame, CliReply, CliRequest, CliRequestId, WorkingStage};
use nexus::client_msg::{
    Body, FallbackFormat, FallbackSpec, Frame, FrameDecodeError, Reply, Request, RequestId,
    WirePath,
};
use nexus::criome_link::{
    check_handshake_reply, frame_bytes, frame_length, handshake_request, length_prefix, reply_of,
    request_body, split_frame, CLIENT_NAME,
};
use nexus::model::{
    self, HandshakeRejectionReason, HandshakeReply, OkRecord, OutcomeMessage, Slot,
    SIGNAL_PROTOCOL_VERSION,
};
use nexus::Error;

#[test]
fn length_prefix_is_big_endian() {
    assert_eq!(length_prefix(0).unwrap(), [0, 0, 0, 0]);
    assert_eq!(length_prefix(258).unwrap(), [0, 0, 1, 2]);
    assert_eq!(length_prefix(0xffff_ffff).unwrap(), [0xff, 0xff, 0xff, 0xff]);
    assert_eq!(frame_length([0x01, 0x02, 0x03, 0x04]), 0x0102_0304);
}

#[test]
fn oversized_frames_are_refused() {
    assert!(matches!(
        length_prefix(0x1_0000_0000),
        Err(Error::FrameTooLarge { length: 0x1_0000_0000 })
    ));
}

#[test]
fn framed_bytes_split_back_into_the_frame() {
    let archive = vec![9u8, 8, 7];
    let mut stream = frame_bytes(&archive).unwrap();
    assert_eq!(stream, vec![0, 0, 0, 3, 9, 8, 7]);
    stream.extend_from_slice(&[1, 2]);
    let (body, used) = split_frame(&stream).unwrap();
    assert_eq!(body, archive);
    assert_eq!(used, 7);
    assert!(split_frame(&stream[..6]).is_none());
    assert!(split_frame(&[0, 0]).is_none());
}

#[test]
fn handshake_request_names_the_client() {
    match handshake_request() {
        model::Request::Handshake(h) => {
            assert_eq!(h.client_version, SIGNAL_PROTOCOL_VERSION);
            assert_eq!(h.client_name, CLIENT_NAME);
            assert_eq!(h.client_name, "nexus");
        }
        other => panic!("{other:?}"),
    }
}

#[test]
fn handshake_decisions() {
    let accepted = model::Body::Reply(model::Reply::HandshakeAccepted(HandshakeReply {
        server_version: SIGNAL_PROTOCOL_VERSION,
        server_id: Slot(1),
    }));
    assert!(check_handshake_reply(accepted).is_ok());
    let reason = HandshakeRejectionReason::IncompatibleVersion { server_version: 9 };
    assert_eq!(
        check_handshake_reply(model::Body::Reply(model::Reply::HandshakeRejected(reason.clone()))),
        Err(Error::HandshakeRejected { reason })
    );
    assert_eq!(
        check_handshake_reply(model::Body::Reply(model::Reply::Outcome(OutcomeMessage::Success(
            OkRecord
        )))),
        Err(Error::HandshakePostReplyShape { got: "Reply::Outcome" })
    );
    assert_eq!(
        check_handshake_reply(model::Body::Reply(model::Reply::Outcomes(vec![]))),
        Err(Error::HandshakePostReplyShape { got: "Reply::Outcomes" })
    );
    assert_eq!(
        check_handshake_reply(model::Body::Reply(model::Reply::Records(model::Records::Node(
            vec![]
        )))),
        Err(Error::HandshakePostReplyShape { got: "Reply::Records" })
    );
    assert_eq!(
        check_handshake_reply(request_body(handshake_request())),
        Err(Error::HandshakePostReplyShape { got: "Body::Request" })
    );
}

#[test]
fn replies_are_taken_from_reply_bodies_only() {
    let reply = model::Reply::Outcome(OutcomeMessage::Success(OkRecord));
    assert_eq!(reply_of(model::Body::Reply(reply.clone())), Ok(reply));
    assert_eq!(
        reply_of(request_body(handshake_request())),
        Err(Error::HandshakePostReplyShape { got: "Body::Request" })
    );
}

#[test]
fn fresh_request_ids_are_uuid_v7() {
    let id = RequestId::fresh();
    assert_eq!((id.0 >> 76) & 0xf, 7);
    assert_eq!((id.0 >> 62) & 0x3, 2);
    let parts = RequestId::from_uuid_v7_parts(0x0123_4567_89ab, 0xfff, 0);
    assert_eq!(parts.0, 0x0123_4567_89ab_7fff_8000_0000_0000_0000);
}

#[test]
fn cli_request_ids_from_parts() {
    assert_eq!(CliRequestId::from_parts(1, 2).0, 0x100_0002);
    assert_eq!(CliRequestId::from_parts(0x1_0000_0000_0001, 0x1_0000_0005).0, 0x100_0005);
    let _ = CliRequestId::fresh();
}

fn sample_frames() -> Vec<Frame> {
    let fallback = FallbackSpec { path: WirePath(vec![b'/', b't', 0xff]), format: FallbackFormat::Rkyv };
    vec![
        Frame {
            request_id: RequestId(42),
            body: Body::Request(Request::Send {
                nexus_text: "(Node \"User\")".to_string(),
                fallback: Some(fallback.clone()),
            }),
        },
        Frame {
            request_id: RequestId(u128::MAX),
            body: Body::Request(Request::Send { nexus_text: String::new(), fallback: None }),
        },
        Frame { request_id: RequestId(1), body: Body::Request(Request::Heartbeat) },
        Frame { request_id: RequestId(2), body: Body::Request(Request::Cancel) },
        Frame {
            request_id: RequestId(3),
            body: Body::Request(Request::Resume { original_request_id: RequestId(42), fallback }),
        },
        Frame { request_id: RequestId(4), body: Body::Reply(Reply::Ack) },
        Frame {
            request_id: RequestId(5),
            body: Body::Reply(Reply::Working { stage: WorkingStage::AwaitingCriomed }),
        },
        Frame {
            request_id: RequestId(6),
            body: Body::Reply(Reply::FailedFallback {
                reply_text: "(Ok)".to_string(),
                fallback_error: "disk full".to_string(),
            }),
        },
        Frame {
            request_id: RequestId(7),
            body: Body::Reply(Reply::DoneWithFallback {
                reply_text: "(Ok)".to_string(),
                fallback_path: WirePath(b"/tmp/x".to_vec()),
            }),
        },
        Frame {
            request_id: RequestId(8),
            body: Body::Reply(Reply::ResumedReply {
                original_request_id: RequestId(9),
                reply_text: "[]".to_string(),
            }),
        },
    ]
}

#[test]
fn client_frames_roundtrip_through_their_archive() {
    for frame in sample_frames() {
        let bytes = frame.encode().expect("archive");
        let decoded = Frame::decode(&bytes).expect("decode");
        assert_eq!(format!("{decoded:?}"), format!("{frame:?}"));
    }
}

#[test]
fn bytes_after_a_client_frame_are_trailing_bytes() {
    for frame in sample_frames() {
        let mut bytes = frame.encode().expect("archive");
        bytes.push(0);
        assert_eq!(Frame::decode(&bytes).map(|_| ()), Err(FrameDecodeError::TrailingBytes));
    }
}

#[test]
fn garbage_is_not_a_client_frame() {
    assert_eq!(Frame::decode(&[1, 2, 3]).map(|_| ()), Err(FrameDecodeError::BadArchive));
}

#[test]
fn cli_frames_roundtrip_through_their_wire_bytes() {
    let frames = vec![
        CliFrame {
            cli_request_id: CliRequestId(77),
            body: CliBody::Request(CliRequest::Send {
                nexus_text: "(Edge 1 2 Flow)".to_string(),
                fallback: None,
            }),
        },
        CliFrame {
            cli_request_id: CliRequestId(u64::MAX),
            body: CliBody::Reply(CliReply::ResumedReply {
                original_request_id: CliRequestId(3),
                reply_text: "(Ok)".to_string(),
            }),
        },
        CliFrame {
            cli_request_id: CliRequestId(5),
            body: CliBody::Reply(CliReply::Working { stage: WorkingStage::SerialisingReply }),
        },
    ];
    for frame in frames {
        let bytes = frame.encode().expect("encode");
        let length = u32::from_be_bytes([bytes[0], bytes[1], bytes[2], bytes[3]]) as usize;
        assert_eq!(length + 4, bytes.len());
        let decoded = CliFrame::decode(&bytes).expect("decode");
        assert_eq!(format!("{decoded:?}"), format!("{frame:?}"));
    }
}

#[test]
fn cli_frame_length_errors() {
    assert_eq!(CliFrame::decode(&[0, 0, 1]).map(|_| ()), Err(CliFrameDecodeError::BadLength));
    assert_eq!(CliFrame::decode(&[0, 0, 0, 5, 1, 2]).map(|_| ()), Err(CliFrameDecodeError::BadLength));
    assert_eq!(CliFrame::decode(&[0, 0, 0, 1, 1, 2]).map(|_| ()), Err(CliFrameDecodeError::TrailingBytes));
    assert_eq!(CliFrame::decode(&[0, 0, 0, 2, 1, 2]).map(|_| ()), Err(CliFrameDecodeError::BadArchive));
}
