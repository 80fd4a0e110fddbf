//! The per-connection shuttle, driven as the daemon drives it.

use nexus::connection::{Shuttle, ShuttleAction};
use nexus::model::{
    AssertOperation, Node, OkRecord, OutcomeMessage, Records, Reply, Request, Slot,
};

fn ok() -> Reply {
    Reply::Outcome(OutcomeMessage::Success(OkRecord))
}

#[test]
fn empty_text_finishes_without_opening_the_link() {
    let mut shuttle = Shuttle::new("  ;; nothing here\n");
    assert!(matches!(shuttle.next_action(), ShuttleAction::Finish));
    assert_eq!(shuttle.handled_requests(), 0);
    assert_eq!(shuttle.into_text(), "");
}

#[test]
fn requests_are_forwarded_in_order_and_answered_in_order() {
    let mut shuttle = Shuttle::new("(Node A) (Node B)");
    match shuttle.next_action() {
        ShuttleAction::OpenLinkAndSend(Request::Assert(AssertOperation::Node(n))) => {
            assert_eq!(n.name, "A")
        }
        other => panic!("{other:?}"),
    }
    shuttle.on_reply(&ok()).unwrap();
    match shuttle.next_action() {
        ShuttleAction::Send(Request::Assert(AssertOperation::Node(n))) => assert_eq!(n.name, "B"),
        other => panic!("{other:?}"),
    }
    shuttle
        .on_reply(&Reply::Records(Records::Node(vec![(Slot(3), Node { name: "B".to_string() })])))
        .unwrap();
    assert!(matches!(shuttle.next_action(), ShuttleAction::Finish));
    assert_eq!(shuttle.handled_requests(), 2);
    assert_eq!(shuttle.into_text(), "(Ok)\n[(Tuple 3 (Node \"B\"))]");
}

#[test]
fn a_parse_error_is_rendered_and_ends_the_shuttle() {
    let mut shuttle = Shuttle::new("(Node A) ~(Node B) (Node C)");
    assert!(matches!(shuttle.next_action(), ShuttleAction::OpenLinkAndSend(_)));
    shuttle.on_reply(&ok()).unwrap();
    assert!(matches!(shuttle.next_action(), ShuttleAction::Finish));
    assert_eq!(shuttle.handled_requests(), 1);
    assert_eq!(
        shuttle.into_text(),
        "(Ok)\n(Diagnostic Error \"E0001\" \"nota-codec: unexpected character `~` at offset 9\")"
    );
}

#[test]
fn a_parse_error_first_never_opens_the_link() {
    let mut shuttle = Shuttle::new("?(Node A)");
    assert!(matches!(shuttle.next_action(), ShuttleAction::Finish));
    assert_eq!(
        shuttle.into_text(),
        "(Diagnostic Error \"E0001\" \"nota-codec: unexpected character `?` at offset 0\")"
    );
}

#[test]
fn a_handshake_reply_in_the_stream_fails_the_connection() {
    let mut shuttle = Shuttle::new("(Node A)");
    assert!(matches!(shuttle.next_action(), ShuttleAction::OpenLinkAndSend(_)));
    let result = shuttle.on_reply(&Reply::HandshakeRejected(
        nexus::model::HandshakeRejectionReason::Refused { detail: "late".to_string() },
    ));
    assert!(matches!(result, Err(nexus::Error::HandshakePostReplyShape { got: "HandshakeRejected" })));
    assert_eq!(shuttle.handled_requests(), 0);
}
