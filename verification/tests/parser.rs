//! Parser tests — text → `Request`.

use nexus::model::{AssertOperation, Edge, Node, RelationKind, Request, Slot};
use nexus::text::CodecError;
use nexus::Parser;

#[test]
fn empty_input_returns_none() {
    let mut parser = Parser::new("");
    let result = parser.next_request().expect("empty parse must succeed");
    assert!(result.is_none(), "empty input must yield None");
}

#[test]
fn whitespace_only_input_returns_none() {
    let mut parser = Parser::new("   \n\n  ;; just a comment\n   ");
    let result = parser
        .next_request()
        .expect("whitespace parse must succeed");
    assert!(result.is_none(), "whitespace + comments must yield None");
}

#[test]
fn parses_assert_node() {
    let mut parser = Parser::new(r#"(Node "User")"#);
    let request = parser
        .next_request()
        .expect("Assert parse must succeed")
        .expect("must yield a request");
    assert_eq!(
        request,
        Request::Assert(AssertOperation::Node(Node {
            name: "User".to_string()
        }))
    );
    assert!(parser.next_request().expect("EOF").is_none());
}

#[test]
fn parses_assert_edge_with_relation_kind() {
    let mut parser = Parser::new("(Edge 100 200 DependsOn)");
    let request = parser
        .next_request()
        .expect("Assert Edge parse must succeed")
        .expect("must yield a request");
    assert_eq!(
        request,
        Request::Assert(AssertOperation::Edge(Edge {
            from: Slot::from(100u64),
            to: Slot::from(200u64),
            kind: RelationKind::DependsOn,
        }))
    );
}

#[test]
fn parses_two_requests_in_sequence() {
    let mut parser = Parser::new(r#"(Node "User") (Edge 100 200 DependsOn)"#);

    let first = parser.next_request().expect("first").expect("yields");
    assert!(matches!(first, Request::Assert(AssertOperation::Node(_))));

    let second = parser.next_request().expect("second").expect("yields");
    assert!(matches!(second, Request::Assert(AssertOperation::Edge(_))));

    assert!(parser.next_request().expect("EOF").is_none());
}

#[test]
fn retired_tilde_sigils_are_rejected_by_codec() {
    let mut parser = Parser::new(r#"~(Node "User")"#);
    let result = parser.next_request();
    assert!(matches!(
        result,
        Err(nexus::Error::Codec(CodecError::UnexpectedChar {
            character: '~',
            ..
        }))
    ));
}

#[test]
fn retired_bang_sigils_are_rejected_by_codec() {
    let mut parser = Parser::new(r#"!(Node "User")"#);
    let result = parser.next_request();
    assert!(matches!(
        result,
        Err(nexus::Error::Codec(
            CodecError::ReservedComparisonToken { token: '!', .. }
        )),
    ));
}

#[test]
fn retired_question_sigils_are_rejected_by_codec() {
    let mut parser = Parser::new(r#"?(Node "User")"#);
    let result = parser.next_request();
    assert!(matches!(
        result,
        Err(nexus::Error::Codec(CodecError::UnexpectedChar {
            character: '?',
            ..
        })),
    ));
}

#[test]
fn retired_star_sigils_are_rejected_by_codec() {
    let mut parser = Parser::new("*(Node User)");
    let result = parser.next_request();
    assert!(matches!(
        result,
        Err(nexus::Error::Codec(CodecError::UnexpectedChar {
            character: '*',
            ..
        })),
    ));
}

#[test]
fn retired_atomic_delimiters_are_rejected_by_codec() {
    let mut parser = Parser::new(r#"[| (Node "A") (Node "B") |]"#);
    let result = parser.next_request();
    assert!(matches!(
        result,
        Err(nexus::Error::Codec(CodecError::UnexpectedToken { .. })),
    ));
}

// ─── further cases ────────────────────────────────────────────

#[test]
fn parses_bare_identifier_node_name_and_graph() {
    let mut parser = Parser::new("(Node User) (Graph \"criome request flow\")");
    assert_eq!(
        parser.next_request().unwrap(),
        Some(Request::Assert(AssertOperation::Node(Node { name: "User".to_string() })))
    );
    assert_eq!(
        parser.next_request().unwrap(),
        Some(Request::Assert(AssertOperation::Graph(nexus::model::Graph {
            title: "criome request flow".to_string()
        })))
    );
    assert_eq!(parser.next_request().unwrap(), None);
}

#[test]
fn string_escapes_are_decoded() {
    let mut parser = Parser::new(r#"(Node "a\"b\\c\nd")"#);
    assert_eq!(
        parser.next_request().unwrap(),
        Some(Request::Assert(AssertOperation::Node(Node { name: "a\"b\\c\nd".to_string() })))
    );
}

#[test]
fn unknown_record_head_is_rejected() {
    let mut parser = Parser::new("(Frob 1)");
    match parser.next_request() {
        Err(nexus::Error::Codec(CodecError::UnknownVariant { enum_name, head })) => {
            assert_eq!(enum_name, "AssertOperation");
            assert_eq!(head, "Frob");
        }
        other => panic!("expected UnknownVariant, got {other:?}"),
    }
}

#[test]
fn unknown_relation_kind_is_rejected() {
    let mut parser = Parser::new("(Edge 1 2 Likes)");
    assert!(matches!(
        parser.next_request(),
        Err(nexus::Error::Codec(CodecError::UnknownVariant { enum_name: "RelationKind", .. }))
    ));
}

#[test]
fn slot_beyond_u64_is_out_of_range() {
    let mut parser = Parser::new("(Edge 18446744073709551616 2 Flow)");
    assert!(matches!(
        parser.next_request(),
        Err(nexus::Error::Codec(CodecError::IntegerOutOfRange { field: "Slot" }))
    ));
}

#[test]
fn unterminated_string_is_rejected() {
    let mut parser = Parser::new("(Node \"open");
    assert!(matches!(
        parser.next_request(),
        Err(nexus::Error::Codec(CodecError::UnterminatedString { offset: 6 }))
    ));
}

#[test]
fn invalid_escape_is_rejected() {
    let mut parser = Parser::new(r#"(Node "a\qb")"#);
    assert!(matches!(
        parser.next_request(),
        Err(nexus::Error::Codec(CodecError::InvalidEscape { character: 'q', offset: 8 }))
    ));
}

#[test]
fn missing_close_paren_is_unexpected_end() {
    let mut parser = Parser::new("(Node User");
    assert!(matches!(
        parser.next_request(),
        Err(nexus::Error::Codec(CodecError::UnexpectedEnd { expected: "`)`" }))
    ));
}

#[test]
fn retired_bind_sigil_is_rejected_by_codec() {
    let mut parser = Parser::new("(Node @name)");
    assert!(matches!(
        parser.next_request(),
        Err(nexus::Error::Codec(CodecError::UnexpectedChar { character: '@', offset: 6 }))
    ));
}
