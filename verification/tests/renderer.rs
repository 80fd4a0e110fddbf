//! Renderer tests — `Reply` → text.

use nexus::model::{
    Diagnostic, DiagnosticLevel, Edge, Graph, HandshakeRejectionReason, HandshakeReply, Node,
    OkRecord, OutcomeMessage, Records, RelationKind, Reply, Slot, SIGNAL_PROTOCOL_VERSION,
};
use nexus::Renderer;

#[test]
fn ok_outcome_renders_as_paren_ok_paren() {
    let mut renderer = Renderer::new();
    renderer
        .render_reply(&Reply::Outcome(OutcomeMessage::Success(OkRecord::default())))
        .expect("render");
    assert_eq!(renderer.into_text(), "(Ok)");
}

#[test]
fn diagnostic_outcome_renders_with_level_code_message() {
    let mut renderer = Renderer::new();
    renderer
        .render_reply(&Reply::Outcome(OutcomeMessage::Diagnostic(Diagnostic {
            level: DiagnosticLevel::Error,
            code: "E0042".to_string(),
            message: "thing went wrong".to_string(),
            primary_site: None,
            context: vec![],
            suggestions: vec![],
            durable_record: None,
        })))
        .expect("render");
    assert_eq!(
        renderer.into_text(),
        r#"(Diagnostic Error "E0042" "thing went wrong")"#,
    );
}

#[test]
fn outcomes_sequence_renders_as_bracketed_seq() {
    let mut renderer = Renderer::new();
    renderer
        .render_reply(&Reply::Outcomes(vec![
            OutcomeMessage::Success(OkRecord::default()),
            OutcomeMessage::Success(OkRecord::default()),
        ]))
        .expect("render");
    assert_eq!(renderer.into_text(), "[(Ok) (Ok)]");
}

#[test]
fn empty_records_node_renders_as_empty_seq() {
    let mut renderer = Renderer::new();
    renderer
        .render_reply(&Reply::Records(Records::Node(vec![])))
        .expect("render");
    assert_eq!(renderer.into_text(), "[]");
}

#[test]
fn populated_records_node_renders_each_node_as_record() {
    let mut renderer = Renderer::new();
    renderer
        .render_reply(&Reply::Records(Records::Node(vec![
            (Slot::from(1024u64), Node { name: "User".to_string() }),
            (Slot::from(1025u64), Node { name: "Group".to_string() }),
        ])))
        .expect("render");
    assert_eq!(
        renderer.into_text(),
        r#"[(Tuple 1024 (Node "User")) (Tuple 1025 (Node "Group"))]"#
    );
}

#[test]
fn populated_records_edge_renders_each_with_relation_kind() {
    let mut renderer = Renderer::new();
    renderer
        .render_reply(&Reply::Records(Records::Edge(vec![(
            Slot::from(1029u64),
            Edge {
                from: Slot::from(100u64),
                to: Slot::from(200u64),
                kind: RelationKind::Calls,
            },
        )])))
        .expect("render");
    assert_eq!(
        renderer.into_text(),
        "[(Tuple 1029 (Edge 100 200 Calls))]"
    );
}

#[test]
fn handshake_accepted_in_user_reply_stream_is_a_protocol_error() {
    let mut renderer = Renderer::new();
    let result = renderer.render_reply(&Reply::HandshakeAccepted(HandshakeReply {
        server_version: SIGNAL_PROTOCOL_VERSION,
        server_id: Slot::from(0u64),
    }));
    assert!(matches!(
        result,
        Err(nexus::Error::HandshakePostReplyShape { got: "HandshakeAccepted" }),
    ));
}

#[test]
fn two_replies_separate_with_newline() {
    let mut renderer = Renderer::new();
    renderer
        .render_reply(&Reply::Outcome(OutcomeMessage::Success(OkRecord::default())))
        .expect("first");
    renderer
        .render_reply(&Reply::Records(Records::Node(vec![(
            Slot::from(1024u64),
            Node { name: "User".to_string() },
        )])))
        .expect("second");
    assert_eq!(renderer.into_text(), "(Ok)\n[(Tuple 1024 (Node \"User\"))]");
}

#[test]
fn local_error_renders_as_diagnostic_with_code() {
    let mut renderer = Renderer::new();
    renderer
        .render_local_error(&nexus::Error::VerbNotInM0Scope { verb: "Mutate" })
        .expect("render");
    let text = renderer.into_text();
    assert!(text.starts_with("(Diagnostic Error \"E0099\""));
    assert!(text.contains("Mutate"));
}

// ─── further cases ────────────────────────────────────────────

#[test]
fn handshake_rejected_in_user_reply_stream_is_a_protocol_error() {
    let mut renderer = Renderer::new();
    renderer
        .render_reply(&Reply::Outcome(OutcomeMessage::Success(OkRecord)))
        .unwrap();
    let result = renderer.render_reply(&Reply::HandshakeRejected(
        HandshakeRejectionReason::IncompatibleVersion { server_version: 7 },
    ));
    assert!(matches!(
        result,
        Err(nexus::Error::HandshakePostReplyShape { got: "HandshakeRejected" }),
    ));
    assert_eq!(renderer.into_text(), "(Ok)");
}

#[test]
fn graph_records_render_titles_quoted_and_escaped() {
    let mut renderer = Renderer::default();
    renderer
        .render_reply(&Reply::Records(Records::Graph(vec![(
            Slot::from(7u64),
            Graph { title: "say \"hi\"\n".to_string() },
        )])))
        .unwrap();
    assert_eq!(renderer.into_text(), r#"[(Tuple 7 (Graph "say \"hi\"\n"))]"#);
}

#[test]
fn warning_diagnostics_inside_outcomes() {
    let mut renderer = Renderer::new();
    renderer
        .render_reply(&Reply::Outcomes(vec![
            OutcomeMessage::Success(OkRecord),
            OutcomeMessage::Diagnostic(Diagnostic {
                level: DiagnosticLevel::Warning,
                code: "W1".to_string(),
                message: "careful".to_string(),
                primary_site: Some(Slot(3)),
                context: vec!["ignored".to_string()],
                suggestions: vec![],
                durable_record: None,
            }),
        ]))
        .unwrap();
    assert_eq!(renderer.into_text(), r#"[(Ok) (Diagnostic Warning "W1" "careful")]"#);
}

#[test]
fn local_error_text_is_exact() {
    let mut renderer = Renderer::new();
    renderer
        .render_local_error(&nexus::Error::FrameTooLarge { length: 4294967296 })
        .unwrap();
    assert_eq!(
        renderer.into_text(),
        "(Diagnostic Error \"E0012\" \"frame 4294967296 bytes exceeds the 4-byte length-prefix maximum (u32::MAX)\")"
    );
}

#[test]
fn local_error_codes_per_error_kind() {
    let cases: Vec<(nexus::Error, &str)> = vec![
        (nexus::Error::Io("broken pipe".to_string()), "E0010"),
        (nexus::Error::Frame(nexus::error::FrameDecodeError::BadArchive), "E0011"),
        (
            nexus::Error::HandshakeRejected {
                reason: HandshakeRejectionReason::Refused { detail: "no".to_string() },
            },
            "E0020",
        ),
        (nexus::Error::HandshakePostReplyShape { got: "Reply::Outcome" }, "E0021"),
        (nexus::Error::ActorCall("gone".to_string()), "E0030"),
        (nexus::Error::ActorSpawn("failed".to_string()), "E0031"),
        (nexus::Error::TrailingTokens { got: "x".to_string() }, "E0001"),
    ];
    for (error, code) in cases {
        let mut renderer = Renderer::new();
        renderer.render_local_error(&error).unwrap();
        let text = renderer.into_text();
        assert!(text.starts_with(&format!("(Diagnostic Error \"{code}\"")), "{text}");
    }
}

#[test]
fn error_descriptions_follow_the_error_kind() {
    assert_eq!(
        nexus::Error::HandshakeRejected {
            reason: HandshakeRejectionReason::IncompatibleVersion { server_version: 3 }
        }
        .describe(),
        "criome rejected the handshake: IncompatibleVersion { server_version: 3 }"
    );
    assert_eq!(
        nexus::Error::Codec(nexus::text::CodecError::UnexpectedChar { character: '~', offset: 0 })
            .describe(),
        "nota-codec: unexpected character `~` at offset 0"
    );
    assert_eq!(
        nexus::Error::VerbNotInM0Scope { verb: "Mutate" }.describe(),
        "nexus verb `Mutate` is not in the current compatibility parser scope"
    );
}
