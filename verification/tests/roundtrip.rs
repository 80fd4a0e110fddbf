//! The canonical text of a record reads back as that record.

use nexus::encode::{push_edge, push_graph, push_node};
use nexus::model::{AssertOperation, Edge, Graph, Node, RelationKind, Request, Slot};
use nexus::Parser;

fn parse_all(text: &str) -> Vec<Request> {
    let mut parser = Parser::new(text);
    let mut out = Vec::new();
    while let Some(r) = parser.next_request().unwrap() {
        out.push(r);
    }
    out
}

#[test]
fn node_text_reads_back() {
    for name in ["User", "", "with space", "quote \" and \\ back", "line\nbreak\ttab", "ünï"] {
        let node = Node { name: name.to_string() };
        let mut text = String::new();
        push_node(&mut text, &node);
        assert_eq!(parse_all(&text), vec![Request::Assert(AssertOperation::Node(node))]);
    }
}

#[test]
fn edge_text_reads_back_for_every_kind() {
    for kind in RelationKind::all() {
        let edge = Edge { from: Slot(0), to: Slot(u64::MAX), kind };
        let mut text = String::new();
        push_edge(&mut text, &edge);
        assert_eq!(parse_all(&text), vec![Request::Assert(AssertOperation::Edge(edge))]);
    }
}

#[test]
fn graph_text_reads_back() {
    let graph = Graph { title: "criome request flow".to_string() };
    let mut text = String::new();
    push_graph(&mut text, &graph);
    assert_eq!(text, "(Graph \"criome request flow\")");
    assert_eq!(parse_all(&text), vec![Request::Assert(AssertOperation::Graph(graph))]);
}

#[test]
fn relation_kind_names_read_back() {
    for kind in RelationKind::all() {
        assert_eq!(RelationKind::from_variant_name(kind.variant_name()), Some(kind));
    }
    assert_eq!(RelationKind::from_variant_name("Frobnicates"), None);
}
