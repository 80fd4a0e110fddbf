//! The typed request/reply vocabulary that the daemon translates to and
//! from text: slots, data records, assert operations, query patterns,
//! outcomes, replies and the wire frame body.
use vstd::prelude::*;
use vstd::std_specs::convert::FromSpecImpl;
use crate::lexer::text_eq;

verus! {

/// The protocol version that the handshake request of this model carries.
/// It is the library's model value: the signal protocol's own version
/// constant belongs to the signal crate, and the daemon puts that constant
/// in place of this one when it turns the model's handshake request into a
/// signal frame.
pub const SIGNAL_PROTOCOL_VERSION: u32 = 1;

/// A slot in the store, addressed by number.
#[derive(Clone, Copy, Debug, PartialEq, Eq, Hash, Structural)]
pub struct Slot(pub u64);

impl From<u64> for Slot {
    fn from(value: u64) -> (s: Slot) {
        Slot(value)
    }
}

impl FromSpecImpl<u64> for Slot {
    open spec fn obeys_from_spec() -> bool {
        true
    }

    open spec fn from_spec(value: u64) -> Slot {
        Slot(value)
    }
}

/// The kind of an edge between two nodes.
#[derive(Clone, Copy, Debug, PartialEq, Eq, Hash, Structural)]
pub enum RelationKind {
    Flow,
    DependsOn,
    Contains,
    References,
    Produces,
    Consumes,
    Calls,
    Implements,
    IsA,
}

/// The text name of a relation kind: its variant name.
pub open spec fn relation_kind_name(k: RelationKind) -> Seq<char> {
    match k {
        RelationKind::Flow => "Flow"@,
        RelationKind::DependsOn => "DependsOn"@,
        RelationKind::Contains => "Contains"@,
        RelationKind::References => "References"@,
        RelationKind::Produces => "Produces"@,
        RelationKind::Consumes => "Consumes"@,
        RelationKind::Calls => "Calls"@,
        RelationKind::Implements => "Implements"@,
        RelationKind::IsA => "IsA"@,
    }
}

/// The relation kind whose name is `s`, if any.
pub open spec fn relation_kind_named(s: Seq<char>) -> Option<RelationKind> {
    if s == "Flow"@ {
        Some(RelationKind::Flow)
    } else if s == "DependsOn"@ {
        Some(RelationKind::DependsOn)
    } else if s == "Contains"@ {
        Some(RelationKind::Contains)
    } else if s == "References"@ {
        Some(RelationKind::References)
    } else if s == "Produces"@ {
        Some(RelationKind::Produces)
    } else if s == "Consumes"@ {
        Some(RelationKind::Consumes)
    } else if s == "Calls"@ {
        Some(RelationKind::Calls)
    } else if s == "Implements"@ {
        Some(RelationKind::Implements)
    } else if s == "IsA"@ {
        Some(RelationKind::IsA)
    } else {
        None
    }
}

/// Every relation kind, in declaration order.
pub open spec fn all_relation_kinds() -> Seq<RelationKind> {
    seq![
        RelationKind::Flow,
        RelationKind::DependsOn,
        RelationKind::Contains,
        RelationKind::References,
        RelationKind::Produces,
        RelationKind::Consumes,
        RelationKind::Calls,
        RelationKind::Implements,
        RelationKind::IsA,
    ]
}

impl RelationKind {
    /// Every relation kind, in declaration order.
    pub fn all() -> (v: Vec<RelationKind>)
        ensures
            v@ == all_relation_kinds(),
    {
        let v = vec![
            RelationKind::Flow,
            RelationKind::DependsOn,
            RelationKind::Contains,
            RelationKind::References,
            RelationKind::Produces,
            RelationKind::Consumes,
            RelationKind::Calls,
            RelationKind::Implements,
            RelationKind::IsA,
        ];
        assert(v@ =~= all_relation_kinds());
        v
    }

    /// The variant's name, as it is written in text.
    pub fn variant_name(&self) -> (s: &'static str)
        ensures
            s@ == relation_kind_name(*self),
    {
        match self {
            RelationKind::Flow => "Flow",
            RelationKind::DependsOn => "DependsOn",
            RelationKind::Contains => "Contains",
            RelationKind::References => "References",
            RelationKind::Produces => "Produces",
            RelationKind::Consumes => "Consumes",
            RelationKind::Calls => "Calls",
            RelationKind::Implements => "Implements",
            RelationKind::IsA => "IsA",
        }
    }

    /// The variant named `name`, if there is one.
    pub fn from_variant_name(name: &str) -> (k: Option<RelationKind>)
        ensures
            k == relation_kind_named(name@),
    {
        if text_eq(name, "Flow") {
            Some(RelationKind::Flow)
        } else if text_eq(name, "DependsOn") {
            Some(RelationKind::DependsOn)
        } else if text_eq(name, "Contains") {
            Some(RelationKind::Contains)
        } else if text_eq(name, "References") {
            Some(RelationKind::References)
        } else if text_eq(name, "Produces") {
            Some(RelationKind::Produces)
        } else if text_eq(name, "Consumes") {
            Some(RelationKind::Consumes)
        } else if text_eq(name, "Calls") {
            Some(RelationKind::Calls)
        } else if text_eq(name, "Implements") {
            Some(RelationKind::Implements)
        } else if text_eq(name, "IsA") {
            Some(RelationKind::IsA)
        } else {
            None
        }
    }
}

/// A named node.
#[derive(Clone, Debug, PartialEq, Eq)]
pub struct Node {
    pub name: String,
}

/// A typed edge between two slots.
#[derive(Clone, Debug, PartialEq, Eq)]
pub struct Edge {
    pub from: Slot,
    pub to: Slot,
    pub kind: RelationKind,
}

/// A titled graph.
#[derive(Clone, Debug, PartialEq, Eq)]
pub struct Graph {
    pub title: String,
}

/// A record to assert into the store.
#[derive(Clone, Debug, PartialEq, Eq)]
pub enum AssertOperation {
    Node(Node),
    Edge(Edge),
    Graph(Graph),
}

/// The mathematical value of an [`AssertOperation`].
pub ghost enum AssertValue {
    Node(Seq<char>),
    Edge(Slot, Slot, RelationKind),
    Graph(Seq<char>),
}

impl View for AssertOperation {
    type V = AssertValue;

    open spec fn view(&self) -> AssertValue {
        match self {
            AssertOperation::Node(n) => AssertValue::Node(n.name@),
            AssertOperation::Edge(e) => AssertValue::Edge(e.from, e.to, e.kind),
            AssertOperation::Graph(g) => AssertValue::Graph(g.title@),
        }
    }
}

/// The handshake a client opens a criome connection with.
#[derive(Clone, Debug, PartialEq, Eq)]
pub struct HandshakeRequest {
    pub client_version: u32,
    pub client_name: String,
}

/// A request on the criome connection.
#[derive(Clone, Debug, PartialEq, Eq)]
pub enum Request {
    Handshake(HandshakeRequest),
    Assert(AssertOperation),
}

/// One position of a query pattern.
#[derive(Clone, Debug, PartialEq, Eq)]
pub enum PatternField<T> {
    /// Matches anything.
    Wildcard,
    /// Matches anything and binds the field.
    Bind,
    /// Matches exactly this value.
    Match(T),
}

#[derive(Clone, Debug, PartialEq, Eq)]
pub struct NodeQuery {
    pub name: PatternField<String>,
}

#[derive(Clone, Debug, PartialEq, Eq)]
pub struct EdgeQuery {
    pub from: PatternField<Slot>,
    pub to: PatternField<Slot>,
    pub kind: PatternField<RelationKind>,
}

#[derive(Clone, Debug, PartialEq, Eq)]
pub struct GraphQuery {
    pub title: PatternField<String>,
}

#[derive(Clone, Debug, PartialEq, Eq)]
pub struct KindDeclQuery {
    pub name: PatternField<String>,
}

/// A query over one kind of record.
#[derive(Clone, Debug, PartialEq, Eq)]
pub enum QueryOp {
    Node(NodeQuery),
    Edge(EdgeQuery),
    Graph(GraphQuery),
    KindDecl(KindDeclQuery),
}

/// The mathematical value of a string pattern field.
pub open spec fn string_pattern_view(p: PatternField<String>) -> PatternField<Seq<char>> {
    match p {
        PatternField::Wildcard => PatternField::Wildcard,
        PatternField::Bind => PatternField::Bind,
        PatternField::Match(s) => PatternField::Match(s@),
    }
}

/// The mathematical value of a [`QueryOp`].
pub ghost enum QueryValue {
    Node(PatternField<Seq<char>>),
    Edge(PatternField<Slot>, PatternField<Slot>, PatternField<RelationKind>),
    Graph(PatternField<Seq<char>>),
    KindDecl(PatternField<Seq<char>>),
}

impl View for QueryOp {
    type V = QueryValue;

    open spec fn view(&self) -> QueryValue {
        match self {
            QueryOp::Node(q) => QueryValue::Node(string_pattern_view(q.name)),
            QueryOp::Edge(q) => QueryValue::Edge(q.from, q.to, q.kind),
            QueryOp::Graph(q) => QueryValue::Graph(string_pattern_view(q.title)),
            QueryOp::KindDecl(q) => QueryValue::KindDecl(string_pattern_view(q.name)),
        }
    }
}

/// The plain success outcome.
#[derive(Clone, Copy, Debug, PartialEq, Eq)]
pub struct OkRecord;

impl Default for OkRecord {
    fn default() -> (r: OkRecord)
        ensures
            r == OkRecord,
    {
        OkRecord
    }
}

/// How severe a diagnostic is.
#[derive(Clone, Copy, Debug, PartialEq, Eq, Structural)]
pub enum DiagnosticLevel {
    Error,
    Warning,
    Info,
}

/// The text name of a diagnostic level.
pub open spec fn diagnostic_level_name(l: DiagnosticLevel) -> Seq<char> {
    match l {
        DiagnosticLevel::Error => "Error"@,
        DiagnosticLevel::Warning => "Warning"@,
        DiagnosticLevel::Info => "Info"@,
    }
}

impl DiagnosticLevel {
    pub fn name(&self) -> (s: &'static str)
        ensures
            s@ == diagnostic_level_name(*self),
    {
        match self {
            DiagnosticLevel::Error => "Error",
            DiagnosticLevel::Warning => "Warning",
            DiagnosticLevel::Info => "Info",
        }
    }
}

/// A failure (or warning) reported for one request.
#[derive(Clone, Debug, PartialEq, Eq)]
pub struct Diagnostic {
    pub level: DiagnosticLevel,
    pub code: String,
    pub message: String,
    pub primary_site: Option<Slot>,
    pub context: Vec<String>,
    pub suggestions: Vec<String>,
    pub durable_record: Option<Slot>,
}

/// The outcome of one operation.
#[derive(Clone, Debug, PartialEq, Eq)]
pub enum OutcomeMessage {
    Success(OkRecord),
    Diagnostic(Diagnostic),
}

/// Records returned by a query, each with the slot it lives in.
#[derive(Clone, Debug, PartialEq, Eq)]
pub enum Records {
    Node(Vec<(Slot, Node)>),
    Edge(Vec<(Slot, Edge)>),
    Graph(Vec<(Slot, Graph)>),
}

/// The server's answer to an accepted handshake.
#[derive(Clone, Debug, PartialEq, Eq)]
pub struct HandshakeReply {
    pub server_version: u32,
    pub server_id: Slot,
}

/// Why a server refused a handshake.
#[derive(Clone, Debug, PartialEq, Eq)]
pub enum HandshakeRejectionReason {
    IncompatibleVersion { server_version: u32 },
    Refused { detail: String },
}

/// A reply on the criome connection.
#[derive(Clone, Debug, PartialEq, Eq)]
pub enum Reply {
    Outcome(OutcomeMessage),
    Outcomes(Vec<OutcomeMessage>),
    Records(Records),
    HandshakeAccepted(HandshakeReply),
    HandshakeRejected(HandshakeRejectionReason),
}

/// The body of a frame on the criome connection.
#[derive(Clone, Debug, PartialEq, Eq)]
pub enum Body {
    Request(Request),
    Reply(Reply),
}

} // verus!
