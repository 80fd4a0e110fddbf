//! The canonical text form of values: quoted strings, decimal numbers,
//! records and sequences. Every typed shape has exactly one rendering.
use vstd::prelude::*;
use crate::model::{
    diagnostic_level_name, relation_kind_name, Diagnostic, DiagnosticLevel, Edge, Graph, Node,
    OutcomeMessage, Records, Slot,
};
use crate::parse::is_pascal_case;
use crate::text::is_upper;

verus! {

// ─── strings ────────────────────────────────────────────────────

/// How one character is written inside a quoted string.
pub open spec fn escape_char(c: char) -> Seq<char> {
    if c == '"' {
        seq!['\\', '"']
    } else if c == '\\' {
        seq!['\\', '\\']
    } else if c == '\n' {
        seq!['\\', 'n']
    } else if c == '\t' {
        seq!['\\', 't']
    } else {
        seq![c]
    }
}

/// The characters of `s`, each escaped.
pub open spec fn escaped(s: Seq<char>) -> Seq<char>
    decreases s.len(),
{
    if s.len() == 0 {
        Seq::empty()
    } else {
        escape_char(s[0]) + escaped(s.drop_first())
    }
}

/// `s` as a quoted string literal.
pub open spec fn quoted(s: Seq<char>) -> Seq<char> {
    seq!['"'] + escaped(s) + seq!['"']
}

pub proof fn lemma_escaped_append(a: Seq<char>, b: Seq<char>)
    ensures
        escaped(a + b) == escaped(a) + escaped(b),
    decreases a.len(),
{
    if a.len() == 0 {
        assert(a + b =~= b);
        assert(escaped(a) + escaped(b) =~= escaped(b));
    } else {
        assert((a + b).drop_first() =~= a.drop_first() + b);
        lemma_escaped_append(a.drop_first(), b);
        assert(escaped(a) + escaped(b) =~= escape_char(a[0]) + (escaped(a.drop_first()) + escaped(
            b,
        )));
    }
}

pub proof fn lemma_escaped_single(c: char)
    ensures
        escaped(seq![c]) == escape_char(c),
{
    assert(seq![c].drop_first() =~= Seq::<char>::empty());
    assert(escaped(Seq::<char>::empty()) == Seq::<char>::empty());
    assert(escape_char(c) + Seq::<char>::empty() =~= escape_char(c));
}

/// Appends the escaped form of `c`.
fn push_escaped_char(out: &mut String, c: char)
    ensures
        final(out)@ == old(out)@ + escape_char(c),
{
    if c == '"' {
        out.push('\\');
        out.push('"');
    } else if c == '\\' {
        out.push('\\');
        out.push('\\');
    } else if c == '\n' {
        out.push('\\');
        out.push('n');
    } else if c == '\t' {
        out.push('\\');
        out.push('t');
    } else {
        out.push(c);
    }
    assert(final(out)@ =~= old(out)@ + escape_char(c));
}

/// Appends `s` as a quoted string literal.
pub fn push_quoted(out: &mut String, s: &str)
    ensures
        final(out)@ == old(out)@ + quoted(s@),
{
    out.push('"');
    let ghost start = out@;
    for c in it: s.chars()
        invariant
            it.seq() == s@,
            out@ == start + escaped(s@.take(it.index() as int)),
    {
        let ghost i = it.index() as int;
        let ghost before = out@;
        push_escaped_char(out, c);
        proof {
            assert(s@.take(i + 1) =~= s@.take(i) + seq![c]);
            lemma_escaped_append(s@.take(i), seq![c]);
            lemma_escaped_single(c);
            assert(out@ =~= start + escaped(s@.take(i + 1)));
        }
    }
    assert(s@.take(s@.len() as int) =~= s@);
    out.push('"');
    assert(final(out)@ =~= old(out)@ + quoted(s@));
}

// ─── numbers ────────────────────────────────────────────────────

/// The decimal digit character for `d < 10`.
pub open spec fn digit_char(d: nat) -> char {
    if d == 0 {
        '0'
    } else if d == 1 {
        '1'
    } else if d == 2 {
        '2'
    } else if d == 3 {
        '3'
    } else if d == 4 {
        '4'
    } else if d == 5 {
        '5'
    } else if d == 6 {
        '6'
    } else if d == 7 {
        '7'
    } else if d == 8 {
        '8'
    } else {
        '9'
    }
}

/// `n` in decimal, most significant digit first, with no leading zeros.
pub open spec fn decimal(n: nat) -> Seq<char>
    decreases n,
{
    if n < 10 {
        seq![digit_char(n)]
    } else {
        decimal(n / 10).push(digit_char(n % 10))
    }
}

fn digit_char_exec(d: u128) -> (c: char)
    requires
        d < 10,
    ensures
        c == digit_char(d as nat),
{
    if d == 0 {
        '0'
    } else if d == 1 {
        '1'
    } else if d == 2 {
        '2'
    } else if d == 3 {
        '3'
    } else if d == 4 {
        '4'
    } else if d == 5 {
        '5'
    } else if d == 6 {
        '6'
    } else if d == 7 {
        '7'
    } else if d == 8 {
        '8'
    } else {
        '9'
    }
}

/// Appends `n` in decimal.
pub fn push_decimal(out: &mut String, n: u128)
    ensures
        final(out)@ == old(out)@ + decimal(n as nat),
    decreases n,
{
    if n >= 10 {
        push_decimal(out, n / 10);
    }
    out.push(digit_char_exec(n % 10));
    assert(final(out)@ =~= old(out)@ + decimal(n as nat));
}

/// `v` in decimal, with a leading `-` when negative.
pub open spec fn signed_decimal(v: int) -> Seq<char> {
    if v < 0 {
        seq!['-'] + decimal((-v) as nat)
    } else {
        decimal(v as nat)
    }
}

/// Appends `v` in decimal, with a leading `-` when negative.
pub fn push_signed_decimal(out: &mut String, v: i128)
    ensures
        final(out)@ == old(out)@ + signed_decimal(v as int),
{
    if v < 0 {
        out.push('-');
        let magnitude: u128 = if v == i128::MIN {
            0x8000_0000_0000_0000_0000_0000_0000_0000u128
        } else {
            (-v) as u128
        };
        push_decimal(out, magnitude);
    } else {
        push_decimal(out, v as u128);
    }
    assert(final(out)@ =~= old(out)@ + signed_decimal(v as int));
}

// ─── records and sequences ──────────────────────────────────────

/// Items separated by single spaces.
pub open spec fn joined(items: Seq<Seq<char>>) -> Seq<char>
    decreases items.len(),
{
    if items.len() == 0 {
        Seq::empty()
    } else if items.len() == 1 {
        items[0]
    } else {
        joined(items.drop_last()) + " "@ + items.last()
    }
}

/// A sequence: items in `[ ]`, separated by spaces.
pub open spec fn seq_text(items: Seq<Seq<char>>) -> Seq<char> {
    "["@ + joined(items) + "]"@
}

pub open spec fn node_text(n: Node) -> Seq<char> {
    "(Node "@ + quoted(n.name@) + ")"@
}

pub open spec fn edge_text(e: Edge) -> Seq<char> {
    "(Edge "@ + decimal(e.from.0 as nat) + " "@ + decimal(e.to.0 as nat) + " "@ + relation_kind_name(
        e.kind,
    ) + ")"@
}

pub open spec fn graph_text(g: Graph) -> Seq<char> {
    "(Graph "@ + quoted(g.title@) + ")"@
}

/// A record paired with the slot it lives in.
pub open spec fn slotted_text(slot: Slot, record: Seq<char>) -> Seq<char> {
    "(Tuple "@ + decimal(slot.0 as nat) + " "@ + record + ")"@
}

pub open spec fn ok_text() -> Seq<char> {
    "(Ok)"@
}

/// `(Diagnostic <Level> <code> <message>)`; the remaining fields are not
/// rendered.
pub open spec fn diagnostic_text(d: Diagnostic) -> Seq<char> {
    "(Diagnostic "@ + diagnostic_level_name(d.level) + " "@ + quoted(d.code@) + " "@ + quoted(
        d.message@,
    ) + ")"@
}

/// Diagnostic level law: a level renders as a bare PascalCase identifier
/// (a unit variant's form), distinct levels render as distinct
/// identifiers, and so two diagnostics with the same code and message
/// render alike only when their levels are the same.
pub proof fn law_diagnostic_level_text(d: Diagnostic, e: Diagnostic)
    ensures
        is_pascal_case(diagnostic_level_name(d.level)),
        diagnostic_level_name(d.level) == diagnostic_level_name(e.level) ==> d.level == e.level,
        d.code@ == e.code@ && d.message@ == e.message@ && diagnostic_text(d) == diagnostic_text(e)
            ==> d.level == e.level,
{
    reveal_strlit("Error");
    reveal_strlit("Warning");
    reveal_strlit("Info");
    reveal_strlit("(Diagnostic ");
    let a = diagnostic_level_name(d.level);
    let b = diagnostic_level_name(e.level);
    assert(a.len() > 0 && is_upper(a[0]));
    if d.code@ == e.code@ && d.message@ == e.message@ && diagnostic_text(d) == diagnostic_text(e) {
        let rest = " "@ + quoted(d.code@) + " "@ + quoted(d.message@) + ")"@;
        assert(diagnostic_text(d) =~= "(Diagnostic "@ + a + rest);
        assert(diagnostic_text(e) =~= "(Diagnostic "@ + b + rest);
        assert(a.len() == b.len());
        assert(a =~= diagnostic_text(d).subrange(12, 12 + a.len() as int));
        assert(b =~= diagnostic_text(e).subrange(12, 12 + b.len() as int));
    }
}

pub open spec fn outcome_text(o: OutcomeMessage) -> Seq<char> {
    match o {
        OutcomeMessage::Success(_) => ok_text(),
        OutcomeMessage::Diagnostic(d) => diagnostic_text(d),
    }
}

pub open spec fn outcomes_text(os: Seq<OutcomeMessage>) -> Seq<char> {
    seq_text(os.map_values(|o: OutcomeMessage| outcome_text(o)))
}

pub open spec fn records_text(r: Records) -> Seq<char> {
    match r {
        Records::Node(items) => seq_text(
            items@.map_values(|x: (Slot, Node)| slotted_text(x.0, node_text(x.1))),
        ),
        Records::Edge(items) => seq_text(
            items@.map_values(|x: (Slot, Edge)| slotted_text(x.0, edge_text(x.1))),
        ),
        Records::Graph(items) => seq_text(
            items@.map_values(|x: (Slot, Graph)| slotted_text(x.0, graph_text(x.1))),
        ),
    }
}

// ─── executable record writers ──────────────────────────────────

pub fn push_node(out: &mut String, n: &Node)
    ensures
        final(out)@ == old(out)@ + node_text(*n),
{
    out.append("(Node ");
    push_quoted(out, n.name.as_str());
    out.append(")");
    assert(final(out)@ =~= old(out)@ + node_text(*n));
}

pub fn push_edge(out: &mut String, e: &Edge)
    ensures
        final(out)@ == old(out)@ + edge_text(*e),
{
    out.append("(Edge ");
    push_decimal(out, e.from.0 as u128);
    out.append(" ");
    push_decimal(out, e.to.0 as u128);
    out.append(" ");
    out.append(e.kind.variant_name());
    out.append(")");
    assert(final(out)@ =~= old(out)@ + edge_text(*e));
}

pub fn push_graph(out: &mut String, g: &Graph)
    ensures
        final(out)@ == old(out)@ + graph_text(*g),
{
    out.append("(Graph ");
    push_quoted(out, g.title.as_str());
    out.append(")");
    assert(final(out)@ =~= old(out)@ + graph_text(*g));
}

pub fn push_ok(out: &mut String)
    ensures
        final(out)@ == old(out)@ + ok_text(),
{
    out.append("(Ok)");
}

pub fn push_diagnostic(out: &mut String, d: &Diagnostic)
    ensures
        final(out)@ == old(out)@ + diagnostic_text(*d),
{
    out.append("(Diagnostic ");
    out.append(d.level.name());
    out.append(" ");
    push_quoted(out, d.code.as_str());
    out.append(" ");
    push_quoted(out, d.message.as_str());
    out.append(")");
    assert(final(out)@ =~= old(out)@ + diagnostic_text(*d));
}

pub fn push_outcome(out: &mut String, o: &OutcomeMessage)
    ensures
        final(out)@ == old(out)@ + outcome_text(*o),
{
    match o {
        OutcomeMessage::Success(_) => push_ok(out),
        OutcomeMessage::Diagnostic(d) => push_diagnostic(out, d),
    }
}

pub proof fn lemma_joined_push(items: Seq<Seq<char>>, x: Seq<char>)
    ensures
        joined(items.push(x)) == if items.len() == 0 {
            x
        } else {
            joined(items) + " "@ + x
        },
{
    assert(items.push(x).drop_last() =~= items);
    if items.len() == 0 {
        assert(items.push(x).len() == 1);
    }
}

pub fn push_outcomes(out: &mut String, os: &Vec<OutcomeMessage>)
    ensures
        final(out)@ == old(out)@ + outcomes_text(os@),
{
    let ghost texts = os@.map_values(|o: OutcomeMessage| outcome_text(o));
    out.append("[");
    let ghost start = out@;
    let mut i: usize = 0;
    while i < os.len()
        invariant
            i <= os.len(),
            texts == os@.map_values(|o: OutcomeMessage| outcome_text(o)),
            out@ == start + joined(texts.take(i as int)),
        decreases os.len() - i,
    {
        proof {
            assert(texts.take(i + 1) =~= texts.take(i as int).push(texts[i as int]));
            lemma_joined_push(texts.take(i as int), texts[i as int]);
        }
        if i > 0 {
            out.append(" ");
        }
        push_outcome(out, &os[i]);
        i = i + 1;
        proof {
            assert(out@ =~= start + joined(texts.take(i as int)));
        }
    }
    assert(texts.take(os.len() as int) =~= texts);
    out.append("]");
    assert(final(out)@ =~= old(out)@ + outcomes_text(os@));
}

pub fn push_node_records(out: &mut String, items: &Vec<(Slot, Node)>)
    ensures
        final(out)@ == old(out)@ + seq_text(
            items@.map_values(|x: (Slot, Node)| slotted_text(x.0, node_text(x.1))),
        ),
{
    let ghost texts = items@.map_values(|x: (Slot, Node)| slotted_text(x.0, node_text(x.1)));
    out.append("[");
    let ghost start = out@;
    let mut i: usize = 0;
    while i < items.len()
        invariant
            i <= items.len(),
            texts == items@.map_values(|x: (Slot, Node)| slotted_text(x.0, node_text(x.1))),
            out@ == start + joined(texts.take(i as int)),
        decreases items.len() - i,
    {
        proof {
            assert(texts.take(i + 1) =~= texts.take(i as int).push(texts[i as int]));
            lemma_joined_push(texts.take(i as int), texts[i as int]);
        }
        if i > 0 {
            out.append(" ");
        }
        out.append("(Tuple ");
        push_decimal(out, items[i].0.0 as u128);
        out.append(" ");
        push_node(out, &items[i].1);
        out.append(")");
        i = i + 1;
        proof {
            assert(out@ =~= start + joined(texts.take(i as int)));
        }
    }
    assert(texts.take(items.len() as int) =~= texts);
    out.append("]");
    assert(final(out)@ =~= old(out)@ + seq_text(texts));
}

pub fn push_edge_records(out: &mut String, items: &Vec<(Slot, Edge)>)
    ensures
        final(out)@ == old(out)@ + seq_text(
            items@.map_values(|x: (Slot, Edge)| slotted_text(x.0, edge_text(x.1))),
        ),
{
    let ghost texts = items@.map_values(|x: (Slot, Edge)| slotted_text(x.0, edge_text(x.1)));
    out.append("[");
    let ghost start = out@;
    let mut i: usize = 0;
    while i < items.len()
        invariant
            i <= items.len(),
            texts == items@.map_values(|x: (Slot, Edge)| slotted_text(x.0, edge_text(x.1))),
            out@ == start + joined(texts.take(i as int)),
        decreases items.len() - i,
    {
        proof {
            assert(texts.take(i + 1) =~= texts.take(i as int).push(texts[i as int]));
            lemma_joined_push(texts.take(i as int), texts[i as int]);
        }
        if i > 0 {
            out.append(" ");
        }
        out.append("(Tuple ");
        push_decimal(out, items[i].0.0 as u128);
        out.append(" ");
        push_edge(out, &items[i].1);
        out.append(")");
        i = i + 1;
        proof {
            assert(out@ =~= start + joined(texts.take(i as int)));
        }
    }
    assert(texts.take(items.len() as int) =~= texts);
    out.append("]");
    assert(final(out)@ =~= old(out)@ + seq_text(texts));
}

pub fn push_graph_records(out: &mut String, items: &Vec<(Slot, Graph)>)
    ensures
        final(out)@ == old(out)@ + seq_text(
            items@.map_values(|x: (Slot, Graph)| slotted_text(x.0, graph_text(x.1))),
        ),
{
    let ghost texts = items@.map_values(|x: (Slot, Graph)| slotted_text(x.0, graph_text(x.1)));
    out.append("[");
    let ghost start = out@;
    let mut i: usize = 0;
    while i < items.len()
        invariant
            i <= items.len(),
            texts == items@.map_values(|x: (Slot, Graph)| slotted_text(x.0, graph_text(x.1))),
            out@ == start + joined(texts.take(i as int)),
        decreases items.len() - i,
    {
        proof {
            assert(texts.take(i + 1) =~= texts.take(i as int).push(texts[i as int]));
            lemma_joined_push(texts.take(i as int), texts[i as int]);
        }
        if i > 0 {
            out.append(" ");
        }
        out.append("(Tuple ");
        push_decimal(out, items[i].0.0 as u128);
        out.append(" ");
        push_graph(out, &items[i].1);
        out.append(")");
        i = i + 1;
        proof {
            assert(out@ =~= start + joined(texts.take(i as int)));
        }
    }
    assert(texts.take(items.len() as int) =~= texts);
    out.append("]");
    assert(final(out)@ =~= old(out)@ + seq_text(texts));
}

pub fn push_records(out: &mut String, r: &Records)
    ensures
        final(out)@ == old(out)@ + records_text(*r),
{
    match r {
        Records::Node(items) => push_node_records(out, items),
        Records::Edge(items) => push_edge_records(out, items),
        Records::Graph(items) => push_graph_records(out, items),
    }
}

} // verus!
