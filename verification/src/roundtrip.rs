//! One text construct, one typed value: the canonical rendering of a data
//! record reads back as exactly that record.
use vstd::prelude::*;
use crate::encode::{
    decimal, digit_char, edge_text, escape_char, escaped, graph_text, node_text, quoted,
};
use crate::model::{
    relation_kind_name, relation_kind_named, AssertOperation, AssertValue, RelationKind,
};
use crate::model::{PatternField, QueryValue, Slot};
use crate::parse::{
    expect_at, is_lowercase_identifier, is_pascal_case, kind_pattern_at, query_at,
    query_body_at, slot_pattern_at, sole_query, string_pattern_at,
};
use crate::parser::{close_at, head_at, relation_kind_field_at, request_at, slot_field_at, string_field_at};
use crate::text::{
    digit_value, digits_end, digits_value, ident_end, is_digit, is_ident_char, is_ident_start,
    is_lower, is_space, is_upper, lex_at, skip_trivia, string_body, token_at, unescape, LexMode,
    Lexeme,
};

verus! {

/// The canonical text of an assert operation's record.
pub open spec fn assert_text(a: AssertOperation) -> Seq<char> {
    match a {
        AssertOperation::Node(n) => node_text(n),
        AssertOperation::Edge(e) => edge_text(e),
        AssertOperation::Graph(g) => graph_text(g),
    }
}

// ─── reading single tokens ──────────────────────────────────────

proof fn lemma_lex_skips_space(m: LexMode, s: Seq<char>, i: nat)
    requires
        i < s.len(),
        is_space(s[i as int]),
    ensures
        lex_at(m, s, i) == lex_at(m, s, i + 1),
{
    assert(skip_trivia(s, i) == skip_trivia(s, i + 1));
}

proof fn lemma_lex_at_token(m: LexMode, s: Seq<char>, i: nat)
    requires
        i < s.len(),
        !is_space(s[i as int]),
        s[i as int] != ';',
    ensures
        lex_at(m, s, i) == token_at(m, s, i),
{
    assert(skip_trivia(s, i) == i);
}

proof fn lemma_ident_end_at(s: Seq<char>, i: nat, j: nat)
    requires
        i <= j <= s.len(),
        forall|k: int| i <= k < j ==> is_ident_char(#[trigger] s[k]),
        j < s.len() ==> !is_ident_char(s[j as int]),
    ensures
        ident_end(s, i) == j,
    decreases j - i,
{
    if i < j {
        lemma_ident_end_at(s, i + 1, j);
    }
}

proof fn lemma_digits_end_at(s: Seq<char>, i: nat, j: nat)
    requires
        i <= j <= s.len(),
        forall|k: int| i <= k < j ==> is_digit(#[trigger] s[k]),
        j < s.len() ==> !is_digit(s[j as int]),
    ensures
        digits_end(s, i) == j,
    decreases j - i,
{
    if i < j {
        lemma_digits_end_at(s, i + 1, j);
    }
}

/// An identifier `w` at `i`, followed by the end or a non-identifier
/// character, reads as `Ident(w)`.
proof fn lemma_lex_ident(m: LexMode, s: Seq<char>, i: nat, w: Seq<char>)
    requires
        w.len() > 0,
        i + w.len() <= s.len(),
        s.subrange(i as int, (i + w.len()) as int) == w,
        is_ident_start(w[0]),
        forall|k: int| 0 <= k < w.len() ==> is_ident_char(#[trigger] w[k]),
        i + w.len() < s.len() ==> !is_ident_char(s[(i + w.len()) as int]),
    ensures
        lex_at(m, s, i) == Ok::<_, crate::text::CodecFault>(
            Some((Lexeme::Ident(w), i + w.len())),
        ),
{
    assert(s[i as int] == w[0]);
    assert forall|k: int| i <= k < i + w.len() implies is_ident_char(#[trigger] s[k]) by {
        assert(s[k] == w[k - i]);
    }
    lemma_ident_end_at(s, i, i + w.len());
    lemma_lex_at_token(m, s, i);
}

// ─── quoted strings ─────────────────────────────────────────────

proof fn lemma_escape_char_len(c: char)
    ensures
        1 <= escape_char(c).len() <= 2,
{
}

/// The escaped characters of `x` followed by `"` read back as `x`.
proof fn lemma_string_body_of(s: Seq<char>, k: nat, open: nat, x: Seq<char>)
    requires
        k + escaped(x).len() < s.len(),
        s.subrange(k as int, (k + escaped(x).len()) as int) == escaped(x),
        s[(k + escaped(x).len()) as int] == '"',
    ensures
        string_body(s, k, open) == Ok::<_, crate::text::CodecFault>(
            (x, k + escaped(x).len() + 1),
        ),
    decreases x.len(),
{
    if x.len() == 0 {
        assert(escaped(x).len() == 0);
        assert(x =~= Seq::<char>::empty());
    } else {
        let c = x[0];
        let rest = x.drop_first();
        let ec = escape_char(c);
        assert(escaped(x) == ec + escaped(rest));
        lemma_escape_char_len(c);
        let n = ec.len();
        assert(s.subrange((k + n) as int, (k + n + escaped(rest).len()) as int) =~= escaped(rest)) by {
            assert forall|t: int| 0 <= t < escaped(rest).len() implies s[k + n + t]
                == escaped(rest)[t] by {
                assert(s[k + n + t] == s.subrange(k as int, (k + escaped(x).len()) as int)[n + t]);
            }
        }
        assert(s[k as int] == ec[0]) by {
            assert(s[k as int] == s.subrange(k as int, (k + escaped(x).len()) as int)[0]);
        }
        if c == '"' || c == '\\' || c == '\n' || c == '\t' {
            assert(s[(k + 1) as int] == ec[1]) by {
                assert(s[(k + 1) as int] == s.subrange(k as int, (k + escaped(x).len()) as int)[1]);
            }
            assert(unescape(ec[1]) == Some(c));
            lemma_string_body_of(s, k + 2, open, rest);
            assert(seq![c] + rest =~= x);
        } else {
            lemma_string_body_of(s, k + 1, open, rest);
            assert(seq![c] + rest =~= x);
        }
    }
}

/// A quoted string at `i` reads as `Str(x)`.
proof fn lemma_lex_quoted(m: LexMode, s: Seq<char>, i: nat, x: Seq<char>)
    requires
        i + quoted(x).len() <= s.len(),
        s.subrange(i as int, (i + quoted(x).len()) as int) == quoted(x),
    ensures
        lex_at(m, s, i) == Ok::<_, crate::text::CodecFault>(
            Some((Lexeme::Str(x), i + quoted(x).len())),
        ),
{
    let q = quoted(x);
    let ex = escaped(x);
    assert(q.len() == ex.len() + 2);
    assert(s[i as int] == '"') by {
        assert(s[i as int] == s.subrange(i as int, (i + q.len()) as int)[0]);
    }
    assert(s[(i + 1 + ex.len()) as int] == '"') by {
        assert(s[(i + 1 + ex.len()) as int] == s.subrange(i as int, (i + q.len()) as int)[(1 + ex.len()) as int]);
    }
    assert(s.subrange((i + 1) as int, (i + 1 + ex.len()) as int) =~= ex) by {
        assert forall|t: int| 0 <= t < ex.len() implies s[i + 1 + t] == ex[t] by {
            assert(s[i + 1 + t] == s.subrange(i as int, (i + q.len()) as int)[1 + t]);
        }
    }
    lemma_string_body_of(s, i + 1, i, x);
    lemma_lex_at_token(m, s, i);
}

// ─── decimal numbers ────────────────────────────────────────────

proof fn lemma_digit_char(d: nat)
    requires
        d < 10,
    ensures
        is_digit(digit_char(d)),
        digit_value(digit_char(d)) == d,
{
}

proof fn lemma_decimal_digits(n: nat)
    ensures
        decimal(n).len() >= 1,
        forall|k: int| 0 <= k < decimal(n).len() ==> is_digit(#[trigger] decimal(n)[k]),
    decreases n,
{
    lemma_digit_char(n % 10);
    if n >= 10 {
        lemma_decimal_digits(n / 10);
        assert forall|k: int| 0 <= k < decimal(n).len() implies is_digit(#[trigger] decimal(n)[k]) by {
            if k < decimal(n / 10).len() {
                assert(decimal(n)[k] == decimal(n / 10)[k]);
            }
        }
    }
}

proof fn lemma_decimal_value(s: Seq<char>, i: nat, n: nat)
    requires
        i + decimal(n).len() <= s.len(),
        s.subrange(i as int, (i + decimal(n).len()) as int) == decimal(n),
    ensures
        digits_value(s, i as int, (i + decimal(n).len()) as int) == n,
    decreases n,
{
    let d = decimal(n);
    lemma_decimal_digits(n);
    lemma_digit_char(n % 10);
    if n < 10 {
        assert(s[i as int] == d[0]);
        assert(digits_value(s, i as int, i as int) == 0);
    } else {
        let h = decimal(n / 10);
        lemma_decimal_digits(n / 10);
        assert(d == h.push(digit_char(n % 10)));
        assert(s.subrange(i as int, (i + h.len()) as int) =~= h) by {
            assert forall|t: int| 0 <= t < h.len() implies s[i + t] == h[t] by {
                assert(s[i + t] == s.subrange(i as int, (i + d.len()) as int)[t]);
                assert(d[t] == h[t]);
            }
        }
        lemma_decimal_value(s, i, n / 10);
        assert(s[(i + h.len()) as int] == digit_char(n % 10)) by {
            assert(s[(i + h.len()) as int] == s.subrange(i as int, (i + d.len()) as int)[h.len() as int]);
        }
        assert((n / 10) * 10 + n % 10 == n);
    }
}

/// The decimal digits of `n` at `i`, followed by the end or a non-digit,
/// read as `UInt(n)`.
proof fn lemma_lex_decimal(m: LexMode, s: Seq<char>, i: nat, n: nat)
    requires
        n <= u64::MAX,
        i + decimal(n).len() <= s.len(),
        s.subrange(i as int, (i + decimal(n).len()) as int) == decimal(n),
        i + decimal(n).len() < s.len() ==> !is_digit(s[(i + decimal(n).len()) as int]),
    ensures
        lex_at(m, s, i) == Ok::<_, crate::text::CodecFault>(
            Some((Lexeme::UInt(n as int), i + decimal(n).len())),
        ),
{
    let d = decimal(n);
    lemma_decimal_digits(n);
    assert forall|k: int| i <= k < i + d.len() implies is_digit(#[trigger] s[k]) by {
        assert(s[k] == s.subrange(i as int, (i + d.len()) as int)[k - i]);
    }
    lemma_digits_end_at(s, i, i + d.len());
    lemma_decimal_value(s, i, n);
    assert(is_digit(s[i as int]));
    lemma_lex_at_token(m, s, i);
}

// ─── relation kind names ────────────────────────────────────────

proof fn lemma_relation_kind_name(k: RelationKind)
    ensures
        relation_kind_named(relation_kind_name(k)) == Some(k),
        relation_kind_name(k).len() > 0,
        is_ident_start(relation_kind_name(k)[0]),
        forall|t: int|
            0 <= t < relation_kind_name(k).len() ==> is_ident_char(
                #[trigger] relation_kind_name(k)[t],
            ),
{
    reveal_strlit("Flow");
    reveal_strlit("DependsOn");
    reveal_strlit("Contains");
    reveal_strlit("References");
    reveal_strlit("Produces");
    reveal_strlit("Consumes");
    reveal_strlit("Calls");
    reveal_strlit("Implements");
    reveal_strlit("IsA");
    let names = seq!["Flow"@, "DependsOn"@, "Contains"@, "References"@, "Produces"@,
        "Consumes"@, "Calls"@, "Implements"@, "IsA"@];
    assert(names[0].len() == 4 && names[1].len() == 9 && names[2].len() == 8 && names[3].len()
        == 10 && names[4].len() == 8 && names[5].len() == 8 && names[6].len() == 5
        && names[7].len() == 10 && names[8].len() == 3);
    assert("Contains"@ != "Produces"@) by {
        assert("Contains"@[0] != "Produces"@[0]);
    }
    assert("Contains"@ != "Consumes"@) by {
        assert("Contains"@[3] != "Consumes"@[3]);
    }
    assert("Produces"@ != "Consumes"@) by {
        assert("Produces"@[0] != "Consumes"@[0]);
    }
    assert("References"@ != "Implements"@) by {
        assert("References"@[0] != "Implements"@[0]);
    }
}

/// The text `t` split at `i`: the part from `i` is `part`.
proof fn lemma_part(t: Seq<char>, a: Seq<char>, part: Seq<char>, b: Seq<char>)
    requires
        t =~= a + part + b,
    ensures
        t.subrange(a.len() as int, (a.len() + part.len()) as int) == part,
{
    assert(t.subrange(a.len() as int, (a.len() + part.len()) as int) =~= part);
}

proof fn lemma_open_paren(t: Seq<char>)
    requires
        t.len() > 0,
        t[0] == '(',
    ensures
        lex_at(LexMode::Nota, t, 0) == Ok::<_, crate::text::CodecFault>(
            Some((Lexeme::LParen, 1nat)),
        ),
{
    lemma_lex_at_token(LexMode::Nota, t, 0);
}

#[verifier::rlimit(40)]
proof fn lemma_node_roundtrip(n: crate::model::Node)
    ensures
        request_at(node_text(n), 0) == Ok::<_, crate::text::CodecFault>(
            Some((AssertValue::Node(n.name@), node_text(n).len())),
        ),
{
    reveal_strlit("(Node ");
    reveal_strlit("Node");
    reveal_strlit(")");
    let t = node_text(n);
    let q = quoted(n.name@);
    assert(t =~= seq!['('] + "Node"@ + seq![' '] + q + seq![')']);
    lemma_open_paren(t);
    lemma_part(t, seq!['('], "Node"@, seq![' '] + q + seq![')']);
    lemma_lex_ident(LexMode::Nota, t, 1, "Node"@);
    assert(head_at(t, 1) == Ok::<_, crate::text::CodecFault>(("Node"@, 5nat)));
    lemma_lex_skips_space(LexMode::Nota, t, 5);
    lemma_part(t, seq!['('] + "Node"@ + seq![' '], q, seq![')']);
    lemma_lex_quoted(LexMode::Nota, t, 6, n.name@);
    assert(string_field_at(t, 5) == Ok::<_, crate::text::CodecFault>((n.name@, 6 + q.len())));
    lemma_lex_at_token(LexMode::Nota, t, 6 + q.len());
    assert(close_at(t, 6 + q.len()) == Ok::<_, crate::text::CodecFault>(t.len()));
}

#[verifier::rlimit(40)]
proof fn lemma_graph_roundtrip(g: crate::model::Graph)
    ensures
        request_at(graph_text(g), 0) == Ok::<_, crate::text::CodecFault>(
            Some((AssertValue::Graph(g.title@), graph_text(g).len())),
        ),
{
    reveal_strlit("(Graph ");
    reveal_strlit("Graph");
    reveal_strlit("Node");
    reveal_strlit("Edge");
    reveal_strlit(")");
    let t = graph_text(g);
    let q = quoted(g.title@);
    assert(t =~= seq!['('] + "Graph"@ + seq![' '] + q + seq![')']);
    lemma_open_paren(t);
    lemma_part(t, seq!['('], "Graph"@, seq![' '] + q + seq![')']);
    lemma_lex_ident(LexMode::Nota, t, 1, "Graph"@);
    assert(head_at(t, 1) == Ok::<_, crate::text::CodecFault>(("Graph"@, 6nat)));
    lemma_lex_skips_space(LexMode::Nota, t, 6);
    lemma_part(t, seq!['('] + "Graph"@ + seq![' '], q, seq![')']);
    lemma_lex_quoted(LexMode::Nota, t, 7, g.title@);
    assert(string_field_at(t, 6) == Ok::<_, crate::text::CodecFault>((g.title@, 7 + q.len())));
    lemma_lex_at_token(LexMode::Nota, t, 7 + q.len());
    assert(close_at(t, 7 + q.len()) == Ok::<_, crate::text::CodecFault>(t.len()));
}

/// A space, then the decimal digits of a slot, then a non-digit, read as
/// that slot.
proof fn lemma_slot_field(t: Seq<char>, i: nat, slot: crate::model::Slot)
    requires
        i + 1 + decimal(slot.0 as nat).len() < t.len(),
        t[i as int] == ' ',
        t.subrange((i + 1) as int, (i + 1 + decimal(slot.0 as nat).len()) as int) == decimal(
            slot.0 as nat,
        ),
        !is_digit(t[(i + 1 + decimal(slot.0 as nat).len()) as int]),
    ensures
        slot_field_at(t, i) == Ok::<_, crate::text::CodecFault>(
            (slot, i + 1 + decimal(slot.0 as nat).len()),
        ),
{
    lemma_lex_skips_space(LexMode::Nota, t, i);
    lemma_lex_decimal(LexMode::Nota, t, i + 1, slot.0 as nat);
}

/// A space, then a relation kind's name, then `)`, read as that kind.
proof fn lemma_kind_field(t: Seq<char>, i: nat, kind: RelationKind)
    requires
        i + 1 + relation_kind_name(kind).len() < t.len(),
        t[i as int] == ' ',
        t.subrange((i + 1) as int, (i + 1 + relation_kind_name(kind).len()) as int)
            == relation_kind_name(kind),
        t[(i + 1 + relation_kind_name(kind).len()) as int] == ')',
    ensures
        relation_kind_field_at(t, i) == Ok::<_, crate::text::CodecFault>(
            (kind, i + 1 + relation_kind_name(kind).len()),
        ),
{
    lemma_relation_kind_name(kind);
    lemma_lex_skips_space(LexMode::Nota, t, i);
    lemma_lex_ident(LexMode::Nota, t, i + 1, relation_kind_name(kind));
}

/// Where the parts of an edge's text lie.
#[verifier::rlimit(40)]
proof fn lemma_edge_layout(e: crate::model::Edge)
    ensures
        ({
            let t = edge_text(e);
            let d1 = decimal(e.from.0 as nat);
            let d2 = decimal(e.to.0 as nat);
            let kn = relation_kind_name(e.kind);
            let p1 = 6 + d1.len();
            let p2 = p1 + 1 + d2.len();
            let p3 = p2 + 1 + kn.len();
            &&& t.len() == p3 + 1
            &&& t[0] == '('
            &&& t.subrange(1, 5) == "Edge"@
            &&& t[5] == ' '
            &&& t.subrange(6, p1 as int) == d1
            &&& t[p1 as int] == ' '
            &&& t.subrange((p1 + 1) as int, p2 as int) == d2
            &&& t[p2 as int] == ' '
            &&& t.subrange((p2 + 1) as int, p3 as int) == kn
            &&& t[p3 as int] == ')'
        }),
{
    reveal_strlit("(Edge ");
    reveal_strlit("Edge");
    reveal_strlit(")");
    reveal_strlit(" ");
    let t = edge_text(e);
    let d1 = decimal(e.from.0 as nat);
    let d2 = decimal(e.to.0 as nat);
    let kn = relation_kind_name(e.kind);
    assert(t =~= seq!['('] + "Edge"@ + seq![' '] + d1 + seq![' '] + d2 + seq![' '] + kn + seq![')']);
    let p1 = 6 + d1.len();
    let p2 = p1 + 1 + d2.len();
    let p3 = p2 + 1 + kn.len();
    assert(t.subrange(1, 5) =~= "Edge"@);
    assert(t.subrange(6, p1 as int) =~= d1);
    assert(t.subrange((p1 + 1) as int, p2 as int) =~= d2);
    assert(t.subrange((p2 + 1) as int, p3 as int) =~= kn);
}

#[verifier::rlimit(40)]
proof fn lemma_edge_roundtrip(e: crate::model::Edge)
    ensures
        request_at(edge_text(e), 0) == Ok::<_, crate::text::CodecFault>(
            Some((AssertValue::Edge(e.from, e.to, e.kind), edge_text(e).len())),
        ),
{
    let t = edge_text(e);
    let d1 = decimal(e.from.0 as nat);
    let d2 = decimal(e.to.0 as nat);
    let kn = relation_kind_name(e.kind);
    let p1 = 6 + d1.len();
    let p2 = p1 + 1 + d2.len();
    let p3 = p2 + 1 + kn.len();
    lemma_edge_layout(e);
    lemma_decimal_digits(e.from.0 as nat);
    lemma_decimal_digits(e.to.0 as nat);
    reveal_strlit("Edge");
    reveal_strlit("Node");
    assert("Edge"@ != "Node"@) by {
        assert("Edge"@[0] != "Node"@[0]);
    }
    lemma_open_paren(t);
    lemma_lex_ident(LexMode::Nota, t, 1, "Edge"@);
    assert(head_at(t, 1) == Ok::<_, crate::text::CodecFault>(("Edge"@, 5nat)));
    lemma_slot_field(t, 5, e.from);
    lemma_slot_field(t, p1, e.to);
    lemma_kind_field(t, p2, e.kind);
    lemma_lex_at_token(LexMode::Nota, t, p3);
    assert(close_at(t, p3) == Ok::<_, crate::text::CodecFault>(t.len()));
}

/// A bare identifier: text that the lexer reads as one identifier token.
pub open spec fn is_bare_identifier(w: Seq<char>) -> bool {
    &&& w.len() > 0
    &&& is_ident_start(w[0])
    &&& forall|k: int| 0 <= k < w.len() ==> is_ident_char(#[trigger] w[k])
}

/// `(head w)` with a bare `w`, read as the record it opens.
#[verifier::rlimit(40)]
proof fn lemma_bare_field_record(head: Seq<char>, w: Seq<char>)
    requires
        is_bare_identifier(w),
        head == "Node"@ || head == "Graph"@,
    ensures
        ({
            let t = seq!['('] + head + seq![' '] + w + seq![')'];
            &&& lex_at(LexMode::Nota, t, 0) == Ok::<_, crate::text::CodecFault>(
                Some((Lexeme::LParen, 1nat)),
            )
            &&& head_at(t, 1) == Ok::<_, crate::text::CodecFault>((head, 1 + head.len()))
            &&& string_field_at(t, 1 + head.len()) == Ok::<_, crate::text::CodecFault>(
                (w, 2 + head.len() + w.len()),
            )
            &&& close_at(t, 2 + head.len() + w.len()) == Ok::<_, crate::text::CodecFault>(t.len())
        }),
{
    reveal_strlit("Node");
    reveal_strlit("Graph");
    let t = seq!['('] + head + seq![' '] + w + seq![')'];
    let h = head.len();
    lemma_open_paren(t);
    lemma_part(t, seq!['('], head, seq![' '] + w + seq![')']);
    assert(t[(1 + h) as int] == ' ');
    lemma_lex_ident(LexMode::Nota, t, 1, head);
    lemma_lex_skips_space(LexMode::Nota, t, 1 + h);
    lemma_part(t, seq!['('] + head + seq![' '], w, seq![')']);
    assert(t[(2 + h + w.len()) as int] == ')');
    lemma_lex_ident(LexMode::Nota, t, 2 + h, w);
    lemma_lex_at_token(LexMode::Nota, t, 2 + h + w.len());
}

proof fn lemma_bare_node(w: Seq<char>)
    requires
        is_bare_identifier(w),
    ensures
        request_at(seq!['('] + "Node"@ + seq![' '] + w + seq![')'], 0) == Ok::<
            _,
            crate::text::CodecFault,
        >(Some((AssertValue::Node(w), w.len() + 7))),
{
    reveal_strlit("Node");
    lemma_bare_field_record("Node"@, w);
}

proof fn lemma_bare_graph(w: Seq<char>)
    requires
        is_bare_identifier(w),
    ensures
        request_at(seq!['('] + "Graph"@ + seq![' '] + w + seq![')'], 0) == Ok::<
            _,
            crate::text::CodecFault,
        >(Some((AssertValue::Graph(w), w.len() + 8))),
{
    reveal_strlit("Node");
    reveal_strlit("Graph");
    reveal_strlit("Edge");
    lemma_bare_field_record("Graph"@, w);
    assert("Graph"@ != "Node"@) by {
        assert("Graph"@[0] != "Node"@[0]);
    }
    assert("Graph"@ != "Edge"@) by {
        assert("Graph"@[0] != "Edge"@[0]);
    }
}

/// Bare-string law: a record's string field reads a bare identifier as
/// that very string, just as it reads a quoted one. For every bare
/// identifier `w`, `(Node w)` asserts the node named `w` and `(Graph w)`
/// the graph titled `w`, and the read ends at the closing `)`.
#[verifier::spinoff_prover]
pub proof fn law_bare_string_fields(w: Seq<char>)
    requires
        is_bare_identifier(w),
    ensures
        request_at("(Node "@ + w + ")"@, 0) == Ok::<_, crate::text::CodecFault>(
            Some((AssertValue::Node(w), w.len() + 7)),
        ),
        request_at("(Graph "@ + w + ")"@, 0) == Ok::<_, crate::text::CodecFault>(
            Some((AssertValue::Graph(w), w.len() + 8)),
        ),
{
    reveal_strlit("(Node ");
    reveal_strlit("(Graph ");
    reveal_strlit(")");
    let node_text = "(Node "@ + w + ")"@;
    let graph_text = "(Graph "@ + w + ")"@;
    assert(node_text =~= seq!['('] + "Node"@ + seq![' '] + w + seq![')']) by {
        reveal_strlit("Node");
    }
    assert(graph_text =~= seq!['('] + "Graph"@ + seq![' '] + w + seq![')']) by {
        reveal_strlit("Graph");
    }
    lemma_bare_node(w);
    lemma_bare_graph(w);
}

/// Record law: the canonical text of every assert record reads back as
/// exactly that record, the read ends at the end of the text, and nothing
/// follows it.
pub proof fn law_assert_text_roundtrip(a: AssertOperation)
    ensures
        request_at(assert_text(a), 0) == Ok::<_, crate::text::CodecFault>(
            Some((a@, assert_text(a).len())),
        ),
        request_at(assert_text(a), assert_text(a).len()) == Ok::<
            Option<(AssertValue, nat)>,
            crate::text::CodecFault,
        >(None),
{
    match a {
        AssertOperation::Node(n) => lemma_node_roundtrip(n),
        AssertOperation::Edge(e) => lemma_edge_roundtrip(e),
        AssertOperation::Graph(g) => lemma_graph_roundtrip(g),
    }
    let t = assert_text(a);
    assert(skip_trivia(t, t.len()) == t.len());
}


// ─── piped queries ──────────────────────────────────────────────

/// The canonical text of a string pattern field named `field`: `_`, the
/// bind `@field`, or the quoted string it matches.
pub open spec fn string_pattern_text(p: PatternField<Seq<char>>, field: Seq<char>) -> Seq<char> {
    match p {
        PatternField::Wildcard => seq!['_'],
        PatternField::Bind => seq!['@'] + field,
        PatternField::Match(x) => quoted(x),
    }
}

/// The canonical text of a slot pattern field named `field`.
pub open spec fn slot_pattern_text(p: PatternField<Slot>, field: Seq<char>) -> Seq<char> {
    match p {
        PatternField::Wildcard => seq!['_'],
        PatternField::Bind => seq!['@'] + field,
        PatternField::Match(slot) => decimal(slot.0 as nat),
    }
}

/// The canonical text of a relation kind pattern field named `field`.
pub open spec fn kind_pattern_text(p: PatternField<RelationKind>, field: Seq<char>) -> Seq<char> {
    match p {
        PatternField::Wildcard => seq!['_'],
        PatternField::Bind => seq!['@'] + field,
        PatternField::Match(k) => relation_kind_name(k),
    }
}

/// The canonical text of a query: `(| Kind field... |)`, each bind written
/// with the name of the model field it stands in (`NodeQuery::name`,
/// `EdgeQuery::from`, `to`, `kind`, `GraphQuery::title`,
/// `KindDeclQuery::name`).
pub open spec fn query_text(q: QueryValue) -> Seq<char> {
    match q {
        QueryValue::Node(p) => "(| Node "@ + string_pattern_text(p, "name"@) + " |)"@,
        QueryValue::Edge(a, b, c) => "(| Edge "@ + slot_pattern_text(a, "from"@) + " "@
            + slot_pattern_text(b, "to"@) + " "@ + kind_pattern_text(c, "kind"@) + " |)"@,
        QueryValue::Graph(p) => "(| Graph "@ + string_pattern_text(p, "title"@) + " |)"@,
        QueryValue::KindDecl(p) => "(| KindDecl "@ + string_pattern_text(p, "name"@) + " |)"@,
    }
}

proof fn lemma_lowercase_is_ident(w: Seq<char>)
    requires
        is_lowercase_identifier(w),
    ensures
        w.len() > 0,
        is_ident_start(w[0]),
        forall|k: int| 0 <= k < w.len() ==> is_ident_char(#[trigger] w[k]),
{
}

proof fn lemma_pascal_is_ident(w: Seq<char>)
    requires
        is_pascal_case(w),
    ensures
        w.len() > 0,
        is_ident_start(w[0]),
        forall|k: int| 0 <= k < w.len() ==> is_ident_char(#[trigger] w[k]),
{
}

/// The field names of the query models, and the query kind names.
proof fn lemma_query_names()
    ensures
        is_lowercase_identifier("name"@),
        is_lowercase_identifier("from"@),
        is_lowercase_identifier("to"@),
        is_lowercase_identifier("kind"@),
        is_lowercase_identifier("title"@),
        is_pascal_case("Node"@),
        is_pascal_case("Edge"@),
        is_pascal_case("Graph"@),
        is_pascal_case("KindDecl"@),
        "Edge"@ != "Node"@,
        "Graph"@ != "Node"@,
        "Graph"@ != "Edge"@,
        "KindDecl"@ != "Node"@,
        "KindDecl"@ != "Edge"@,
        "KindDecl"@ != "Graph"@,
{
    reveal_strlit("name");
    reveal_strlit("from");
    reveal_strlit("to");
    reveal_strlit("kind");
    reveal_strlit("title");
    reveal_strlit("Node");
    reveal_strlit("Edge");
    reveal_strlit("Graph");
    reveal_strlit("KindDecl");
    assert("Edge"@[0] != "Node"@[0]);
    assert("Graph"@[0] != "Node"@[0]);
    assert("Graph"@[0] != "Edge"@[0]);
    assert("KindDecl"@[0] != "Node"@[0]);
    assert("KindDecl"@[0] != "Edge"@[0]);
    assert("KindDecl"@[0] != "Graph"@[0]);
}

/// The piece `x` of `t` that starts at `j`.
proof fn lemma_piece_at(t: Seq<char>, j: int, x: Seq<char>, k: int)
    requires
        0 <= j,
        j + x.len() <= t.len(),
        t.subrange(j, j + x.len()) == x,
        0 <= k < x.len(),
    ensures
        t[j + k] == x[k],
{
    assert(t[j + k] == t.subrange(j, j + x.len())[k]);
}

/// `@field` at `j`, then a space: a bind of exactly that field.
proof fn lemma_bind_text(t: Seq<char>, j: nat, field: Seq<char>)
    requires
        is_lowercase_identifier(field),
        j + 1 + field.len() < t.len(),
        t.subrange(j as int, (j + 1 + field.len()) as int) == seq!['@'] + field,
        t[(j + 1 + field.len()) as int] == ' ',
    ensures
        lex_at(LexMode::Nexus, t, j) == Ok::<_, crate::text::CodecFault>(
            Some((Lexeme::At, j + 1)),
        ),
        crate::parse::bind_at(t, j + 1, field) == Ok::<_, crate::parse::QueryFault>(
            j + 1 + field.len(),
        ),
{
    let x = seq!['@'] + field;
    lemma_piece_at(t, j as int, x, 0);
    lemma_lex_at_token(LexMode::Nexus, t, j);
    assert(t.subrange((j + 1) as int, (j + 1 + field.len()) as int) =~= field) by {
        assert forall|k: int| 0 <= k < field.len() implies t[j + 1 + k] == field[k] by {
            lemma_piece_at(t, j as int, x, k + 1);
        }
    }
    lemma_lowercase_is_ident(field);
    lemma_lex_ident(LexMode::Nexus, t, j + 1, field);
}

/// A space, then the text of a string pattern field, then a space.
proof fn lemma_string_pattern_field(
    t: Seq<char>,
    i: nat,
    p: PatternField<Seq<char>>,
    field: Seq<char>,
)
    requires
        is_lowercase_identifier(field),
        t[i as int] == ' ',
        i + 1 + string_pattern_text(p, field).len() < t.len(),
        t.subrange((i + 1) as int, (i + 1 + string_pattern_text(p, field).len()) as int)
            == string_pattern_text(p, field),
        t[(i + 1 + string_pattern_text(p, field).len()) as int] == ' ',
    ensures
        string_pattern_at(t, i, field) == Ok::<_, crate::parse::QueryFault>(
            (p, i + 1 + string_pattern_text(p, field).len()),
        ),
{
    let x = string_pattern_text(p, field);
    lemma_lex_skips_space(LexMode::Nexus, t, i);
    match p {
        PatternField::Wildcard => {
            assert(t.subrange((i + 1) as int, (i + 2) as int) =~= seq!['_']);
            lemma_lex_ident(LexMode::Nexus, t, i + 1, seq!['_']);
        },
        PatternField::Bind => {
            lemma_bind_text(t, i + 1, field);
        },
        PatternField::Match(v) => {
            lemma_lex_quoted(LexMode::Nexus, t, i + 1, v);
        },
    }
}

/// A space, then the text of a slot pattern field, then a space.
proof fn lemma_slot_pattern_field(t: Seq<char>, i: nat, p: PatternField<Slot>, field: Seq<char>)
    requires
        is_lowercase_identifier(field),
        t[i as int] == ' ',
        i + 1 + slot_pattern_text(p, field).len() < t.len(),
        t.subrange((i + 1) as int, (i + 1 + slot_pattern_text(p, field).len()) as int)
            == slot_pattern_text(p, field),
        t[(i + 1 + slot_pattern_text(p, field).len()) as int] == ' ',
    ensures
        slot_pattern_at(t, i, field) == Ok::<_, crate::parse::QueryFault>(
            (p, i + 1 + slot_pattern_text(p, field).len()),
        ),
{
    lemma_lex_skips_space(LexMode::Nexus, t, i);
    match p {
        PatternField::Wildcard => {
            assert(t.subrange((i + 1) as int, (i + 2) as int) =~= seq!['_']);
            lemma_lex_ident(LexMode::Nexus, t, i + 1, seq!['_']);
        },
        PatternField::Bind => {
            lemma_bind_text(t, i + 1, field);
        },
        PatternField::Match(slot) => {
            lemma_lex_decimal(LexMode::Nexus, t, i + 1, slot.0 as nat);
            assert((slot.0 as int) as u64 == slot.0);
        },
    }
}

/// Every relation kind name is longer than one character.
proof fn lemma_relation_kind_name_long(k: RelationKind)
    ensures
        relation_kind_name(k).len() > 1,
{
    reveal_strlit("Flow");
    reveal_strlit("DependsOn");
    reveal_strlit("Contains");
    reveal_strlit("References");
    reveal_strlit("Produces");
    reveal_strlit("Consumes");
    reveal_strlit("Calls");
    reveal_strlit("Implements");
    reveal_strlit("IsA");
}

/// A space, then the text of a relation kind pattern field, then a space.
proof fn lemma_kind_pattern_field(
    t: Seq<char>,
    i: nat,
    p: PatternField<RelationKind>,
    field: Seq<char>,
)
    requires
        is_lowercase_identifier(field),
        t[i as int] == ' ',
        i + 1 + kind_pattern_text(p, field).len() < t.len(),
        t.subrange((i + 1) as int, (i + 1 + kind_pattern_text(p, field).len()) as int)
            == kind_pattern_text(p, field),
        t[(i + 1 + kind_pattern_text(p, field).len()) as int] == ' ',
    ensures
        kind_pattern_at(t, i, field) == Ok::<_, crate::parse::QueryFault>(
            (p, i + 1 + kind_pattern_text(p, field).len()),
        ),
{
    lemma_lex_skips_space(LexMode::Nexus, t, i);
    match p {
        PatternField::Wildcard => {
            assert(t.subrange((i + 1) as int, (i + 2) as int) =~= seq!['_']);
            lemma_lex_ident(LexMode::Nexus, t, i + 1, seq!['_']);
        },
        PatternField::Bind => {
            lemma_bind_text(t, i + 1, field);
        },
        PatternField::Match(k) => {
            lemma_relation_kind_name(k);
            lemma_lex_ident(LexMode::Nexus, t, i + 1, relation_kind_name(k));
            lemma_relation_kind_name_long(k);
            assert(relation_kind_name(k) != seq!['_']);
        },
    }
}

/// `(| Kind` at the start of `t`, then a space: the opening and the kind.
proof fn lemma_query_head(t: Seq<char>, kind: Seq<char>)
    requires
        is_pascal_case(kind),
        3 + kind.len() < t.len(),
        t.subrange(0, 3) == seq!['(', '|', ' '],
        t.subrange(3, 3 + kind.len() as int) == kind,
        t[3 + kind.len() as int] == ' ',
    ensures
        query_at(t, 0) == query_body_at(t, kind, 3 + kind.len()),
{
    lemma_piece_at(t, 0, seq!['(', '|', ' '], 0);
    lemma_piece_at(t, 0, seq!['(', '|', ' '], 1);
    lemma_piece_at(t, 0, seq!['(', '|', ' '], 2);
    lemma_lex_at_token(LexMode::Nexus, t, 0);
    assert(expect_at(t, 0, Lexeme::LParenPipe) == Ok::<_, crate::parse::QueryFault>(2nat));
    lemma_lex_skips_space(LexMode::Nexus, t, 2);
    lemma_pascal_is_ident(kind);
    lemma_lex_ident(LexMode::Nexus, t, 3, kind);
}

/// ` |)` at `e`, ending `t`: the closing of the query.
proof fn lemma_query_close(t: Seq<char>, e: nat)
    requires
        e + 3 == t.len(),
        t[e as int] == ' ',
        t[(e + 1) as int] == '|',
        t[(e + 2) as int] == ')',
    ensures
        expect_at(t, e, Lexeme::RParenPipe) == Ok::<_, crate::parse::QueryFault>(t.len()),
{
    lemma_lex_skips_space(LexMode::Nexus, t, e);
    lemma_lex_at_token(LexMode::Nexus, t, e + 1);
}

/// A one-field query of kind `kind` whose field is a string pattern named
/// `field`: where its parts lie, and how they read.
#[verifier::rlimit(40)]
proof fn lemma_one_field_query(kind: Seq<char>, field: Seq<char>, p: PatternField<Seq<char>>)
    requires
        is_pascal_case(kind),
        is_lowercase_identifier(field),
    ensures
        ({
            let x = string_pattern_text(p, field);
            let t = "(| "@ + kind + " "@ + x + " |)"@;
            &&& t.len() == 7 + kind.len() + x.len()
            &&& query_at(t, 0) == query_body_at(t, kind, 3 + kind.len())
            &&& string_pattern_at(t, 3 + kind.len(), field) == Ok::<_, crate::parse::QueryFault>(
                (p, 4 + kind.len() + x.len()),
            )
            &&& expect_at(t, 4 + kind.len() + x.len(), Lexeme::RParenPipe) == Ok::<
                _,
                crate::parse::QueryFault,
            >(t.len())
        }),
{
    reveal_strlit("(| ");
    reveal_strlit(" ");
    reveal_strlit(" |)");
    let x = string_pattern_text(p, field);
    let t = "(| "@ + kind + " "@ + x + " |)"@;
    let k = kind.len();
    assert(t =~= seq!['(', '|', ' '] + kind + seq![' '] + x + seq![' ', '|', ')']);
    assert(t.subrange(0, 3) =~= seq!['(', '|', ' ']);
    assert(t.subrange(3, 3 + k as int) =~= kind);
    assert(t.subrange(4 + k as int, 4 + k + x.len() as int) =~= x);
    lemma_query_head(t, kind);
    lemma_string_pattern_field(t, 3 + k, p, field);
    lemma_query_close(t, 4 + k + x.len());
}

/// Where the parts of an edge query's text lie.
#[verifier::rlimit(60)]
proof fn lemma_edge_query_layout(
    a: PatternField<Slot>,
    b: PatternField<Slot>,
    c: PatternField<RelationKind>,
)
    ensures
        ({
            let t = query_text(QueryValue::Edge(a, b, c));
            let xa = slot_pattern_text(a, "from"@);
            let xb = slot_pattern_text(b, "to"@);
            let xc = kind_pattern_text(c, "kind"@);
            let p1 = 8 + xa.len();
            let p2 = p1 + 1 + xb.len();
            let p3 = p2 + 1 + xc.len();
            &&& t.len() == p3 + 3
            &&& t.subrange(0, 3) == seq!['(', '|', ' ']
            &&& t.subrange(3, 7) == "Edge"@
            &&& t[7] == ' '
            &&& t.subrange(8, p1 as int) == xa
            &&& t[p1 as int] == ' '
            &&& t.subrange((p1 + 1) as int, p2 as int) == xb
            &&& t[p2 as int] == ' '
            &&& t.subrange((p2 + 1) as int, p3 as int) == xc
            &&& t[p3 as int] == ' '
            &&& t[(p3 + 1) as int] == '|'
            &&& t[(p3 + 2) as int] == ')'
        }),
{
    reveal_strlit("(| Edge ");
    reveal_strlit("Edge");
    reveal_strlit(" ");
    reveal_strlit(" |)");
    let t = query_text(QueryValue::Edge(a, b, c));
    let xa = slot_pattern_text(a, "from"@);
    let xb = slot_pattern_text(b, "to"@);
    let xc = kind_pattern_text(c, "kind"@);
    assert(t =~= seq!['(', '|', ' '] + "Edge"@ + seq![' '] + xa + seq![' '] + xb + seq![' '] + xc
        + seq![' ', '|', ')']);
    let p1 = 8 + xa.len();
    let p2 = p1 + 1 + xb.len();
    let p3 = p2 + 1 + xc.len();
    assert(t.subrange(0, 3) =~= seq!['(', '|', ' ']);
    assert(t.subrange(3, 7) =~= "Edge"@);
    assert(t.subrange(8, p1 as int) =~= xa);
    assert(t.subrange((p1 + 1) as int, p2 as int) =~= xb);
    assert(t.subrange((p2 + 1) as int, p3 as int) =~= xc);
}

#[verifier::rlimit(60)]
proof fn lemma_edge_query_roundtrip(
    a: PatternField<Slot>,
    b: PatternField<Slot>,
    c: PatternField<RelationKind>,
)
    ensures
        query_at(query_text(QueryValue::Edge(a, b, c)), 0) == Ok::<_, crate::parse::QueryFault>(
            (QueryValue::Edge(a, b, c), query_text(QueryValue::Edge(a, b, c)).len()),
        ),
{
    let t = query_text(QueryValue::Edge(a, b, c));
    let xa = slot_pattern_text(a, "from"@);
    let xb = slot_pattern_text(b, "to"@);
    let xc = kind_pattern_text(c, "kind"@);
    let p1 = 8 + xa.len();
    let p2 = p1 + 1 + xb.len();
    let p3 = p2 + 1 + xc.len();
    lemma_edge_query_layout(a, b, c);
    lemma_query_names();
    reveal_strlit("Edge");
    lemma_query_head(t, "Edge"@);
    lemma_slot_pattern_field(t, 7, a, "from"@);
    lemma_slot_pattern_field(t, p1, b, "to"@);
    lemma_kind_pattern_field(t, p2, c, "kind"@);
    lemma_query_close(t, p3);
}

#[verifier::spinoff_prover]
proof fn lemma_node_query_roundtrip(p: PatternField<Seq<char>>)
    ensures
        query_at(query_text(QueryValue::Node(p)), 0) == Ok::<_, crate::parse::QueryFault>(
            (QueryValue::Node(p), query_text(QueryValue::Node(p)).len()),
        ),
{
    let x = string_pattern_text(p, "name"@);
    let t = query_text(QueryValue::Node(p));
    assert(t == "(| "@ + "Node"@ + " "@ + x + " |)"@) by {
        reveal_strlit("(| Node ");
        reveal_strlit("(| ");
        reveal_strlit("Node");
        reveal_strlit(" ");
        assert("(| Node "@ =~= "(| "@ + "Node"@ + " "@);
        assert(t =~= "(| "@ + "Node"@ + " "@ + x + " |)"@);
    }
    lemma_query_names();
    lemma_one_field_query("Node"@, "name"@, p);
}

#[verifier::spinoff_prover]
proof fn lemma_graph_query_roundtrip(p: PatternField<Seq<char>>)
    ensures
        query_at(query_text(QueryValue::Graph(p)), 0) == Ok::<_, crate::parse::QueryFault>(
            (QueryValue::Graph(p), query_text(QueryValue::Graph(p)).len()),
        ),
{
    let x = string_pattern_text(p, "title"@);
    let t = query_text(QueryValue::Graph(p));
    assert(t == "(| "@ + "Graph"@ + " "@ + x + " |)"@) by {
        reveal_strlit("(| Graph ");
        reveal_strlit("(| ");
        reveal_strlit("Graph");
        reveal_strlit(" ");
        assert("(| Graph "@ =~= "(| "@ + "Graph"@ + " "@);
        assert(t =~= "(| "@ + "Graph"@ + " "@ + x + " |)"@);
    }
    lemma_query_names();
    lemma_one_field_query("Graph"@, "title"@, p);
}

#[verifier::spinoff_prover]
proof fn lemma_kind_decl_query_roundtrip(p: PatternField<Seq<char>>)
    ensures
        query_at(query_text(QueryValue::KindDecl(p)), 0) == Ok::<_, crate::parse::QueryFault>(
            (QueryValue::KindDecl(p), query_text(QueryValue::KindDecl(p)).len()),
        ),
{
    let x = string_pattern_text(p, "name"@);
    let t = query_text(QueryValue::KindDecl(p));
    assert(t == "(| "@ + "KindDecl"@ + " "@ + x + " |)"@) by {
        reveal_strlit("(| KindDecl ");
        reveal_strlit("(| ");
        reveal_strlit("KindDecl");
        reveal_strlit(" ");
        assert("(| KindDecl "@ =~= "(| "@ + "KindDecl"@ + " "@);
        assert(t =~= "(| "@ + "KindDecl"@ + " "@ + x + " |)"@);
    }
    lemma_query_names();
    lemma_one_field_query("KindDecl"@, "name"@, p);
}

/// Query law: the canonical text of every query reads back as exactly
/// that query, and as the input's sole query. In particular every bind
/// is accepted under the name of the model field it stands in, at every
/// field position of every query kind: `(| KindDecl @name |)` is a
/// `KindDecl` query binding its `name`.
pub proof fn law_query_text_roundtrip(q: QueryValue)
    ensures
        query_at(query_text(q), 0) == Ok::<_, crate::parse::QueryFault>(
            (q, query_text(q).len()),
        ),
        sole_query(query_text(q), 0) == Ok::<_, crate::parse::QueryFault>(q),
{
    match q {
        QueryValue::Node(p) => lemma_node_query_roundtrip(p),
        QueryValue::Edge(a, b, c) => lemma_edge_query_roundtrip(a, b, c),
        QueryValue::Graph(p) => lemma_graph_query_roundtrip(p),
        QueryValue::KindDecl(p) => lemma_kind_decl_query_roundtrip(p),
    }
    let t = query_text(q);
    assert(skip_trivia(t, t.len()) == t.len());
}

} // verus!
