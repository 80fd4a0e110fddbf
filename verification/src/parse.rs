//! Query parser — `(| Kind ... |)` text → typed [`QueryOp`].
//!
//! Each field position of the piped pattern container is one of three
//! forms:
//!
//! - `_`            → `PatternField::Wildcard`
//! - `@<name>`      → `PatternField::Bind`; the name must equal the schema
//!                    field name at this position
//! - `<literal>`    → `PatternField::Match(value)`, the literal read as the
//!                    field's type
//!
//! Every query kind has a hand-written arm here.
use vstd::prelude::*;
use crate::encode::quoted;
use crate::error::{codec_error_text, describe_codec_error, describe_opt_token, opt_token_text, token_text, Error};
use crate::lexer::{chars_of, text_eq, Lexer};
use crate::model::{
    all_relation_kinds, relation_kind_name, relation_kind_named, EdgeQuery, GraphQuery,
    KindDeclQuery, NodeQuery, PatternField, QueryOp, QueryValue, RelationKind, Slot,
};
use crate::text::{is_digit, is_lower, is_upper, lex_at, CodecFault, LexMode, Lexeme, Token};

verus! {

// ─── identifier shapes ──────────────────────────────────────────

/// A non-empty identifier that starts with an ASCII capital and holds only
/// ASCII letters and digits.
pub open spec fn is_pascal_case(s: Seq<char>) -> bool {
    &&& s.len() > 0
    &&& is_upper(s[0])
    &&& forall|k: int| 0 <= k < s.len() ==> is_upper(#[trigger] s[k]) || is_lower(s[k]) || is_digit(s[k])
}

/// A non-empty identifier that starts with an ASCII lowercase letter and
/// holds only lowercase letters, digits, `_` and `-`.
pub open spec fn is_lowercase_identifier(s: Seq<char>) -> bool {
    &&& s.len() > 0
    &&& is_lower(s[0])
    &&& forall|k: int|
        0 <= k < s.len() ==> is_lower(#[trigger] s[k]) || is_digit(s[k]) || s[k] == '_' || s[k]
            == '-'
}

pub fn pascal_case(s: &str) -> (r: bool)
    ensures
        r == is_pascal_case(s@),
{
    let v = chars_of(s);
    if v.len() == 0 || !('A' <= v[0] && v[0] <= 'Z') {
        return false;
    }
    let mut i: usize = 0;
    while i < v.len()
        invariant
            v@ == s@,
            i <= v.len(),
            forall|k: int| 0 <= k < i ==> is_upper(#[trigger] v@[k]) || is_lower(v@[k]) || is_digit(v@[k]),
        decreases v.len() - i,
    {
        let c = v[i];
        if !(('A' <= c && c <= 'Z') || ('a' <= c && c <= 'z') || ('0' <= c && c <= '9')) {
            return false;
        }
        i = i + 1;
    }
    true
}

pub fn lowercase_identifier(s: &str) -> (r: bool)
    ensures
        r == is_lowercase_identifier(s@),
{
    let v = chars_of(s);
    if v.len() == 0 || !('a' <= v[0] && v[0] <= 'z') {
        return false;
    }
    let mut i: usize = 0;
    while i < v.len()
        invariant
            v@ == s@,
            i <= v.len(),
            forall|k: int|
                0 <= k < i ==> is_lower(#[trigger] v@[k]) || is_digit(v@[k]) || v@[k] == '_'
                    || v@[k] == '-',
        decreases v.len() - i,
    {
        let c = v[i];
        if !(('a' <= c && c <= 'z') || ('0' <= c && c <= '9') || c == '_' || c == '-') {
            return false;
        }
        i = i + 1;
    }
    true
}

// ─── what the query parser reads ────────────────────────────────

/// A failure of the query parser, as values.
pub ghost enum QueryFault {
    Lex(CodecFault),
    UnexpectedToken { expected: Seq<char>, got: Seq<char> },
    ExpectedPascalIdentifier { got: Seq<char> },
    ExpectedLowercaseIdentifier { got: Seq<char> },
    ExpectedPatternField { got: Seq<char> },
    UnknownQueryKind { kind_name: Seq<char> },
    UnknownRelationKindVariant { expected_variants: Seq<char>, got: Seq<char> },
    WrongBindName { expected_field_name: Seq<char>, got_bind_name: Seq<char> },
    TrailingTokens { got: Seq<char> },
}

/// Whether the error `e` is the fault `f`.
pub open spec fn error_is(e: Error, f: QueryFault) -> bool {
    match f {
        QueryFault::Lex(c) => e matches Error::Lex(s) && s@ == codec_error_text(c),
        QueryFault::UnexpectedToken { expected, got } => e matches Error::UnexpectedToken {
            expected: x,
            got: y,
        } && x@ == expected && y@ == got,
        QueryFault::ExpectedPascalIdentifier { got } => e matches Error::ExpectedPascalIdentifier {
            got: y,
        } && y@ == got,
        QueryFault::ExpectedLowercaseIdentifier { got } =>
            e matches Error::ExpectedLowercaseIdentifier { got: y } && y@ == got,
        QueryFault::ExpectedPatternField { got } => e matches Error::ExpectedPatternField {
            got: y,
        } && y@ == got,
        QueryFault::UnknownQueryKind { kind_name } => e matches Error::UnknownQueryKind {
            kind_name: y,
        } && y@ == kind_name,
        QueryFault::UnknownRelationKindVariant { expected_variants, got } =>
            e matches Error::UnknownRelationKindVariant { expected_variants: x, got: y } && x@
                == expected_variants && y@ == got,
        QueryFault::WrongBindName { expected_field_name, got_bind_name } =>
            e matches Error::WrongBindName { expected_field_name: x, got_bind_name: y } && x@
                == expected_field_name && y@ == got_bind_name,
        QueryFault::TrailingTokens { got } => e matches Error::TrailingTokens { got: y } && y@
            == got,
    }
}

/// The next token of the piped surface, with lexer failures wrapped.
pub open spec fn q_next(s: Seq<char>, i: nat) -> Result<Option<(Lexeme, nat)>, QueryFault> {
    match lex_at(LexMode::Nexus, s, i) {
        Err(f) => Err(QueryFault::Lex(f)),
        Ok(x) => Ok(x),
    }
}

/// The token `want` (written `want_text` in errors).
pub open spec fn expect_at(s: Seq<char>, i: nat, want: Lexeme) -> Result<nat, QueryFault> {
    match q_next(s, i) {
        Err(f) => Err(f),
        Ok(None) => Err(
            QueryFault::UnexpectedToken { expected: token_text(want), got: "end of input"@ },
        ),
        Ok(Some((t, e))) => if t == want {
            Ok(e)
        } else {
            Err(QueryFault::UnexpectedToken { expected: token_text(want), got: token_text(t) })
        },
    }
}

/// The optional token that a lexer step read.
pub open spec fn step_token(x: Option<(Lexeme, nat)>) -> Option<Lexeme> {
    match x {
        Some((t, _)) => Some(t),
        None => None,
    }
}

/// A PascalCase identifier: the query kind's head.
pub open spec fn pascal_at(s: Seq<char>, i: nat) -> Result<(Seq<char>, nat), QueryFault> {
    match q_next(s, i) {
        Err(f) => Err(f),
        Ok(Some((Lexeme::Ident(t), e))) => if is_pascal_case(t) {
            Ok((t, e))
        } else {
            Err(QueryFault::ExpectedPascalIdentifier { got: "Ident("@ + quoted(t) + ")"@ })
        },
        Ok(x) => Err(QueryFault::ExpectedPascalIdentifier { got: opt_token_text(step_token(x)) }),
    }
}

/// A lowercase identifier: a bind name.
pub open spec fn lowercase_at(s: Seq<char>, i: nat) -> Result<(Seq<char>, nat), QueryFault> {
    match q_next(s, i) {
        Err(f) => Err(f),
        Ok(Some((Lexeme::Ident(t), e))) => if is_lowercase_identifier(t) {
            Ok((t, e))
        } else {
            Err(QueryFault::ExpectedLowercaseIdentifier { got: "Ident("@ + quoted(t) + ")"@ })
        },
        Ok(x) => Err(
            QueryFault::ExpectedLowercaseIdentifier { got: opt_token_text(step_token(x)) },
        ),
    }
}

/// The bind name after `@`, which must be the field's own name.
pub open spec fn bind_at(s: Seq<char>, i: nat, field: Seq<char>) -> Result<nat, QueryFault> {
    match lowercase_at(s, i) {
        Err(f) => Err(f),
        Ok((name, e)) => if name == field {
            Ok(e)
        } else {
            Err(QueryFault::WrongBindName { expected_field_name: field, got_bind_name: name })
        },
    }
}

/// A string pattern field named `field`.
pub open spec fn string_pattern_at(s: Seq<char>, i: nat, field: Seq<char>) -> Result<
    (PatternField<Seq<char>>, nat),
    QueryFault,
> {
    match q_next(s, i) {
        Err(f) => Err(f),
        Ok(Some((Lexeme::Ident(t), e))) => if t == seq!['_'] {
            Ok((PatternField::Wildcard, e))
        } else {
            Ok((PatternField::Match(t), e))
        },
        Ok(Some((Lexeme::At, e))) => match bind_at(s, e, field) {
            Err(f) => Err(f),
            Ok(e2) => Ok((PatternField::Bind, e2)),
        },
        Ok(Some((Lexeme::Str(t), e))) => Ok((PatternField::Match(t), e)),
        Ok(x) => Err(QueryFault::ExpectedPatternField { got: opt_token_text(step_token(x)) }),
    }
}

/// A slot pattern field named `field`. An integer match is taken modulo
/// 2^64.
pub open spec fn slot_pattern_at(s: Seq<char>, i: nat, field: Seq<char>) -> Result<
    (PatternField<Slot>, nat),
    QueryFault,
> {
    match q_next(s, i) {
        Err(f) => Err(f),
        Ok(Some((Lexeme::Ident(t), e))) if t == seq!['_'] => Ok((PatternField::Wildcard, e)),
        Ok(Some((Lexeme::At, e))) => match bind_at(s, e, field) {
            Err(f) => Err(f),
            Ok(e2) => Ok((PatternField::Bind, e2)),
        },
        Ok(Some((Lexeme::Int(v), e))) if v >= 0 => Ok((PatternField::Match(Slot(v as u64)), e)),
        Ok(Some((Lexeme::UInt(v), e))) => Ok((PatternField::Match(Slot(v as u64)), e)),
        Ok(x) => Err(QueryFault::ExpectedPatternField { got: opt_token_text(step_token(x)) }),
    }
}

/// The variant names of [`RelationKind`] joined by `|`.
pub open spec fn bar_joined(items: Seq<Seq<char>>) -> Seq<char>
    decreases items.len(),
{
    if items.len() == 0 {
        Seq::empty()
    } else if items.len() == 1 {
        items[0]
    } else {
        bar_joined(items.drop_last()) + seq!['|'] + items.last()
    }
}

/// `Flow|DependsOn|...`: every relation kind name, in declaration order.
pub open spec fn relation_kind_choices() -> Seq<char> {
    bar_joined(all_relation_kinds().map_values(|k: RelationKind| relation_kind_name(k)))
}

/// A relation kind pattern field named `field`.
pub open spec fn kind_pattern_at(s: Seq<char>, i: nat, field: Seq<char>) -> Result<
    (PatternField<RelationKind>, nat),
    QueryFault,
> {
    match q_next(s, i) {
        Err(f) => Err(f),
        Ok(Some((Lexeme::Ident(t), e))) => if t == seq!['_'] {
            Ok((PatternField::Wildcard, e))
        } else {
            match relation_kind_named(t) {
                Some(k) => Ok((PatternField::Match(k), e)),
                None => Err(
                    QueryFault::UnknownRelationKindVariant {
                        expected_variants: relation_kind_choices(),
                        got: t,
                    },
                ),
            }
        },
        Ok(Some((Lexeme::At, e))) => match bind_at(s, e, field) {
            Err(f) => Err(f),
            Ok(e2) => Ok((PatternField::Bind, e2)),
        },
        Ok(x) => Err(QueryFault::ExpectedPatternField { got: opt_token_text(step_token(x)) }),
    }
}

/// The fields of the query kind `kind`, read from `i`, then `|)`.
pub open spec fn query_body_at(s: Seq<char>, kind: Seq<char>, i: nat) -> Result<
    (QueryValue, nat),
    QueryFault,
> {
    if kind == "Node"@ {
        match string_pattern_at(s, i, "name"@) {
            Err(f) => Err(f),
            Ok((p, e)) => match expect_at(s, e, Lexeme::RParenPipe) {
                Err(f) => Err(f),
                Ok(e2) => Ok((QueryValue::Node(p), e2)),
            },
        }
    } else if kind == "Edge"@ {
        match slot_pattern_at(s, i, "from"@) {
            Err(f) => Err(f),
            Ok((from, e1)) => match slot_pattern_at(s, e1, "to"@) {
                Err(f) => Err(f),
                Ok((to, e2)) => match kind_pattern_at(s, e2, "kind"@) {
                    Err(f) => Err(f),
                    Ok((k, e3)) => match expect_at(s, e3, Lexeme::RParenPipe) {
                        Err(f) => Err(f),
                        Ok(e4) => Ok((QueryValue::Edge(from, to, k), e4)),
                    },
                },
            },
        }
    } else if kind == "Graph"@ {
        match string_pattern_at(s, i, "title"@) {
            Err(f) => Err(f),
            Ok((p, e)) => match expect_at(s, e, Lexeme::RParenPipe) {
                Err(f) => Err(f),
                Ok(e2) => Ok((QueryValue::Graph(p), e2)),
            },
        }
    } else if kind == "KindDecl"@ {
        match string_pattern_at(s, i, "name"@) {
            Err(f) => Err(f),
            Ok((p, e)) => match expect_at(s, e, Lexeme::RParenPipe) {
                Err(f) => Err(f),
                Ok(e2) => Ok((QueryValue::KindDecl(p), e2)),
            },
        }
    } else {
        Err(QueryFault::UnknownQueryKind { kind_name: kind })
    }
}

/// The query `(| Kind field... |)` that starts at `i`, and the position
/// just past it.
pub open spec fn query_at(s: Seq<char>, i: nat) -> Result<(QueryValue, nat), QueryFault> {
    match expect_at(s, i, Lexeme::LParenPipe) {
        Err(f) => Err(f),
        Ok(e1) => match pascal_at(s, e1) {
            Err(f) => Err(f),
            Ok((kind, e2)) => query_body_at(s, kind, e2),
        },
    }
}

/// The single query that `s` holds from `i`, with nothing after it.
pub open spec fn sole_query(s: Seq<char>, i: nat) -> Result<QueryValue, QueryFault> {
    match query_at(s, i) {
        Err(f) => Err(f),
        Ok((q, e)) => match q_next(s, e) {
            Err(f) => Err(f),
            Ok(None) => Ok(q),
            Ok(Some((t, _))) => Err(QueryFault::TrailingTokens { got: token_text(t) }),
        },
    }
}

/// Whether `res` is the outcome `spec`, read through `view`.
pub open spec fn outcome_is<T, V>(
    res: Result<T, Error>,
    spec: Result<V, QueryFault>,
    view: spec_fn(T) -> V,
) -> bool {
    match spec {
        Ok(v) => res matches Ok(x) && view(x) == v,
        Err(f) => res matches Err(e) && error_is(e, f),
    }
}

// ─── the parser ─────────────────────────────────────────────────

/// Parses nexus-text query expressions into typed [`QueryOp`] values.
///
/// - **One-shot**: `QueryParser::new(input).into_query()` parses a single
///   query and rejects any trailing content.
/// - **Streaming**: hold the parser and call `parse` repeatedly to pull
///   queries off a multi-expression input.
pub struct QueryParser {
    lexer: Lexer,
}

impl QueryParser {
    pub closed spec fn text(&self) -> Seq<char> {
        self.lexer.text()
    }

    pub closed spec fn position(&self) -> nat {
        self.lexer.position()
    }

    pub closed spec fn wf(&self) -> bool {
        self.lexer.wf() && self.lexer.lex_mode() == LexMode::Nexus
    }

    /// A parser over the given nexus-text input.
    pub fn new(input: &str) -> (p: QueryParser)
        ensures
            p.wf(),
            p.text() == input@,
            p.position() == 0,
    {
        QueryParser { lexer: Lexer::new(input, LexMode::Nexus) }
    }

    /// Consumes the parser and returns the single query the input holds.
    /// Anything after the closing `|)` is an error.
    pub fn into_query(self) -> (res: Result<QueryOp, Error>)
        requires
            self.wf(),
        ensures
            outcome_is(res, sole_query(self.text(), self.position()), |q: QueryOp| q@),
    {
        let mut parser = self;
        let query = parser.parse()?;
        match parser.next_token()? {
            Some(trailing) => {
                let got = token_description(&trailing);
                Err(Error::TrailingTokens { got })
            },
            None => Ok(query),
        }
    }

    /// Parses the next `(| Kind ... |)` query and leaves the parser just
    /// after its closing `|)`, ready for the next one.
    pub fn parse(&mut self) -> (res: Result<QueryOp, Error>)
        requires
            old(self).wf(),
        ensures
            final(self).wf(),
            final(self).text() == old(self).text(),
            outcome_is(
                res,
                query_at(old(self).text(), old(self).position()),
                |q: QueryOp| (q@, final(self).position()),
            ),
    {
        self.expect_token(&Token::LParenPipe)?;
        let kind_name = self.expect_pascal_identifier()?;
        let query = if text_eq(kind_name.as_str(), "Node") {
            QueryOp::Node(NodeQuery { name: self.parse_pattern_field_string("name")? })
        } else if text_eq(kind_name.as_str(), "Edge") {
            let from = self.parse_pattern_field_slot("from")?;
            let to = self.parse_pattern_field_slot("to")?;
            let kind = self.parse_pattern_field_relation_kind("kind")?;
            QueryOp::Edge(EdgeQuery { from, to, kind })
        } else if text_eq(kind_name.as_str(), "Graph") {
            QueryOp::Graph(GraphQuery { title: self.parse_pattern_field_string("title")? })
        } else if text_eq(kind_name.as_str(), "KindDecl") {
            QueryOp::KindDecl(KindDeclQuery { name: self.parse_pattern_field_string("name")? })
        } else {
            return Err(Error::UnknownQueryKind { kind_name });
        };
        self.expect_token(&Token::RParenPipe)?;
        Ok(query)
    }

    /// A `PatternField<String>`: `_`, `@<field>`, a bare identifier or a
    /// quoted string.
    fn parse_pattern_field_string(&mut self, expected_field_name: &str) -> (res: Result<
        PatternField<String>,
        Error,
    >)
        requires
            old(self).wf(),
        ensures
            final(self).wf(),
            final(self).text() == old(self).text(),
            outcome_is(
                res,
                string_pattern_at(old(self).text(), old(self).position(), expected_field_name@),
                |p: PatternField<String>| (crate::model::string_pattern_view(p), final(self).position()),
            ),
    {
        match self.next_token()? {
            Some(Token::Ident(text)) => {
                proof {
                    reveal_strlit("_");
                    assert("_"@ =~= seq!['_']);
                }
                if text_eq(text.as_str(), "_") {
                    Ok(PatternField::Wildcard)
                } else {
                    Ok(PatternField::Match(text))
                }
            },
            Some(Token::At) => {
                self.parse_bind(expected_field_name)?;
                Ok(PatternField::Bind)
            },
            Some(Token::Str(text)) => Ok(PatternField::Match(text)),
            other => {
                let got = describe_opt_token(&other);
                Err(Error::ExpectedPatternField { got })
            },
        }
    }

    /// A `PatternField<Slot>`: `_`, `@<field>` or an integer, taken modulo
    /// 2^64.
    fn parse_pattern_field_slot(&mut self, expected_field_name: &str) -> (res: Result<
        PatternField<Slot>,
        Error,
    >)
        requires
            old(self).wf(),
        ensures
            final(self).wf(),
            final(self).text() == old(self).text(),
            outcome_is(
                res,
                slot_pattern_at(old(self).text(), old(self).position(), expected_field_name@),
                |p: PatternField<Slot>| (p, final(self).position()),
            ),
    {
        proof {
            reveal_strlit("_");
            assert("_"@ =~= seq!['_']);
        }
        match self.next_token()? {
            Some(Token::Ident(text)) => {
                if text_eq(text.as_str(), "_") {
                    Ok(PatternField::Wildcard)
                } else {
                    let got = describe_opt_token(&Some(Token::Ident(text)));
                    Err(Error::ExpectedPatternField { got })
                }
            },
            Some(Token::At) => {
                self.parse_bind(expected_field_name)?;
                Ok(PatternField::Bind)
            },
            Some(Token::Int(value)) => {
                if value >= 0 {
                    Ok(PatternField::Match(Slot(#[verifier::truncate] (value as u64))))
                } else {
                    let got = describe_opt_token(&Some(Token::Int(value)));
                    Err(Error::ExpectedPatternField { got })
                }
            },
            Some(Token::UInt(value)) => Ok(
                PatternField::Match(Slot(#[verifier::truncate] (value as u64))),
            ),
            other => {
                let got = describe_opt_token(&other);
                Err(Error::ExpectedPatternField { got })
            },
        }
    }

    /// A `PatternField<RelationKind>`: `_`, `@<field>` or a bare variant
    /// name.
    fn parse_pattern_field_relation_kind(&mut self, expected_field_name: &str) -> (res: Result<
        PatternField<RelationKind>,
        Error,
    >)
        requires
            old(self).wf(),
        ensures
            final(self).wf(),
            final(self).text() == old(self).text(),
            outcome_is(
                res,
                kind_pattern_at(old(self).text(), old(self).position(), expected_field_name@),
                |p: PatternField<RelationKind>| (p, final(self).position()),
            ),
    {
        proof {
            reveal_strlit("_");
            assert("_"@ =~= seq!['_']);
        }
        match self.next_token()? {
            Some(Token::Ident(variant_name)) => {
                if text_eq(variant_name.as_str(), "_") {
                    Ok(PatternField::Wildcard)
                } else {
                    match RelationKind::from_variant_name(variant_name.as_str()) {
                        Some(variant) => Ok(PatternField::Match(variant)),
                        None => Err(
                            Error::UnknownRelationKindVariant {
                                expected_variants: relation_kind_choices_text(),
                                got: variant_name,
                            },
                        ),
                    }
                }
            },
            Some(Token::At) => {
                self.parse_bind(expected_field_name)?;
                Ok(PatternField::Bind)
            },
            other => {
                let got = describe_opt_token(&other);
                Err(Error::ExpectedPatternField { got })
            },
        }
    }

    /// The bind name after `@`, checked against the field's name.
    fn parse_bind(&mut self, expected_field_name: &str) -> (res: Result<(), Error>)
        requires
            old(self).wf(),
        ensures
            final(self).wf(),
            final(self).text() == old(self).text(),
            outcome_is(
                res,
                bind_at(old(self).text(), old(self).position(), expected_field_name@),
                |u: ()| final(self).position(),
            ),
    {
        let bind_name = self.expect_lowercase_identifier()?;
        check_bind_name(bind_name.as_str(), expected_field_name)
    }

    fn next_token(&mut self) -> (res: Result<Option<Token>, Error>)
        requires
            old(self).wf(),
        ensures
            final(self).wf(),
            final(self).text() == old(self).text(),
            outcome_is(
                res,
                q_next(old(self).text(), old(self).position()),
                |t: Option<Token>|
                    match t {
                        Some(x) => Some((x@, final(self).position())),
                        None => None,
                    },
            ),
    {
        match self.lexer.next_token() {
            Ok(t) => Ok(t),
            Err(e) => Err(Error::Lex(describe_codec_error(&e))),
        }
    }

    fn expect_token(&mut self, expected: &Token) -> (res: Result<(), Error>)
        requires
            old(self).wf(),
            *expected == Token::LParenPipe || *expected == Token::RParenPipe,
        ensures
            final(self).wf(),
            final(self).text() == old(self).text(),
            outcome_is(
                res,
                expect_at(old(self).text(), old(self).position(), expected@),
                |u: ()| final(self).position(),
            ),
    {
        let token = self.next_token()?;
        match token {
            Some(Token::LParenPipe) if matches!(expected, Token::LParenPipe) => Ok(()),
            Some(Token::RParenPipe) if matches!(expected, Token::RParenPipe) => Ok(()),
            Some(other) => Err(
                Error::UnexpectedToken {
                    expected: token_description(expected),
                    got: token_description(&other),
                },
            ),
            None => Err(
                Error::UnexpectedToken {
                    expected: token_description(expected),
                    got: String::from_str("end of input"),
                },
            ),
        }
    }

    fn expect_pascal_identifier(&mut self) -> (res: Result<String, Error>)
        requires
            old(self).wf(),
        ensures
            final(self).wf(),
            final(self).text() == old(self).text(),
            outcome_is(
                res,
                pascal_at(old(self).text(), old(self).position()),
                |t: String| (t@, final(self).position()),
            ),
    {
        match self.next_token()? {
            Some(Token::Ident(text)) => {
                if !pascal_case(text.as_str()) {
                    return Err(Error::ExpectedPascalIdentifier { got: ident_description(&text) });
                }
                Ok(text)
            },
            other => {
                let got = describe_opt_token(&other);
                Err(Error::ExpectedPascalIdentifier { got })
            },
        }
    }

    fn expect_lowercase_identifier(&mut self) -> (res: Result<String, Error>)
        requires
            old(self).wf(),
        ensures
            final(self).wf(),
            final(self).text() == old(self).text(),
            outcome_is(
                res,
                lowercase_at(old(self).text(), old(self).position()),
                |t: String| (t@, final(self).position()),
            ),
    {
        match self.next_token()? {
            Some(Token::Ident(text)) => {
                if !lowercase_identifier(text.as_str()) {
                    return Err(
                        Error::ExpectedLowercaseIdentifier { got: ident_description(&text) },
                    );
                }
                Ok(text)
            },
            other => {
                let got = describe_opt_token(&other);
                Err(Error::ExpectedLowercaseIdentifier { got })
            },
        }
    }
}

/// `Ok` when the bind name is the expected field name, else
/// `WrongBindName`.
pub fn check_bind_name(got: &str, expected_field_name: &str) -> (res: Result<(), Error>)
    ensures
        got@ == expected_field_name@ ==> res is Ok,
        got@ != expected_field_name@ ==> (res matches Err(Error::WrongBindName {
            expected_field_name: x,
            got_bind_name: y,
        }) && x@ == expected_field_name@ && y@ == got@),
{
    if text_eq(got, expected_field_name) {
        Ok(())
    } else {
        Err(
            Error::WrongBindName {
                expected_field_name: String::from_str(expected_field_name),
                got_bind_name: String::from_str(got),
            },
        )
    }
}

/// The debugging description of a token, as a new string.
fn token_description(t: &Token) -> (s: String)
    ensures
        s@ == token_text(t@),
{
    let mut out = String::new();
    crate::error::push_token(&mut out, t);
    assert(out@ =~= token_text(t@));
    out
}

/// `Ident("<text>")`.
fn ident_description(text: &String) -> (s: String)
    ensures
        s@ == "Ident("@ + quoted(text@) + ")"@,
{
    let mut out = String::new();
    out.append("Ident(");
    crate::encode::push_quoted(&mut out, text.as_str());
    out.append(")");
    assert(out@ =~= "Ident("@ + quoted(text@) + ")"@);
    out
}

/// Every relation kind name, joined by `|`.
fn relation_kind_choices_text() -> (s: String)
    ensures
        s@ == relation_kind_choices(),
{
    let kinds = RelationKind::all();
    let ghost names = kinds@.map_values(|k: RelationKind| relation_kind_name(k));
    let mut out = String::new();
    let mut i: usize = 0;
    while i < kinds.len()
        invariant
            i <= kinds.len(),
            kinds@ == all_relation_kinds(),
            names == kinds@.map_values(|k: RelationKind| relation_kind_name(k)),
            out@ == bar_joined(names.take(i as int)),
        decreases kinds.len() - i,
    {
        proof {
            assert(names.take(i + 1).drop_last() =~= names.take(i as int));
        }
        if i > 0 {
            out.push('|');
        }
        out.append(kinds[i].variant_name());
        i = i + 1;
        proof {
            assert(out@ =~= bar_joined(names.take(i as int)));
        }
    }
    assert(names.take(kinds.len() as int) =~= names);
    out
}

} // verus!
