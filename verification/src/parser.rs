//! `Parser` — nexus text → [`Request`].
//!
//! This is the compatibility parser: it accepts the Assert surface, one
//! top-level data record per request — `(Node <name>)`,
//! `(Edge <from> <to> <RelationKind>)` or `(Graph <title>)` — and answers
//! each with `Request::Assert`. Retired sigils (`~ ! ? *`) and piped
//! delimiters are not part of the grammar and are refused by the lexer.
//!
//! `Request::Handshake` never appears in user-facing text: the daemon
//! performs the handshake with criome itself.
use vstd::prelude::*;
use crate::error::Error;
use crate::lexer::Lexer;
use crate::model::{
    relation_kind_named, AssertOperation, AssertValue, Edge, Graph, Node, RelationKind, Request,
    Slot,
};
use crate::text::{lemma_lex_advances, lex_at, CodecError, CodecFault, LexMode, Lexeme, Token};

verus! {

// ─── what the decoder reads ─────────────────────────────────────

/// A string field: a quoted string or a bare identifier.
pub open spec fn string_field_at(s: Seq<char>, i: nat) -> Result<(Seq<char>, nat), CodecFault> {
    match lex_at(LexMode::Nota, s, i) {
        Err(f) => Err(f),
        Ok(None) => Err(CodecFault::UnexpectedEnd { expected: "a string"@ }),
        Ok(Some((Lexeme::Str(x), e))) => Ok((x, e)),
        Ok(Some((Lexeme::Ident(x), e))) => Ok((x, e)),
        Ok(Some((t, _))) => Err(CodecFault::UnexpectedToken { expected: "a string"@, got: t }),
    }
}

/// A slot field: an unsigned integer that fits in 64 bits.
pub open spec fn slot_field_at(s: Seq<char>, i: nat) -> Result<(Slot, nat), CodecFault> {
    match lex_at(LexMode::Nota, s, i) {
        Err(f) => Err(f),
        Ok(None) => Err(CodecFault::UnexpectedEnd { expected: "a slot number"@ }),
        Ok(Some((Lexeme::UInt(v), e))) => if v <= u64::MAX {
            Ok((Slot(v as u64), e))
        } else {
            Err(CodecFault::IntegerOutOfRange { field: "Slot"@ })
        },
        Ok(Some((t, _))) => Err(
            CodecFault::UnexpectedToken { expected: "a slot number"@, got: t },
        ),
    }
}

/// A relation kind field: the bare name of one of its variants.
pub open spec fn relation_kind_field_at(s: Seq<char>, i: nat) -> Result<
    (RelationKind, nat),
    CodecFault,
> {
    match lex_at(LexMode::Nota, s, i) {
        Err(f) => Err(f),
        Ok(None) => Err(CodecFault::UnexpectedEnd { expected: "a RelationKind variant"@ }),
        Ok(Some((Lexeme::Ident(x), e))) => match relation_kind_named(x) {
            Some(k) => Ok((k, e)),
            None => Err(CodecFault::UnknownVariant { enum_name: "RelationKind"@, head: x }),
        },
        Ok(Some((t, _))) => Err(
            CodecFault::UnexpectedToken { expected: "a RelationKind variant"@, got: t },
        ),
    }
}

/// The head identifier of a record.
pub open spec fn head_at(s: Seq<char>, i: nat) -> Result<(Seq<char>, nat), CodecFault> {
    match lex_at(LexMode::Nota, s, i) {
        Err(f) => Err(f),
        Ok(None) => Err(CodecFault::UnexpectedEnd { expected: "a record head"@ }),
        Ok(Some((Lexeme::Ident(x), e))) => Ok((x, e)),
        Ok(Some((t, _))) => Err(CodecFault::UnexpectedToken { expected: "a record head"@, got: t }),
    }
}

/// The `)` that closes a record.
pub open spec fn close_at(s: Seq<char>, i: nat) -> Result<nat, CodecFault> {
    match lex_at(LexMode::Nota, s, i) {
        Err(f) => Err(f),
        Ok(None) => Err(CodecFault::UnexpectedEnd { expected: "`)`"@ }),
        Ok(Some((Lexeme::RParen, e))) => Ok(e),
        Ok(Some((t, _))) => Err(CodecFault::UnexpectedToken { expected: "`)`"@, got: t }),
    }
}

/// The rest of an assert record after its `(`: head, fields and `)`.
pub open spec fn assert_record_at(s: Seq<char>, i: nat) -> Result<(AssertValue, nat), CodecFault> {
    match head_at(s, i) {
        Err(f) => Err(f),
        Ok((h, e1)) => if h == "Node"@ {
            match string_field_at(s, e1) {
                Err(f) => Err(f),
                Ok((name, e2)) => match close_at(s, e2) {
                    Err(f) => Err(f),
                    Ok(e3) => Ok((AssertValue::Node(name), e3)),
                },
            }
        } else if h == "Edge"@ {
            match slot_field_at(s, e1) {
                Err(f) => Err(f),
                Ok((from, e2)) => match slot_field_at(s, e2) {
                    Err(f) => Err(f),
                    Ok((to, e3)) => match relation_kind_field_at(s, e3) {
                        Err(f) => Err(f),
                        Ok((kind, e4)) => match close_at(s, e4) {
                            Err(f) => Err(f),
                            Ok(e5) => Ok((AssertValue::Edge(from, to, kind), e5)),
                        },
                    },
                },
            }
        } else if h == "Graph"@ {
            match string_field_at(s, e1) {
                Err(f) => Err(f),
                Ok((title, e2)) => match close_at(s, e2) {
                    Err(f) => Err(f),
                    Ok(e3) => Ok((AssertValue::Graph(title), e3)),
                },
            }
        } else {
            Err(CodecFault::UnknownVariant { enum_name: "AssertOperation"@, head: h })
        },
    }
}

/// The next request in `s` from `i`: `None` at the end of the input, else
/// the assert record and the position just past it.
pub open spec fn request_at(s: Seq<char>, i: nat) -> Result<Option<(AssertValue, nat)>, CodecFault> {
    match lex_at(LexMode::Nota, s, i) {
        Err(f) => Err(f),
        Ok(None) => Ok(None),
        Ok(Some((Lexeme::LParen, e))) => match assert_record_at(s, e) {
            Err(f) => Err(f),
            Ok((v, end)) => Ok(Some((v, end))),
        },
        Ok(Some((t, _))) => Err(
            CodecFault::UnexpectedToken {
                expected: "`(` opening the current compatibility Assert record"@,
                got: t,
            },
        ),
    }
}

/// Whether `res`, with the parser left at `new_pos`, is the outcome that
/// [`request_at`] gives.
pub open spec fn request_matches(
    res: Result<Option<Request>, Error>,
    spec: Result<Option<(AssertValue, nat)>, CodecFault>,
    new_pos: nat,
) -> bool {
    match spec {
        Ok(None) => res matches Ok(None),
        Ok(Some((v, end))) => res matches Ok(Some(Request::Assert(op))) && op@ == v && new_pos
            == end,
        Err(f) => res matches Err(Error::Codec(e)) && e@ == f,
    }
}

/// Reads successive requests from a text.
pub struct Parser {
    lexer: Lexer,
}

impl Parser {
    pub closed spec fn text(&self) -> Seq<char> {
        self.lexer.text()
    }

    pub closed spec fn position(&self) -> nat {
        self.lexer.position()
    }

    pub closed spec fn wf(&self) -> bool {
        self.lexer.wf() && self.lexer.lex_mode() == LexMode::Nota
    }

    pub proof fn lemma_position_in_text(&self)
        requires
            self.wf(),
        ensures
            self.position() <= self.text().len(),
    {
        self.lexer.lemma_position_in_text();
    }

    /// A parser at the start of `input`.
    pub fn new(input: &str) -> (p: Parser)
        ensures
            p.wf(),
            p.text() == input@,
            p.position() == 0,
    {
        Parser { lexer: Lexer::new(input, LexMode::Nota) }
    }

    /// Reads the next top-level request, or `None` at the end of the input.
    /// An error leaves the parser mid-stream: the caller stops on the first
    /// error, since reply positions would otherwise lose sync with the
    /// surviving requests.
    pub fn next_request(&mut self) -> (res: Result<Option<Request>, Error>)
        requires
            old(self).wf(),
        ensures
            final(self).wf(),
            final(self).text() == old(self).text(),
            request_matches(res, request_at(old(self).text(), old(self).position()), final(self).position()),
    {
        match self.lexer.next_token() {
            Err(e) => Err(Error::Codec(e)),
            Ok(None) => Ok(None),
            Ok(Some(Token::LParen)) => match self.assert_record() {
                Ok(op) => Ok(Some(Request::Assert(op))),
                Err(e) => Err(Error::Codec(e)),
            },
            Ok(Some(other)) => Err(
                Error::Codec(
                    CodecError::UnexpectedToken {
                        expected: "`(` opening the current compatibility Assert record",
                        got: other,
                    },
                ),
            ),
        }
    }

    fn assert_record(&mut self) -> (res: Result<AssertOperation, CodecError>)
        requires
            old(self).wf(),
        ensures
            final(self).wf(),
            final(self).text() == old(self).text(),
            match assert_record_at(old(self).text(), old(self).position()) {
                Ok((v, end)) => res matches Ok(op) && op@ == v && final(self).position() == end,
                Err(f) => res matches Err(e) && e@ == f,
            },
    {
        let head = self.head()?;
        if crate::lexer::text_eq(head.as_str(), "Node") {
            let name = self.string_field()?;
            self.close()?;
            Ok(AssertOperation::Node(Node { name }))
        } else if crate::lexer::text_eq(head.as_str(), "Edge") {
            let from = self.slot_field()?;
            let to = self.slot_field()?;
            let kind = self.relation_kind_field()?;
            self.close()?;
            Ok(AssertOperation::Edge(Edge { from, to, kind }))
        } else if crate::lexer::text_eq(head.as_str(), "Graph") {
            let title = self.string_field()?;
            self.close()?;
            Ok(AssertOperation::Graph(Graph { title }))
        } else {
            Err(CodecError::UnknownVariant { enum_name: "AssertOperation", head })
        }
    }

    fn head(&mut self) -> (res: Result<String, CodecError>)
        requires
            old(self).wf(),
        ensures
            final(self).wf(),
            final(self).text() == old(self).text(),
            match head_at(old(self).text(), old(self).position()) {
                Ok((h, end)) => res matches Ok(x) && x@ == h && final(self).position() == end,
                Err(f) => res matches Err(e) && e@ == f,
            },
    {
        match self.lexer.next_token()? {
            None => Err(CodecError::UnexpectedEnd { expected: "a record head" }),
            Some(Token::Ident(x)) => Ok(x),
            Some(t) => Err(CodecError::UnexpectedToken { expected: "a record head", got: t }),
        }
    }

    fn close(&mut self) -> (res: Result<(), CodecError>)
        requires
            old(self).wf(),
        ensures
            final(self).wf(),
            final(self).text() == old(self).text(),
            match close_at(old(self).text(), old(self).position()) {
                Ok(end) => res is Ok && final(self).position() == end,
                Err(f) => res matches Err(e) && e@ == f,
            },
    {
        match self.lexer.next_token()? {
            None => Err(CodecError::UnexpectedEnd { expected: "`)`" }),
            Some(Token::RParen) => Ok(()),
            Some(t) => Err(CodecError::UnexpectedToken { expected: "`)`", got: t }),
        }
    }

    fn string_field(&mut self) -> (res: Result<String, CodecError>)
        requires
            old(self).wf(),
        ensures
            final(self).wf(),
            final(self).text() == old(self).text(),
            match string_field_at(old(self).text(), old(self).position()) {
                Ok((x, end)) => res matches Ok(v) && v@ == x && final(self).position() == end,
                Err(f) => res matches Err(e) && e@ == f,
            },
    {
        match self.lexer.next_token()? {
            None => Err(CodecError::UnexpectedEnd { expected: "a string" }),
            Some(Token::Str(x)) => Ok(x),
            Some(Token::Ident(x)) => Ok(x),
            Some(t) => Err(CodecError::UnexpectedToken { expected: "a string", got: t }),
        }
    }

    fn slot_field(&mut self) -> (res: Result<Slot, CodecError>)
        requires
            old(self).wf(),
        ensures
            final(self).wf(),
            final(self).text() == old(self).text(),
            match slot_field_at(old(self).text(), old(self).position()) {
                Ok((x, end)) => res == Result::<Slot, CodecError>::Ok(x) && final(self).position()
                    == end,
                Err(f) => res matches Err(e) && e@ == f,
            },
    {
        match self.lexer.next_token()? {
            None => Err(CodecError::UnexpectedEnd { expected: "a slot number" }),
            Some(Token::UInt(v)) => {
                if v <= u64::MAX as u128 {
                    Ok(Slot(v as u64))
                } else {
                    Err(CodecError::IntegerOutOfRange { field: "Slot" })
                }
            },
            Some(t) => Err(CodecError::UnexpectedToken { expected: "a slot number", got: t }),
        }
    }

    fn relation_kind_field(&mut self) -> (res: Result<RelationKind, CodecError>)
        requires
            old(self).wf(),
        ensures
            final(self).wf(),
            final(self).text() == old(self).text(),
            match relation_kind_field_at(old(self).text(), old(self).position()) {
                Ok((k, end)) => res == Result::<RelationKind, CodecError>::Ok(k)
                    && final(self).position() == end,
                Err(f) => res matches Err(e) && e@ == f,
            },
    {
        match self.lexer.next_token()? {
            None => Err(CodecError::UnexpectedEnd { expected: "a RelationKind variant" }),
            Some(Token::Ident(x)) => match RelationKind::from_variant_name(x.as_str()) {
                Some(k) => Ok(k),
                None => Err(CodecError::UnknownVariant { enum_name: "RelationKind", head: x }),
            },
            Some(t) => Err(CodecError::UnexpectedToken { expected: "a RelationKind variant", got: t }),
        }
    }
}

/// A request read from `i` ends after `i`, within the text.
pub proof fn lemma_request_advances(s: Seq<char>, i: nat)
    requires
        i <= s.len(),
    ensures
        request_at(s, i) matches Ok(Some((_, e))) ==> i < e <= s.len(),
{
    lemma_lex_advances(LexMode::Nota, s, i);
    if let Ok(Some((Lexeme::LParen, e0))) = lex_at(LexMode::Nota, s, i) {
        lemma_lex_advances(LexMode::Nota, s, e0);
        if let Ok((h, e1)) = head_at(s, e0) {
            lemma_lex_advances(LexMode::Nota, s, e1);
            if let Ok((_, e2)) = string_field_at(s, e1) {
                lemma_lex_advances(LexMode::Nota, s, e2);
            }
            if let Ok((_, e2)) = slot_field_at(s, e1) {
                lemma_lex_advances(LexMode::Nota, s, e2);
                if let Ok((_, e3)) = slot_field_at(s, e2) {
                    lemma_lex_advances(LexMode::Nota, s, e3);
                    if let Ok((_, e4)) = relation_kind_field_at(s, e3) {
                        lemma_lex_advances(LexMode::Nota, s, e4);
                    }
                }
            }
        }
    }
}

} // verus!
