//! Daemon-side errors, their human-readable text, and the diagnostic code
//! each one is reported under.
use vstd::prelude::*;
use crate::encode::{
    decimal, push_decimal, push_quoted, push_signed_decimal, quoted, signed_decimal,
};
use crate::model::HandshakeRejectionReason;
use crate::text::{CodecError, CodecFault, Lexeme, Token};

verus! {

/// Why a frame received from criome could not be decoded.
#[derive(Clone, Copy, Debug, PartialEq, Eq, Structural)]
pub enum FrameDecodeError {
    BadArchive,
    TrailingBytes,
}

/// Every failure the daemon reports.
#[allow(inconsistent_fields)]
#[derive(Clone, Debug, PartialEq, Eq)]
pub enum Error {
    /// An i/o failure, with the operating system's description.
    Io(String),
    Codec(CodecError),
    Frame(FrameDecodeError),
    FrameTooLarge { length: usize },
    HandshakeRejected { reason: HandshakeRejectionReason },
    HandshakePostReplyShape { got: &'static str },
    VerbNotInM0Scope { verb: &'static str },
    /// An actor message failed (timeout, sender dropped, actor stopped).
    ActorCall(String),
    /// Actor startup failed during daemon startup.
    ActorSpawn(String),
    /// The piped query lexer failed; carries the lexer's description.
    Lex(String),
    UnexpectedToken { expected: String, got: String },
    ExpectedPascalIdentifier { got: String },
    ExpectedLowercaseIdentifier { got: String },
    ExpectedPatternField { got: String },
    UnknownQueryKind { kind_name: String },
    UnknownRelationKindVariant { expected_variants: String, got: String },
    WrongBindName { expected_field_name: String, got_bind_name: String },
    TrailingTokens { got: String },
}

pub type Result<T> = core::result::Result<T, Error>;

// ─── token descriptions ─────────────────────────────────────────

/// The debugging description of a token.
pub open spec fn token_text(t: Lexeme) -> Seq<char> {
    match t {
        Lexeme::LParen => "LParen"@,
        Lexeme::RParen => "RParen"@,
        Lexeme::LBracket => "LBracket"@,
        Lexeme::RBracket => "RBracket"@,
        Lexeme::LParenPipe => "LParenPipe"@,
        Lexeme::RParenPipe => "RParenPipe"@,
        Lexeme::At => "At"@,
        Lexeme::Colon => "Colon"@,
        Lexeme::Ident(s) => "Ident("@ + quoted(s) + ")"@,
        Lexeme::Int(v) => "Int("@ + signed_decimal(v) + ")"@,
        Lexeme::UInt(v) => "UInt("@ + decimal(v as nat) + ")"@,
        Lexeme::Str(s) => "Str("@ + quoted(s) + ")"@,
    }
}

/// The debugging description of an optional token.
pub open spec fn opt_token_text(t: Option<Lexeme>) -> Seq<char> {
    match t {
        Some(t) => "Some("@ + token_text(t) + ")"@,
        None => "None"@,
    }
}

pub fn push_token(out: &mut String, t: &Token)
    ensures
        final(out)@ == old(out)@ + token_text(t@),
{
    match t {
        Token::LParen => out.append("LParen"),
        Token::RParen => out.append("RParen"),
        Token::LBracket => out.append("LBracket"),
        Token::RBracket => out.append("RBracket"),
        Token::LParenPipe => out.append("LParenPipe"),
        Token::RParenPipe => out.append("RParenPipe"),
        Token::At => out.append("At"),
        Token::Colon => out.append("Colon"),
        Token::Ident(s) => {
            out.append("Ident(");
            push_quoted(out, s.as_str());
            out.append(")");
        },
        Token::Int(v) => {
            out.append("Int(");
            push_signed_decimal(out, *v);
            out.append(")");
        },
        Token::UInt(v) => {
            out.append("UInt(");
            push_decimal(out, *v);
            out.append(")");
        },
        Token::Str(s) => {
            out.append("Str(");
            push_quoted(out, s.as_str());
            out.append(")");
        },
    }
    assert(final(out)@ =~= old(out)@ + token_text(t@));
}

/// The debugging description of an optional token, as a new string.
pub fn describe_opt_token(t: &Option<Token>) -> (s: String)
    ensures
        s@ == opt_token_text(
            match t {
                Some(x) => Some(x@),
                None => None,
            },
        ),
{
    let mut out = String::new();
    match t {
        Some(tok) => {
            out.append("Some(");
            push_token(&mut out, tok);
            out.append(")");
        },
        None => out.append("None"),
    }
    assert(out@ =~= opt_token_text(
        match t {
            Some(x) => Some(x@),
            None => None,
        },
    ));
    out
}

// ─── codec errors ───────────────────────────────────────────────

/// The human-readable text of a codec error.
pub open spec fn codec_error_text(e: CodecFault) -> Seq<char> {
    match e {
        CodecFault::UnexpectedChar { character, offset } => "unexpected character `"@ + seq![
            character,
        ] + "` at offset "@ + decimal(offset),
        CodecFault::ReservedComparisonToken { token, offset } => "reserved comparison token `"@
            + seq![token] + "` at offset "@ + decimal(offset),
        CodecFault::UnterminatedString { offset } => "unterminated string starting at offset "@
            + decimal(offset),
        CodecFault::InvalidEscape { character, offset } => "invalid escape `\\"@ + seq![character]
            + "` at offset "@ + decimal(offset),
        CodecFault::IntegerOverflow { offset } => "integer literal at offset "@ + decimal(offset)
            + " does not fit"@,
        CodecFault::UnexpectedToken { expected, got } => "expected "@ + expected + ", got "@
            + token_text(got),
        CodecFault::UnexpectedEnd { expected } => "expected "@ + expected + ", got end of input"@,
        CodecFault::UnknownVariant { enum_name, head } => "unknown "@ + enum_name + " variant `"@
            + head + "`"@,
        CodecFault::IntegerOutOfRange { field } => "integer out of range for "@ + field,
    }
}

pub fn push_codec_error(out: &mut String, e: &CodecError)
    ensures
        final(out)@ == old(out)@ + codec_error_text(e@),
{
    match e {
        CodecError::UnexpectedChar { character, offset } => {
            out.append("unexpected character `");
            out.push(*character);
            out.append("` at offset ");
            push_decimal(out, *offset as u128);
        },
        CodecError::ReservedComparisonToken { token, offset } => {
            out.append("reserved comparison token `");
            out.push(*token);
            out.append("` at offset ");
            push_decimal(out, *offset as u128);
        },
        CodecError::UnterminatedString { offset } => {
            out.append("unterminated string starting at offset ");
            push_decimal(out, *offset as u128);
        },
        CodecError::InvalidEscape { character, offset } => {
            out.append("invalid escape `\\");
            out.push(*character);
            out.append("` at offset ");
            push_decimal(out, *offset as u128);
        },
        CodecError::IntegerOverflow { offset } => {
            out.append("integer literal at offset ");
            push_decimal(out, *offset as u128);
            out.append(" does not fit");
        },
        CodecError::UnexpectedToken { expected, got } => {
            out.append("expected ");
            out.append(expected);
            out.append(", got ");
            push_token(out, got);
        },
        CodecError::UnexpectedEnd { expected } => {
            out.append("expected ");
            out.append(expected);
            out.append(", got end of input");
        },
        CodecError::UnknownVariant { enum_name, head } => {
            out.append("unknown ");
            out.append(enum_name);
            out.append(" variant `");
            out.append(head.as_str());
            out.append("`");
        },
        CodecError::IntegerOutOfRange { field } => {
            out.append("integer out of range for ");
            out.append(field);
        },
    }
    assert(final(out)@ =~= old(out)@ + codec_error_text(e@));
}

/// The human-readable text of a codec error, as a new string.
pub fn describe_codec_error(e: &CodecError) -> (s: String)
    ensures
        s@ == codec_error_text(e@),
{
    let mut out = String::new();
    push_codec_error(&mut out, e);
    assert(out@ =~= codec_error_text(e@));
    out
}

// ─── daemon errors ──────────────────────────────────────────────

pub open spec fn frame_decode_error_text(e: FrameDecodeError) -> Seq<char> {
    match e {
        FrameDecodeError::BadArchive => "rkyv archive validation failed"@,
        FrameDecodeError::TrailingBytes => "trailing bytes after frame"@,
    }
}

/// The debugging description of a handshake rejection.
pub open spec fn rejection_text(r: HandshakeRejectionReason) -> Seq<char> {
    match r {
        HandshakeRejectionReason::IncompatibleVersion { server_version } =>
            "IncompatibleVersion { server_version: "@ + decimal(server_version as nat) + " }"@,
        HandshakeRejectionReason::Refused { detail } => "Refused { detail: "@ + quoted(detail@)
            + " }"@,
    }
}

/// The human-readable text of an error.
pub open spec fn error_text(e: Error) -> Seq<char> {
    match e {
        Error::Io(d) => "i/o: "@ + d@,
        Error::Codec(c) => "nota-codec: "@ + codec_error_text(c@),
        Error::Frame(f) => "frame decode: "@ + frame_decode_error_text(f),
        Error::FrameTooLarge { length } => "frame "@ + decimal(length as nat)
            + " bytes exceeds the 4-byte length-prefix maximum (u32::MAX)"@,
        Error::HandshakeRejected { reason } => "criome rejected the handshake: "@ + rejection_text(
            reason,
        ),
        Error::HandshakePostReplyShape { got } =>
            "criome returned an unexpected reply shape after handshake — got `"@ + got@
            + "`, expected `HandshakeAccepted` / `HandshakeRejected`"@,
        Error::VerbNotInM0Scope { verb } => "nexus verb `"@ + verb@
            + "` is not in the current compatibility parser scope"@,
        Error::ActorCall(d) => "actor call: "@ + d@,
        Error::ActorSpawn(d) => "actor spawn: "@ + d@,
        Error::Lex(d) => "lex: "@ + d@,
        Error::UnexpectedToken { expected, got } => "expected "@ + expected@ + ", got "@ + got@,
        Error::ExpectedPascalIdentifier { got } => "expected a PascalCase identifier, got "@
            + got@,
        Error::ExpectedLowercaseIdentifier { got } => "expected a lowercase identifier, got "@
            + got@,
        Error::ExpectedPatternField { got } =>
            "expected a pattern field (`_`, `@name` or a value), got "@ + got@,
        Error::UnknownQueryKind { kind_name } => "unknown query kind `"@ + kind_name@ + "`"@,
        Error::UnknownRelationKindVariant { expected_variants, got } =>
            "unknown relation kind `"@ + got@ + "`, expected one of "@ + expected_variants@,
        Error::WrongBindName { expected_field_name, got_bind_name } => "bind name `@"@
            + got_bind_name@ + "` does not match the field `"@ + expected_field_name@ + "`"@,
        Error::TrailingTokens { got } => "trailing tokens after the query: "@ + got@,
    }
}

/// The diagnostic code an error is reported under.
pub open spec fn error_code(e: Error) -> Seq<char> {
    match e {
        Error::Codec(_) => "E0001"@,
        Error::VerbNotInM0Scope { .. } => "E0099"@,
        Error::Io(_) => "E0010"@,
        Error::Frame(_) => "E0011"@,
        Error::FrameTooLarge { .. } => "E0012"@,
        Error::HandshakeRejected { .. } => "E0020"@,
        Error::HandshakePostReplyShape { .. } => "E0021"@,
        Error::ActorCall(_) => "E0030"@,
        Error::ActorSpawn(_) => "E0031"@,
        _ => "E0001"@,
    }
}

impl Error {
    /// The human-readable text of this error.
    pub fn describe(&self) -> (s: String)
        ensures
            s@ == error_text(*self),
    {
        let mut out = String::new();
        match self {
            Error::Io(d) => {
                out.append("i/o: ");
                out.append(d.as_str());
            },
            Error::Codec(c) => {
                out.append("nota-codec: ");
                push_codec_error(&mut out, c);
            },
            Error::Frame(f) => {
                out.append("frame decode: ");
                match f {
                    FrameDecodeError::BadArchive => out.append("rkyv archive validation failed"),
                    FrameDecodeError::TrailingBytes => out.append("trailing bytes after frame"),
                }
            },
            Error::FrameTooLarge { length } => {
                out.append("frame ");
                push_decimal(&mut out, *length as u128);
                out.append(" bytes exceeds the 4-byte length-prefix maximum (u32::MAX)");
            },
            Error::HandshakeRejected { reason } => {
                out.append("criome rejected the handshake: ");
                match reason {
                    HandshakeRejectionReason::IncompatibleVersion { server_version } => {
                        out.append("IncompatibleVersion { server_version: ");
                        push_decimal(&mut out, *server_version as u128);
                        out.append(" }");
                    },
                    HandshakeRejectionReason::Refused { detail } => {
                        out.append("Refused { detail: ");
                        push_quoted(&mut out, detail.as_str());
                        out.append(" }");
                    },
                }
            },
            Error::HandshakePostReplyShape { got } => {
                out.append("criome returned an unexpected reply shape after handshake — got `");
                out.append(got);
                out.append("`, expected `HandshakeAccepted` / `HandshakeRejected`");
            },
            Error::VerbNotInM0Scope { verb } => {
                out.append("nexus verb `");
                out.append(verb);
                out.append("` is not in the current compatibility parser scope");
            },
            Error::ActorCall(d) => {
                out.append("actor call: ");
                out.append(d.as_str());
            },
            Error::ActorSpawn(d) => {
                out.append("actor spawn: ");
                out.append(d.as_str());
            },
            Error::Lex(d) => {
                out.append("lex: ");
                out.append(d.as_str());
            },
            Error::UnexpectedToken { expected, got } => {
                out.append("expected ");
                out.append(expected.as_str());
                out.append(", got ");
                out.append(got.as_str());
            },
            Error::ExpectedPascalIdentifier { got } => {
                out.append("expected a PascalCase identifier, got ");
                out.append(got.as_str());
            },
            Error::ExpectedLowercaseIdentifier { got } => {
                out.append("expected a lowercase identifier, got ");
                out.append(got.as_str());
            },
            Error::ExpectedPatternField { got } => {
                out.append("expected a pattern field (`_`, `@name` or a value), got ");
                out.append(got.as_str());
            },
            Error::UnknownQueryKind { kind_name } => {
                out.append("unknown query kind `");
                out.append(kind_name.as_str());
                out.append("`");
            },
            Error::UnknownRelationKindVariant { expected_variants, got } => {
                out.append("unknown relation kind `");
                out.append(got.as_str());
                out.append("`, expected one of ");
                out.append(expected_variants.as_str());
            },
            Error::WrongBindName { expected_field_name, got_bind_name } => {
                out.append("bind name `@");
                out.append(got_bind_name.as_str());
                out.append("` does not match the field `");
                out.append(expected_field_name.as_str());
                out.append("`");
            },
            Error::TrailingTokens { got } => {
                out.append("trailing tokens after the query: ");
                out.append(got.as_str());
            },
        }
        assert(out@ =~= error_text(*self));
        out
    }
}

} // verus!
