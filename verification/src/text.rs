//! The nexus text grammar at the character level: character classes,
//! tokens, and the token that the grammar reads at a position.
//!
//! The grammar is ordinary Nota syntax (records in `( )`, sequences in
//! `[ ]`, identifiers, integers, quoted strings, `;;` line comments). The
//! legacy piped query surface additionally reads `(|`, `|)` and `@`; it is
//! selected by [`LexMode::Nexus`].
use vstd::prelude::*;

verus! {

/// Which surface the lexer reads.
#[derive(Clone, Copy, Debug, PartialEq, Eq)]
pub enum LexMode {
    /// Plain Nota: records, sequences and atoms only.
    Nota,
    /// Nota plus the legacy piped query delimiters `(|`, `|)` and the bind
    /// marker `@`.
    Nexus,
}

/// One lexical token.
#[derive(Clone, Debug, PartialEq, Eq)]
pub enum Token {
    LParen,
    RParen,
    LBracket,
    RBracket,
    LParenPipe,
    RParenPipe,
    At,
    Colon,
    Ident(String),
    Int(i128),
    UInt(u128),
    Str(String),
}

/// The mathematical value of a [`Token`].
pub ghost enum Lexeme {
    LParen,
    RParen,
    LBracket,
    RBracket,
    LParenPipe,
    RParenPipe,
    At,
    Colon,
    Ident(Seq<char>),
    Int(int),
    UInt(int),
    Str(Seq<char>),
}

impl View for Token {
    type V = Lexeme;

    open spec fn view(&self) -> Lexeme {
        match self {
            Token::LParen => Lexeme::LParen,
            Token::RParen => Lexeme::RParen,
            Token::LBracket => Lexeme::LBracket,
            Token::RBracket => Lexeme::RBracket,
            Token::LParenPipe => Lexeme::LParenPipe,
            Token::RParenPipe => Lexeme::RParenPipe,
            Token::At => Lexeme::At,
            Token::Colon => Lexeme::Colon,
            Token::Ident(s) => Lexeme::Ident(s@),
            Token::Int(v) => Lexeme::Int(*v as int),
            Token::UInt(v) => Lexeme::UInt(*v as int),
            Token::Str(s) => Lexeme::Str(s@),
        }
    }
}

/// Errors of the text codec: lexing and record decoding.
#[derive(Clone, Debug, PartialEq, Eq)]
pub enum CodecError {
    /// A character that starts no token.
    UnexpectedChar { character: char, offset: usize },
    /// One of `! < > =`: comparison operators are reserved and not part of
    /// the grammar.
    ReservedComparisonToken { token: char, offset: usize },
    /// A `"` string with no closing `"`.
    UnterminatedString { offset: usize },
    /// A backslash escape other than `\\`, `\"`, `\n` or `\t`.
    InvalidEscape { character: char, offset: usize },
    /// An integer literal that does not fit the token's integer type.
    IntegerOverflow { offset: usize },
    /// A token other than the one the decoder needed.
    UnexpectedToken { expected: &'static str, got: Token },
    /// The input ended where the decoder needed a token.
    UnexpectedEnd { expected: &'static str },
    /// A record head that names no variant of the enum being decoded.
    UnknownVariant { enum_name: &'static str, head: String },
    /// An integer that is out of range for the field being decoded.
    IntegerOutOfRange { field: &'static str },
}

/// The mathematical value of a [`CodecError`].
pub ghost enum CodecFault {
    UnexpectedChar { character: char, offset: nat },
    ReservedComparisonToken { token: char, offset: nat },
    UnterminatedString { offset: nat },
    InvalidEscape { character: char, offset: nat },
    IntegerOverflow { offset: nat },
    UnexpectedToken { expected: Seq<char>, got: Lexeme },
    UnexpectedEnd { expected: Seq<char> },
    UnknownVariant { enum_name: Seq<char>, head: Seq<char> },
    IntegerOutOfRange { field: Seq<char> },
}

impl View for CodecError {
    type V = CodecFault;

    open spec fn view(&self) -> CodecFault {
        match self {
            CodecError::UnexpectedChar { character, offset } => CodecFault::UnexpectedChar {
                character: *character,
                offset: *offset as nat,
            },
            CodecError::ReservedComparisonToken { token, offset } =>
                CodecFault::ReservedComparisonToken { token: *token, offset: *offset as nat },
            CodecError::UnterminatedString { offset } => CodecFault::UnterminatedString {
                offset: *offset as nat,
            },
            CodecError::InvalidEscape { character, offset } => CodecFault::InvalidEscape {
                character: *character,
                offset: *offset as nat,
            },
            CodecError::IntegerOverflow { offset } => CodecFault::IntegerOverflow {
                offset: *offset as nat,
            },
            CodecError::UnexpectedToken { expected, got } => CodecFault::UnexpectedToken {
                expected: expected@,
                got: got@,
            },
            CodecError::UnexpectedEnd { expected } => CodecFault::UnexpectedEnd {
                expected: expected@,
            },
            CodecError::UnknownVariant { enum_name, head } => CodecFault::UnknownVariant {
                enum_name: enum_name@,
                head: head@,
            },
            CodecError::IntegerOutOfRange { field } => CodecFault::IntegerOutOfRange {
                field: field@,
            },
        }
    }
}

// ─── character classes ──────────────────────────────────────────

pub open spec fn is_space(c: char) -> bool {
    c == ' ' || c == '\t' || c == '\n' || c == '\r'
}

pub open spec fn is_digit(c: char) -> bool {
    '0' <= c && c <= '9'
}

pub open spec fn is_upper(c: char) -> bool {
    'A' <= c && c <= 'Z'
}

pub open spec fn is_lower(c: char) -> bool {
    'a' <= c && c <= 'z'
}

/// A character that may start an identifier.
pub open spec fn is_ident_start(c: char) -> bool {
    is_upper(c) || is_lower(c) || c == '_'
}

/// A character that may continue an identifier (kebab-case included).
pub open spec fn is_ident_char(c: char) -> bool {
    is_upper(c) || is_lower(c) || is_digit(c) || c == '_' || c == '-'
}

/// One of the reserved comparison characters.
pub open spec fn is_reserved_comparison(c: char) -> bool {
    c == '!' || c == '<' || c == '>' || c == '='
}

pub open spec fn digit_value(c: char) -> int {
    (c as int) - ('0' as int)
}

pub fn is_space_exec(c: char) -> (r: bool)
    ensures
        r == is_space(c),
{
    c == ' ' || c == '\t' || c == '\n' || c == '\r'
}

pub fn is_digit_exec(c: char) -> (r: bool)
    ensures
        r == is_digit(c),
{
    '0' <= c && c <= '9'
}

pub fn is_ident_start_exec(c: char) -> (r: bool)
    ensures
        r == is_ident_start(c),
{
    ('A' <= c && c <= 'Z') || ('a' <= c && c <= 'z') || c == '_'
}

pub fn is_ident_char_exec(c: char) -> (r: bool)
    ensures
        r == is_ident_char(c),
{
    ('A' <= c && c <= 'Z') || ('a' <= c && c <= 'z') || ('0' <= c && c <= '9') || c == '_'
        || c == '-'
}

// ─── trivia: whitespace and `;;` comments ───────────────────────

/// The position of the first `\n` at or after `i`, or the end of `s`.
pub open spec fn line_end(s: Seq<char>, i: nat) -> nat
    decreases s.len() - i,
{
    if i >= s.len() {
        s.len()
    } else if s[i as int] == '\n' {
        i
    } else {
        line_end(s, i + 1)
    }
}

pub proof fn lemma_line_end_bounds(s: Seq<char>, i: nat)
    ensures
        i >= s.len() ==> line_end(s, i) == s.len(),
        i < s.len() ==> i <= line_end(s, i) <= s.len(),
    decreases s.len() - i,
{
    if i < s.len() && s[i as int] != '\n' {
        lemma_line_end_bounds(s, i + 1);
    }
}

/// Whether a `;;` comment starts at `i`.
pub open spec fn comment_at(s: Seq<char>, i: nat) -> bool {
    i + 1 < s.len() && s[i as int] == ';' && s[(i + 1) as int] == ';'
}

/// The first position at or after `i` that is neither whitespace nor
/// inside a `;;` comment.
pub open spec fn skip_trivia(s: Seq<char>, i: nat) -> nat
    decreases s.len() - i,
{
    if i >= s.len() {
        i
    } else if is_space(s[i as int]) {
        skip_trivia(s, i + 1)
    } else if comment_at(s, i) {
        proof {
            lemma_line_end_bounds(s, i + 2);
        }
        skip_trivia(s, line_end(s, i + 2))
    } else {
        i
    }
}

pub proof fn lemma_skip_trivia_bounds(s: Seq<char>, i: nat)
    ensures
        i <= skip_trivia(s, i),
        i <= s.len() ==> skip_trivia(s, i) <= s.len(),
        skip_trivia(s, i) < s.len() ==> !is_space(s[skip_trivia(s, i) as int]) && !comment_at(
            s,
            skip_trivia(s, i),
        ),
    decreases s.len() - i,
{
    if i < s.len() {
        if is_space(s[i as int]) {
            lemma_skip_trivia_bounds(s, i + 1);
        } else if comment_at(s, i) {
            lemma_line_end_bounds(s, i + 2);
            lemma_skip_trivia_bounds(s, line_end(s, i + 2));
        }
    }
}

// ─── atoms ──────────────────────────────────────────────────────

/// The end of the run of identifier characters that starts at `i`.
pub open spec fn ident_end(s: Seq<char>, i: nat) -> nat
    decreases s.len() - i,
{
    if i < s.len() && is_ident_char(s[i as int]) {
        ident_end(s, i + 1)
    } else {
        i
    }
}

pub proof fn lemma_ident_end_bounds(s: Seq<char>, i: nat)
    ensures
        i <= ident_end(s, i),
        i <= s.len() ==> ident_end(s, i) <= s.len(),
        forall|k: int| i <= k < ident_end(s, i) ==> is_ident_char(#[trigger] s[k]),
        ident_end(s, i) < s.len() ==> !is_ident_char(s[ident_end(s, i) as int]),
    decreases s.len() - i,
{
    if i < s.len() && is_ident_char(s[i as int]) {
        lemma_ident_end_bounds(s, i + 1);
    }
}

/// The end of the run of decimal digits that starts at `i`.
pub open spec fn digits_end(s: Seq<char>, i: nat) -> nat
    decreases s.len() - i,
{
    if i < s.len() && is_digit(s[i as int]) {
        digits_end(s, i + 1)
    } else {
        i
    }
}

pub proof fn lemma_digits_end_bounds(s: Seq<char>, i: nat)
    ensures
        i <= digits_end(s, i),
        i <= s.len() ==> digits_end(s, i) <= s.len(),
        forall|k: int| i <= k < digits_end(s, i) ==> is_digit(#[trigger] s[k]),
        digits_end(s, i) < s.len() ==> !is_digit(s[digits_end(s, i) as int]),
    decreases s.len() - i,
{
    if i < s.len() && is_digit(s[i as int]) {
        lemma_digits_end_bounds(s, i + 1);
    }
}

/// The value of the decimal digits `s[i..j]`, most significant first.
pub open spec fn digits_value(s: Seq<char>, i: int, j: int) -> nat
    decreases j - i,
{
    if j <= i {
        0
    } else {
        (digits_value(s, i, j - 1) * 10 + digit_value(s[j - 1])) as nat
    }
}

/// The character that an escape `\c` stands for, if `c` is a valid escape.
pub open spec fn unescape(c: char) -> Option<char> {
    if c == 'n' {
        Some('\n')
    } else if c == 't' {
        Some('\t')
    } else if c == '\\' {
        Some('\\')
    } else if c == '"' {
        Some('"')
    } else {
        None
    }
}

/// Reads the body of a quoted string from `i` (just past the opening `"`)
/// up to and including its closing `"`. Gives the string's content and the
/// position just past the closing quote. `open` is the position of the
/// opening quote, which an unterminated string reports.
pub open spec fn string_body(s: Seq<char>, i: nat, open: nat) -> Result<
    (Seq<char>, nat),
    CodecFault,
>
    decreases s.len() - i,
{
    if i >= s.len() {
        Err(CodecFault::UnterminatedString { offset: open })
    } else if s[i as int] == '"' {
        Ok((Seq::empty(), i + 1))
    } else if s[i as int] == '\\' {
        if i + 1 >= s.len() {
            Err(CodecFault::UnterminatedString { offset: open })
        } else {
            match unescape(s[(i + 1) as int]) {
                None => Err(
                    CodecFault::InvalidEscape { character: s[(i + 1) as int], offset: i },
                ),
                Some(c) => match string_body(s, i + 2, open) {
                    Ok((rest, end)) => Ok((seq![c] + rest, end)),
                    Err(e) => Err(e),
                },
            }
        }
    } else {
        match string_body(s, i + 1, open) {
            Ok((rest, end)) => Ok((seq![s[i as int]] + rest, end)),
            Err(e) => Err(e),
        }
    }
}

pub proof fn lemma_string_body_end(s: Seq<char>, i: nat, open: nat)
    ensures
        string_body(s, i, open) matches Ok((_, end)) ==> i < end <= s.len(),
    decreases s.len() - i,
{
    if i < s.len() && s[i as int] != '"' {
        if s[i as int] == '\\' {
            if i + 1 < s.len() {
                lemma_string_body_end(s, i + 2, open);
            }
        } else {
            lemma_string_body_end(s, i + 1, open);
        }
    }
}

// ─── the token at a position ────────────────────────────────────

/// What the lexer reads at a position: nothing (end of input), a token and
/// the position just past it, or an error.
pub type LexStep = Result<Option<(Lexeme, nat)>, CodecFault>;

/// The integer token for the digits `s[start..end]`, or an overflow error.
pub open spec fn unsigned_token(s: Seq<char>, start: nat, end: nat) -> LexStep {
    let v = digits_value(s, start as int, end as int);
    if v > u128::MAX {
        Err(CodecFault::IntegerOverflow { offset: start })
    } else {
        Ok(Some((Lexeme::UInt(v as int), end)))
    }
}

/// The negative integer token for `-` at `start` followed by the digits
/// `s[start + 1..end]`.
pub open spec fn negative_token(s: Seq<char>, start: nat, end: nat) -> LexStep {
    let v = digits_value(s, (start + 1) as int, end as int);
    if v > 0x8000_0000_0000_0000_0000_0000_0000_0000 {
        Err(CodecFault::IntegerOverflow { offset: start })
    } else {
        Ok(Some((Lexeme::Int(-v), end)))
    }
}

/// The token that starts at `start`, where `s[start]` is neither
/// whitespace nor the start of a comment.
pub open spec fn token_at(mode: LexMode, s: Seq<char>, start: nat) -> LexStep
    recommends
        start < s.len(),
{
    let c = s[start as int];
    let next_is = |d: char| start + 1 < s.len() && s[(start + 1) as int] == d;
    if c == '(' {
        if mode == LexMode::Nexus && next_is('|') {
            Ok(Some((Lexeme::LParenPipe, start + 2)))
        } else {
            Ok(Some((Lexeme::LParen, start + 1)))
        }
    } else if c == ')' {
        Ok(Some((Lexeme::RParen, start + 1)))
    } else if c == '[' {
        Ok(Some((Lexeme::LBracket, start + 1)))
    } else if c == ']' {
        Ok(Some((Lexeme::RBracket, start + 1)))
    } else if c == ':' {
        Ok(Some((Lexeme::Colon, start + 1)))
    } else if c == '|' && mode == LexMode::Nexus && next_is(')') {
        Ok(Some((Lexeme::RParenPipe, start + 2)))
    } else if c == '@' && mode == LexMode::Nexus {
        Ok(Some((Lexeme::At, start + 1)))
    } else if c == '"' {
        match string_body(s, start + 1, start) {
            Ok((content, end)) => Ok(Some((Lexeme::Str(content), end))),
            Err(e) => Err(e),
        }
    } else if is_digit(c) {
        unsigned_token(s, start, digits_end(s, start))
    } else if c == '-' && start + 1 < s.len() && is_digit(s[(start + 1) as int]) {
        negative_token(s, start, digits_end(s, start + 1))
    } else if is_ident_start(c) {
        Ok(Some((Lexeme::Ident(s.subrange(start as int, ident_end(s, start) as int)), ident_end(s, start))))
    } else if is_reserved_comparison(c) {
        Err(CodecFault::ReservedComparisonToken { token: c, offset: start })
    } else {
        Err(CodecFault::UnexpectedChar { character: c, offset: start })
    }
}

/// The token read from position `i`: trivia is skipped first.
pub open spec fn lex_at(mode: LexMode, s: Seq<char>, i: nat) -> LexStep {
    let start = skip_trivia(s, i);
    if start >= s.len() {
        Ok(None)
    } else {
        token_at(mode, s, start)
    }
}

/// A token read from `i` ends after `i`, within the text.
pub proof fn lemma_lex_advances(mode: LexMode, s: Seq<char>, i: nat)
    requires
        i <= s.len(),
    ensures
        lex_at(mode, s, i) matches Ok(Some((_, e))) ==> i < e <= s.len(),
{
    let start = skip_trivia(s, i);
    lemma_skip_trivia_bounds(s, i);
    if start < s.len() {
        let c = s[start as int];
        lemma_string_body_end(s, start + 1, start);
        lemma_digits_end_bounds(s, start);
        lemma_digits_end_bounds(s, start + 1);
        lemma_ident_end_bounds(s, start);
        if is_digit(c) {
            assert(digits_end(s, start) == digits_end(s, start + 1));
        }
        if is_ident_start(c) {
            assert(ident_end(s, start) == ident_end(s, start + 1));
        }
        if c == '-' && start + 1 < s.len() && is_digit(s[(start + 1) as int]) {
            assert(digits_end(s, start + 1) == digits_end(s, start + 2));
            lemma_digits_end_bounds(s, start + 2);
        }
    }
}

} // verus!
