//! The executable lexer: reads the tokens that [`crate::text::lex_at`]
//! describes, one at a time, from a character buffer.
use vstd::prelude::*;
use vstd::std_specs::iter::IteratorSpec;
use crate::text::{
    digits_end, digits_value, lemma_digits_end_bounds, ident_end, is_digit, is_digit_exec, is_ident_char_exec,
    is_ident_start, is_ident_start_exec, is_space_exec, lemma_line_end_bounds,
    lemma_skip_trivia_bounds, lex_at, line_end, negative_token, skip_trivia, string_body,
    token_at, unsigned_token, CodecError, LexMode, LexStep, Lexeme, Token,
};

verus! {

pub assume_specification[ String::push ](s: &mut String, ch: char)
    ensures
        final(s)@ == old(s)@.push(ch),
;

/// The characters of `s`, in order.
pub fn chars_of(s: &str) -> (v: Vec<char>)
    ensures
        v@ == s@,
{
    broadcast use vstd::string::group_string_axioms;

    let mut v: Vec<char> = Vec::new();
    for c in it: s.chars()
        invariant
            it.seq() == s@,
            v@ == s@.take(it.index() as int),
    {
        v.push(c);
    }
    assert(s@.take(s@.len() as int) == s@);
    v
}

/// Whether two strings hold the same characters.
pub fn text_eq(a: &str, b: &str) -> (r: bool)
    ensures
        r == (a@ == b@),
{
    let x = chars_of(a);
    let y = chars_of(b);
    if x.len() != y.len() {
        return false;
    }
    let mut i: usize = 0;
    while i < x.len()
        invariant
            x@ == a@,
            y@ == b@,
            x.len() == y.len(),
            i <= x.len(),
            forall|k: int| 0 <= k < i ==> x@[k] == y@[k],
        decreases x.len() - i,
    {
        if x[i] != y[i] {
            return false;
        }
        i = i + 1;
    }
    assert(x@ =~= y@);
    true
}

/// Whether a lexer step `res` that left the lexer at `new_pos` is the step
/// `step` that the grammar describes.
pub open spec fn step_matches(
    res: Result<Option<Token>, CodecError>,
    step: LexStep,
    new_pos: nat,
    eof_pos: nat,
) -> bool {
    match res {
        Ok(None) => step == LexStep::Ok(None) && new_pos == eof_pos,
        Ok(Some(t)) => step == LexStep::Ok(Some((t@, new_pos))),
        Err(e) => step == LexStep::Err(e@),
    }
}

/// A cursor over a buffer of characters.
pub struct Lexer {
    chars: Vec<char>,
    pos: usize,
    mode: LexMode,
}

impl Lexer {
    /// The text being read.
    pub closed spec fn text(&self) -> Seq<char> {
        self.chars@
    }

    /// The position of the next character to read.
    pub closed spec fn position(&self) -> nat {
        self.pos as nat
    }

    pub closed spec fn lex_mode(&self) -> LexMode {
        self.mode
    }

    pub closed spec fn wf(&self) -> bool {
        self.pos <= self.chars@.len()
    }

    pub proof fn lemma_position_in_text(&self)
        requires
            self.wf(),
        ensures
            self.position() <= self.text().len(),
    {
    }

    /// A lexer at the start of `input`.
    pub fn new(input: &str, mode: LexMode) -> (l: Lexer)
        ensures
            l.wf(),
            l.text() == input@,
            l.position() == 0,
            l.lex_mode() == mode,
    {
        Lexer { chars: chars_of(input), pos: 0, mode }
    }

    pub fn mode(&self) -> (m: LexMode)
        ensures
            m == self.lex_mode(),
    {
        self.mode
    }

    pub fn get_position(&self) -> (p: usize)
        requires
            self.wf(),
        ensures
            p == self.position(),
    {
        self.pos
    }

    /// Moves the cursor back to a position read earlier.
    pub fn set_position(&mut self, p: usize)
        requires
            old(self).wf(),
            p <= old(self).text().len(),
        ensures
            final(self).wf(),
            final(self).text() == old(self).text(),
            final(self).lex_mode() == old(self).lex_mode(),
            final(self).position() == p,
    {
        self.pos = p;
    }

    /// Skips whitespace and comments from the cursor.
    #[verifier::loop_isolation(false)]
    fn skip_trivia(&mut self)
        requires
            old(self).wf(),
        ensures
            final(self).wf(),
            final(self).text() == old(self).text(),
            final(self).lex_mode() == old(self).lex_mode(),
            final(self).position() == skip_trivia(old(self).text(), old(self).position()),
    {
        let len = self.chars.len();
        let ghost s = self.chars@;
        let ghost p0 = self.pos as nat;
        loop
            invariant
                self.chars@ == s,
                self.mode == old(self).mode,
                len == s.len(),
                self.pos <= len,
                skip_trivia(s, p0) == skip_trivia(s, self.pos as nat),
            decreases len - self.pos,
        {
            if self.pos >= len {
                return;
            }
            let c = self.chars[self.pos];
            if is_space_exec(c) {
                self.pos = self.pos + 1;
            } else if c == ';' && self.pos + 1 < len && self.chars[self.pos + 1] == ';' {
                let ghost comment_start = self.pos as nat;
                self.pos = self.pos + 2;
                while self.pos < len && self.chars[self.pos] != '\n'
                    invariant
                        self.chars@ == s,
                        self.mode == old(self).mode,
                self.mode == old(self).mode,
                        len == s.len(),
                        comment_start + 2 <= self.pos <= len,
                        line_end(s, (comment_start + 2) as nat) == line_end(s, self.pos as nat),
                    decreases len - self.pos,
                {
                    self.pos = self.pos + 1;
                }
                proof {
                    lemma_line_end_bounds(s, self.pos as nat);
                }
            } else {
                return;
            }
        }
    }

    /// Reads the next token: `Ok(None)` at the end of the input.
    pub fn next_token(&mut self) -> (res: Result<Option<Token>, CodecError>)
        requires
            old(self).wf(),
        ensures
            final(self).wf(),
            final(self).text() == old(self).text(),
            final(self).lex_mode() == old(self).lex_mode(),
            step_matches(
                res,
                lex_at(old(self).lex_mode(), old(self).text(), old(self).position()),
                final(self).position(),
                skip_trivia(old(self).text(), old(self).position()),
            ),
    {
        self.skip_trivia();
        proof {
            lemma_skip_trivia_bounds(self.chars@, old(self).pos as nat);
        }
        if self.pos >= self.chars.len() {
            return Ok(None);
        }
        self.token_at()
    }

    /// Reads the token at the cursor, which is not at trivia.
    fn token_at(&mut self) -> (res: Result<Option<Token>, CodecError>)
        requires
            old(self).wf(),
            old(self).position() < old(self).text().len(),
        ensures
            final(self).wf(),
            final(self).text() == old(self).text(),
            final(self).lex_mode() == old(self).lex_mode(),
            step_matches(
                res,
                token_at(old(self).lex_mode(), old(self).text(), old(self).position()),
                final(self).position(),
                0,
            ),
    {
        let len = self.chars.len();
        let start = self.pos;
        let c = self.chars[start];
        let nexus = match self.mode {
            LexMode::Nexus => true,
            LexMode::Nota => false,
        };
        if c == '(' {
            if nexus && start + 1 < len && self.chars[start + 1] == '|' {
                self.pos = start + 2;
                Ok(Some(Token::LParenPipe))
            } else {
                self.pos = start + 1;
                Ok(Some(Token::LParen))
            }
        } else if c == ')' {
            self.pos = start + 1;
            Ok(Some(Token::RParen))
        } else if c == '[' {
            self.pos = start + 1;
            Ok(Some(Token::LBracket))
        } else if c == ']' {
            self.pos = start + 1;
            Ok(Some(Token::RBracket))
        } else if c == ':' {
            self.pos = start + 1;
            Ok(Some(Token::Colon))
        } else if c == '|' && nexus && start + 1 < len && self.chars[start + 1] == ')' {
            self.pos = start + 2;
            Ok(Some(Token::RParenPipe))
        } else if c == '@' && nexus {
            self.pos = start + 1;
            Ok(Some(Token::At))
        } else if c == '"' {
            self.read_string()
        } else if is_digit_exec(c) {
            self.read_unsigned()
        } else if c == '-' && start + 1 < len && is_digit_exec(self.chars[start + 1]) {
            self.read_negative()
        } else if is_ident_start_exec(c) {
            self.read_ident()
        } else if c == '!' || c == '<' || c == '>' || c == '=' {
            Err(CodecError::ReservedComparisonToken { token: c, offset: start })
        } else {
            Err(CodecError::UnexpectedChar { character: c, offset: start })
        }
    }

    #[verifier::loop_isolation(false)]
    fn read_ident(&mut self) -> (res: Result<Option<Token>, CodecError>)
        requires
            old(self).wf(),
            old(self).position() < old(self).text().len(),
            is_ident_start(old(self).text()[old(self).position() as int]),
        ensures
            final(self).wf(),
            final(self).text() == old(self).text(),
            final(self).lex_mode() == old(self).lex_mode(),
            res == Result::<Option<Token>, CodecError>::Ok(Some(Token::Ident(res->Ok_0->Some_0->Ident_0))),
            res->Ok_0->Some_0->Ident_0@ == old(self).text().subrange(
                old(self).position() as int,
                ident_end(old(self).text(), old(self).position()) as int,
            ),
            final(self).position() == ident_end(old(self).text(), old(self).position()),
    {
        let len = self.chars.len();
        let ghost s = self.chars@;
        let start = self.pos;
        let mut text = String::new();
        while self.pos < len && is_ident_char_exec(self.chars[self.pos])
            invariant
                self.chars@ == s,
                self.mode == old(self).mode,
                len == s.len(),
                start <= self.pos <= len,
                ident_end(s, start as nat) == ident_end(s, self.pos as nat),
                text@ == s.subrange(start as int, self.pos as int),
            decreases len - self.pos,
        {
            text.push(self.chars[self.pos]);
            self.pos = self.pos + 1;
            assert(text@ == s.subrange(start as int, self.pos as int));
        }
        Ok(Some(Token::Ident(text)))
    }

    /// Accumulates the digits from the cursor; `None` if their value
    /// exceeds `u128::MAX`. Leaves the cursor past the digits.
    #[verifier::loop_isolation(false)]
    fn read_digits(&mut self) -> (r: Option<u128>)
        requires
            old(self).wf(),
        ensures
            final(self).wf(),
            final(self).text() == old(self).text(),
            final(self).lex_mode() == old(self).lex_mode(),
            final(self).position() == digits_end(old(self).text(), old(self).position()),
            match r {
                Some(v) => v == digits_value(
                    old(self).text(),
                    old(self).position() as int,
                    final(self).position() as int,
                ),
                None => digits_value(
                    old(self).text(),
                    old(self).position() as int,
                    digits_end(old(self).text(), old(self).position()) as int,
                ) > u128::MAX,
            },
    {
        let len = self.chars.len();
        let ghost s = self.chars@;
        let start = self.pos;
        let mut value: u128 = 0;
        while self.pos < len && is_digit_exec(self.chars[self.pos])
            invariant
                self.chars@ == s,
                self.mode == old(self).mode,
                len == s.len(),
                start <= self.pos <= len,
                digits_end(s, start as nat) == digits_end(s, self.pos as nat),
                value == digits_value(s, start as int, self.pos as int),
            decreases len - self.pos,
        {
            let c = self.chars[self.pos];
            let d = (c as u32 - '0' as u32) as u128;
            match value.checked_mul(10) {
                Some(m) => match m.checked_add(d) {
                    Some(n) => {
                        value = n;
                    },
                    None => {
                        proof {
                            lemma_digits_end_bounds(s, start as nat);
                            lemma_digits_end_bounds(s, (self.pos + 1) as nat);
                            lemma_digits_value_monotone(s, start as int, self.pos + 1, digits_end(s, start as nat) as int);
                        }
                        self.skip_digits();
                        return None;
                    },
                },
                None => {
                    proof {
                        lemma_digits_end_bounds(s, start as nat);
                            lemma_digits_end_bounds(s, (self.pos + 1) as nat);
                        lemma_digits_value_monotone(s, start as int, self.pos + 1, digits_end(s, start as nat) as int);
                    }
                    self.skip_digits();
                    return None;
                },
            }
            self.pos = self.pos + 1;
        }
        Some(value)
    }

    #[verifier::loop_isolation(false)]
    fn skip_digits(&mut self)
        requires
            old(self).wf(),
        ensures
            final(self).wf(),
            final(self).text() == old(self).text(),
            final(self).lex_mode() == old(self).lex_mode(),
            final(self).position() == digits_end(old(self).text(), old(self).position()),
    {
        let len = self.chars.len();
        let ghost s = self.chars@;
        let ghost start = self.pos as nat;
        while self.pos < len && is_digit_exec(self.chars[self.pos])
            invariant
                self.chars@ == s,
                self.mode == old(self).mode,
                len == s.len(),
                self.pos <= len,
                digits_end(s, start) == digits_end(s, self.pos as nat),
            decreases len - self.pos,
        {
            self.pos = self.pos + 1;
        }
    }

    fn read_unsigned(&mut self) -> (res: Result<Option<Token>, CodecError>)
        requires
            old(self).wf(),
            old(self).position() < old(self).text().len(),
        ensures
            final(self).wf(),
            final(self).text() == old(self).text(),
            final(self).lex_mode() == old(self).lex_mode(),
            step_matches(
                res,
                unsigned_token(
                    old(self).text(),
                    old(self).position(),
                    digits_end(old(self).text(), old(self).position()),
                ),
                final(self).position(),
                0,
            ),
    {
        let start = self.pos;
        match self.read_digits() {
            Some(v) => Ok(Some(Token::UInt(v))),
            None => Err(CodecError::IntegerOverflow { offset: start }),
        }
    }

    fn read_negative(&mut self) -> (res: Result<Option<Token>, CodecError>)
        requires
            old(self).wf(),
            old(self).position() + 1 < old(self).text().len(),
        ensures
            final(self).wf(),
            final(self).text() == old(self).text(),
            final(self).lex_mode() == old(self).lex_mode(),
            step_matches(
                res,
                negative_token(
                    old(self).text(),
                    old(self).position(),
                    digits_end(old(self).text(), old(self).position() + 1),
                ),
                final(self).position(),
                0,
            ),
    {
        let len = self.chars.len();
        let start = self.pos;
        self.pos = start + 1;
        match self.read_digits() {
            Some(v) => {
                if v <= 0x8000_0000_0000_0000_0000_0000_0000_0000u128 {
                    let n: i128 = if v == 0x8000_0000_0000_0000_0000_0000_0000_0000u128 {
                        i128::MIN
                    } else {
                        -(v as i128)
                    };
                    Ok(Some(Token::Int(n)))
                } else {
                    Err(CodecError::IntegerOverflow { offset: start })
                }
            },
            None => Err(CodecError::IntegerOverflow { offset: start }),
        }
    }

    #[verifier::loop_isolation(false)]
    fn read_string(&mut self) -> (res: Result<Option<Token>, CodecError>)
        requires
            old(self).wf(),
            old(self).position() < old(self).text().len(),
            old(self).text()[old(self).position() as int] == '"',
        ensures
            final(self).wf(),
            final(self).text() == old(self).text(),
            final(self).lex_mode() == old(self).lex_mode(),
            step_matches(
                res,
                match string_body(old(self).text(), old(self).position() + 1, old(self).position()) {
                    Ok((content, end)) => LexStep::Ok(Some((Lexeme::Str(content), end))),
                    Err(e) => LexStep::Err(e),
                },
                final(self).position(),
                0,
            ),
    {
        let len = self.chars.len();
        let ghost s = self.chars@;
        let open = self.pos;
        self.pos = open + 1;
        let mut content = String::new();
        loop
            invariant
                self.chars@ == s,
                self.mode == old(self).mode,
                len == s.len(),
                open < self.pos <= len,
                string_body(s, (open + 1) as nat, open as nat) == match string_body(
                    s,
                    self.pos as nat,
                    open as nat,
                ) {
                    Ok((rest, end)) => Ok((content@ + rest, end)),
                    Err(e) => Err(e),
                },
            decreases len - self.pos,
        {
            if self.pos >= len {
                return Err(CodecError::UnterminatedString { offset: open });
            }
            let c = self.chars[self.pos];
            if c == '"' {
                self.pos = self.pos + 1;
                assert(content@ + Seq::<char>::empty() == content@);
                return Ok(Some(Token::Str(content)));
            } else if c == '\\' {
                if self.pos + 1 >= len {
                    return Err(CodecError::UnterminatedString { offset: open });
                }
                let e = self.chars[self.pos + 1];
                let decoded = if e == 'n' {
                    '\n'
                } else if e == 't' {
                    '\t'
                } else if e == '\\' {
                    '\\'
                } else if e == '"' {
                    '"'
                } else {
                    return Err(CodecError::InvalidEscape { character: e, offset: self.pos });
                };
                let ghost before = content@;
                content.push(decoded);
                proof {
                    assert forall|rest: Seq<char>| #[trigger] (before + (seq![decoded] + rest)) == content@ + rest by {
                        assert(before + (seq![decoded] + rest) =~= content@ + rest);
                    }
                }
                self.pos = self.pos + 2;
            } else {
                let ghost before = content@;
                content.push(c);
                proof {
                    assert forall|rest: Seq<char>| #[trigger] (before + (seq![c] + rest)) == content@ + rest by {
                        assert(before + (seq![c] + rest) =~= content@ + rest);
                    }
                }
                self.pos = self.pos + 1;
            }
        }
    }
}

pub proof fn lemma_digits_value_monotone(s: Seq<char>, i: int, j: int, k: int)
    requires
        i <= j <= k,
        forall|m: int| i <= m < k ==> is_digit(#[trigger] s[m]),
    ensures
        digits_value(s, i, j) <= digits_value(s, i, k),
    decreases k - j,
{
    if j < k {
        lemma_digits_value_monotone(s, i, j, k - 1);
    }
}

} // verus!
