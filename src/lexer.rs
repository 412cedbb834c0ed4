use vstd::prelude::*;
use crate::token::{Token, TokenType, kind_of_surface, word_kind, lemma_kind_is_spelled};

verus! {

/// Unicode's `White_Space` property of a character.
pub uninterp spec fn is_blank(c: char) -> bool;

/// Unicode's `Alphabetic` property of a character.
pub uninterp spec fn is_letter(c: char) -> bool;

/// Unicode's numeric general categories (`Nd`, `Nl`, `No`) of a character.
pub uninterp spec fn is_digit(c: char) -> bool;

/// Relies on `char::is_whitespace`, whose result depends on the character alone.
#[verifier::external_body]
fn char_is_blank(c: char) -> (r: bool)
    ensures
        r == is_blank(c),
{
    c.is_whitespace()
}

/// Relies on `char::is_alphabetic`, whose result depends on the character alone.
#[verifier::external_body]
fn char_is_letter(c: char) -> (r: bool)
    ensures
        r == is_letter(c),
{
    c.is_alphabetic()
}

/// Relies on `char::is_numeric`, whose result depends on the character alone.
#[verifier::external_body]
fn char_is_digit(c: char) -> (r: bool)
    ensures
        r == is_digit(c),
{
    c.is_numeric()
}

/// One step of the lexer in the model: the kind and text of the token found,
/// and the position just past it.
pub struct Lexeme {
    pub kind: TokenType,
    pub text: Seq<char>,
    pub end: int,
}

/// The first position at or after `p` that does not hold whitespace.
pub open spec fn skip_blanks(s: Seq<char>, p: int) -> int
    decreases s.len() - p,
{
    if 0 <= p < s.len() && is_blank(s[p]) {
        skip_blanks(s, p + 1)
    } else {
        p
    }
}

/// The end of the run of letters that starts at `p`.
pub open spec fn letters_end(s: Seq<char>, p: int) -> int
    decreases s.len() - p,
{
    if 0 <= p < s.len() && is_letter(s[p]) {
        letters_end(s, p + 1)
    } else {
        p
    }
}

/// The end of the run of digits that starts at `p`.
pub open spec fn digits_end(s: Seq<char>, p: int) -> int
    decreases s.len() - p,
{
    if 0 <= p < s.len() && is_digit(s[p]) {
        digits_end(s, p + 1)
    } else {
        p
    }
}

/// The text of the end-of-input token.
pub open spec fn eof_text() -> Seq<char> {
    "EOF"@
}

/// The token that starts at position `p`, which holds no whitespace.
pub open spec fn scan_at(s: Seq<char>, p: int) -> Lexeme {
    if p >= s.len() {
        Lexeme { kind: TokenType::EOF, text: eof_text(), end: p }
    } else if s[p] == '=' && p + 1 < s.len() && s[p + 1] == '=' {
        Lexeme { kind: TokenType::EQ, text: s.subrange(p, p + 2), end: p + 2 }
    } else if s[p] == '!' && p + 1 < s.len() && s[p + 1] == '=' {
        Lexeme { kind: TokenType::NEQ, text: s.subrange(p, p + 2), end: p + 2 }
    } else if kind_of_surface(s.subrange(p, p + 1)) is Some {
        Lexeme {
            kind: kind_of_surface(s.subrange(p, p + 1))->0,
            text: s.subrange(p, p + 1),
            end: p + 1,
        }
    } else if is_letter(s[p]) {
        let e = letters_end(s, p);
        Lexeme { kind: word_kind(s.subrange(p, e)), text: s.subrange(p, e), end: e }
    } else if is_digit(s[p]) {
        let e = digits_end(s, p);
        Lexeme { kind: TokenType::INT, text: s.subrange(p, e), end: e }
    } else {
        Lexeme { kind: TokenType::ILLEGAL, text: s.subrange(p, p + 1), end: p + 1 }
    }
}

/// The token that the lexer produces from position `p` of `s`: whitespace
/// is skipped, then one token is read.
pub open spec fn lex_step(s: Seq<char>, p: int) -> Lexeme {
    scan_at(s, skip_blanks(s, p))
}

proof fn lemma_runs_bounded(s: Seq<char>, p: int)
    requires
        0 <= p <= s.len(),
    ensures
        p <= skip_blanks(s, p) <= s.len(),
        p <= letters_end(s, p) <= s.len(),
        p <= digits_end(s, p) <= s.len(),
    decreases s.len() - p,
{
    if p < s.len() {
        lemma_runs_bounded(s, p + 1);
    }
}

/// Every step of the lexer moves forward within the input; it reaches the
/// end exactly when it yields `EOF`, and any other token consumes at least
/// one character.
pub proof fn lemma_lex_step_advances(s: Seq<char>, p: int)
    requires
        0 <= p <= s.len(),
    ensures
        p <= lex_step(s, p).end <= s.len(),
        lex_step(s, p).kind == TokenType::EOF ==> lex_step(s, p).end == s.len(),
        lex_step(s, p).kind != TokenType::EOF ==> lex_step(s, p).end > p,
{
    lemma_runs_bounded(s, p);
    let q = skip_blanks(s, p);
    if q < s.len() {
        lemma_runs_bounded(s, q + 1);
        let one = s.subrange(q, q + 1);
        if kind_of_surface(one) is Some {
            lemma_kind_is_spelled(one);
        }
        if is_letter(s[q]) {
            let w = s.subrange(q, letters_end(s, q));
            if kind_of_surface(w) is Some {
                lemma_kind_is_spelled(w);
            }
        }
    }
}

/// Once the lexer has yielded `EOF`, it yields the same `EOF` token again
/// and stays where it is.
pub proof fn lemma_eof_is_terminal(s: Seq<char>, p: int)
    requires
        0 <= p <= s.len(),
        lex_step(s, p).kind == TokenType::EOF,
    ensures
        lex_step(s, lex_step(s, p).end) == lex_step(s, p),
{
    lemma_lex_step_advances(s, p);
    lemma_runs_bounded(s, p);
}

/// Copies a string slice into an owned string.
pub(crate) fn owned(s: &str) -> (r: String)
    ensures
        r@ == s@,
{
    broadcast use vstd::string::group_string_axioms;
    s.to_string()
}

/// Turns source text into tokens, one per call of `next_token`.
pub struct Lexer {
    input: String,
    chars: Vec<char>,
    position: usize,
    ch: Option<char>,
}

impl Lexer {
    /// The source text being read.
    pub closed spec fn source(&self) -> Seq<char> {
        self.chars@
    }

    /// The position of the character under the cursor.
    pub closed spec fn pos(&self) -> int {
        self.position as int
    }

    /// The cursor lies within the text and the current character is the one
    /// under it, absent at the end.
    pub closed spec fn wf(&self) -> bool {
        &&& self.input@ == self.chars@
        &&& self.chars@.len() <= usize::MAX
        &&& self.position <= self.chars@.len()
        &&& self.ch == if self.position < self.chars@.len() {
            Some(self.chars@[self.position as int])
        } else {
            None::<char>
        }
    }

    /// The cursor of a well-formed lexer lies within its text.
    pub proof fn lemma_cursor_in_bounds(&self)
        requires
            self.wf(),
        ensures
            0 <= self.pos() <= self.source().len(),
    {
    }

    /// A lexer at the start of `input`.
    pub fn new(input: &str) -> (l: Lexer)
        ensures
            l.wf(),
            l.source() == input@,
            l.pos() == 0,
    {
        let n = input.unicode_len();
        let mut chars: Vec<char> = Vec::new();
        let mut i: usize = 0;
        while i < n
            invariant
                n == input@.len(),
                i <= n,
                chars@ == input@.subrange(0, i as int),
            decreases n - i,
        {
            chars.push(input.get_char(i));
            i = i + 1;
        }
        assert(chars@ == input@);
        let ch = if n > 0 {
            Some(chars[0])
        } else {
            None
        };
        Lexer { input: owned(input), chars, position: 0, ch }
    }

    /// Moves the cursor one character forward.
    fn read_char(&mut self)
        requires
            old(self).wf(),
            old(self).pos() < old(self).source().len(),
        ensures
            final(self).wf(),
            final(self).source() == old(self).source(),
            final(self).pos() == old(self).pos() + 1,
            final(self).input == old(self).input,
    {
        self.position = self.position + 1;
        if self.position < self.chars.len() {
            self.ch = Some(self.chars[self.position]);
        } else {
            self.ch = None;
        }
    }

    /// The character after the one under the cursor, if any.
    fn peek_char(&self) -> (r: Option<char>)
        requires
            self.wf(),
        ensures
            r == if self.pos() + 1 < self.source().len() {
                Some(self.source()[self.pos() + 1])
            } else {
                None::<char>
            },
    {
        if self.chars.len() - self.position > 1 {
            Some(self.chars[self.position + 1])
        } else {
            None
        }
    }

    /// Moves the cursor past a run of whitespace.
    fn skip_whitespace(&mut self)
        requires
            old(self).wf(),
        ensures
            final(self).wf(),
            final(self).source() == old(self).source(),
            final(self).pos() == skip_blanks(old(self).source(), old(self).pos()),
            final(self).input == old(self).input,
    {
        while self.ch.is_some() && char_is_blank(self.ch.unwrap())
            invariant
                self.wf(),
                self.source() == old(self).source(),
                self.input == old(self).input,
                skip_blanks(self.source(), self.pos()) == skip_blanks(
                    old(self).source(),
                    old(self).pos(),
                ),
            decreases self.source().len() - self.pos(),
        {
            self.read_char();
        }
    }

    /// The text between two positions, as an owned string.
    fn text_between(&self, from: usize, to: usize) -> (r: String)
        requires
            self.wf(),
            from <= to <= self.source().len(),
        ensures
            r@ == self.source().subrange(from as int, to as int),
    {
        owned(self.input.as_str().substring_char(from, to))
    }

    /// Reads the run of letters under the cursor as a keyword or an
    /// identifier.
    fn read_identifier(&mut self) -> (t: Token)
        requires
            old(self).wf(),
        ensures
            final(self).wf(),
            final(self).source() == old(self).source(),
            final(self).pos() == letters_end(old(self).source(), old(self).pos()),
            t.literal@ == old(self).source().subrange(old(self).pos(), final(self).pos()),
            t.token_type == word_kind(t.literal@),
    {
        let start = self.position;
        while self.ch.is_some() && char_is_letter(self.ch.unwrap())
            invariant
                self.wf(),
                self.source() == old(self).source(),
                self.input == old(self).input,
                start == old(self).pos(),
                start <= self.pos(),
                letters_end(self.source(), self.pos()) == letters_end(
                    old(self).source(),
                    old(self).pos(),
                ),
            decreases self.source().len() - self.pos(),
        {
            self.read_char();
        }
        let literal = self.text_between(start, self.position);
        let token_type = TokenType::lookup_identifier(literal.as_str());
        Token { token_type, literal }
    }

    /// Reads the run of digits under the cursor as an integer literal.
    fn read_number(&mut self) -> (t: Token)
        requires
            old(self).wf(),
        ensures
            final(self).wf(),
            final(self).source() == old(self).source(),
            final(self).pos() == digits_end(old(self).source(), old(self).pos()),
            t.literal@ == old(self).source().subrange(old(self).pos(), final(self).pos()),
            t.token_type == TokenType::INT,
    {
        let start = self.position;
        while self.ch.is_some() && char_is_digit(self.ch.unwrap())
            invariant
                self.wf(),
                self.source() == old(self).source(),
                self.input == old(self).input,
                start == old(self).pos(),
                start <= self.pos(),
                digits_end(self.source(), self.pos()) == digits_end(
                    old(self).source(),
                    old(self).pos(),
                ),
            decreases self.source().len() - self.pos(),
        {
            self.read_char();
        }
        let literal = self.text_between(start, self.position);
        Token { token_type: TokenType::INT, literal }
    }

    /// Produces the next token and moves past it. At the end of the input
    /// it yields `EOF` with the text `"EOF"`, on this call and every later one.
    pub fn next_token(&mut self) -> (t: Token)
        requires
            old(self).wf(),
        ensures
            final(self).wf(),
            final(self).source() == old(self).source(),
            lex_step(old(self).source(), old(self).pos()) == (Lexeme {
                kind: t.token_type,
                text: t.literal@,
                end: final(self).pos(),
            }),
    {
        self.skip_whitespace();
        let start = self.position;
        match self.ch {
            None => Token { token_type: TokenType::EOF, literal: owned("EOF") },
            Some(c) => {
                let next = self.peek_char();
                if (c == '=' || c == '!') && next == Some('=') {
                    self.read_char();
                    self.read_char();
                    let token_type = if c == '=' {
                        TokenType::EQ
                    } else {
                        TokenType::NEQ
                    };
                    return Token { token_type, literal: self.text_between(start, self.position) };
                }
                let literal = self.text_between(start, start + 1);
                match TokenType::from_surface(literal.as_str()) {
                    Some(token_type) => {
                        self.read_char();
                        Token { token_type, literal }
                    },
                    None => {
                        if char_is_letter(c) {
                            self.read_identifier()
                        } else if char_is_digit(c) {
                            self.read_number()
                        } else {
                            self.read_char();
                            Token { token_type: TokenType::ILLEGAL, literal }
                        }
                    },
                }
            },
        }
    }
}

} // verus!
