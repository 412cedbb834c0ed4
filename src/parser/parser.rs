use vstd::prelude::*;
use crate::lexer::{Lexer, eof_text, lex_step, lemma_lex_step_advances};
use crate::lexer::owned;
use crate::parser::ast::{Expr, Program, Statement, StatementModel, statement_views};
use crate::token::{Token, TokenType, kind_name};

verus! {

/// The parser's two-token window over the input: the lexer's position, and
/// the kind and text of the current and the next token.
pub struct Window {
    pub pos: int,
    pub cur_kind: TokenType,
    pub cur_text: Seq<char>,
    pub peek_kind: TokenType,
    pub peek_text: Seq<char>,
}

/// What one attempt at a statement yields: the statement, if any, the
/// diagnostics recorded, and the window afterwards.
pub struct StatementStep {
    pub stmt: Option<StatementModel>,
    pub errors: Seq<Seq<char>>,
    pub after: Window,
}

/// The window that a fresh parser holds over `s` when its lexer starts at `p`.
pub open spec fn first_window(s: Seq<char>, p: int) -> Window {
    let a = lex_step(s, p);
    let b = lex_step(s, a.end);
    Window { pos: b.end, cur_kind: a.kind, cur_text: a.text, peek_kind: b.kind, peek_text: b.text }
}

/// Shifts the next token into the current slot and reads a new next token.
pub open spec fn advance(s: Seq<char>, w: Window) -> Window {
    let l = lex_step(s, w.pos);
    Window {
        pos: l.end,
        cur_kind: w.peek_kind,
        cur_text: w.peek_text,
        peek_kind: l.kind,
        peek_text: l.text,
    }
}

/// A window that the parser can hold: the position lies within the input,
/// an `EOF` in the next slot means the input is used up, and an `EOF` in
/// the current slot is followed by another.
pub open spec fn window_ok(s: Seq<char>, w: Window) -> bool {
    &&& 0 <= w.pos <= s.len()
    &&& w.peek_kind == TokenType::EOF ==> w.pos == s.len() && w.peek_text == eof_text()
    &&& w.cur_kind == TokenType::EOF ==> w.peek_kind == TokenType::EOF && w.cur_text
        == eof_text()
}

/// How much input and lookahead a window has left to use.
pub open spec fn remaining(s: Seq<char>, w: Window) -> nat {
    let input = if 0 <= w.pos <= s.len() {
        (s.len() - w.pos) as nat
    } else {
        0
    };
    let peek: nat = if w.peek_kind == TokenType::EOF {
        0
    } else {
        1
    };
    let cur: nat = if w.cur_kind == TokenType::EOF {
        0
    } else {
        1
    };
    3 * input + peek + cur
}

/// Advances until a `;` (or the end of the input) is the current token.
pub open spec fn skip_to_semicolon(s: Seq<char>, w: Window) -> Window
    decreases remaining(s, w),
{
    if w.cur_kind == TokenType::SEMICOLON || w.cur_kind == TokenType::EOF {
        w
    } else {
        let n = advance(s, w);
        if remaining(s, n) < remaining(s, w) {
            skip_to_semicolon(s, n)
        } else {
            n
        }
    }
}

/// The expression that stands in for the unparsed right-hand side of a
/// statement.
pub open spec fn placeholder() -> Seq<char> {
    "dummy"@
}

/// The diagnostic for a next token of kind `found` where `expected` was due.
pub open spec fn expectation_error(expected: TokenType, found: TokenType) -> Seq<char> {
    "Expected next token to be "@ + kind_name(expected) + " got "@ + kind_name(found)
        + " instead."@
}

/// A `let` statement: `let <identifier> = ... ;`.
pub open spec fn let_step(s: Seq<char>, w: Window) -> StatementStep {
    if w.peek_kind != TokenType::IDENTIFIER {
        StatementStep {
            stmt: None,
            errors: seq![expectation_error(TokenType::IDENTIFIER, w.peek_kind)],
            after: w,
        }
    } else {
        let w1 = advance(s, w);
        if w1.peek_kind != TokenType::ASSIGN {
            StatementStep {
                stmt: None,
                errors: seq![expectation_error(TokenType::ASSIGN, w1.peek_kind)],
                after: w1,
            }
        } else {
            StatementStep {
                stmt: Some(StatementModel::Let { name: w1.cur_text, value: placeholder() }),
                errors: seq![],
                after: skip_to_semicolon(s, advance(s, w1)),
            }
        }
    }
}

/// A `return` statement: `return ... ;`.
pub open spec fn return_step(s: Seq<char>, w: Window) -> StatementStep {
    StatementStep {
        stmt: Some(StatementModel::Return { value: placeholder() }),
        errors: seq![],
        after: skip_to_semicolon(s, advance(s, w)),
    }
}

/// One statement attempt, chosen by the kind of the current token.
pub open spec fn statement_step(s: Seq<char>, w: Window) -> StatementStep {
    match w.cur_kind {
        TokenType::LET => let_step(s, w),
        TokenType::RETURN => return_step(s, w),
        _ => StatementStep { stmt: None, errors: seq![], after: w },
    }
}

/// The statements and diagnostics of a whole parse from window `w`.
pub open spec fn program_from(s: Seq<char>, w: Window) -> (Seq<StatementModel>, Seq<Seq<char>>)
    decreases remaining(s, w),
{
    if w.cur_kind == TokenType::EOF {
        (seq![], seq![])
    } else {
        let st = statement_step(s, w);
        let found = match st.stmt {
            Some(m) => seq![m],
            None => seq![],
        };
        let n = advance(s, st.after);
        if remaining(s, n) < remaining(s, w) {
            let rest = program_from(s, n);
            (found + rest.0, st.errors + rest.1)
        } else {
            (found, st.errors)
        }
    }
}

/// The texts of a list of strings.
pub open spec fn texts(v: Seq<String>) -> Seq<Seq<char>> {
    v.map_values(|e: String| e@)
}

/// Advancing keeps the window valid and uses up input or lookahead, unless
/// the current token is already `EOF`, where nothing changes.
pub proof fn lemma_advance(s: Seq<char>, w: Window)
    requires
        window_ok(s, w),
    ensures
        window_ok(s, advance(s, w)),
        remaining(s, advance(s, w)) <= remaining(s, w),
        w.cur_kind != TokenType::EOF ==> remaining(s, advance(s, w)) < remaining(s, w),
        w.cur_kind == TokenType::EOF ==> advance(s, w) == w,
{
    lemma_lex_step_advances(s, w.pos);
    if w.peek_kind == TokenType::EOF {
        lemma_eof_at_end(s);
    }
}

/// At the end of the input the lexer yields `EOF` and stays there.
pub proof fn lemma_eof_at_end(s: Seq<char>)
    ensures
        lex_step(s, s.len() as int).kind == TokenType::EOF,
        lex_step(s, s.len() as int).text == eof_text(),
        lex_step(s, s.len() as int).end == s.len(),
{
}

/// Skipping to a `;` keeps the window valid and does not add to what is left.
pub proof fn lemma_skip(s: Seq<char>, w: Window)
    requires
        window_ok(s, w),
    ensures
        window_ok(s, skip_to_semicolon(s, w)),
        remaining(s, skip_to_semicolon(s, w)) <= remaining(s, w),
    decreases remaining(s, w),
{
    lemma_advance(s, w);
    if !(w.cur_kind == TokenType::SEMICOLON || w.cur_kind == TokenType::EOF) {
        lemma_skip(s, advance(s, w));
    }
}

/// A statement attempt keeps the window valid, and the advance after it
/// always makes progress.
pub proof fn lemma_statement_step(s: Seq<char>, w: Window)
    requires
        window_ok(s, w),
        w.cur_kind != TokenType::EOF,
    ensures
        window_ok(s, statement_step(s, w).after),
        remaining(s, advance(s, statement_step(s, w).after)) < remaining(s, w),
{
    lemma_advance(s, w);
    let w1 = advance(s, w);
    lemma_advance(s, w1);
    lemma_skip(s, w1);
    lemma_skip(s, advance(s, w1));
    let a = statement_step(s, w).after;
    lemma_advance(s, a);
}

/// Reads the tokens of a lexer into `let` and `return` statements.
pub struct Parser {
    lexer: Lexer,
    curr_token: Token,
    peek_token: Token,
    errors: Vec<String>,
}

impl Parser {
    /// The source text that the parser reads.
    pub closed spec fn source(&self) -> Seq<char> {
        self.lexer.source()
    }

    /// The parser's current window over the source.
    pub closed spec fn window(&self) -> Window {
        Window {
            pos: self.lexer.pos(),
            cur_kind: self.curr_token.token_type,
            cur_text: self.curr_token.literal@,
            peek_kind: self.peek_token.token_type,
            peek_text: self.peek_token.literal@,
        }
    }

    /// The diagnostics recorded so far, oldest first.
    pub closed spec fn error_log(&self) -> Seq<Seq<char>> {
        texts(self.errors@)
    }

    /// The lexer is well formed and the window is one the parser can hold.
    pub closed spec fn wf(&self) -> bool {
        self.lexer.wf() && window_ok(self.source(), self.window())
    }

    /// A parser over the rest of `l`'s input, with the first two tokens read.
    pub fn new(l: Lexer) -> (p: Self)
        requires
            l.wf(),
        ensures
            p.wf(),
            p.source() == l.source(),
            p.window() == first_window(l.source(), l.pos()),
            p.error_log() == Seq::<Seq<char>>::empty(),
    {
        let mut lexer = l;
        proof {
            lexer.lemma_cursor_in_bounds();
            lemma_lex_step_advances(lexer.source(), lexer.pos());
        }
        let curr_token = lexer.next_token();
        proof {
            lexer.lemma_cursor_in_bounds();
            lemma_lex_step_advances(lexer.source(), lexer.pos());
            if curr_token.token_type == TokenType::EOF {
                lemma_eof_at_end(lexer.source());
            }
        }
        let peek_token = lexer.next_token();
        let p = Parser { lexer, curr_token, peek_token, errors: Vec::new() };
        assert(texts(p.errors@) =~= Seq::<Seq<char>>::empty());
        p
    }

    /// Shifts the next token into the current slot and reads a new one.
    pub fn next_token(&mut self)
        requires
            old(self).wf(),
        ensures
            final(self).wf(),
            final(self).source() == old(self).source(),
            final(self).window() == advance(old(self).source(), old(self).window()),
            final(self).error_log() == old(self).error_log(),
    {
        proof {
            lemma_advance(self.source(), self.window());
        }
        let mut next = self.lexer.next_token();
        std::mem::swap(&mut self.peek_token, &mut next);
        self.curr_token = next;
    }

    /// Parses statements until the current token is `EOF`. Tokens that start
    /// no statement are passed over; malformed statements add diagnostics.
    pub fn parse_program(&mut self) -> (prog: Program)
        requires
            old(self).wf(),
        ensures
            final(self).wf(),
            final(self).source() == old(self).source(),
            final(self).window().cur_kind == TokenType::EOF,
            statement_views(prog.statements@) == program_from(
                old(self).source(),
                old(self).window(),
            ).0,
            final(self).error_log() == old(self).error_log() + program_from(
                old(self).source(),
                old(self).window(),
            ).1,
    {
        let ghost s = self.source();
        let ghost w0 = self.window();
        let ghost e0 = self.error_log();
        let ghost mut found_errors: Seq<Seq<char>> = seq![];
        let mut statements: Vec<Statement> = Vec::new();
        while !self.current_token_is(TokenType::EOF)
            invariant
                self.wf(),
                self.source() == s,
                program_from(s, w0).0 == statement_views(statements@) + program_from(
                    s,
                    self.window(),
                ).0,
                program_from(s, w0).1 == found_errors + program_from(s, self.window()).1,
                self.error_log() == e0 + found_errors,
            decreases remaining(s, self.window()),
        {
            let ghost w = self.window();
            let ghost before = statement_views(statements@);
            proof {
                lemma_statement_step(s, w);
            }
            let found = self.parse_statement();
            match found {
                Some(stmt) => {
                    statements.push(stmt);
                    assert(statement_views(statements@) =~= before.push(stmt@));
                },
                None => {},
            }
            self.next_token();
            proof {
                let st = statement_step(s, w);
                let rest = program_from(s, self.window());
                found_errors = found_errors + st.errors;
                assert(self.error_log() =~= e0 + found_errors);
                assert(program_from(s, w0).1 =~= found_errors + rest.1);
                match st.stmt {
                    Some(m) => {
                        assert(before + (seq![m] + rest.0) =~= before.push(m) + rest.0);
                    },
                    None => {
                        assert(before + (seq![] + rest.0) =~= before + rest.0);
                    },
                }
            }
        }
        proof {
            assert(statement_views(statements@) + seq![] =~= statement_views(statements@));
            assert(found_errors + seq![] =~= found_errors);
        }
        Program { statements }
    }

    /// Attempts one statement at the current token: a `let` or a `return`
    /// statement, or nothing for any other token.
    pub fn parse_statement(&mut self) -> (r: Option<Statement>)
        requires
            old(self).wf(),
        ensures
            final(self).wf(),
            final(self).source() == old(self).source(),
            r matches Some(st) ==> statement_step(old(self).source(), old(self).window()).stmt == Some(st@),
            r is None ==> statement_step(old(self).source(), old(self).window()).stmt is None,
            final(self).window() == statement_step(old(self).source(), old(self).window()).after,
            final(self).error_log() == old(self).error_log() + statement_step(
                old(self).source(),
                old(self).window(),
            ).errors,
    {
        match self.curr_token.token_type {
            TokenType::LET => self.parse_let_statement(),
            TokenType::RETURN => self.parse_return_statement(),
            _ => {
                assert(self.error_log() + seq![] =~= self.error_log());
                None
            },
        }
    }

    /// Parses `let <identifier> = ... ;` with the current token on `let`.
    /// A missing identifier or `=` is recorded and yields no statement.
    pub fn parse_let_statement(&mut self) -> (r: Option<Statement>)
        requires
            old(self).wf(),
        ensures
            final(self).wf(),
            final(self).source() == old(self).source(),
            r matches Some(st) ==> let_step(old(self).source(), old(self).window()).stmt == Some(st@),
            r is None ==> let_step(old(self).source(), old(self).window()).stmt is None,
            final(self).window() == let_step(old(self).source(), old(self).window()).after,
            final(self).error_log() == old(self).error_log() + let_step(
                old(self).source(),
                old(self).window(),
            ).errors,
    {
        let ghost s = self.source();
        let ghost w = self.window();
        if !self.expect_peek_token(TokenType::IDENTIFIER) {
            assert(self.error_log() =~= old(self).error_log() + let_step(s, w).errors);
            return None;
        }
        let name = self.curr_token.literal.clone();
        let ghost w1 = self.window();
        if !self.expect_peek_token(TokenType::ASSIGN) {
            assert(self.error_log() =~= old(self).error_log() + let_step(s, w).errors);
            return None;
        }
        self.skip_to_semicolon();
        assert(w1 == advance(s, w));
        assert(self.error_log() + seq![] =~= self.error_log());
        Some(Statement::Let(name, Expr::Identifier(owned("dummy"))))
    }

    /// Parses `return ... ;` with the current token on `return`.
    pub fn parse_return_statement(&mut self) -> (r: Option<Statement>)
        requires
            old(self).wf(),
        ensures
            final(self).wf(),
            final(self).source() == old(self).source(),
            r matches Some(st) ==> return_step(old(self).source(), old(self).window()).stmt == Some(st@),
            r is Some,
            final(self).window() == return_step(old(self).source(), old(self).window()).after,
            final(self).error_log() == old(self).error_log(),
    {
        self.next_token();
        self.skip_to_semicolon();
        Some(Statement::Return(Expr::Identifier(owned("dummy"))))
    }

    /// Advances until the current token is `;`, or `EOF` when no `;` is left.
    fn skip_to_semicolon(&mut self)
        requires
            old(self).wf(),
        ensures
            final(self).wf(),
            final(self).source() == old(self).source(),
            final(self).window() == skip_to_semicolon(old(self).source(), old(self).window()),
            final(self).error_log() == old(self).error_log(),
    {
        while !self.current_token_is(TokenType::SEMICOLON) && !self.current_token_is(TokenType::EOF)
            invariant
                self.wf(),
                self.source() == old(self).source(),
                self.error_log() == old(self).error_log(),
                skip_to_semicolon(self.source(), self.window()) == skip_to_semicolon(
                    old(self).source(),
                    old(self).window(),
                ),
            decreases remaining(self.source(), self.window()),
        {
            proof {
                lemma_advance(self.source(), self.window());
            }
            self.next_token();
        }
    }

    /// The diagnostics recorded so far, oldest first.
    pub fn errors(&self) -> (r: &Vec<String>)
        ensures
            texts(r@) == self.error_log(),
    {
        &self.errors
    }

    /// Records that the next token is not of kind `t`.
    fn peek_error(&mut self, t: TokenType)
        requires
            old(self).wf(),
        ensures
            final(self).wf(),
            final(self).source() == old(self).source(),
            final(self).window() == old(self).window(),
            final(self).error_log() == old(self).error_log().push(
                expectation_error(t, old(self).window().peek_kind),
            ),
    {
        let mut msg = owned("Expected next token to be ");
        msg.append(t.name());
        msg.append(" got ");
        msg.append(self.peek_token.token_type.name());
        msg.append(" instead.");
        self.errors.push(msg);
        assert(texts(self.errors@) =~= texts(old(self).errors@).push(
            expectation_error(t, old(self).window().peek_kind),
        ));
    }

    /// Whether the current token is of kind `t`.
    fn current_token_is(&self, t: TokenType) -> (r: bool)
        ensures
            r == (self.window().cur_kind == t),
    {
        self.curr_token.token_type == t
    }

    /// Whether the next token is of kind `t`.
    fn peek_token_is(&self, t: TokenType) -> (r: bool)
        ensures
            r == (self.window().peek_kind == t),
    {
        self.peek_token.token_type == t
    }

    /// Advances when the next token is of kind `t`; otherwise records a
    /// diagnostic and stays put.
    fn expect_peek_token(&mut self, t: TokenType) -> (r: bool)
        requires
            old(self).wf(),
        ensures
            final(self).wf(),
            final(self).source() == old(self).source(),
            r == (old(self).window().peek_kind == t),
            r ==> final(self).window() == advance(old(self).source(), old(self).window()),
            r ==> final(self).error_log() == old(self).error_log(),
            !r ==> final(self).window() == old(self).window(),
            !r ==> final(self).error_log() == old(self).error_log().push(
                expectation_error(t, old(self).window().peek_kind),
            ),
    {
        if self.peek_token_is(t) {
            self.next_token();
            true
        } else {
            self.peek_error(t);
            false
        }
    }
}

} // verus!
