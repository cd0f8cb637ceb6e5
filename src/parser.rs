//! The parser: a Pratt parser over the lexer's tokens that builds a
//! `Program` and records a message for every error it meets.
//!
//! `grammar` holds the model. Every parsing function here and in `helper`
//! returns exactly what the model function of the same name gives, and
//! leaves the parser in the state that it gives.

pub mod grammar;
pub mod helper;

use vstd::prelude::*;

use crate::ast::expression::{self, ExprModel, Identifier};
use crate::ast::statement::{self, stmt_models, stmts_model, Statement, StmtModel};
use crate::ast::Program;
use crate::lexer::{has_illegal, illegal_character_message, Lexer};
use crate::text::{push_text, text_of};
use crate::token::{Token, TokenType};
use grammar::{expected_message, lemma_advance, lemma_primed, primed, ParserModel};
use helper::{parse_infix, parse_prefix, Precedence};

verus! {

/// `r` is what the model says: the node `m` on success, and on failure
/// the message that was recorded last.
pub open spec fn expr_outcome(
    r: Result<expression::Expression, String>,
    m: Option<ExprModel>,
    st: ParserModel,
) -> bool {
    match r {
        Ok(e) => m == Some(e.model()),
        Err(msg) => m is None && st.errors.len() > 0 && st.errors.last() == msg@,
    }
}

/// `r` is what the model says: the statement `m` on success, and on
/// failure the message that was recorded last.
pub open spec fn stmt_outcome(r: Result<Statement, String>, m: Option<StmtModel>, st: ParserModel) -> bool {
    match r {
        Ok(s) => m == Some(s.model()),
        Err(msg) => m is None && st.errors.len() > 0 && st.errors.last() == msg@,
    }
}

/// The models of `s` with one more statement: one more model.
pub proof fn lemma_stmts_model_push(s: Seq<Statement>, x: Statement)
    ensures
        stmts_model(s.push(x)) == stmts_model(s).push(x.model()),
{
    assert forall|n: int| 0 <= n <= s.len() implies stmt_models(s.push(x), n) == stmt_models(s, n) by {
        lemma_stmt_models_prefix(s, x, n);
    }
}

proof fn lemma_stmt_models_prefix(s: Seq<Statement>, x: Statement, n: int)
    requires
        0 <= n <= s.len(),
    ensures
        stmt_models(s.push(x), n) == stmt_models(s, n),
    decreases n,
{
    if n > 0 {
        lemma_stmt_models_prefix(s, x, n - 1);
        assert(s.push(x)[n - 1] == s[n - 1]);
    }
}

/// The parser's state: the lexer, the current and lookahead tokens, and
/// the messages recorded so far.
pub struct Parser {
    l: Lexer,
    cur_token: Token,
    peek_token: Token,
    errors: Vec<String>,
    /// Where the lexer stood when the parser was made.
    start: Ghost<nat>,
}

impl Parser {
    /// The state, as the model sees it.
    pub closed spec fn model(&self) -> ParserModel {
        ParserModel {
            input: self.l.source(),
            start: self.start@,
            pos: self.l.cursor(),
            cur: self.cur_token@,
            peek: self.peek_token@,
            errors: self.errors@.map_values(|e: String| e@),
        }
    }

    /// The lexer is in a consistent state.
    pub closed spec fn lexer_ready(&self) -> bool {
        self.l.wf()
    }

    pub open spec fn wf(&self) -> bool {
        self.lexer_ready() && self.model().valid()
    }

    /// A parser on `l`, with the next two tokens read.
    pub fn new(l: Box<Lexer>) -> (p: Parser)
        requires
            l.wf(),
        ensures
            p.wf(),
            p.model() == primed(l.source(), l.cursor()),
    {
        let lex = *l;
        let mut p = Parser {
            l: lex,
            cur_token: Token::new(TokenType::EOF, String::new()),
            peek_token: Token::new(TokenType::EOF, String::new()),
            errors: Vec::new(),
            start: Ghost(l.cursor()),
        };
        assert(p.model().errors =~= Seq::<Seq<char>>::empty());
        p.next_token();
        p.next_token();
        proof {
            l.lemma_cursor_in_bounds();
            lemma_primed(l.source(), l.cursor());
        }
        p
    }

    /// Moves one token on.
    pub(crate) fn next_token(&mut self)
        requires
            old(self).lexer_ready(),
        ensures
            final(self).lexer_ready(),
            final(self).model() == old(self).model().advance(),
    {
        let ghost before = self.model();
        let mut t = self.l.read_token();
        if t.token_type == TokenType::Illegal {
            let m = illegal_character_message(&t);
            self.errors.push(m);
        }
        core::mem::swap(&mut self.peek_token, &mut t);
        self.cur_token = t;
        assert(self.model().errors =~= before.advance().errors);
    }

    /// Records `msg` and hands it back.
    pub(crate) fn fail(&mut self, msg: String) -> (r: String)
        requires
            old(self).wf(),
        ensures
            final(self).wf(),
            final(self).model().same_run(old(self).model()),
            final(self).model() == old(self).model().record(msg@),
            r@ == msg@,
    {
        let r = msg.clone();
        self.errors.push(msg);
        assert(self.model().errors =~= old(self).model().errors.push(r@));
        r
    }

    /// The message recorded last.
    pub(crate) fn last_error(&self) -> (m: String)
        requires
            self.model().errors.len() > 0,
        ensures
            m@ == self.model().errors.last(),
    {
        self.errors[self.errors.len() - 1].clone()
    }

    /// A copy of the current token.
    pub(crate) fn cur_token(&self) -> (t: Token)
        ensures
            t@ == self.model().cur,
    {
        self.cur_token.duplicate()
    }

    pub(crate) fn cur_token_is(&self, t: TokenType) -> (r: bool)
        ensures
            r == (self.model().cur.kind == t),
    {
        self.cur_token.token_type == t
    }

    pub(crate) fn peek_token_is(&self, t: TokenType) -> (r: bool)
        ensures
            r == (self.model().peek.kind == t),
    {
        self.peek_token.token_type == t
    }

    /// Moves on if the lookahead has category `t`; records a message if not.
    pub(crate) fn expect_peek(&mut self, t: TokenType) -> (r: bool)
        requires
            old(self).wf(),
        ensures
            final(self).wf(),
            final(self).model().same_run(old(self).model()),
            (r, final(self).model()) == old(self).model().expect_peek(t),
            final(self).model().rank() <= old(self).model().rank(),
            r && t != TokenType::EOF ==> final(self).model().rank() < old(self).model().rank(),
    {
        proof {
            lemma_advance(self.model());
        }
        if self.peek_token_is(t) {
            self.next_token();
            true
        } else {
            self.peek_error(t);
            false
        }
    }

    /// The messages recorded so far, in order.
    pub fn errors(&self) -> (r: Vec<String>)
        ensures
            r@.map_values(|e: String| e@) == self.model().errors,
    {
        let mut r: Vec<String> = Vec::new();
        let mut i: usize = 0;
        while i < self.errors.len()
            invariant
                i <= self.errors@.len(),
                r@.len() == i,
                forall|k: int| 0 <= k < i ==> #[trigger] r@[k]@ == self.errors@[k]@,
            decreases self.errors@.len() - i,
        {
            r.push(self.errors[i].clone());
            i += 1;
        }
        assert(r@.map_values(|e: String| e@) =~= self.model().errors);
        r
    }

    /// Records that the lookahead is not of category `t`.
    fn peek_error(&mut self, t: TokenType)
        requires
            old(self).wf(),
        ensures
            final(self).wf(),
            final(self).model().same_run(old(self).model()),
            final(self).model() == old(self).model().record(
                expected_message(t, old(self).model().peek.kind),
            ),
    {
        let mut msg = String::new();
        push_text(&mut msg, "expected next token to be ");
        let want = t.to_string();
        push_text(&mut msg, want.as_str());
        push_text(&mut msg, " but got ");
        let got = self.peek_token.token_type.to_string();
        push_text(&mut msg, got.as_str());
        push_text(&mut msg, " instead");
        assert(msg@ =~= expected_message(t, self.model().peek.kind));
        self.fail(msg);
    }

    pub(crate) fn peek_precedence(&self) -> (p: Precedence)
        ensures
            p.level() == grammar::precedence_level(self.model().peek.kind),
    {
        Precedence::precedences(&self.peek_token.token_type)
    }

    pub(crate) fn cur_precedence(&self) -> (p: Precedence)
        ensures
            p.level() == grammar::precedence_level(self.model().cur.kind),
    {
        Precedence::precedences(&self.cur_token.token_type)
    }

    /// Parses statements up to the end of input. A statement that fails is
    /// left out (its message is recorded) and parsing goes on after it.
    /// The whole input is read, and an illegal character in it is always
    /// reported.
    pub fn parse_program(&mut self) -> (program: Program)
        requires
            old(self).wf(),
        ensures
            final(self).wf(),
            final(self).model().same_run(old(self).model()),
            final(self).model().cur.kind == TokenType::EOF,
            final(self).model().pos == final(self).model().input.len(),
            has_illegal(
                old(self).model().input,
                old(self).model().start as int,
                old(self).model().input.len() as int,
            ) ==> final(self).model().errors.len() > 0,
            (program.model(), final(self).model()) == grammar::parse_statements(
                old(self).model(),
                Seq::empty(),
            ),
    {
        let mut statements: Vec<Statement> = Vec::new();
        assert(stmts_model(statements@) =~= Seq::<StmtModel>::empty());
        while !self.cur_token_is(TokenType::EOF)
            invariant
                self.wf(),
                self.model().same_run(old(self).model()),
                grammar::parse_statements(self.model(), stmts_model(statements@))
                    == grammar::parse_statements(old(self).model(), Seq::empty()),
            decreases self.model().rank(),
        {
            let ghost st = self.model();
            let r = self.parse_statement();
            match r {
                Ok(s) => {
                    proof {
                        lemma_stmts_model_push(statements@, s);
                    }
                    statements.push(s);
                },
                Err(_) => {},
            }
            let ghost st1 = self.model();
            proof {
                lemma_advance(st1);
            }
            self.next_token();
            assert(self.model().rank() < st.rank());
        }
        Program { statements }
    }

    /// The statement that the current token starts.
    pub(crate) fn parse_statement(&mut self) -> (r: Result<Statement, String>)
        requires
            old(self).wf(),
        ensures
            final(self).wf(),
            final(self).model().same_run(old(self).model()),
            final(self).model().rank() <= old(self).model().rank(),
            final(self).model() == grammar::parse_statement(old(self).model()).1,
            stmt_outcome(r, grammar::parse_statement(old(self).model()).0, final(self).model()),
        decreases old(self).model().rank(), 8int,
    {
        match self.cur_token.token_type {
            TokenType::Let => match self.parse_let_statement() {
                Ok(s) => Ok(Statement::Let(s)),
                Err(e) => Err(e),
            },
            TokenType::Return => match self.parse_return_statement() {
                Ok(s) => Ok(Statement::Return(s)),
                Err(e) => Err(e),
            },
            _ => match self.parse_expression_statement() {
                Ok(s) => Ok(Statement::Expression(s)),
                Err(e) => Err(e),
            },
        }
    }

    /// Passes over a semicolon if one comes next.
    fn skip_semicolon(&mut self)
        requires
            old(self).wf(),
        ensures
            final(self).wf(),
            final(self).model().same_run(old(self).model()),
            final(self).model() == grammar::skip_semicolon(old(self).model()),
            final(self).model().rank() <= old(self).model().rank(),
    {
        proof {
            lemma_advance(self.model());
        }
        if self.peek_token_is(TokenType::Semicolon) {
            self.next_token();
        }
    }

    /// `let <name> = <value>;`
    fn parse_let_statement(&mut self) -> (r: Result<statement::Let, String>)
        requires
            old(self).wf(),
            old(self).model().cur.kind != TokenType::EOF,
        ensures
            final(self).wf(),
            final(self).model().same_run(old(self).model()),
            final(self).model().rank() <= old(self).model().rank(),
            final(self).model() == grammar::parse_let_statement(old(self).model()).1,
            stmt_outcome(
                match r {
                    Ok(s) => Ok(Statement::Let(s)),
                    Err(e) => Err(e),
                },
                grammar::parse_let_statement(old(self).model()).0,
                final(self).model(),
            ),
        decreases old(self).model().rank(), 7int,
    {
        let token = self.cur_token();
        if !self.expect_peek(TokenType::Ident) {
            return Err(self.last_error());
        }
        let name = Identifier { token: self.cur_token(), value: self.cur_token.literal.clone() };
        if !self.expect_peek(TokenType::Assign) {
            return Err(self.last_error());
        }
        proof {
            lemma_advance(self.model());
        }
        self.next_token();
        let value = match self.parse_expression(Precedence::Lowest) {
            Ok(v) => v,
            Err(e) => {
                return Err(e);
            },
        };
        self.skip_semicolon();
        Ok(statement::Let { token, name, value })
    }

    /// `return <value>;`, or a bare `return;`.
    fn parse_return_statement(&mut self) -> (r: Result<statement::Return, String>)
        requires
            old(self).wf(),
            old(self).model().cur.kind != TokenType::EOF,
        ensures
            final(self).wf(),
            final(self).model().same_run(old(self).model()),
            final(self).model().rank() <= old(self).model().rank(),
            final(self).model() == grammar::parse_return_statement(old(self).model()).1,
            stmt_outcome(
                match r {
                    Ok(s) => Ok(Statement::Return(s)),
                    Err(e) => Err(e),
                },
                grammar::parse_return_statement(old(self).model()).0,
                final(self).model(),
            ),
        decreases old(self).model().rank(), 7int,
    {
        let token = self.cur_token();
        proof {
            lemma_advance(self.model());
        }
        self.next_token();
        if self.cur_token_is(TokenType::Semicolon) {
            return Ok(statement::Return { token, return_value: None });
        }
        let value = match self.parse_expression(Precedence::Lowest) {
            Ok(v) => v,
            Err(e) => {
                return Err(e);
            },
        };
        self.skip_semicolon();
        Ok(statement::Return { token, return_value: Some(value) })
    }

    /// An expression standing as a statement, with an optional semicolon.
    fn parse_expression_statement(&mut self) -> (r: Result<statement::Expression, String>)
        requires
            old(self).wf(),
        ensures
            final(self).wf(),
            final(self).model().same_run(old(self).model()),
            final(self).model().rank() <= old(self).model().rank(),
            final(self).model() == grammar::parse_expression_statement(old(self).model()).1,
            stmt_outcome(
                match r {
                    Ok(s) => Ok(Statement::Expression(s)),
                    Err(e) => Err(e),
                },
                grammar::parse_expression_statement(old(self).model()).0,
                final(self).model(),
            ),
        decreases old(self).model().rank(), 6int,
    {
        let token = self.cur_token();
        let expression = match self.parse_expression(Precedence::Lowest) {
            Ok(e) => e,
            Err(e) => {
                return Err(e);
            },
        };
        self.skip_semicolon();
        Ok(statement::Expression { token, expression })
    }

    /// An expression whose operators bind more tightly than `precedence`.
    pub(crate) fn parse_expression(&mut self, precedence: Precedence) -> (r: Result<
        expression::Expression,
        String,
    >)
        requires
            old(self).wf(),
        ensures
            final(self).wf(),
            final(self).model().same_run(old(self).model()),
            final(self).model().rank() <= old(self).model().rank(),
            final(self).model() == grammar::parse_expression(
                old(self).model(),
                precedence.level(),
            ).1,
            expr_outcome(
                r,
                grammar::parse_expression(old(self).model(), precedence.level()).0,
                final(self).model(),
            ),
        decreases old(self).model().rank(), 5int,
    {
        if !helper::has_prefix_fn(self.cur_token.token_type) {
            let mut msg = text_of("no parse function for token ");
            let t = self.cur_token.to_string();
            push_text(&mut msg, t.as_str());
            return Err(self.fail(msg));
        }
        let left = match parse_prefix(self) {
            Ok(e) => e,
            Err(e) => {
                return Err(e);
            },
        };
        self.parse_infix_loop(precedence, left)
    }

    /// Extends `left` with the operators that bind more tightly than
    /// `precedence`.
    fn parse_infix_loop(&mut self, precedence: Precedence, left: expression::Expression) -> (r:
        Result<expression::Expression, String>)
        requires
            old(self).wf(),
        ensures
            final(self).wf(),
            final(self).model().same_run(old(self).model()),
            final(self).model().rank() <= old(self).model().rank(),
            final(self).model() == grammar::parse_infix_loop(
                old(self).model(),
                precedence.level(),
                left.model(),
            ).1,
            expr_outcome(
                r,
                grammar::parse_infix_loop(old(self).model(), precedence.level(), left.model()).0,
                final(self).model(),
            ),
        decreases old(self).model().rank(), 3int,
    {
        let peek_level = self.peek_precedence().level_of();
        if self.peek_token_is(TokenType::Semicolon) || !(precedence.level_of() < peek_level)
            || !helper::has_infix_fn(self.peek_token.token_type) {
            return Ok(left);
        }
        proof {
            lemma_advance(self.model());
        }
        self.next_token();
        let e = match parse_infix(self, left) {
            Ok(e) => e,
            Err(e) => {
                return Err(e);
            },
        };
        self.parse_infix_loop(precedence, e)
    }
}

} // verus!
