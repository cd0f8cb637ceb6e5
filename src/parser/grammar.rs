//! The model of the parser: the Pratt parser written as spec functions over
//! the parser's state (lexer position, current and lookahead token, errors).
//!
//! Every function takes a state and returns what it built (`None` where the
//! construct failed) with the state after it. The recursive functions are
//! measured by `rank`, the amount of input left to read; the few checks on
//! `rank` in their bodies always hold on states that `valid` describes, as
//! `lemma_advance` shows, and are there only to let the definitions terminate.

use vstd::prelude::*;

use crate::ast::expression::{ExprModel, IdentModel};
use crate::ast::statement::{BlockModel, StmtModel};
use crate::lexer::{
    has_illegal, illegal_message, is_digit_char, is_illegal_char, lemma_illegal_not_skipped,
    lemma_token_at_progress, token_at,
};
use crate::token::{TokenModel, TokenType};

verus! {

/// The state of a parser.
pub struct ParserModel {
    /// The characters being read.
    pub input: Seq<char>,
    /// Where the parser began to read.
    pub start: nat,
    /// Where the lexer stands: just after the lookahead token.
    pub pos: nat,
    /// The token being looked at.
    pub cur: TokenModel,
    /// The token after it.
    pub peek: TokenModel,
    /// The messages recorded so far, in order.
    pub errors: Seq<Seq<char>>,
}

impl ParserModel {
    /// The states that parsing reaches: the lexer stays within the input,
    /// every illegal character read so far has been reported, and once the
    /// end of input is seen it is seen for good.
    pub open spec fn valid(self) -> bool {
        &&& self.start <= self.pos <= self.input.len()
        &&& has_illegal(self.input, self.start as int, self.pos as int) ==> self.errors.len() > 0
        &&& self.peek.kind == TokenType::EOF ==> self.pos == self.input.len()
        &&& self.cur.kind == TokenType::EOF ==> self.peek.kind == TokenType::EOF
    }

    /// The amount of input left: the characters not read yet, and the
    /// current and lookahead tokens unless they are the end of input.
    pub open spec fn rank(self) -> nat {
        (if self.pos <= self.input.len() {
            (self.input.len() - self.pos) as nat
        } else {
            0nat
        }) + (if self.cur.kind == TokenType::EOF {
            0nat
        } else {
            1nat
        }) + (if self.peek.kind == TokenType::EOF {
            0nat
        } else {
            1nat
        })
    }

    /// Moves one token on: the lookahead becomes current and the lexer
    /// reads the next lookahead; an illegal character is recorded.
    pub open spec fn advance(self) -> ParserModel {
        let (t, np) = token_at(self.input, self.pos);
        ParserModel {
            input: self.input,
            start: self.start,
            pos: np,
            cur: self.peek,
            peek: t,
            errors: if t.kind == TokenType::Illegal {
                self.errors.push(illegal_message(t.text))
            } else {
                self.errors
            },
        }
    }

    /// Both states belong to one parse of one input.
    pub open spec fn same_run(self, other: ParserModel) -> bool {
        self.input == other.input && self.start == other.start
    }

    /// The state with one more message recorded.
    pub open spec fn record(self, msg: Seq<char>) -> ParserModel {
        ParserModel { errors: self.errors.push(msg), ..self }
    }

    /// Moves on if the lookahead has category `k`; records a message if not.
    pub open spec fn expect_peek(self, k: TokenType) -> (bool, ParserModel) {
        if self.peek.kind == k {
            (true, self.advance())
        } else {
            (false, self.record(expected_message(k, self.peek.kind)))
        }
    }
}

/// The state of a fresh parser on a lexer at position `pos` of `input`: the
/// next two tokens read.
pub open spec fn primed(input: Seq<char>, pos: nat) -> ParserModel {
    let blank = TokenModel { kind: TokenType::EOF, text: Seq::<char>::empty() };
    (ParserModel { input, start: pos, pos, cur: blank, peek: blank, errors: Seq::empty() }).advance().advance()
}

pub proof fn lemma_primed(input: Seq<char>, pos: nat)
    requires
        pos <= input.len(),
    ensures
        primed(input, pos).valid(),
{
    let blank = TokenModel { kind: TokenType::EOF, text: Seq::<char>::empty() };
    let s0 = ParserModel { input, start: pos, pos, cur: blank, peek: blank, errors: Seq::empty() };
    let s1 = s0.advance();
    let s2 = s1.advance();
    lemma_token_at_progress(input, pos);
    lemma_token_at_progress(input, s1.pos);
    if has_illegal(input, pos as int, s2.pos as int) {
        let k = choose|k: int|
            pos <= k < s2.pos && 0 <= k < input.len() && is_illegal_char(#[trigger] input[k]);
        if k < s1.pos {
            lemma_illegal_not_skipped(input, pos);
        } else {
            lemma_illegal_not_skipped(input, s1.pos);
        }
    }
}

/// Advancing keeps a state valid and never adds input; it takes some away
/// unless the current token is the end of input. At the end of input
/// nothing is left.
pub proof fn lemma_advance(st: ParserModel)
    requires
        st.valid(),
    ensures
        st.advance().valid(),
        st.advance().rank() <= st.rank(),
        st.cur.kind != TokenType::EOF ==> st.advance().rank() < st.rank(),
        st.cur.kind == TokenType::EOF ==> st.rank() == 0,
        st.advance().errors.len() >= st.errors.len(),
        st.advance().same_run(st),
{
    lemma_token_at_progress(st.input, st.pos);
    let st1 = st.advance();
    if has_illegal(st.input, st.start as int, st1.pos as int) {
        let k = choose|k: int|
            st.start <= k < st1.pos && 0 <= k < st.input.len() && is_illegal_char(
                #[trigger] st.input[k],
            );
        if k >= st.pos {
            lemma_illegal_not_skipped(st.input, st.pos);
        } else {
            assert(has_illegal(st.input, st.start as int, st.pos as int));
        }
    }
}

/// How tightly an operator binds: lowest, equals, comparison, sum,
/// product, prefix, call.
pub open spec fn precedence_level(k: TokenType) -> int {
    match k {
        TokenType::Eq | TokenType::NotEq => 1,
        TokenType::Lt | TokenType::Gt => 2,
        TokenType::Plus | TokenType::Minus => 3,
        TokenType::Slash | TokenType::Asterisk => 4,
        TokenType::LParen => 6,
        _ => 0,
    }
}

/// The level at which the operand of a unary operator is parsed.
pub open spec fn prefix_level() -> int {
    5
}

/// The categories that can start an expression.
pub open spec fn has_prefix(k: TokenType) -> bool {
    match k {
        TokenType::Ident | TokenType::Int | TokenType::Bang | TokenType::Minus | TokenType::True
        | TokenType::False | TokenType::LParen | TokenType::If | TokenType::Function => true,
        _ => false,
    }
}

/// The categories that can continue an expression.
pub open spec fn has_infix(k: TokenType) -> bool {
    match k {
        TokenType::Plus | TokenType::Minus | TokenType::Slash | TokenType::Asterisk
        | TokenType::Eq | TokenType::NotEq | TokenType::Lt | TokenType::Gt
        | TokenType::LParen => true,
        _ => false,
    }
}

pub open spec fn expected_message(want: TokenType, got: TokenType) -> Seq<char> {
    "expected next token to be "@ + want.spelling() + " but got "@ + got.spelling()
        + " instead"@
}

pub open spec fn no_prefix_message(t: TokenModel) -> Seq<char> {
    "no parse function for token "@ + t.display()
}

/// The decimal value of a sequence of digits.
pub open spec fn digits_value(t: Seq<char>) -> int
    decreases t.len(),
{
    if t.len() == 0 {
        0
    } else {
        digits_value(t.drop_last()) * 10 + (t.last() as int - '0' as int)
    }
}

pub open spec fn is_decimal(t: Seq<char>) -> bool {
    t.len() > 0 && forall|i: int| 0 <= i < t.len() ==> is_digit_char(#[trigger] t[i])
}

/// The 64-bit signed integer that `t` writes, if it writes one.
pub open spec fn decimal_i64(t: Seq<char>) -> Option<i64> {
    if is_decimal(t) && digits_value(t) <= i64::MAX {
        Some(digits_value(t) as i64)
    } else {
        None
    }
}

/// Why `t` writes no 64-bit signed integer.
pub open spec fn integer_cause(t: Seq<char>) -> Seq<char> {
    if t.len() == 0 {
        "cannot parse integer from empty string"@
    } else if !is_decimal(t) {
        "invalid digit found in string"@
    } else {
        "number too large to fit in target type"@
    }
}

pub open spec fn integer_message(t: Seq<char>) -> Seq<char> {
    "could not parse "@ + t + " as integer. Err: "@ + integer_cause(t)
}

/// The identifier that the token `t` names.
pub open spec fn ident_of(t: TokenModel) -> IdentModel {
    IdentModel { token: t, value: t.text }
}

/// Passes over a semicolon if one comes next.
pub open spec fn skip_semicolon(st: ParserModel) -> ParserModel {
    if st.peek.kind == TokenType::Semicolon {
        st.advance()
    } else {
        st
    }
}

/// An expression whose operators bind more tightly than `prec`.
pub open spec fn parse_expression(st: ParserModel, prec: int) -> (Option<ExprModel>, ParserModel)
    decreases st.rank(), 5int,
{
    if !has_prefix(st.cur.kind) {
        (None, st.record(no_prefix_message(st.cur)))
    } else {
        let (left, st1) = parse_prefix(st);
        match left {
            None => (None, st1),
            Some(l) => if st1.rank() <= st.rank() {
                parse_infix_loop(st1, prec, l)
            } else {
                (None, st1)
            },
        }
    }
}

/// Whether the expression being parsed at level `prec` goes on past the
/// current token: the lookahead is an operator that binds more tightly.
pub open spec fn continues(st: ParserModel, prec: int) -> bool {
    st.peek.kind != TokenType::Semicolon && prec < precedence_level(st.peek.kind) && has_infix(
        st.peek.kind,
    )
}

/// Extends `left` with operators that bind more tightly than `prec`.
pub open spec fn parse_infix_loop(st: ParserModel, prec: int, left: ExprModel) -> (
    Option<ExprModel>,
    ParserModel,
)
    decreases st.rank(), 3int,
{
    if continues(st, prec) {
        let st1 = st.advance();
        if st1.rank() < st.rank() {
            let (e, st2) = parse_infix(st1, left);
            match e {
                None => (None, st2),
                Some(e) => if st2.rank() <= st1.rank() {
                    parse_infix_loop(st2, prec, e)
                } else {
                    (None, st2)
                },
            }
        } else {
            (None, st1)
        }
    } else {
        (Some(left), st)
    }
}

/// The expression that the current token starts.
pub open spec fn parse_prefix(st: ParserModel) -> (Option<ExprModel>, ParserModel)
    decreases st.rank(), 4int,
{
    match st.cur.kind {
        TokenType::Ident => parse_identifier(st),
        TokenType::Int => parse_integer_literal(st),
        TokenType::True | TokenType::False => parse_boolean(st),
        TokenType::Bang | TokenType::Minus => parse_prefix_expression(st),
        TokenType::LParen => parse_grouped_expression(st),
        TokenType::If => parse_if_expression(st),
        TokenType::Function => parse_function_literal(st),
        _ => (None, st),
    }
}

pub open spec fn parse_identifier(st: ParserModel) -> (Option<ExprModel>, ParserModel) {
    (Some(ExprModel::Identifier(ident_of(st.cur))), st)
}

pub open spec fn parse_integer_literal(st: ParserModel) -> (Option<ExprModel>, ParserModel) {
    match decimal_i64(st.cur.text) {
        Some(v) => (Some(ExprModel::IntegerLiteral { token: st.cur, value: v }), st),
        None => (None, st.record(integer_message(st.cur.text))),
    }
}

pub open spec fn parse_boolean(st: ParserModel) -> (Option<ExprModel>, ParserModel) {
    (Some(ExprModel::Boolean { token: st.cur, value: st.cur.kind == TokenType::True }), st)
}

/// A unary operator and its operand.
pub open spec fn parse_prefix_expression(st: ParserModel) -> (Option<ExprModel>, ParserModel)
    decreases st.rank(), 3int,
{
    let t = st.cur;
    let st1 = st.advance();
    if st1.rank() < st.rank() {
        let (r, st2) = parse_expression(st1, prefix_level());
        match r {
            None => (None, st2),
            Some(r) => (
                Some(ExprModel::Prefix { token: t, operator: t.text, right: Box::new(r) }),
                st2,
            ),
        }
    } else {
        (None, st1)
    }
}

/// `( <expression> )`
pub open spec fn parse_grouped_expression(st: ParserModel) -> (Option<ExprModel>, ParserModel)
    decreases st.rank(), 3int,
{
    let st1 = st.advance();
    if st1.rank() < st.rank() {
        let (e, st2) = parse_expression(st1, 0);
        match e {
            None => (None, st2),
            Some(e) => {
                let (ok, st3) = st2.expect_peek(TokenType::RParen);
                if ok {
                    (Some(e), st3)
                } else {
                    (None, st3)
                }
            },
        }
    } else {
        (None, st1)
    }
}

/// The operator expression that the current token continues from `left`.
pub open spec fn parse_infix(st: ParserModel, left: ExprModel) -> (Option<ExprModel>, ParserModel)
    decreases st.rank(), 2int,
{
    if st.cur.kind == TokenType::LParen {
        parse_call_expression(st, left)
    } else {
        parse_infix_expression(st, left)
    }
}

/// A binary operator, with `left` before it and its right operand after it.
pub open spec fn parse_infix_expression(st: ParserModel, left: ExprModel) -> (
    Option<ExprModel>,
    ParserModel,
)
    decreases st.rank(), 1int,
{
    let t = st.cur;
    let st1 = st.advance();
    if st1.rank() < st.rank() {
        let (r, st2) = parse_expression(st1, precedence_level(t.kind));
        match r {
            None => (None, st2),
            Some(r) => (
                Some(
                    ExprModel::Infix {
                        token: t,
                        left: Box::new(left),
                        operator: t.text,
                        right: Box::new(r),
                    },
                ),
                st2,
            ),
        }
    } else {
        (None, st1)
    }
}

/// A call of `function`: the argument list from its `(` to its `)`.
pub open spec fn parse_call_expression(st: ParserModel, function: ExprModel) -> (
    Option<ExprModel>,
    ParserModel,
)
    decreases st.rank(), 1int,
{
    let (args, st1) = parse_call_arguments(st);
    match args {
        None => (None, st1),
        Some(a) => (
            Some(ExprModel::Call { token: st1.cur, function: Box::new(function), arguments: a }),
            st1,
        ),
    }
}

/// The arguments of a call, from its `(` to its `)`.
pub open spec fn parse_call_arguments(st: ParserModel) -> (Option<Seq<ExprModel>>, ParserModel)
    decreases st.rank(), 0int,
{
    if st.peek.kind == TokenType::RParen {
        (Some(Seq::empty()), st.advance())
    } else {
        let st1 = st.advance();
        if st1.rank() < st.rank() {
            let (a, st2) = parse_expression(st1, 0);
            match a {
                None => (None, st2),
                Some(a) => if st2.rank() <= st1.rank() {
                    parse_more_arguments(st2, seq![a])
                } else {
                    (None, st2)
                },
            }
        } else {
            (None, st1)
        }
    }
}

/// The arguments after those in `acc`, and the closing `)`.
pub open spec fn parse_more_arguments(st: ParserModel, acc: Seq<ExprModel>) -> (
    Option<Seq<ExprModel>>,
    ParserModel,
)
    decreases st.rank(), 0int,
{
    if st.peek.kind == TokenType::Comma {
        let st1 = st.advance().advance();
        if st1.rank() < st.rank() {
            let (a, st2) = parse_expression(st1, 0);
            match a {
                None => (None, st2),
                Some(a) => if st2.rank() <= st1.rank() {
                    parse_more_arguments(st2, acc.push(a))
                } else {
                    (None, st2)
                },
            }
        } else {
            (None, st1)
        }
    } else {
        let (ok, st1) = st.expect_peek(TokenType::RParen);
        if ok {
            (Some(acc), st1)
        } else {
            (None, st1)
        }
    }
}

/// `if (<condition>) { ... }`, with an optional `else { ... }`.
pub open spec fn parse_if_expression(st: ParserModel) -> (Option<ExprModel>, ParserModel)
    decreases st.rank(), 2int,
{
    let t = st.cur;
    let (ok1, st1) = st.expect_peek(TokenType::LParen);
    if !ok1 {
        (None, st1)
    } else {
        let st2 = st1.advance();
        if st2.rank() < st.rank() {
            let (c, st3) = parse_expression(st2, 0);
            match c {
                None => (None, st3),
                Some(c) => {
                    let (ok2, st4) = st3.expect_peek(TokenType::RParen);
                    if !ok2 {
                        (None, st4)
                    } else {
                        let (ok3, st5) = st4.expect_peek(TokenType::LBrace);
                        if !ok3 {
                            (None, st5)
                        } else if st5.rank() < st.rank() {
                            let (cons, st6) = parse_block_statement(st5);
                            if st6.peek.kind == TokenType::Else {
                                let (ok4, st7) = st6.advance().expect_peek(TokenType::LBrace);
                                if !ok4 {
                                    (None, st7)
                                } else if st7.rank() < st.rank() {
                                    let (alt, st8) = parse_block_statement(st7);
                                    (
                                        Some(
                                            ExprModel::If {
                                                token: t,
                                                condition: Box::new(c),
                                                consequence: cons,
                                                alternative: Some(alt),
                                            },
                                        ),
                                        st8,
                                    )
                                } else {
                                    (None, st7)
                                }
                            } else {
                                (
                                    Some(
                                        ExprModel::If {
                                            token: t,
                                            condition: Box::new(c),
                                            consequence: cons,
                                            alternative: None,
                                        },
                                    ),
                                    st6,
                                )
                            }
                        } else {
                            (None, st5)
                        }
                    }
                },
            }
        } else {
            (None, st2)
        }
    }
}

/// `fn(<parameters>) { ... }`
pub open spec fn parse_function_literal(st: ParserModel) -> (Option<ExprModel>, ParserModel)
    decreases st.rank(), 2int,
{
    let t = st.cur;
    let (ok1, st1) = st.expect_peek(TokenType::LParen);
    if !ok1 {
        (None, st1)
    } else {
        let (ps, st2) = parse_function_parameters(st1);
        match ps {
            None => (None, st2),
            Some(ps) => {
                let (ok2, st3) = st2.expect_peek(TokenType::LBrace);
                if !ok2 {
                    (None, st3)
                } else if st3.rank() < st.rank() {
                    let (body, st4) = parse_block_statement(st3);
                    (Some(ExprModel::FunctionLiteral { token: t, parameters: ps, body }), st4)
                } else {
                    (None, st3)
                }
            },
        }
    }
}

/// The parameter names of a function, from its `(` to its `)`.
pub open spec fn parse_function_parameters(st: ParserModel) -> (Option<Seq<IdentModel>>, ParserModel) {
    if st.peek.kind == TokenType::RParen {
        (Some(Seq::empty()), st.advance())
    } else {
        let (ok, st1) = st.expect_peek(TokenType::Ident);
        if !ok {
            (None, st1)
        } else {
            parse_more_parameters(st1, seq![ident_of(st1.cur)])
        }
    }
}

/// The parameter names after those in `acc`, and the closing `)`.
pub open spec fn parse_more_parameters(st: ParserModel, acc: Seq<IdentModel>) -> (
    Option<Seq<IdentModel>>,
    ParserModel,
)
    decreases st.rank(),
{
    if st.peek.kind == TokenType::Comma {
        let (ok, st1) = st.advance().expect_peek(TokenType::Ident);
        if !ok {
            (None, st1)
        } else if st1.rank() < st.rank() {
            parse_more_parameters(st1, acc.push(ident_of(st1.cur)))
        } else {
            (None, st1)
        }
    } else {
        let (ok, st1) = st.expect_peek(TokenType::RParen);
        if ok {
            (Some(acc), st1)
        } else {
            (None, st1)
        }
    }
}

/// A block, from its `{` to its `}` or to the end of input.
pub open spec fn parse_block_statement(st: ParserModel) -> (BlockModel, ParserModel)
    decreases st.rank(), 0int,
{
    let st1 = st.advance();
    if st1.rank() < st.rank() {
        let (ss, st2) = parse_block_statements(st1, Seq::empty());
        (BlockModel { token: st.cur, statements: ss }, st2)
    } else {
        (BlockModel { token: st.cur, statements: Seq::empty() }, st1)
    }
}

/// The statements of a block after those in `acc`; a statement that fails
/// is left out.
pub open spec fn parse_block_statements(st: ParserModel, acc: Seq<StmtModel>) -> (
    Seq<StmtModel>,
    ParserModel,
)
    decreases st.rank(), 9int,
{
    if st.cur.kind == TokenType::RBrace || st.cur.kind == TokenType::EOF {
        (acc, st)
    } else {
        let (s, st1) = parse_statement(st);
        let acc1 = match s {
            Some(s) => acc.push(s),
            None => acc,
        };
        let st2 = st1.advance();
        if st2.rank() < st.rank() {
            parse_block_statements(st2, acc1)
        } else {
            (acc1, st2)
        }
    }
}

/// The statement that the current token starts.
pub open spec fn parse_statement(st: ParserModel) -> (Option<StmtModel>, ParserModel)
    decreases st.rank(), 8int,
{
    match st.cur.kind {
        TokenType::Let => parse_let_statement(st),
        TokenType::Return => parse_return_statement(st),
        _ => parse_expression_statement(st),
    }
}

/// `let <name> = <value>;`
pub open spec fn parse_let_statement(st: ParserModel) -> (Option<StmtModel>, ParserModel)
    decreases st.rank(), 7int,
{
    let t = st.cur;
    let (ok1, st1) = st.expect_peek(TokenType::Ident);
    if !ok1 {
        (None, st1)
    } else {
        let name = ident_of(st1.cur);
        let (ok2, st2) = st1.expect_peek(TokenType::Assign);
        if !ok2 {
            (None, st2)
        } else {
            let st3 = st2.advance();
            if st3.rank() < st.rank() {
                let (v, st4) = parse_expression(st3, 0);
                match v {
                    None => (None, st4),
                    Some(v) => (
                        Some(StmtModel::Let { token: t, name, value: v }),
                        skip_semicolon(st4),
                    ),
                }
            } else {
                (None, st3)
            }
        }
    }
}

/// `return <value>;`, or a bare `return;`.
pub open spec fn parse_return_statement(st: ParserModel) -> (Option<StmtModel>, ParserModel)
    decreases st.rank(), 7int,
{
    let t = st.cur;
    let st1 = st.advance();
    if st1.cur.kind == TokenType::Semicolon {
        (Some(StmtModel::Return { token: t, value: None }), st1)
    } else if st1.rank() < st.rank() {
        let (v, st2) = parse_expression(st1, 0);
        match v {
            None => (None, st2),
            Some(v) => (Some(StmtModel::Return { token: t, value: Some(v) }), skip_semicolon(st2)),
        }
    } else {
        (None, st1)
    }
}

/// An expression standing as a statement, with an optional semicolon.
pub open spec fn parse_expression_statement(st: ParserModel) -> (Option<StmtModel>, ParserModel)
    decreases st.rank(), 6int,
{
    let (e, st1) = parse_expression(st, 0);
    match e {
        None => (None, st1),
        Some(e) => (Some(StmtModel::Expression { token: st.cur, expression: e }), skip_semicolon(st1)),
    }
}

/// The statements of a program after those in `acc`, up to the end of
/// input; a statement that fails is left out.
pub open spec fn parse_statements(st: ParserModel, acc: Seq<StmtModel>) -> (
    Seq<StmtModel>,
    ParserModel,
)
    decreases st.rank(),
{
    if st.cur.kind == TokenType::EOF {
        (acc, st)
    } else {
        let (s, st1) = parse_statement(st);
        let acc1 = match s {
            Some(s) => acc.push(s),
            None => acc,
        };
        let st2 = st1.advance();
        if st2.rank() < st.rank() {
            parse_statements(st2, acc1)
        } else {
            (acc1, st2)
        }
    }
}

/// What parsing `input` as a whole program gives: the statements, and the
/// state at the end (its `errors` are the messages recorded).
pub open spec fn parse_source(input: Seq<char>) -> (Seq<StmtModel>, ParserModel) {
    parse_statements(primed(input, 0), Seq::empty())
}

/// Lexing and parsing are deterministic: the same input gives the same
/// tokens, the same tree and the same messages, every time.
pub proof fn lemma_deterministic(a: Seq<char>, b: Seq<char>, i: nat)
    requires
        a == b,
    ensures
        token_at(a, i) == token_at(b, i),
        parse_source(a) == parse_source(b),
{
}

} // verus!
