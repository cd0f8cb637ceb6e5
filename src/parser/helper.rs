//! The parsing routines for the constructs that start or continue an
//! expression, for blocks, and the table of operator precedences.

use vstd::prelude::*;

use super::grammar::{self, digits_value, integer_cause, is_decimal, lemma_advance, precedence_level};
use super::{expr_outcome, lemma_stmts_model_push, Parser};
use crate::ast::expression::{
    expr_models, exprs_model, idents_model, Boolean, Call, ExprModel, Expression, FunctionLiteral,
    IdentModel, Identifier, If, Infix, IntegerLiteral, Prefix,
};
use crate::ast::statement::{stmts_model, Block, Statement, StmtModel};
use crate::lexer::is_digit_char;
use crate::text::{chars_of, push_text, text_of};
use crate::token::TokenType;

verus! {

/// How tightly an operator binds, from loosest to tightest.
#[derive(Debug, Clone, Copy, PartialEq, Eq, Structural)]
pub enum Precedence {
    Lowest,
    Equals,
    LessGreater,
    Sum,
    Product,
    Prefix,
    Call,
}

impl Precedence {
    /// The rank of the level, 0 for `Lowest` up to 6 for `Call`.
    pub open spec fn level(self) -> int {
        match self {
            Precedence::Lowest => 0,
            Precedence::Equals => 1,
            Precedence::LessGreater => 2,
            Precedence::Sum => 3,
            Precedence::Product => 4,
            Precedence::Prefix => 5,
            Precedence::Call => 6,
        }
    }

    pub fn level_of(&self) -> (r: u8)
        ensures
            r == self.level(),
    {
        match self {
            Precedence::Lowest => 0,
            Precedence::Equals => 1,
            Precedence::LessGreater => 2,
            Precedence::Sum => 3,
            Precedence::Product => 4,
            Precedence::Prefix => 5,
            Precedence::Call => 6,
        }
    }

    /// The precedence of a token as an operator; `Lowest` for a token that
    /// is no binary operator.
    pub fn precedences(token: &TokenType) -> (r: Precedence)
        ensures
            r.level() == precedence_level(*token),
    {
        match token {
            TokenType::Eq => Precedence::Equals,
            TokenType::NotEq => Precedence::Equals,
            TokenType::Lt => Precedence::LessGreater,
            TokenType::Gt => Precedence::LessGreater,
            TokenType::Plus => Precedence::Sum,
            TokenType::Minus => Precedence::Sum,
            TokenType::Slash => Precedence::Product,
            TokenType::Asterisk => Precedence::Product,
            TokenType::LParen => Precedence::Call,
            _ => Precedence::Lowest,
        }
    }
}

/// Whether a token of category `k` can start an expression.
pub fn has_prefix_fn(k: TokenType) -> (r: bool)
    ensures
        r == grammar::has_prefix(k),
{
    match k {
        TokenType::Ident | TokenType::Int | TokenType::Bang | TokenType::Minus | TokenType::True
        | TokenType::False | TokenType::LParen | TokenType::If | TokenType::Function => true,
        _ => false,
    }
}

/// Whether a token of category `k` can continue an expression.
pub fn has_infix_fn(k: TokenType) -> (r: bool)
    ensures
        r == grammar::has_infix(k),
{
    match k {
        TokenType::Plus | TokenType::Minus | TokenType::Slash | TokenType::Asterisk
        | TokenType::Eq | TokenType::NotEq | TokenType::Lt | TokenType::Gt
        | TokenType::LParen => true,
        _ => false,
    }
}

/// Runs the routine for the construct that the current token starts.
pub(crate) fn parse_prefix(parser: &mut Parser) -> (r: Result<Expression, String>)
    requires
        old(parser).wf(),
        grammar::has_prefix(old(parser).model().cur.kind),
    ensures
        final(parser).wf(),
        final(parser).model().same_run(old(parser).model()),
        final(parser).model().rank() <= old(parser).model().rank(),
        final(parser).model() == grammar::parse_prefix(old(parser).model()).1,
        expr_outcome(r, grammar::parse_prefix(old(parser).model()).0, final(parser).model()),
    decreases old(parser).model().rank(), 4int,
{
    let t = parser.cur_token();
    match t.token_type {
        TokenType::Ident => parse_identifier(parser),
        TokenType::Int => parse_integer_literal(parser),
        TokenType::True | TokenType::False => parse_boolean(parser),
        TokenType::Bang | TokenType::Minus => parse_prefix_expression(parser),
        TokenType::LParen => parse_grouped_expression(parser),
        TokenType::If => parse_if_expression(parser),
        _ => parse_function_literal(parser),
    }
}

/// Runs the routine for the operator that the current token is.
pub(crate) fn parse_infix(parser: &mut Parser, left: Expression) -> (r: Result<Expression, String>)
    requires
        old(parser).wf(),
        old(parser).model().cur.kind != TokenType::EOF,
    ensures
        final(parser).wf(),
        final(parser).model().same_run(old(parser).model()),
        final(parser).model().rank() <= old(parser).model().rank(),
        final(parser).model() == grammar::parse_infix(old(parser).model(), left.model()).1,
        expr_outcome(
            r,
            grammar::parse_infix(old(parser).model(), left.model()).0,
            final(parser).model(),
        ),
    decreases old(parser).model().rank(), 2int,
{
    if parser.cur_token_is(TokenType::LParen) {
        parse_call_expression(parser, Box::new(left))
    } else {
        parse_infix_expression(parser, Box::new(left))
    }
}

pub fn parse_identifier(parser: &mut Parser) -> (r: Result<Expression, String>)
    requires
        old(parser).wf(),
    ensures
        final(parser).wf(),
        final(parser).model().same_run(old(parser).model()),
        final(parser).model() == grammar::parse_identifier(old(parser).model()).1,
        expr_outcome(r, grammar::parse_identifier(old(parser).model()).0, final(parser).model()),
{
    let token = parser.cur_token();
    let value = token.literal.clone();
    Ok(Expression::Identifier(Identifier { token, value }))
}

/// The 64-bit signed integer that `t` writes in decimal; otherwise why not.
pub fn parse_decimal(t: &str) -> (r: Result<i64, String>)
    ensures
        match r {
            Ok(v) => grammar::decimal_i64(t@) == Some(v),
            Err(cause) => grammar::decimal_i64(t@) is None && cause@ == integer_cause(t@),
        },
{
    let chars = chars_of(t);
    if chars.len() == 0 {
        return Err(text_of("cannot parse integer from empty string"));
    }
    let mut i: usize = 0;
    while i < chars.len()
        invariant
            chars@ == t@,
            i <= chars@.len(),
            forall|k: int| 0 <= k < i ==> is_digit_char(#[trigger] chars@[k]),
        decreases chars@.len() - i,
    {
        if !('0' <= chars[i] && chars[i] <= '9') {
            assert(!is_digit_char(t@[i as int]));
            return Err(text_of("invalid digit found in string"));
        }
        i += 1;
    }
    assert(is_decimal(t@));
    let mut value: i64 = 0;
    let mut i: usize = 0;
    while i < chars.len()
        invariant
            chars@ == t@,
            is_decimal(t@),
            i <= chars@.len(),
            value == digits_value(t@.take(i as int)),
            0 <= value,
        decreases chars@.len() - i,
    {
        let c = chars[i];
        let d = (c as u32 - '0' as u32) as i64;
        assert(t@.take(i + 1).drop_last() =~= t@.take(i as int));
        assert(is_digit_char(t@[i as int]));
        if value > (i64::MAX - d) / 10 {
            proof {
                lemma_digits_value_prefix(t@, i + 1);
                assert(value * 10 + d > i64::MAX) by (nonlinear_arith)
                    requires
                        value > (i64::MAX - d) / 10,
                        0 <= d <= 9,
                ;
            }
            return Err(text_of("number too large to fit in target type"));
        }
        assert(value * 10 + d <= i64::MAX) by (nonlinear_arith)
            requires
                value <= (i64::MAX - d) / 10,
                0 <= d <= 9,
                0 <= value,
        ;
        value = value * 10 + d;
        i += 1;
    }
    assert(t@.take(t@.len() as int) =~= t@);
    Ok(value)
}

/// A prefix of a sequence of digits is worth no more than the whole.
proof fn lemma_digits_value_prefix(t: Seq<char>, i: int)
    requires
        is_decimal(t),
        0 <= i <= t.len(),
    ensures
        0 <= digits_value(t.take(i)) <= digits_value(t),
    decreases t.len(),
{
    lemma_digits_value_nonneg(t.take(i));
    if i < t.len() {
        let u = t.drop_last();
        assert(is_decimal(u) || u.len() == 0);
        if u.len() == 0 {
            assert(t.take(i) =~= Seq::<char>::empty());
            lemma_digits_value_nonneg(t);
        } else {
            assert(t.take(i) =~= u.take(i));
            lemma_digits_value_prefix(u, i);
            lemma_digits_value_nonneg(u);
            assert(is_digit_char(t[t.len() - 1]));
        }
    } else {
        assert(t.take(i) =~= t);
    }
}

proof fn lemma_digits_value_nonneg(t: Seq<char>)
    requires
        forall|k: int| 0 <= k < t.len() ==> is_digit_char(#[trigger] t[k]),
    ensures
        digits_value(t) >= 0,
    decreases t.len(),
{
    if t.len() > 0 {
        let u = t.drop_last();
        assert forall|k: int| 0 <= k < u.len() implies is_digit_char(#[trigger] u[k]) by {
            assert(u[k] == t[k]);
        }
        lemma_digits_value_nonneg(u);
        assert(is_digit_char(t[t.len() - 1]));
    }
}

/// An integer literal; text that is no 64-bit integer is recorded as an
/// error, with its cause.
pub fn parse_integer_literal(parser: &mut Parser) -> (r: Result<Expression, String>)
    requires
        old(parser).wf(),
    ensures
        final(parser).wf(),
        final(parser).model().same_run(old(parser).model()),
        final(parser).model() == grammar::parse_integer_literal(old(parser).model()).1,
        expr_outcome(
            r,
            grammar::parse_integer_literal(old(parser).model()).0,
            final(parser).model(),
        ),
{
    let token = parser.cur_token();
    match parse_decimal(token.literal.as_str()) {
        Ok(value) => Ok(Expression::IntegerLiteral(IntegerLiteral { token, value })),
        Err(cause) => {
            let mut msg = text_of("could not parse ");
            push_text(&mut msg, token.literal.as_str());
            push_text(&mut msg, " as integer. Err: ");
            push_text(&mut msg, cause.as_str());
            assert(msg@ =~= grammar::integer_message(token.literal@));
            Err(parser.fail(msg))
        },
    }
}

pub fn parse_boolean(parser: &mut Parser) -> (r: Result<Expression, String>)
    requires
        old(parser).wf(),
    ensures
        final(parser).wf(),
        final(parser).model().same_run(old(parser).model()),
        final(parser).model() == grammar::parse_boolean(old(parser).model()).1,
        expr_outcome(r, grammar::parse_boolean(old(parser).model()).0, final(parser).model()),
{
    let value = parser.cur_token_is(TokenType::True);
    Ok(Expression::Boolean(Boolean { token: parser.cur_token(), value }))
}

/// A unary operator and its operand.
pub fn parse_prefix_expression(parser: &mut Parser) -> (r: Result<Expression, String>)
    requires
        old(parser).wf(),
        old(parser).model().cur.kind != TokenType::EOF,
    ensures
        final(parser).wf(),
        final(parser).model().same_run(old(parser).model()),
        final(parser).model().rank() <= old(parser).model().rank(),
        final(parser).model() == grammar::parse_prefix_expression(old(parser).model()).1,
        expr_outcome(
            r,
            grammar::parse_prefix_expression(old(parser).model()).0,
            final(parser).model(),
        ),
    decreases old(parser).model().rank(), 3int,
{
    let token = parser.cur_token();
    let operator = token.literal.clone();
    proof {
        lemma_advance(parser.model());
    }
    parser.next_token();
    let right = match parser.parse_expression(Precedence::Prefix) {
        Ok(e) => e,
        Err(e) => {
            return Err(e);
        },
    };
    Ok(Expression::Prefix(Prefix { token, operator, right: Box::new(right) }))
}

/// `( <expression> )`
pub fn parse_grouped_expression(parser: &mut Parser) -> (r: Result<Expression, String>)
    requires
        old(parser).wf(),
        old(parser).model().cur.kind != TokenType::EOF,
    ensures
        final(parser).wf(),
        final(parser).model().same_run(old(parser).model()),
        final(parser).model().rank() <= old(parser).model().rank(),
        final(parser).model() == grammar::parse_grouped_expression(old(parser).model()).1,
        expr_outcome(
            r,
            grammar::parse_grouped_expression(old(parser).model()).0,
            final(parser).model(),
        ),
    decreases old(parser).model().rank(), 3int,
{
    proof {
        lemma_advance(parser.model());
    }
    parser.next_token();
    let exp = match parser.parse_expression(Precedence::Lowest) {
        Ok(e) => e,
        Err(e) => {
            return Err(e);
        },
    };
    if !parser.expect_peek(TokenType::RParen) {
        return Err(parser.last_error());
    }
    Ok(exp)
}

/// `if (<condition>) { ... }`, with an optional `else { ... }`.
#[verifier::rlimit(40)]
pub fn parse_if_expression(parser: &mut Parser) -> (r: Result<Expression, String>)
    requires
        old(parser).wf(),
        old(parser).model().cur.kind != TokenType::EOF,
    ensures
        final(parser).wf(),
        final(parser).model().same_run(old(parser).model()),
        final(parser).model().rank() <= old(parser).model().rank(),
        final(parser).model() == grammar::parse_if_expression(old(parser).model()).1,
        expr_outcome(r, grammar::parse_if_expression(old(parser).model()).0, final(parser).model()),
    decreases old(parser).model().rank(), 2int,
{
    let token = parser.cur_token();
    if !parser.expect_peek(TokenType::LParen) {
        return Err(parser.last_error());
    }
    proof {
        lemma_advance(parser.model());
    }
    parser.next_token();
    let condition = match parser.parse_expression(Precedence::Lowest) {
        Ok(e) => e,
        Err(e) => {
            return Err(e);
        },
    };
    if !parser.expect_peek(TokenType::RParen) {
        return Err(parser.last_error());
    }
    if !parser.expect_peek(TokenType::LBrace) {
        return Err(parser.last_error());
    }
    let consequence = parse_block_statement(parser);
    let mut alternative: Option<Block> = None;
    if parser.peek_token_is(TokenType::Else) {
        proof {
            lemma_advance(parser.model());
        }
        parser.next_token();
        if !parser.expect_peek(TokenType::LBrace) {
            return Err(parser.last_error());
        }
        alternative = Some(parse_block_statement(parser));
    }
    Ok(Expression::If(If { token, condition: Box::new(condition), consequence, alternative }))
}

/// A block, from its `{` to its `}` or to the end of input. A statement
/// that fails is left out (its message is recorded).
pub fn parse_block_statement(parser: &mut Parser) -> (b: Block)
    requires
        old(parser).wf(),
        old(parser).model().cur.kind != TokenType::EOF,
    ensures
        final(parser).wf(),
        final(parser).model().same_run(old(parser).model()),
        final(parser).model().rank() < old(parser).model().rank(),
        (b.model(), final(parser).model()) == grammar::parse_block_statement(old(parser).model()),
    decreases old(parser).model().rank(), 0int,
{
    let token = parser.cur_token();
    let ghost st = parser.model();
    proof {
        lemma_advance(st);
    }
    parser.next_token();
    let ghost st1 = parser.model();
    let mut statements: Vec<Statement> = Vec::new();
    assert(stmts_model(statements@) =~= Seq::<StmtModel>::empty());
    while !parser.cur_token_is(TokenType::RBrace) && !parser.cur_token_is(TokenType::EOF)
        invariant
            parser.wf(),
            parser.model().same_run(old(parser).model()),
            st == old(parser).model(),
            parser.model().rank() <= st1.rank(),
            st1.rank() < st.rank(),
            grammar::parse_block_statements(parser.model(), stmts_model(statements@))
                == grammar::parse_block_statements(st1, Seq::empty()),
        decreases parser.model().rank(),
    {
        let ghost cur = parser.model();
        match parser.parse_statement() {
            Ok(s) => {
                proof {
                    lemma_stmts_model_push(statements@, s);
                }
                statements.push(s);
            },
            Err(_) => {},
        }
        proof {
            lemma_advance(parser.model());
            lemma_advance(cur);
        }
        parser.next_token();
    }
    Block { token, statements }
}

/// `fn(<parameters>) { ... }`
pub fn parse_function_literal(parser: &mut Parser) -> (r: Result<Expression, String>)
    requires
        old(parser).wf(),
        old(parser).model().cur.kind != TokenType::EOF,
    ensures
        final(parser).wf(),
        final(parser).model().same_run(old(parser).model()),
        final(parser).model().rank() <= old(parser).model().rank(),
        final(parser).model() == grammar::parse_function_literal(old(parser).model()).1,
        expr_outcome(
            r,
            grammar::parse_function_literal(old(parser).model()).0,
            final(parser).model(),
        ),
    decreases old(parser).model().rank(), 2int,
{
    let token = parser.cur_token();
    if !parser.expect_peek(TokenType::LParen) {
        return Err(parser.last_error());
    }
    let parameters = match parse_function_parameters(parser) {
        Ok(p) => p,
        Err(e) => {
            return Err(e);
        },
    };
    if !parser.expect_peek(TokenType::LBrace) {
        return Err(parser.last_error());
    }
    let body = parse_block_statement(parser);
    Ok(Expression::FunctionLiteral(FunctionLiteral { token, parameters, body }))
}

/// The parameter names of a function, from its `(` to its `)`.
fn parse_function_parameters(parser: &mut Parser) -> (r: Result<Vec<Identifier>, String>)
    requires
        old(parser).wf(),
    ensures
        final(parser).wf(),
        final(parser).model().same_run(old(parser).model()),
        final(parser).model().rank() <= old(parser).model().rank(),
        final(parser).model() == grammar::parse_function_parameters(old(parser).model()).1,
        match r {
            Ok(ps) => grammar::parse_function_parameters(old(parser).model()).0 == Some(
                idents_model(ps@),
            ),
            Err(msg) => grammar::parse_function_parameters(old(parser).model()).0 is None
                && final(parser).model().errors.len() > 0 && final(parser).model().errors.last()
                == msg@,
        },
{
    let mut identifiers: Vec<Identifier> = Vec::new();
    proof {
        lemma_advance(parser.model());
    }
    if parser.peek_token_is(TokenType::RParen) {
        parser.next_token();
        assert(idents_model(identifiers@) =~= Seq::<IdentModel>::empty());
        return Ok(identifiers);
    }
    if !parser.expect_peek(TokenType::Ident) {
        return Err(parser.last_error());
    }
    let ghost st1 = parser.model();
    let token = parser.cur_token();
    let value = token.literal.clone();
    identifiers.push(Identifier { token, value });
    assert(idents_model(identifiers@) =~= seq![grammar::ident_of(st1.cur)]);
    while parser.peek_token_is(TokenType::Comma)
        invariant
            parser.wf(),
            parser.model().same_run(old(parser).model()),
            parser.model().rank() <= st1.rank(),
            st1.rank() <= old(parser).model().rank(),
            grammar::parse_more_parameters(parser.model(), idents_model(identifiers@))
                == grammar::parse_function_parameters(old(parser).model()),
        decreases parser.model().rank(),
    {
        let ghost cur = parser.model();
        proof {
            lemma_advance(cur);
        }
        parser.next_token();
        if !parser.expect_peek(TokenType::Ident) {
            return Err(parser.last_error());
        }
        let token = parser.cur_token();
        let value = token.literal.clone();
        let ghost before = identifiers@;
        let id = Identifier { token, value };
        identifiers.push(id);
        assert(idents_model(identifiers@) =~= idents_model(before).push(id.model()));
    }
    if !parser.expect_peek(TokenType::RParen) {
        return Err(parser.last_error());
    }
    Ok(identifiers)
}

/// A binary operator, with `left` before it and its right operand after it.
pub fn parse_infix_expression(parser: &mut Parser, left: Box<Expression>) -> (r: Result<
    Expression,
    String,
>)
    requires
        old(parser).wf(),
        old(parser).model().cur.kind != TokenType::EOF,
    ensures
        final(parser).wf(),
        final(parser).model().same_run(old(parser).model()),
        final(parser).model().rank() <= old(parser).model().rank(),
        final(parser).model() == grammar::parse_infix_expression(old(parser).model(), left.model()).1,
        expr_outcome(
            r,
            grammar::parse_infix_expression(old(parser).model(), left.model()).0,
            final(parser).model(),
        ),
    decreases old(parser).model().rank(), 1int,
{
    let token = parser.cur_token();
    let operator = token.literal.clone();
    let precedence = parser.cur_precedence();
    proof {
        lemma_advance(parser.model());
    }
    parser.next_token();
    let right = match parser.parse_expression(precedence) {
        Ok(e) => e,
        Err(e) => {
            return Err(e);
        },
    };
    Ok(Expression::Infix(Infix { token, left, operator, right: Box::new(right) }))
}

/// A call of `function`: the argument list from its `(` to its `)`.
#[verifier::rlimit(40)]
pub fn parse_call_expression(parser: &mut Parser, function: Box<Expression>) -> (r: Result<
    Expression,
    String,
>)
    requires
        old(parser).wf(),
        old(parser).model().cur.kind != TokenType::EOF,
    ensures
        final(parser).wf(),
        final(parser).model().same_run(old(parser).model()),
        final(parser).model().rank() <= old(parser).model().rank(),
        final(parser).model() == grammar::parse_call_expression(
            old(parser).model(),
            function.model(),
        ).1,
        expr_outcome(
            r,
            grammar::parse_call_expression(old(parser).model(), function.model()).0,
            final(parser).model(),
        ),
    decreases old(parser).model().rank(), 1int,
{
    let arguments = match parse_call_arguments(parser) {
        Ok(a) => a,
        Err(e) => {
            return Err(e);
        },
    };
    proof {
        crate::ast::expression::lemma_expr_models(arguments@, arguments@.len() as int);
    }
    Ok(Expression::Call(Call { token: parser.cur_token(), function, arguments }))
}

/// The models of `s` with one more expression: one more model.
proof fn lemma_exprs_model_push(s: Seq<Expression>, x: Expression)
    ensures
        exprs_model(s.push(x)) == exprs_model(s).push(x.model()),
{
    assert forall|n: int| 0 <= n <= s.len() implies expr_models(s.push(x), n) == expr_models(
        s,
        n,
    ) by {
        lemma_expr_models_prefix(s, x, n);
    }
}

proof fn lemma_expr_models_prefix(s: Seq<Expression>, x: Expression, n: int)
    requires
        0 <= n <= s.len(),
    ensures
        expr_models(s.push(x), n) == expr_models(s, n),
    decreases n,
{
    if n > 0 {
        lemma_expr_models_prefix(s, x, n - 1);
        assert(s.push(x)[n - 1] == s[n - 1]);
    }
}

/// The arguments of a call, from its `(` to its `)`.
fn parse_call_arguments(parser: &mut Parser) -> (r: Result<Vec<Expression>, String>)
    requires
        old(parser).wf(),
        old(parser).model().cur.kind != TokenType::EOF,
    ensures
        final(parser).wf(),
        final(parser).model().same_run(old(parser).model()),
        final(parser).model().rank() <= old(parser).model().rank(),
        final(parser).model() == grammar::parse_call_arguments(old(parser).model()).1,
        match r {
            Ok(a) => grammar::parse_call_arguments(old(parser).model()).0 == Some(
                exprs_model(a@),
            ),
            Err(msg) => grammar::parse_call_arguments(old(parser).model()).0 is None
                && final(parser).model().errors.len() > 0 && final(parser).model().errors.last()
                == msg@,
        },
    decreases old(parser).model().rank(), 0int,
{
    let mut args: Vec<Expression> = Vec::new();
    proof {
        lemma_advance(parser.model());
    }
    if parser.peek_token_is(TokenType::RParen) {
        parser.next_token();
        assert(exprs_model(args@) =~= Seq::<ExprModel>::empty());
        return Ok(args);
    }
    parser.next_token();
    let ghost st1 = parser.model();
    let first = match parser.parse_expression(Precedence::Lowest) {
        Ok(e) => e,
        Err(e) => {
            return Err(e);
        },
    };
    let ghost st2 = parser.model();
    let ghost first_model = first.model();
    proof {
        lemma_exprs_model_push(args@, first);
    }
    args.push(first);
    assert(exprs_model(args@) =~= seq![first_model]);
    while parser.peek_token_is(TokenType::Comma)
        invariant
            parser.wf(),
            parser.model().same_run(old(parser).model()),
            parser.model().rank() <= st2.rank(),
            st2.rank() <= st1.rank(),
            st1.rank() < old(parser).model().rank(),
            grammar::parse_more_arguments(parser.model(), exprs_model(args@))
                == grammar::parse_call_arguments(old(parser).model()),
        decreases parser.model().rank(),
    {
        let ghost cur = parser.model();
        proof {
            lemma_advance(cur);
            lemma_advance(cur.advance());
        }
        parser.next_token();
        parser.next_token();
        let arg = match parser.parse_expression(Precedence::Lowest) {
            Ok(e) => e,
            Err(e) => {
                return Err(e);
            },
        };
        proof {
            lemma_exprs_model_push(args@, arg);
        }
        args.push(arg);
    }
    if !parser.expect_peek(TokenType::RParen) {
        return Err(parser.last_error());
    }
    Ok(args)
}

} // verus!
