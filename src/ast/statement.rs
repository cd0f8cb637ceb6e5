//! Statement nodes, their models and their canonical rendering.

use vstd::prelude::*;

use super::expression::{self, render_expr, ExprModel, IdentModel, Identifier};
use super::NodeInterface;
use crate::text::push_text;
use crate::token::{Token, TokenModel};

verus! {

/// A statement node.
#[derive(Debug)]
pub enum Statement {
    Let(Let),
    Return(Return),
    Expression(Expression),
    Block(Block),
}

/// The model of a statement.
pub enum StmtModel {
    Let { token: TokenModel, name: IdentModel, value: ExprModel },
    Return { token: TokenModel, value: Option<ExprModel> },
    Expression { token: TokenModel, expression: ExprModel },
    Block(BlockModel),
}

/// The model of a block: the token that opened it and its statements.
pub struct BlockModel {
    pub token: TokenModel,
    pub statements: Seq<StmtModel>,
}

/// The canonical text of a statement.
pub open spec fn render_stmt(s: StmtModel) -> Seq<char>
    decreases s, 0int,
{
    match s {
        StmtModel::Let { token, name, value } => token.display() + " "@ + name.value + " = "@
            + render_expr(value) + ";"@,
        StmtModel::Return { token, value } => token.display() + " "@ + match value {
            Some(v) => render_expr(v),
            None => Seq::<char>::empty(),
        } + ";"@,
        StmtModel::Expression { expression, .. } => render_expr(expression),
        StmtModel::Block(b) => render_block(b),
    }
}

/// The first `n` statements of `s`, rendered one after the other.
pub open spec fn render_stmts(s: Seq<StmtModel>, n: int) -> Seq<char>
    decreases s, n,
{
    if n <= 0 || n > s.len() {
        Seq::<char>::empty()
    } else {
        render_stmts(s, n - 1) + render_stmt(s[n - 1])
    }
}

/// The canonical text of a block: its statements, one after the other.
pub open spec fn render_block(b: BlockModel) -> Seq<char>
    decreases b, 0int,
{
    render_stmts(b.statements, b.statements.len() as int)
}

/// The models of the first `n` statements of `s`.
pub open spec fn stmt_models(s: Seq<Statement>, n: int) -> Seq<StmtModel>
    decreases s, n,
{
    if n <= 0 || n > s.len() {
        Seq::<StmtModel>::empty()
    } else {
        stmt_models(s, n - 1).push(s[n - 1].model())
    }
}

/// The models of all the statements of `s`.
pub open spec fn stmts_model(s: Seq<Statement>) -> Seq<StmtModel> {
    stmt_models(s, s.len() as int)
}

pub proof fn lemma_stmt_models(s: Seq<Statement>, n: int)
    requires
        0 <= n <= s.len(),
    ensures
        stmt_models(s, n).len() == n,
        forall|i: int| 0 <= i < n ==> #[trigger] stmt_models(s, n)[i] == s[i].model(),
    decreases n,
{
    if n > 0 {
        lemma_stmt_models(s, n - 1);
    }
}

impl Statement {
    pub open spec fn model(&self) -> StmtModel
        decreases self, 0int,
    {
        match self {
            Statement::Let(l) => StmtModel::Let {
                token: l.token@,
                name: l.name.model(),
                value: l.value.model(),
            },
            Statement::Return(r) => StmtModel::Return {
                token: r.token@,
                value: match r.return_value {
                    Some(v) => Some(v.model()),
                    None => None,
                },
            },
            Statement::Expression(e) => StmtModel::Expression {
                token: e.token@,
                expression: e.expression.model(),
            },
            Statement::Block(b) => StmtModel::Block(b.model()),
        }
    }

    pub fn let_statement(&self) -> (r: Option<&Let>)
        ensures
            match self {
                Statement::Let(l) => r == Some(l),
                _ => r is None,
            },
    {
        match self {
            Statement::Let(l) => Some(l),
            _ => None,
        }
    }

    pub fn return_statement(&self) -> (r: Option<&Return>)
        ensures
            match self {
                Statement::Return(s) => r == Some(s),
                _ => r is None,
            },
    {
        match self {
            Statement::Return(s) => Some(s),
            _ => None,
        }
    }

    pub fn expression_statement(&self) -> (r: Option<&Expression>)
        ensures
            match self {
                Statement::Expression(e) => r == Some(e),
                _ => r is None,
            },
    {
        match self {
            Statement::Expression(e) => Some(e),
            _ => None,
        }
    }

    pub fn block_statement(&self) -> (r: Option<&Block>)
        ensures
            match self {
                Statement::Block(b) => r == Some(b),
                _ => r is None,
            },
    {
        match self {
            Statement::Block(b) => Some(b),
            _ => None,
        }
    }

    /// The canonical text of the statement.
    pub fn to_string(&self) -> (r: String)
        ensures
            r@ == render_stmt(self.model()),
        decreases self, 0int,
    {
        match self {
            Statement::Let(l) => l.to_string(),
            Statement::Return(s) => s.to_string(),
            Statement::Expression(e) => e.to_string(),
            Statement::Block(b) => b.to_string(),
        }
    }
}

impl NodeInterface for Statement {
    open spec fn literal_model(&self) -> Seq<char> {
        match self {
            Statement::Let(l) => l.token@.display(),
            Statement::Return(r) => r.token@.display(),
            _ => Seq::<char>::empty(),
        }
    }

    fn token_literal(&self) -> (r: String) {
        match self {
            Statement::Let(l) => l.token_literal(),
            Statement::Return(s) => s.token_literal(),
            _ => String::new(),
        }
    }
}

/// `let <name> = <value>;`
#[derive(Debug)]
pub struct Let {
    pub token: Token,
    pub name: Identifier,
    pub value: expression::Expression,
}

impl Let {
    pub fn to_string(&self) -> (r: String)
        ensures
            r@ == self.token@.display() + " "@ + self.name.value@ + " = "@ + render_expr(
                self.value.model(),
            ) + ";"@,
        decreases self, 0int,
    {
        let mut out = self.token.to_string();
        push_text(&mut out, " ");
        push_text(&mut out, self.name.value.as_str());
        push_text(&mut out, " = ");
        let value = self.value.to_string();
        push_text(&mut out, value.as_str());
        push_text(&mut out, ";");
        out
    }
}

impl NodeInterface for Let {
    open spec fn literal_model(&self) -> Seq<char> {
        self.token@.display()
    }

    fn token_literal(&self) -> (r: String) {
        self.token.to_string()
    }
}

/// `return <value>;`, or a bare `return;`.
#[derive(Debug)]
pub struct Return {
    pub token: Token,
    pub return_value: Option<expression::Expression>,
}

impl Return {
    pub fn to_string(&self) -> (r: String)
        ensures
            r@ == self.token@.display() + " "@ + match self.return_value {
                Some(v) => render_expr(v.model()),
                None => Seq::<char>::empty(),
            } + ";"@,
        decreases self, 0int,
    {
        let mut out = self.token.to_string();
        push_text(&mut out, " ");
        match &self.return_value {
            Some(v) => {
                let value = v.to_string();
                push_text(&mut out, value.as_str());
            },
            None => {},
        }
        push_text(&mut out, ";");
        out
    }
}

impl NodeInterface for Return {
    open spec fn literal_model(&self) -> Seq<char> {
        self.token@.display()
    }

    fn token_literal(&self) -> (r: String) {
        self.token.to_string()
    }
}

/// An expression standing as a statement.
#[derive(Debug)]
pub struct Expression {
    pub token: Token,
    pub expression: expression::Expression,
}

impl Expression {
    pub fn to_string(&self) -> (r: String)
        ensures
            r@ == render_expr(self.expression.model()),
        decreases self, 0int,
    {
        self.expression.to_string()
    }
}

impl NodeInterface for Expression {
    open spec fn literal_model(&self) -> Seq<char> {
        self.token@.display()
    }

    fn token_literal(&self) -> (r: String) {
        self.token.to_string()
    }
}

/// A brace-delimited sequence of statements.
#[derive(Debug)]
pub struct Block {
    pub token: Token,
    pub statements: Vec<Statement>,
}

impl Block {
    pub open spec fn model(&self) -> BlockModel
        decreases self, 0int,
    {
        BlockModel {
            token: self.token@,
            statements: stmt_models(self.statements@, self.statements@.len() as int),
        }
    }

    pub fn to_string(&self) -> (r: String)
        ensures
            r@ == render_block(self.model()),
        decreases self, 0int,
    {
        let ghost ss = stmts_model(self.statements@);
        proof {
            lemma_stmt_models(self.statements@, self.statements@.len() as int);
        }
        let mut out = String::new();
        let mut i: usize = 0;
        while i < self.statements.len()
            invariant
                i <= self.statements@.len(),
                ss == stmts_model(self.statements@),
                ss.len() == self.statements@.len(),
                forall|k: int|
                    0 <= k < ss.len() ==> #[trigger] ss[k] == self.statements@[k].model(),
                out@ == render_stmts(ss, i as int),
            decreases self.statements@.len() - i,
        {
            let s = self.statements[i].to_string();
            push_text(&mut out, s.as_str());
            i += 1;
        }
        out
    }
}

impl NodeInterface for Block {
    open spec fn literal_model(&self) -> Seq<char> {
        self.token.literal@
    }

    fn token_literal(&self) -> (r: String) {
        self.token.literal.clone()
    }
}

} // verus!
