//! The syntax tree: programs, statements and expressions, each node owning
//! its children, each with a model and a canonical rendering.

pub mod expression;
pub mod statement;

use vstd::prelude::*;

use expression::{render_expr, Expression};
use statement::{lemma_stmt_models, render_stmt, render_stmts, stmts_model, Statement, StmtModel};

verus! {

/// What every node can tell of the token it was built from.
pub trait NodeInterface {
    /// The text that `token_literal` returns.
    spec fn literal_model(&self) -> Seq<char>;

    fn token_literal(&self) -> (r: String)
        ensures
            r@ == self.literal_model(),
    ;
}

/// Any node of the tree.
#[derive(Debug)]
pub enum Node {
    Statement(Statement),
    Expression(Expression),
}

impl Node {
    /// The canonical text of the node.
    pub fn to_string(&self) -> (r: String)
        ensures
            r@ == match self {
                Node::Statement(s) => render_stmt(s.model()),
                Node::Expression(e) => render_expr(e.model()),
            },
    {
        match self {
            Node::Statement(s) => s.to_string(),
            Node::Expression(e) => e.to_string(),
        }
    }
}

impl NodeInterface for Node {
    /// A node stands for its whole text.
    open spec fn literal_model(&self) -> Seq<char> {
        match self {
            Node::Statement(s) => render_stmt(s.model()),
            Node::Expression(e) => render_expr(e.model()),
        }
    }

    fn token_literal(&self) -> (r: String) {
        self.to_string()
    }
}

/// The root of every parse: the top-level statements, in order.
#[derive(Debug)]
pub struct Program {
    pub statements: Vec<Statement>,
}

/// The canonical text of a program: its statements, one after the other.
pub open spec fn render_program(p: Seq<StmtModel>) -> Seq<char> {
    render_stmts(p, p.len() as int)
}

impl Program {
    pub open spec fn model(&self) -> Seq<StmtModel> {
        stmts_model(self.statements@)
    }

    /// The canonical text of the program.
    pub fn to_string(&self) -> (r: String)
        ensures
            r@ == render_program(self.model()),
    {
        let ghost ss = self.model();
        proof {
            lemma_stmt_models(self.statements@, self.statements@.len() as int);
        }
        let mut out = String::new();
        let mut i: usize = 0;
        while i < self.statements.len()
            invariant
                i <= self.statements@.len(),
                ss == self.model(),
                ss.len() == self.statements@.len(),
                forall|k: int|
                    0 <= k < ss.len() ==> #[trigger] ss[k] == self.statements@[k].model(),
                out@ == render_stmts(ss, i as int),
            decreases self.statements@.len() - i,
        {
            let s = self.statements[i].to_string();
            crate::text::push_text(&mut out, s.as_str());
            i += 1;
        }
        out
    }
}

impl NodeInterface for Program {
    open spec fn literal_model(&self) -> Seq<char> {
        if self.statements@.len() > 0 {
            self.statements@[0].literal_model()
        } else {
            Seq::<char>::empty()
        }
    }

    fn token_literal(&self) -> (r: String) {
        if self.statements.len() > 0 {
            self.statements[0].token_literal()
        } else {
            String::new()
        }
    }
}

} // verus!
