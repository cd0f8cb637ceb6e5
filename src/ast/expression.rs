//! Expression nodes, their models and their canonical rendering.

use vstd::prelude::*;

use super::statement::{render_block, Block, BlockModel};
use super::NodeInterface;
use crate::text::push_text;
use crate::token::{Token, TokenModel};

verus! {

/// An expression node. Every child is owned by its parent.
#[derive(Debug)]
pub enum Expression {
    Identifier(Identifier),
    IntegerLiteral(IntegerLiteral),
    Prefix(Prefix),
    Infix(Infix),
    Boolean(Boolean),
    If(If),
    FunctionLiteral(FunctionLiteral),
    Call(Call),
}

/// The model of an identifier: its token and its name.
pub struct IdentModel {
    pub token: TokenModel,
    pub value: Seq<char>,
}

/// The model of an expression: the same tree, over tokens and sequences.
pub enum ExprModel {
    Identifier(IdentModel),
    IntegerLiteral { token: TokenModel, value: i64 },
    Prefix { token: TokenModel, operator: Seq<char>, right: Box<ExprModel> },
    Infix { token: TokenModel, left: Box<ExprModel>, operator: Seq<char>, right: Box<ExprModel> },
    Boolean { token: TokenModel, value: bool },
    If {
        token: TokenModel,
        condition: Box<ExprModel>,
        consequence: BlockModel,
        alternative: Option<BlockModel>,
    },
    FunctionLiteral { token: TokenModel, parameters: Seq<IdentModel>, body: BlockModel },
    Call { token: TokenModel, function: Box<ExprModel>, arguments: Seq<ExprModel> },
}

/// The canonical text of an expression: operators fully parenthesised,
/// arguments and parameters separated by `", "`.
pub open spec fn render_expr(e: ExprModel) -> Seq<char>
    decreases e, 0int,
{
    match e {
        ExprModel::Identifier(id) => id.value,
        ExprModel::IntegerLiteral { token, .. } => token.text,
        ExprModel::Prefix { operator, right, .. } => "("@ + operator + render_expr(*right) + ")"@,
        ExprModel::Infix { left, operator, right, .. } => "("@ + render_expr(*left) + " "@
            + operator + " "@ + render_expr(*right) + ")"@,
        ExprModel::Boolean { token, .. } => token.text,
        ExprModel::If { condition, consequence, alternative, .. } => "if"@ + render_expr(
            *condition,
        ) + " "@ + render_block(consequence) + match alternative {
            Some(b) => "else "@ + render_block(b),
            None => Seq::<char>::empty(),
        },
        ExprModel::FunctionLiteral { token, parameters, body } => token.text + "("@ + join_names(
            parameters,
            parameters.len() as int,
        ) + ")"@ + render_block(body),
        ExprModel::Call { function, arguments, .. } => render_expr(*function) + "("@
            + render_list(arguments, arguments.len() as int) + ")"@,
    }
}

/// The first `n` expressions of `s`, rendered and separated by `", "`.
pub open spec fn render_list(s: Seq<ExprModel>, n: int) -> Seq<char>
    decreases s, n,
{
    if n <= 0 || n > s.len() {
        Seq::<char>::empty()
    } else if n == 1 {
        render_expr(s[0])
    } else {
        render_list(s, n - 1) + ", "@ + render_expr(s[n - 1])
    }
}

/// The names of the first `n` identifiers of `s`, separated by `", "`.
pub open spec fn join_names(s: Seq<IdentModel>, n: int) -> Seq<char>
    decreases n,
{
    if n <= 0 || n > s.len() {
        Seq::<char>::empty()
    } else if n == 1 {
        s[0].value
    } else {
        join_names(s, n - 1) + ", "@ + s[n - 1].value
    }
}

/// The models of the first `n` expressions of `s`.
pub open spec fn expr_models(s: Seq<Expression>, n: int) -> Seq<ExprModel>
    decreases s, n,
{
    if n <= 0 || n > s.len() {
        Seq::<ExprModel>::empty()
    } else {
        expr_models(s, n - 1).push(s[n - 1].model())
    }
}

/// The models of all the expressions of `s`.
pub open spec fn exprs_model(s: Seq<Expression>) -> Seq<ExprModel> {
    expr_models(s, s.len() as int)
}

pub proof fn lemma_expr_models(s: Seq<Expression>, n: int)
    requires
        0 <= n <= s.len(),
    ensures
        expr_models(s, n).len() == n,
        forall|i: int| 0 <= i < n ==> #[trigger] expr_models(s, n)[i] == s[i].model(),
    decreases n,
{
    if n > 0 {
        lemma_expr_models(s, n - 1);
    }
}

/// The models of all the identifiers of `s`.
pub open spec fn idents_model(s: Seq<Identifier>) -> Seq<IdentModel> {
    s.map_values(|i: Identifier| i.model())
}

impl Expression {
    pub open spec fn model(&self) -> ExprModel
        decreases self, 0int,
    {
        match self {
            Expression::Identifier(i) => ExprModel::Identifier(i.model()),
            Expression::IntegerLiteral(i) => ExprModel::IntegerLiteral {
                token: i.token@,
                value: i.value,
            },
            Expression::Prefix(p) => ExprModel::Prefix {
                token: p.token@,
                operator: p.operator@,
                right: Box::new(p.right.model()),
            },
            Expression::Infix(i) => ExprModel::Infix {
                token: i.token@,
                left: Box::new(i.left.model()),
                operator: i.operator@,
                right: Box::new(i.right.model()),
            },
            Expression::Boolean(b) => ExprModel::Boolean { token: b.token@, value: b.value },
            Expression::If(i) => ExprModel::If {
                token: i.token@,
                condition: Box::new(i.condition.model()),
                consequence: i.consequence.model(),
                alternative: match i.alternative {
                    Some(b) => Some(b.model()),
                    None => None,
                },
            },
            Expression::FunctionLiteral(f) => ExprModel::FunctionLiteral {
                token: f.token@,
                parameters: idents_model(f.parameters@),
                body: f.body.model(),
            },
            Expression::Call(c) => ExprModel::Call {
                token: c.token@,
                function: Box::new(c.function.model()),
                arguments: expr_models(c.arguments@, c.arguments@.len() as int),
            },
        }
    }

    pub fn identifier(&self) -> (r: Option<&Identifier>)
        ensures
            match self {
                Expression::Identifier(i) => r == Some(i),
                _ => r is None,
            },
    {
        match self {
            Expression::Identifier(i) => Some(i),
            _ => None,
        }
    }

    pub fn integer_literal(&self) -> (r: Option<&IntegerLiteral>)
        ensures
            match self {
                Expression::IntegerLiteral(i) => r == Some(i),
                _ => r is None,
            },
    {
        match self {
            Expression::IntegerLiteral(i) => Some(i),
            _ => None,
        }
    }

    pub fn prefix_expression(&self) -> (r: Option<&Prefix>)
        ensures
            match self {
                Expression::Prefix(p) => r == Some(p),
                _ => r is None,
            },
    {
        match self {
            Expression::Prefix(p) => Some(p),
            _ => None,
        }
    }

    pub fn infix_expression(&self) -> (r: Option<&Infix>)
        ensures
            match self {
                Expression::Infix(i) => r == Some(i),
                _ => r is None,
            },
    {
        match self {
            Expression::Infix(i) => Some(i),
            _ => None,
        }
    }

    pub fn boolean_expression(&self) -> (r: Option<&Boolean>)
        ensures
            match self {
                Expression::Boolean(b) => r == Some(b),
                _ => r is None,
            },
    {
        match self {
            Expression::Boolean(b) => Some(b),
            _ => None,
        }
    }

    pub fn if_expression(&self) -> (r: Option<&If>)
        ensures
            match self {
                Expression::If(i) => r == Some(i),
                _ => r is None,
            },
    {
        match self {
            Expression::If(i) => Some(i),
            _ => None,
        }
    }

    pub fn function_literal(&self) -> (r: Option<&FunctionLiteral>)
        ensures
            match self {
                Expression::FunctionLiteral(f) => r == Some(f),
                _ => r is None,
            },
    {
        match self {
            Expression::FunctionLiteral(f) => Some(f),
            _ => None,
        }
    }

    pub fn call_expression(&self) -> (r: Option<&Call>)
        ensures
            match self {
                Expression::Call(c) => r == Some(c),
                _ => r is None,
            },
    {
        match self {
            Expression::Call(c) => Some(c),
            _ => None,
        }
    }

    /// The canonical text of the expression.
    pub fn to_string(&self) -> (r: String)
        ensures
            r@ == render_expr(self.model()),
        decreases self, 0int,
    {
        match self {
            Expression::Identifier(i) => i.to_string(),
            Expression::IntegerLiteral(i) => i.to_string(),
            Expression::Prefix(p) => p.to_string(),
            Expression::Infix(i) => i.to_string(),
            Expression::Boolean(b) => b.to_string(),
            Expression::If(i) => i.to_string(),
            Expression::FunctionLiteral(f) => f.to_string(),
            Expression::Call(c) => {
                proof {
                    lemma_expr_models(c.arguments@, c.arguments@.len() as int);
                }
                c.to_string()
            },
        }
    }
}

/// A name.
#[derive(Debug)]
pub struct Identifier {
    pub token: Token,
    pub value: String,
}

impl Identifier {
    pub open spec fn model(&self) -> IdentModel {
        IdentModel { token: self.token@, value: self.value@ }
    }

    pub fn to_string(&self) -> (r: String)
        ensures
            r@ == self.value@,
    {
        self.value.clone()
    }
}

impl NodeInterface for Identifier {
    open spec fn literal_model(&self) -> Seq<char> {
        self.token@.display()
    }

    fn token_literal(&self) -> (r: String) {
        self.token.to_string()
    }
}

/// A 64-bit signed integer written in the source.
#[derive(Debug)]
pub struct IntegerLiteral {
    pub token: Token,
    pub value: i64,
}

impl IntegerLiteral {
    /// The integer as it was written.
    pub fn to_string(&self) -> (r: String)
        ensures
            r@ == self.token.literal@,
    {
        self.token.literal.clone()
    }
}

impl NodeInterface for IntegerLiteral {
    open spec fn literal_model(&self) -> Seq<char> {
        self.token@.display()
    }

    fn token_literal(&self) -> (r: String) {
        self.token.to_string()
    }
}

/// A unary operator applied to an operand.
#[derive(Debug)]
pub struct Prefix {
    pub token: Token,
    pub operator: String,
    pub right: Box<Expression>,
}

impl Prefix {
    pub fn to_string(&self) -> (r: String)
        ensures
            r@ == "("@ + self.operator@ + render_expr(self.right.model()) + ")"@,
        decreases self, 0int,
    {
        let mut out = String::new();
        push_text(&mut out, "(");
        push_text(&mut out, self.operator.as_str());
        let right = self.right.to_string();
        push_text(&mut out, right.as_str());
        push_text(&mut out, ")");
        out
    }
}

impl NodeInterface for Prefix {
    open spec fn literal_model(&self) -> Seq<char> {
        self.token.literal@
    }

    fn token_literal(&self) -> (r: String) {
        self.token.literal.clone()
    }
}

/// A binary operator between two operands.
#[derive(Debug)]
pub struct Infix {
    pub token: Token,
    pub left: Box<Expression>,
    pub operator: String,
    pub right: Box<Expression>,
}

impl Infix {
    pub fn to_string(&self) -> (r: String)
        ensures
            r@ == "("@ + render_expr(self.left.model()) + " "@ + self.operator@ + " "@
                + render_expr(self.right.model()) + ")"@,
        decreases self, 0int,
    {
        let mut out = String::new();
        push_text(&mut out, "(");
        let left = self.left.to_string();
        push_text(&mut out, left.as_str());
        push_text(&mut out, " ");
        push_text(&mut out, self.operator.as_str());
        push_text(&mut out, " ");
        let right = self.right.to_string();
        push_text(&mut out, right.as_str());
        push_text(&mut out, ")");
        out
    }
}

impl NodeInterface for Infix {
    open spec fn literal_model(&self) -> Seq<char> {
        self.token.literal@
    }

    fn token_literal(&self) -> (r: String) {
        self.token.literal.clone()
    }
}

/// `true` or `false`.
#[derive(Debug)]
pub struct Boolean {
    pub token: Token,
    pub value: bool,
}

impl Boolean {
    pub fn to_string(&self) -> (r: String)
        ensures
            r@ == self.token.literal@,
    {
        self.token.literal.clone()
    }
}

impl NodeInterface for Boolean {
    open spec fn literal_model(&self) -> Seq<char> {
        self.token.literal@
    }

    fn token_literal(&self) -> (r: String) {
        self.token.literal.clone()
    }
}

/// A conditional: a condition, a block, and a second block if there is an
/// `else` clause.
#[derive(Debug)]
pub struct If {
    pub token: Token,
    pub condition: Box<Expression>,
    pub consequence: Block,
    pub alternative: Option<Block>,
}

impl If {
    pub fn to_string(&self) -> (r: String)
        ensures
            r@ == "if"@ + render_expr(self.condition.model()) + " "@ + render_block(
                self.consequence.model(),
            ) + match self.alternative {
                Some(b) => "else "@ + render_block(b.model()),
                None => Seq::<char>::empty(),
            },
        decreases self, 0int,
    {
        let mut out = String::new();
        push_text(&mut out, "if");
        let condition = self.condition.to_string();
        push_text(&mut out, condition.as_str());
        push_text(&mut out, " ");
        let consequence = self.consequence.to_string();
        push_text(&mut out, consequence.as_str());
        match &self.alternative {
            Some(b) => {
                push_text(&mut out, "else ");
                let alternative = b.to_string();
                push_text(&mut out, alternative.as_str());
            },
            None => {},
        }
        out
    }
}

impl NodeInterface for If {
    open spec fn literal_model(&self) -> Seq<char> {
        self.token.literal@
    }

    fn token_literal(&self) -> (r: String) {
        self.token.literal.clone()
    }
}

/// A function: its parameter names and its body.
#[derive(Debug)]
pub struct FunctionLiteral {
    pub token: Token,
    pub parameters: Vec<Identifier>,
    pub body: Block,
}

impl FunctionLiteral {
    pub fn to_string(&self) -> (r: String)
        ensures
            r@ == self.token.literal@ + "("@ + join_names(
                idents_model(self.parameters@),
                self.parameters@.len() as int,
            ) + ")"@ + render_block(self.body.model()),
        decreases self, 0int,
    {
        let ghost ps = idents_model(self.parameters@);
        let mut out = self.token.literal.clone();
        push_text(&mut out, "(");
        let ghost start = out@;
        let mut i: usize = 0;
        while i < self.parameters.len()
            invariant
                i <= self.parameters@.len(),
                ps == idents_model(self.parameters@),
                out@ == start + join_names(ps, i as int),
            decreases self.parameters@.len() - i,
        {
            if i > 0 {
                push_text(&mut out, ", ");
            }
            push_text(&mut out, self.parameters[i].value.as_str());
            assert(out@ =~= start + join_names(ps, i + 1));
            i += 1;
        }
        push_text(&mut out, ")");
        let body = self.body.to_string();
        push_text(&mut out, body.as_str());
        out
    }
}

impl NodeInterface for FunctionLiteral {
    open spec fn literal_model(&self) -> Seq<char> {
        self.token.literal@
    }

    fn token_literal(&self) -> (r: String) {
        self.token.literal.clone()
    }
}

/// A call: the callee and the argument expressions.
#[derive(Debug)]
pub struct Call {
    pub token: Token,
    pub function: Box<Expression>,
    pub arguments: Vec<Expression>,
}

impl Call {
    pub fn to_string(&self) -> (r: String)
        ensures
            r@ == render_expr(self.function.model()) + "("@ + render_list(
                exprs_model(self.arguments@),
                self.arguments@.len() as int,
            ) + ")"@,
        decreases self, 0int,
    {
        let ghost args = exprs_model(self.arguments@);
        proof {
            lemma_expr_models(self.arguments@, self.arguments@.len() as int);
        }
        let mut out = self.function.to_string();
        push_text(&mut out, "(");
        let ghost start = out@;
        let mut i: usize = 0;
        while i < self.arguments.len()
            invariant
                i <= self.arguments@.len(),
                args == exprs_model(self.arguments@),
                args.len() == self.arguments@.len(),
                forall|k: int| 0 <= k < args.len() ==> #[trigger] args[k] == self.arguments@[k].model(),
                out@ == start + render_list(args, i as int),
            decreases self.arguments@.len() - i,
        {
            if i > 0 {
                push_text(&mut out, ", ");
            }
            let a = self.arguments[i].to_string();
            push_text(&mut out, a.as_str());
            assert(out@ =~= start + render_list(args, i + 1));
            i += 1;
        }
        push_text(&mut out, ")");
        out
    }
}

impl NodeInterface for Call {
    open spec fn literal_model(&self) -> Seq<char> {
        self.token.literal@
    }

    fn token_literal(&self) -> (r: String) {
        self.token.literal.clone()
    }
}

} // verus!
