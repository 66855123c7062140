//! The syntax tree: blocks, statements and expressions.
use crate::lexer::token::{LiteralModel, TokenLiteral};
use vstd::prelude::*;

verus! {

/// A block: statements in the order in which they run.
#[derive(Debug, PartialEq)]
pub struct AstScope(pub Vec<AstStatement>);

/// The binary operators.
#[derive(Debug, Clone, Copy, PartialEq, Eq, Structural)]
pub enum AstBinaryOp {
    Add,
    Div,
    Mul,
    Sub,
}

/// An expression.
#[derive(Debug, PartialEq)]
#[allow(inconsistent_fields)]
pub enum AstExpr {
    BinaryOp { op: AstBinaryOp, left: Box<AstExpr>, right: Box<AstExpr> },
    Ident(String),
    Literal(TokenLiteral),
    UnaryOp { op: AstUnaryOp, right: Box<AstExpr> },
}

/// The unary operators.
#[derive(Debug, Clone, Copy, PartialEq, Eq, Structural)]
pub enum AstUnaryOp {
    Not,
}

/// A statement.
#[derive(Debug, PartialEq)]
pub enum AstStatement {
    VariableDeclaration(String, Box<AstExpr>),
    Expresion(Box<AstExpr>),
    Global(Vec<String>),
    Conditional { test: Box<AstExpr>, body: AstScope, otherwise: Option<AstScope> },
}

/// What an [`AstExpr`] stands for.
#[allow(inconsistent_fields)]
pub enum ExprModel {
    BinaryOp { op: AstBinaryOp, left: Box<ExprModel>, right: Box<ExprModel> },
    Ident(Seq<char>),
    Literal(LiteralModel),
    UnaryOp { op: AstUnaryOp, right: Box<ExprModel> },
}

/// What an [`AstStatement`] stands for. A block is the sequence of its
/// statements.
pub enum StatementModel {
    VariableDeclaration(Seq<char>, ExprModel),
    Expresion(ExprModel),
    Global(Seq<Seq<char>>),
    Conditional {
        test: ExprModel,
        body: Seq<StatementModel>,
        otherwise: Option<Seq<StatementModel>>,
    },
}

/// The texts of a sequence of strings, in order.
pub open spec fn names_model(names: Seq<String>) -> Seq<Seq<char>> {
    names.map_values(|name: String| name@)
}

impl AstExpr {
    pub open spec fn model(&self) -> ExprModel
        decreases self,
    {
        match self {
            AstExpr::BinaryOp { op, left, right } => ExprModel::BinaryOp {
                op: *op,
                left: Box::new(left.model()),
                right: Box::new(right.model()),
            },
            AstExpr::Ident(name) => ExprModel::Ident(name@),
            AstExpr::Literal(literal) => ExprModel::Literal(literal@),
            AstExpr::UnaryOp { op, right } => ExprModel::UnaryOp {
                op: *op,
                right: Box::new(right.model()),
            },
        }
    }
}

impl View for AstExpr {
    type V = ExprModel;

    open spec fn view(&self) -> ExprModel {
        self.model()
    }
}

impl AstStatement {
    pub open spec fn model(&self) -> StatementModel
        decreases self,
    {
        match self {
            AstStatement::VariableDeclaration(name, value) => StatementModel::VariableDeclaration(
                name@,
                value.model(),
            ),
            AstStatement::Expresion(value) => StatementModel::Expresion(value.model()),
            AstStatement::Global(names) => StatementModel::Global(names_model(names@)),
            AstStatement::Conditional { test, body, otherwise } => StatementModel::Conditional {
                test: test.model(),
                body: body.model(),
                otherwise: match otherwise {
                    Some(scope) => Some(scope.model()),
                    None => None,
                },
            },
        }
    }
}

impl View for AstStatement {
    type V = StatementModel;

    open spec fn view(&self) -> StatementModel {
        self.model()
    }
}

impl AstScope {
    pub open spec fn model(&self) -> Seq<StatementModel>
        decreases self,
    {
        Seq::new(
            self.0.len() as nat,
            |i: int|
                if 0 <= i < self.0.len() {
                    self.0[i].model()
                } else {
                    StatementModel::Global(Seq::empty())
                },
        )
    }
}

impl View for AstScope {
    type V = Seq<StatementModel>;

    open spec fn view(&self) -> Seq<StatementModel> {
        self.model()
    }
}

/// The models of a sequence of statements, in order.
pub open spec fn statements_model(statements: Seq<AstStatement>) -> Seq<StatementModel> {
    statements.map_values(|statement: AstStatement| statement.model())
}

/// A copy of a list of names.
fn copy_names(names: &Vec<String>) -> (r: Vec<String>)
    ensures
        names_model(r@) == names_model(names@),
{
    let mut r: Vec<String> = Vec::new();
    let mut i: usize = 0;
    while i < names.len()
        invariant
            i <= names.len(),
            r.len() == i,
            forall|j: int| 0 <= j < i ==> r[j]@ == names[j]@,
        decreases names.len() - i,
    {
        r.push(names[i].clone());
        i += 1;
    }
    r
}

impl AstExpr {
    /// A copy of the expression.
    pub fn duplicate(&self) -> (r: AstExpr)
        ensures
            r@ == self@,
        decreases self,
    {
        match self {
            AstExpr::BinaryOp { op, left, right } => AstExpr::BinaryOp {
                op: *op,
                left: Box::new(left.duplicate()),
                right: Box::new(right.duplicate()),
            },
            AstExpr::Ident(name) => AstExpr::Ident(name.clone()),
            AstExpr::Literal(literal) => AstExpr::Literal(literal.clone()),
            AstExpr::UnaryOp { op, right } => AstExpr::UnaryOp {
                op: *op,
                right: Box::new(right.duplicate()),
            },
        }
    }
}

impl Clone for AstExpr {
    fn clone(&self) -> (r: Self)
        ensures
            r@ == self@,
    {
        self.duplicate()
    }
}

impl AstStatement {
    /// A copy of the statement.
    pub fn duplicate(&self) -> (r: AstStatement)
        ensures
            r@ == self@,
        decreases self,
    {
        match self {
            AstStatement::VariableDeclaration(name, value) => AstStatement::VariableDeclaration(
                name.clone(),
                Box::new(value.duplicate()),
            ),
            AstStatement::Expresion(value) => AstStatement::Expresion(Box::new(value.duplicate())),
            AstStatement::Global(names) => AstStatement::Global(copy_names(names)),
            AstStatement::Conditional { test, body, otherwise } => AstStatement::Conditional {
                test: Box::new(test.duplicate()),
                body: body.duplicate(),
                otherwise: match otherwise {
                    Some(block) => Some(block.duplicate()),
                    None => None,
                },
            },
        }
    }
}

impl Clone for AstStatement {
    fn clone(&self) -> (r: Self)
        ensures
            r@ == self@,
    {
        self.duplicate()
    }
}

impl AstScope {
    /// A copy of the block.
    pub fn duplicate(&self) -> (r: AstScope)
        ensures
            r@ == self@,
        decreases self,
    {
        let mut statements: Vec<AstStatement> = Vec::new();
        let mut i: usize = 0;
        while i < self.0.len()
            invariant
                i <= self.0.len(),
                statements.len() == i,
                forall|j: int| 0 <= j < i ==> statements[j]@ == self.0[j]@,
            decreases self.0.len() - i,
        {
            proof {
                vstd::std_specs::vec::axiom_vec_index_decreases(self.0, i as int);
            }
            statements.push(self.0[i].duplicate());
            i += 1;
        }
        let r = AstScope(statements);
        r
    }
}

impl Clone for AstScope {
    fn clone(&self) -> (r: Self)
        ensures
            r@ == self@,
    {
        self.duplicate()
    }
}

} // verus!
