use vstd::prelude::*;

use crate::token::{Token, TokenM, TokenType};

verus! {

/// Mathematical model of an expression tree.
pub enum ExprM {
    Binary { left: Box<ExprM>, operator: TokenM, right: Box<ExprM> },
    Grouping { expression: Box<ExprM> },
    Literal { value: Option<Seq<char>> },
    Unary { operator: TokenM, right: Box<ExprM> },
}

/// An expression node: a tagged union of the four node shapes. Every node
/// owns its children exactly once, so the value is a strict tree.
pub enum Expr {
    Binary { left: Box<Expr>, operator: Token, right: Box<Expr> },
    Grouping { expression: Box<Expr> },
    Literal { value: Option<String> },
    Unary { operator: Token, right: Box<Expr> },
}

/// The model of an expression node.
pub open spec fn expr_view(e: Expr) -> ExprM
    decreases e,
{
    match e {
        Expr::Binary { left, operator, right } => ExprM::Binary {
            left: Box::new(expr_view(*left)),
            operator: operator@,
            right: Box::new(expr_view(*right)),
        },
        Expr::Grouping { expression } => ExprM::Grouping { expression: Box::new(expr_view(*expression)) },
        Expr::Literal { value } => ExprM::Literal {
            value: match value {
                Option::Some(s) => Option::Some(s@),
                Option::None => Option::None,
            },
        },
        Expr::Unary { operator, right } => ExprM::Unary {
            operator: operator@,
            right: Box::new(expr_view(*right)),
        },
    }
}

impl View for Expr {
    type V = ExprM;

    open spec fn view(&self) -> ExprM {
        expr_view(*self)
    }
}

/// Whether the token kind can stand as the operator of a Binary node.
pub open spec fn is_binary_operator(t: TokenType) -> bool {
    ||| t == TokenType::Greater
    ||| t == TokenType::GreaterEqual
    ||| t == TokenType::Less
    ||| t == TokenType::LessEqual
    ||| t == TokenType::BangEqual
    ||| t == TokenType::EqualEqual
    ||| t == TokenType::Minus
    ||| t == TokenType::Plus
    ||| t == TokenType::Slash
    ||| t == TokenType::Star
}

/// Whether the token kind can stand as the operator of a Unary node.
pub open spec fn is_unary_operator(t: TokenType) -> bool {
    t == TokenType::Bang || t == TokenType::Minus
}

/// A well-formed expression tree: every operator token carried by a node is
/// one the grammar can put there. The parser only builds such trees, and the
/// evaluator has an evaluation rule for exactly these.
pub open spec fn wf_expr(e: ExprM) -> bool
    decreases e,
{
    match e {
        ExprM::Binary { left, operator, right } => is_binary_operator(operator.token_type)
            && wf_expr(*left) && wf_expr(*right),
        ExprM::Grouping { expression } => wf_expr(*expression),
        ExprM::Literal { value } => true,
        ExprM::Unary { operator, right } => is_unary_operator(operator.token_type) && wf_expr(*right),
    }
}

impl Expr {
    /// Whether every operator token in this tree is one the grammar can put
    /// there; the parser only builds such trees.
    pub fn well_formed(&self) -> (r: bool)
        ensures
            r == wf_expr(expr_view(*self)),
        decreases *self,
    {
        match self {
            Expr::Binary { left, operator, right } => {
                let k = operator.token_type;
                let op_ok = k == TokenType::Greater || k == TokenType::GreaterEqual || k
                    == TokenType::Less || k == TokenType::LessEqual || k == TokenType::BangEqual
                    || k == TokenType::EqualEqual || k == TokenType::Minus || k == TokenType::Plus
                    || k == TokenType::Slash || k == TokenType::Star;
                op_ok && left.well_formed() && right.well_formed()
            },
            Expr::Grouping { expression } => expression.well_formed(),
            Expr::Literal { value } => true,
            Expr::Unary { operator, right } => {
                let k = operator.token_type;
                (k == TokenType::Bang || k == TokenType::Minus) && right.well_formed()
            },
        }
    }
}

} // verus!
