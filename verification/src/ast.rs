//! The expression tree node types and the visitor/acceptor double-dispatch
//! protocol every consumer of the tree implements against.

use vstd::prelude::*;

verus! {

/// An expression tree node. Each composite node exclusively owns its
/// children, so every value is a strict tree. A number literal carries the
/// numeral text exactly as it was scanned.
#[derive(Debug, PartialEq)]
pub enum Expr {
    Identifier(String),
    StringLiteral(String),
    NumberLiteral(String),
    BooleanLiteral(bool),
    NilLiteral,
    Unary(UnaryOp, Box<Expr>),
    Binary(Box<Expr>, BinaryOp, Box<Expr>),
    Grouping(Box<Expr>),
}

#[derive(Clone, Copy, Debug, PartialEq, Eq, Structural)]
pub enum UnaryOp {
    Negation,
    Not,
}

#[derive(Clone, Copy, Debug, PartialEq, Eq, Structural)]
pub enum BinaryOp {
    Equal,
    NotEqual,
    Less,
    LessEqual,
    Greater,
    GreaterEqual,
    Add,
    Subtract,
    Multiply,
    Divide,
}

/// Mathematical model of an expression tree, with text as `Seq<char>`.
pub enum ExprV {
    Identifier(Seq<char>),
    StringLiteral(Seq<char>),
    NumberLiteral(Seq<char>),
    BooleanLiteral(bool),
    NilLiteral,
    Unary(UnaryOp, Box<ExprV>),
    Binary(Box<ExprV>, BinaryOp, Box<ExprV>),
    Grouping(Box<ExprV>),
}

/// The model of an expression tree, variant by variant.
pub open spec fn expr_view(e: Expr) -> ExprV
    decreases e,
{
    match e {
        Expr::Identifier(s) => ExprV::Identifier(s@),
        Expr::StringLiteral(s) => ExprV::StringLiteral(s@),
        Expr::NumberLiteral(s) => ExprV::NumberLiteral(s@),
        Expr::BooleanLiteral(b) => ExprV::BooleanLiteral(b),
        Expr::NilLiteral => ExprV::NilLiteral,
        Expr::Unary(op, e1) => ExprV::Unary(op, Box::new(expr_view(*e1))),
        Expr::Binary(l, op, r) => ExprV::Binary(
            Box::new(expr_view(*l)),
            op,
            Box::new(expr_view(*r)),
        ),
        Expr::Grouping(e1) => ExprV::Grouping(Box::new(expr_view(*e1))),
    }
}

impl View for Expr {
    type V = ExprV;

    open spec fn view(&self) -> ExprV {
        expr_view(*self)
    }
}

/// One operation per expression variant: the capability set a traversal
/// implements. Adding a new traversal needs no change to `Expr` itself.
pub trait Visitor<T> {
    fn visit_identifier(&mut self, id: &String) -> T;

    fn visit_string(&mut self, s: &String) -> T;

    fn visit_number(&mut self, n: &String) -> T;

    fn visit_boolean(&mut self, b: &bool) -> T;

    fn visit_nil(&mut self) -> T;

    fn visit_unary(&mut self, op: &UnaryOp, expr: &Expr) -> T;

    fn visit_binary(&mut self, left: &Expr, op: &BinaryOp, right: &Expr) -> T;

    fn visit_grouping(&mut self, expr: &Expr) -> T;
}

/// The dispatching half of the double-dispatch protocol.
pub trait Acceptor<T> {
    fn accept<V: Visitor<T>>(&self, visitor: &mut V) -> T;
}

impl<T> Acceptor<T> for Expr {
    /// Dispatches to the visit operation matching this node's variant.
    fn accept<V: Visitor<T>>(&self, visitor: &mut V) -> T {
        match self {
            Expr::Identifier(id) => visitor.visit_identifier(id),
            Expr::StringLiteral(s) => visitor.visit_string(s),
            Expr::NumberLiteral(n) => visitor.visit_number(n),
            Expr::BooleanLiteral(b) => visitor.visit_boolean(b),
            Expr::NilLiteral => visitor.visit_nil(),
            Expr::Unary(op, expr) => visitor.visit_unary(op, expr),
            Expr::Binary(left, op, right) => visitor.visit_binary(left, op, right),
            Expr::Grouping(expr) => visitor.visit_grouping(expr),
        }
    }
}

} // verus!
