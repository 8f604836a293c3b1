//! The abstract syntax tree produced by the parser, together with the
//! mathematical views the parser's contracts are stated over.

use vstd::prelude::*;

verus! {

/// A named reference, wrapping its text.
#[derive(Debug, PartialEq)]
pub struct Ident(pub String);

/// A prefix (unary) operator.
#[derive(Debug, PartialEq)]
pub enum Prefix {
    Plus,
    Bang,
    Minus,
}

/// An infix (binary) operator.
#[derive(Debug, PartialEq)]
pub enum Infix {
    Plus,
    Minus,
    Asterisk,
    Slash,
    Lt,
    Gt,
    Equal,
    NotEqual,
}

/// A statement: the unit the parser emits into a program.
#[derive(Debug, PartialEq)]
pub enum Stmt {
    Blank,
    Let(Ident, Expr),
    Return(Expr),
    Expr(Expr),
}

/// An expression: identifier reference, literal, prefix operation, or
/// infix operation over owned sub-expressions.
#[derive(Debug, PartialEq)]
pub enum Expr {
    Ident(Ident),
    Literal(Literal),
    Prefix(Prefix, Box<Expr>),
    Infix(Infix, Box<Expr>, Box<Expr>),
}

/// A literal value.
#[derive(Debug, PartialEq)]
pub enum Literal {
    Int(i64),
    String(String),
}

pub type BlockStmt = Vec<Stmt>;

pub type Program = BlockStmt;

/// Binding strength of operators, from weakest to strongest.
#[derive(Debug, PartialEq)]
pub enum Precedence {
    Lowest,
    Equals,
    LessGreater,
    Sum,
    Product,
    Prefix,
    Call,
}

/// Mathematical view of a literal.
pub enum LiteralV {
    Int(i64),
    String(Seq<char>),
}

/// Mathematical view of an expression: identifier text becomes a character
/// sequence, the tree structure is kept as it is.
pub enum ExprV {
    Ident(Seq<char>),
    Literal(LiteralV),
    Prefix(Prefix, Box<ExprV>),
    Infix(Infix, Box<ExprV>, Box<ExprV>),
}

/// Mathematical view of a statement.
pub enum StmtV {
    Blank,
    Let(Seq<char>, ExprV),
    Return(ExprV),
    Expr(ExprV),
}

/// The view of an expression tree.
pub open spec fn expr_view(e: Expr) -> ExprV
    decreases e,
{
    match e {
        Expr::Ident(id) => ExprV::Ident(id.0@),
        Expr::Literal(l) => ExprV::Literal(l@),
        Expr::Prefix(op, inner) => ExprV::Prefix(op, Box::new(expr_view(*inner))),
        Expr::Infix(op, left, right) => ExprV::Infix(
            op,
            Box::new(expr_view(*left)),
            Box::new(expr_view(*right)),
        ),
    }
}

impl View for Literal {
    type V = LiteralV;

    open spec fn view(&self) -> LiteralV {
        match self {
            Literal::Int(n) => LiteralV::Int(*n),
            Literal::String(s) => LiteralV::String(s@),
        }
    }
}

impl View for Expr {
    type V = ExprV;

    open spec fn view(&self) -> ExprV {
        expr_view(*self)
    }
}

impl View for Stmt {
    type V = StmtV;

    open spec fn view(&self) -> StmtV {
        match self {
            Stmt::Blank => StmtV::Blank,
            Stmt::Let(name, e) => StmtV::Let(name.0@, e@),
            Stmt::Return(e) => StmtV::Return(e@),
            Stmt::Expr(e) => StmtV::Expr(e@),
        }
    }
}

/// The view of an optional expression.
pub open spec fn opt_expr_view(e: Option<Expr>) -> Option<ExprV> {
    match e {
        Some(x) => Some(x@),
        None => None,
    }
}

/// The view of an optional statement.
pub open spec fn opt_stmt_view(s: Option<Stmt>) -> Option<StmtV> {
    match s {
        Some(x) => Some(x@),
        None => None,
    }
}

/// The view of a program: the views of its statements, in order.
pub open spec fn program_view(p: Seq<Stmt>) -> Seq<StmtV> {
    p.map_values(|s: Stmt| s@)
}

/// The numeric level of a precedence, respecting the strict total order
/// from `Lowest` up to `Call`.
pub open spec fn spec_prec_level(p: Precedence) -> int {
    match p {
        Precedence::Lowest => 0,
        Precedence::Equals => 1,
        Precedence::LessGreater => 2,
        Precedence::Sum => 3,
        Precedence::Product => 4,
        Precedence::Prefix => 5,
        Precedence::Call => 6,
    }
}

/// Computes the numeric level of a precedence.
pub fn prec_level(p: &Precedence) -> (r: u8)
    ensures
        r as int == spec_prec_level(*p),
{
    match p {
        Precedence::Lowest => 0,
        Precedence::Equals => 1,
        Precedence::LessGreater => 2,
        Precedence::Sum => 3,
        Precedence::Product => 4,
        Precedence::Prefix => 5,
        Precedence::Call => 6,
    }
}

} // verus!
