//! The abstract syntax of the expression language, the generic
//! parenthesized-list form it is built from, and the error kinds shared
//! by validation and code generation.
use vstd::prelude::*;

verus! {

/// Unary operators: increment and decrement of the accumulator.
#[derive(Debug, Clone, Copy, PartialEq, Eq, Structural)]
pub enum Op1 {
    Add1,
    Sub1,
}

/// Binary arithmetic operators.
#[derive(Debug, Clone, Copy, PartialEq, Eq, Structural)]
pub enum Op2 {
    Plus,
    Minus,
    Times,
}

/// The ordered binding list of a `let`: each binding holds a name and
/// the expression computing its value. Bindings are evaluated and bound
/// sequentially, each seeing all earlier bindings of the same `let`.
#[derive(Debug, PartialEq, Eq)]
pub enum Binds {
    Nil,
    Cons(String, Box<Expr>, Box<Binds>),
}

/// An expression of the language. Each node exclusively owns its
/// sub-expressions: the syntax is a tree, with no sharing and no cycles.
#[derive(Debug, PartialEq, Eq)]
pub enum Expr {
    /// An integer literal.
    Number(i64),
    /// A reference to a bound or defined name.
    Id(String),
    /// `(let ((name expr)...) body)`.
    Let(Binds, Box<Expr>),
    /// `(add1 e)` or `(sub1 e)`.
    UnOp(Op1, Box<Expr>),
    /// `(+ e e)`, `(- e e)` or `(* e e)`.
    BinOp(Op2, Box<Expr>, Box<Expr>),
    /// `(define name expr)`: a top-level-only named definition, legal
    /// only in interactive mode and only once per parsed unit.
    Define(String, Box<Expr>),
}

/// The generic parenthesized-list form handed over by the reader:
/// integer atoms, symbol atoms, and nested lists.
#[derive(Debug, PartialEq, Eq)]
pub enum Form {
    Int(i64),
    Sym(String),
    List(Vec<Form>),
}

/// Everything that can go wrong while validating or compiling one
/// top-level expression.
#[derive(Debug, Clone, Copy, PartialEq, Eq, Structural)]
pub enum CompileError {
    /// The list form does not match any construct of the language.
    SyntaxError,
    /// The same name appears twice in one `let` binding list.
    DuplicateBindingError,
    /// More than one `define` in one parsed unit, or a `define` outside
    /// interactive mode.
    MultipleDefinitionError,
    /// An identifier with no enclosing binding and no prior definition.
    UnboundVariableError,
    /// A `define` for a name already defined earlier in the session.
    DuplicateTopLevelDefinitionError,
}

/// The number of nodes of an expression: the termination measure for
/// everything that walks the tree, and the bound on how many fresh
/// stack slots compiling it can claim.
pub open spec fn expr_size(e: Expr) -> nat
    decreases e,
{
    match e {
        Expr::Number(_) => 1,
        Expr::Id(_) => 1,
        Expr::Let(binds, body) => 1 + binds_size(binds) + expr_size(*body),
        Expr::UnOp(_, sub) => 1 + expr_size(*sub),
        Expr::BinOp(_, left, right) => 1 + expr_size(*left) + expr_size(*right),
        Expr::Define(_, sub) => 1 + expr_size(*sub),
    }
}

/// Total node count of a `let` binding list.
pub open spec fn binds_size(binds: Binds) -> nat
    decreases binds,
{
    match binds {
        Binds::Nil => 0,
        Binds::Cons(_, e, rest) => 1 + expr_size(*e) + binds_size(*rest),
    }
}

/// The number of bindings a `let` introduces: how far the stack index
/// advances before its body is compiled.
pub open spec fn binds_count(binds: Binds) -> nat
    decreases binds,
{
    match binds {
        Binds::Nil => 0,
        Binds::Cons(_, _, rest) => 1 + binds_count(*rest),
    }
}

/// The binding names of a `let`, in order.
pub open spec fn binds_names(binds: Binds) -> Seq<Seq<char>>
    decreases binds,
{
    match binds {
        Binds::Nil => Seq::empty(),
        Binds::Cons(x, _, rest) => seq![x@] + binds_names(*rest),
    }
}

} // verus!
