//! The subset of a TypeScript module that the compiler reads.
//!
//! Every construct that the code generators do not read is kept as an
//! `Other` variant, so that each decision about it (ignore it, or refuse it
//! with an error) is taken by the library and not by whoever builds the tree.
use vstd::prelude::*;

verus! {

/// A TypeScript keyword type (`number`, `void`, ...).
#[derive(Clone, Copy, Debug, PartialEq, Eq)]
pub enum Keyword {
    Any,
    Unknown,
    Number,
    Object,
    Boolean,
    BigInt,
    String,
    Symbol,
    Void,
    Undefined,
    Null,
    Never,
    Intrinsic,
}

/// A type annotation: a keyword type, or any other type.
#[derive(Clone, Copy, Debug, PartialEq, Eq)]
pub enum TypeAnn {
    Keyword(Keyword),
    Other,
}

/// A binary operator. `Other` carries the operator's name, for the error.
#[derive(Clone, Debug)]
pub enum BinaryOp {
    Add,
    Sub,
    Mul,
    Div,
    Mod,
    Lt,
    LtEq,
    Gt,
    GtEq,
    EqEqEq,
    NotEqEq,
    Other(String),
}

/// The callee of a call expression.
#[derive(Clone, Debug)]
pub enum Callee {
    /// A plain name: `f(..)`.
    Ident(String),
    /// A member: `obj.prop(..)`; each side is `Some(name)` when it is a
    /// plain identifier.
    Member { obj: Option<String>, prop: Option<String> },
    /// Any other callee expression.
    OtherExpr,
    /// `super(..)` or `import(..)`.
    Other,
}

/// The target of an assignment.
#[derive(Clone, Debug)]
pub enum AssignTarget {
    Ident(String),
    Other,
}

/// An assignment `target = value`.
#[derive(Debug)]
pub struct AssignExpr {
    pub target: AssignTarget,
    pub value: Box<Expr>,
}

/// An expression.
#[derive(Debug)]
pub enum Expr {
    /// A numeric literal, as the 64-bit integer that it denotes.
    Num(i64),
    Ident(String),
    /// A parenthesized expression; `text` is how the parser printed it, for
    /// errors.
    Paren { inner: Box<Expr>, text: String },
    /// A call; `text` is how the parser printed it, for errors.
    Call { callee: Callee, args: Vec<Expr>, text: String },
    Bin { op: BinaryOp, left: Box<Expr>, right: Box<Expr> },
    /// Any other expression: the text describes it in errors, and `parts`
    /// are the expressions inside it that have handlers of their own (for
    /// the visitor), in the order a walk of its children meets them.
    Other { text: String, parts: Vec<Expr> },
}

/// A piece of a statement that the generators do not read, which a walk of
/// its children meets: an expression or a statement with a handler of its
/// own.
#[derive(Debug)]
pub enum Part {
    Expr(Expr),
    Stmt(Stmt),
}

/// One declarator of a variable declaration: `name = init`.
/// `name` is `Some` when the pattern is a plain identifier.
#[derive(Debug)]
pub struct VarDeclarator {
    pub name: Option<String>,
    pub init: Option<Expr>,
}

/// A function parameter; `name` is `Some` when the pattern is a plain
/// identifier, with its type annotation.
#[derive(Clone, Debug)]
pub struct Param {
    pub name: Option<String>,
    pub type_ann: Option<TypeAnn>,
}

/// A function declaration.
#[derive(Debug)]
pub struct FnDecl {
    pub name: String,
    pub params: Vec<Param>,
    /// The statements of the body; `None` for a declaration without body.
    pub body: Option<Vec<Stmt>>,
    pub return_type: Option<TypeAnn>,
}

/// A statement.
#[derive(Debug)]
pub enum Stmt {
    Var(Vec<VarDeclarator>),
    Return(Option<Expr>),
    Expr(Expr),
    If { test: Expr, cons: Box<Stmt>, alt: Option<Box<Stmt>> },
    Block(Vec<Stmt>),
    FnDecl(FnDecl),
    /// Any other statement (loops, classes, ...), with the pieces inside it
    /// that have handlers of their own, in the order a walk of its children
    /// meets them.
    Other(Vec<Part>),
}

/// A top-level item of a module.
#[derive(Debug)]
pub enum ModuleItem {
    Stmt(Stmt),
    /// An import or export declaration.
    ModuleDecl,
}

/// A module: its items in source order.
#[derive(Debug)]
pub struct Module {
    pub body: Vec<ModuleItem>,
}

impl BinaryOp {
    /// A copy of the operator.
    pub fn duplicate(&self) -> (r: BinaryOp)
        ensures
            r == *self,
    {
        match self {
            BinaryOp::Add => BinaryOp::Add,
            BinaryOp::Sub => BinaryOp::Sub,
            BinaryOp::Mul => BinaryOp::Mul,
            BinaryOp::Div => BinaryOp::Div,
            BinaryOp::Mod => BinaryOp::Mod,
            BinaryOp::Lt => BinaryOp::Lt,
            BinaryOp::LtEq => BinaryOp::LtEq,
            BinaryOp::Gt => BinaryOp::Gt,
            BinaryOp::GtEq => BinaryOp::GtEq,
            BinaryOp::EqEqEq => BinaryOp::EqEqEq,
            BinaryOp::NotEqEq => BinaryOp::NotEqEq,
            BinaryOp::Other(name) => BinaryOp::Other(name.clone()),
        }
    }
}

} // verus!
