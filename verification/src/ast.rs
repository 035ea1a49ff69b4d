//! The syntax tree that the walker traverses.
//!
//! The tree is plain data: every node owns its children, so a tree is finite
//! and free of cycles. Source text that a walk never inspects (operator
//! spellings, literal values, names) is kept as strings for the benefit of the
//! hooks.
use vstd::prelude::*;

verus! {

/// The root of a tree: the top-level items of one script, in source order.
#[derive(Debug, PartialEq, Eq)]
pub struct Script {
    pub items: Vec<StmtListItem>,
}

/// One entry of a statement list: a statement or a declaration.
#[derive(Debug, PartialEq, Eq)]
pub enum StmtListItem {
    Stmt(Stmt),
    Decl(Decl),
}

/// One `case` or `default` clause of a `switch`; `test` is absent for `default`.
#[derive(Debug, PartialEq, Eq)]
pub struct Case {
    pub test: Option<Expr>,
    pub body: Vec<StmtListItem>,
}

/// The `catch` clause of a `try` statement.
#[derive(Debug, PartialEq, Eq)]
pub struct Catch {
    pub param: Patt,
    pub body: Vec<StmtListItem>,
}

/// The initialiser part of a `for (init; test; update)` loop.
#[derive(Debug, PartialEq, Eq)]
pub enum ForHead {
    Var(Vec<Dtor>),
    Let(Vec<Dtor>),
    Expr(Expr),
}

/// The left-hand part of a `for (head in object)` loop.
#[derive(Debug, PartialEq, Eq)]
pub enum ForInHead {
    VarInit(String, Expr),
    Var(Patt),
    Let(Patt),
    Expr(Expr),
}

/// The left-hand part of a `for (head of iterable)` loop.
#[derive(Debug, PartialEq, Eq)]
pub enum ForOfHead {
    Var(Patt),
    Let(Patt),
    Expr(Expr),
}

/// A statement.
#[derive(Debug, PartialEq, Eq)]
pub enum Stmt {
    Empty,
    Block(Vec<StmtListItem>),
    Var(Vec<Dtor>),
    Expr(Expr),
    If(Expr, Box<Stmt>, Option<Box<Stmt>>),
    Label(String, Box<Stmt>),
    Break(Option<String>),
    Cont(Option<String>),
    With(Expr, Box<Stmt>),
    Switch(Expr, Vec<Case>),
    Return(Option<Expr>),
    Throw(Expr),
    Try(Vec<StmtListItem>, Option<Catch>, Option<Vec<StmtListItem>>),
    While(Expr, Box<Stmt>),
    DoWhile(Box<Stmt>, Expr),
    For(Option<ForHead>, Option<Expr>, Option<Expr>, Box<Stmt>),
    ForIn(ForInHead, Expr, Box<Stmt>),
    ForOf(ForOfHead, Expr, Box<Stmt>),
    Debugger,
}

/// A declaration.
#[derive(Debug, PartialEq, Eq)]
pub enum Decl {
    Fun(Fun),
    Let(Vec<Dtor>),
    Const(Vec<ConstDtor>),
}

/// A `var` or `let` declarator: a binding pattern and an optional initialiser.
#[derive(Debug, PartialEq, Eq)]
pub struct Dtor {
    pub patt: Patt,
    pub init: Option<Expr>,
}

/// A `const` declarator: a binding pattern and its mandatory initialiser.
#[derive(Debug, PartialEq, Eq)]
pub struct ConstDtor {
    pub patt: Patt,
    pub value: Expr,
}

/// A binding pattern. A walk never looks inside one.
#[derive(Debug, PartialEq, Eq)]
pub enum Patt {
    Id(String),
    Compound(Vec<Patt>),
}

/// A function: declaration, expression or object method. Declarations carry a
/// name; expressions and methods may be anonymous.
#[derive(Debug, PartialEq, Eq)]
pub struct Fun {
    pub id: Option<String>,
    pub params: Vec<Patt>,
    pub body: Vec<StmtListItem>,
}

/// An element of an argument list or array literal, possibly spread (`...e`).
#[derive(Debug, PartialEq, Eq)]
pub enum ExprListItem {
    Expr(Expr),
    Spread(Expr),
}

/// The left-hand side of an increment, decrement or compound assignment.
#[derive(Debug, PartialEq, Eq)]
pub enum AssignTarget {
    Id(String),
    Dot(Box<Expr>, String),
    Brack(Box<Expr>, Box<Expr>),
}

/// The left-hand side of a plain assignment.
#[derive(Debug, PartialEq, Eq)]
pub enum AssignPatt {
    Simple(AssignTarget),
    Compound(Vec<AssignTarget>),
}

/// The value of a regular object property.
#[derive(Debug, PartialEq, Eq)]
pub enum PropVal {
    Init(Expr),
    Getter(Vec<StmtListItem>),
    Setter(Patt, Vec<StmtListItem>),
}

/// A property of an object literal.
#[derive(Debug, PartialEq, Eq)]
pub enum Prop {
    Regular(String, PropVal),
    Method(Fun),
    Shorthand(String),
}

/// An expression.
#[derive(Debug, PartialEq, Eq)]
pub enum Expr {
    This,
    Id(String),
    Arr(Vec<Option<ExprListItem>>),
    Obj(Vec<Prop>),
    Fun(Fun),
    Sequence(Vec<Expr>),
    Unop(String, Box<Expr>),
    Binop(String, Box<Expr>, Box<Expr>),
    Logop(String, Box<Expr>, Box<Expr>),
    PreInc(Box<AssignTarget>),
    PostInc(Box<AssignTarget>),
    PreDec(Box<AssignTarget>),
    PostDec(Box<AssignTarget>),
    Assign(AssignPatt, Box<Expr>),
    BinAssign(String, AssignTarget, Box<Expr>),
    Cond(Box<Expr>, Box<Expr>, Box<Expr>),
    Call(Box<Expr>, Vec<ExprListItem>),
    New(Box<Expr>, Option<Vec<ExprListItem>>),
    Dot(Box<Expr>, String),
    Brack(Box<Expr>, Box<Expr>),
    NewTarget,
    True,
    False,
    Null,
    Number(String),
    RegExp(String),
    String(String),
}

} // verus!
