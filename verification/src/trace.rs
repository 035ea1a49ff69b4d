//! The hook calls of a walk, as a mathematical sequence.
//!
//! For every kind of node a spec function gives the hook calls that walking
//! the node makes, in order. The order in which children are listed here is
//! the dispatch table of the walker.
use vstd::prelude::*;
use crate::ast::{
    AssignTarget, Case, Catch, ConstDtor, Decl, Dtor, Expr, ExprListItem, Fun, Prop, PropVal,
    Script, Stmt, StmtListItem,
};

verus! {

/// One hook call: which hook, and the node it was handed.
pub enum Hook {
    PreScript(Script),
    PostScript(Script),
    PreStmt(Stmt),
    PostStmt(Stmt),
    PreExpr(Expr),
    PostExpr(Expr),
    PreDecl(Decl),
    PostDecl(Decl),
    PreFun(Fun),
    PostFun(Fun),
}

/// The hook calls of a whole walk.
pub open spec fn script_hooks(script: Script) -> Seq<Hook> {
    seq![Hook::PreScript(script)] + items_hooks(script.items@) + seq![Hook::PostScript(script)]
}

/// The hook calls for a statement list: those of each item, in order.
pub open spec fn items_hooks(items: Seq<StmtListItem>) -> Seq<Hook>
    decreases items, 0int,
{
    if items.len() == 0 {
        Seq::empty()
    } else {
        items_hooks(items.drop_last()) + item_hooks(items.last())
    }
}

/// The hook calls for one item of a statement list.
pub open spec fn item_hooks(item: StmtListItem) -> Seq<Hook>
    decreases item, 0int,
{
    match item {
        StmtListItem::Stmt(stmt) => stmt_hooks(stmt),
        StmtListItem::Decl(decl) => decl_hooks(decl),
    }
}

/// The hook calls for a statement list that may be absent.
pub open spec fn opt_items_hooks(items: Option<Vec<StmtListItem>>) -> Seq<Hook>
    decreases items, 0int,
{
    match items {
        Some(items) => items_hooks(items@),
        None => Seq::empty(),
    }
}

/// The hook calls for an expression that may be absent.
pub open spec fn opt_expr_hooks(expr: Option<Expr>) -> Seq<Hook>
    decreases expr, 0int,
{
    match expr {
        Some(expr) => expr_hooks(expr),
        None => Seq::empty(),
    }
}

/// The hook calls for a statement that may be absent.
pub open spec fn opt_stmt_hooks(stmt: Option<Box<Stmt>>) -> Seq<Hook>
    decreases stmt, 0int,
{
    match stmt {
        Some(stmt) => stmt_hooks(*stmt),
        None => Seq::empty(),
    }
}

/// A `catch` clause contributes its body; its parameter is not walked.
pub open spec fn catch_hooks(caught: Option<Catch>) -> Seq<Hook>
    decreases caught, 0int,
{
    match caught {
        Some(caught) => items_hooks(caught.body@),
        None => Seq::empty(),
    }
}

/// A `switch` clause contributes its test, if any, then its body.
pub open spec fn case_hooks(case: Case) -> Seq<Hook>
    decreases case, 0int,
{
    opt_expr_hooks(case.test) + items_hooks(case.body@)
}

/// The hook calls for the clauses of a `switch`, in order.
pub open spec fn cases_hooks(cases: Seq<Case>) -> Seq<Hook>
    decreases cases, 0int,
{
    if cases.len() == 0 {
        Seq::empty()
    } else {
        cases_hooks(cases.drop_last()) + case_hooks(cases.last())
    }
}

/// The hook calls for a statement: its enter hook, its children, its exit hook.
pub open spec fn stmt_hooks(stmt: Stmt) -> Seq<Hook>
    decreases stmt, 1int,
{
    seq![Hook::PreStmt(stmt)] + stmt_children_hooks(stmt) + seq![Hook::PostStmt(stmt)]
}

/// The hook calls made between a statement's enter and exit hooks. Statement
/// kinds without an arm of their own are leaves of the walk, whatever they hold.
pub open spec fn stmt_children_hooks(stmt: Stmt) -> Seq<Hook>
    decreases stmt, 0int,
{
    match stmt {
        Stmt::Block(items) => items_hooks(items@),
        Stmt::Var(dtors) => dtors_hooks(dtors@),
        Stmt::Expr(expr) => expr_hooks(expr),
        Stmt::If(cond, cons, alt) => expr_hooks(cond) + stmt_hooks(*cons) + opt_stmt_hooks(alt),
        Stmt::Label(_, body) => stmt_hooks(*body),
        Stmt::Switch(cond, cases) => expr_hooks(cond) + cases_hooks(cases@),
        Stmt::Return(arg) => opt_expr_hooks(arg),
        Stmt::Throw(arg) => expr_hooks(arg),
        Stmt::Try(body, caught, finally) => items_hooks(body@) + catch_hooks(caught)
            + opt_items_hooks(finally),
        Stmt::While(cond, body) => expr_hooks(cond) + stmt_hooks(*body),
        Stmt::DoWhile(body, cond) => stmt_hooks(*body) + expr_hooks(cond),
        Stmt::For(_, cond, update, body) => opt_expr_hooks(cond) + opt_expr_hooks(update)
            + stmt_hooks(*body),
        Stmt::ForIn(_, iterable, body) => expr_hooks(iterable) + stmt_hooks(*body),
        Stmt::ForOf(_, iterable, body) => expr_hooks(iterable) + stmt_hooks(*body),
        _ => Seq::empty(),
    }
}

/// The statement kinds that the walk treats as leaves: it calls their enter and
/// exit hooks and walks nothing below them, not even what a `with` holds.
pub open spec fn is_leaf_stmt(stmt: Stmt) -> bool {
    stmt is Empty || stmt is Break || stmt is Cont || stmt is With || stmt is Debugger
}

/// The hook calls for a declaration: its enter hook, its children, its exit hook.
pub open spec fn decl_hooks(decl: Decl) -> Seq<Hook>
    decreases decl, 1int,
{
    seq![Hook::PreDecl(decl)] + decl_children_hooks(decl) + seq![Hook::PostDecl(decl)]
}

/// The hook calls made between a declaration's enter and exit hooks.
pub open spec fn decl_children_hooks(decl: Decl) -> Seq<Hook>
    decreases decl, 0int,
{
    match decl {
        Decl::Fun(fun) => fun_hooks(fun),
        Decl::Let(dtors) => dtors_hooks(dtors@),
        Decl::Const(dtors) => const_dtors_hooks(dtors@),
    }
}

/// A declarator contributes its initialiser, if it has one; never its pattern.
pub open spec fn dtor_hooks(dtor: Dtor) -> Seq<Hook>
    decreases dtor, 0int,
{
    opt_expr_hooks(dtor.init)
}

/// The hook calls for the declarators of a `var` or `let`, in order.
pub open spec fn dtors_hooks(dtors: Seq<Dtor>) -> Seq<Hook>
    decreases dtors, 0int,
{
    if dtors.len() == 0 {
        Seq::empty()
    } else {
        dtors_hooks(dtors.drop_last()) + dtor_hooks(dtors.last())
    }
}

/// The hook calls for the declarators of a `const`, in order: the
/// initialiser of each, never its pattern.
pub open spec fn const_dtors_hooks(dtors: Seq<ConstDtor>) -> Seq<Hook>
    decreases dtors, 0int,
{
    if dtors.len() == 0 {
        Seq::empty()
    } else {
        const_dtors_hooks(dtors.drop_last()) + expr_hooks(dtors.last().value)
    }
}

/// The hook calls for a function: its enter hook, its body, its exit hook.
/// Parameters are not walked.
pub open spec fn fun_hooks(fun: Fun) -> Seq<Hook>
    decreases fun, 0int,
{
    seq![Hook::PreFun(fun)] + items_hooks(fun.body@) + seq![Hook::PostFun(fun)]
}

/// The hook calls for an expression: its enter hook, its children, its exit hook.
pub open spec fn expr_hooks(expr: Expr) -> Seq<Hook>
    decreases expr, 1int,
{
    seq![Hook::PreExpr(expr)] + expr_children_hooks(expr) + seq![Hook::PostExpr(expr)]
}

/// The hook calls made between an expression's enter and exit hooks.
/// Expression kinds without an arm of their own are leaves of the walk. The
/// target of a plain assignment is a pattern and is not walked.
pub open spec fn expr_children_hooks(expr: Expr) -> Seq<Hook>
    decreases expr, 0int,
{
    match expr {
        Expr::Call(callee, args) => expr_hooks(*callee) + args_hooks(args@),
        Expr::Sequence(exprs) => exprs_hooks(exprs@),
        Expr::Arr(elements) => elements_hooks(elements@),
        Expr::Obj(props) => props_hooks(props@),
        Expr::Fun(fun) => fun_hooks(fun),
        Expr::Binop(_, left, right) => expr_hooks(*left) + expr_hooks(*right),
        Expr::Logop(_, left, right) => expr_hooks(*left) + expr_hooks(*right),
        Expr::Unop(_, operand) => expr_hooks(*operand),
        Expr::PreInc(target) => target_hooks(*target),
        Expr::PostInc(target) => target_hooks(*target),
        Expr::PreDec(target) => target_hooks(*target),
        Expr::PostDec(target) => target_hooks(*target),
        Expr::Assign(_, value) => expr_hooks(*value),
        Expr::BinAssign(_, target, value) => target_hooks(target) + expr_hooks(*value),
        Expr::Cond(cond, cons, alt) => expr_hooks(*cond) + expr_hooks(*cons) + expr_hooks(*alt),
        Expr::Dot(object, _) => expr_hooks(*object),
        Expr::Brack(object, key) => expr_hooks(*object) + expr_hooks(*key),
        _ => Seq::empty(),
    }
}

/// The expression kinds that the walk treats as leaves, among them `new`,
/// whose callee and arguments are not walked.
pub open spec fn is_leaf_expr(expr: Expr) -> bool {
    expr is This || expr is Id || expr is New || expr is NewTarget || expr is True
        || expr is False || expr is Null || expr is Number || expr is RegExp || expr is String
}

/// The hook calls for a list of expressions, in order.
pub open spec fn exprs_hooks(exprs: Seq<Expr>) -> Seq<Hook>
    decreases exprs, 0int,
{
    if exprs.len() == 0 {
        Seq::empty()
    } else {
        exprs_hooks(exprs.drop_last()) + expr_hooks(exprs.last())
    }
}

/// An argument contributes its inner expression, spread or not.
pub open spec fn arg_hooks(arg: ExprListItem) -> Seq<Hook>
    decreases arg, 0int,
{
    match arg {
        ExprListItem::Expr(expr) => expr_hooks(expr),
        ExprListItem::Spread(expr) => expr_hooks(expr),
    }
}

/// The hook calls for an argument list, in order.
pub open spec fn args_hooks(args: Seq<ExprListItem>) -> Seq<Hook>
    decreases args, 0int,
{
    if args.len() == 0 {
        Seq::empty()
    } else {
        args_hooks(args.drop_last()) + arg_hooks(args.last())
    }
}

/// An array element contributes like an argument; a hole contributes nothing.
pub open spec fn element_hooks(element: Option<ExprListItem>) -> Seq<Hook>
    decreases element, 0int,
{
    match element {
        Some(arg) => arg_hooks(arg),
        None => Seq::empty(),
    }
}

/// The hook calls for the elements of an array literal, in order.
pub open spec fn elements_hooks(elements: Seq<Option<ExprListItem>>) -> Seq<Hook>
    decreases elements, 0int,
{
    if elements.len() == 0 {
        Seq::empty()
    } else {
        elements_hooks(elements.drop_last()) + element_hooks(elements.last())
    }
}

/// An assignment target contributes its object and, for a computed member,
/// its key; a plain identifier contributes nothing.
pub open spec fn target_hooks(target: AssignTarget) -> Seq<Hook>
    decreases target, 0int,
{
    match target {
        AssignTarget::Id(_) => Seq::empty(),
        AssignTarget::Dot(object, _) => expr_hooks(*object),
        AssignTarget::Brack(object, key) => expr_hooks(*object) + expr_hooks(*key),
    }
}

/// A regular property contributes its value expression or its accessor body,
/// a method is walked as a function, a shorthand contributes nothing.
pub open spec fn prop_hooks(prop: Prop) -> Seq<Hook>
    decreases prop, 0int,
{
    match prop {
        Prop::Regular(_, PropVal::Init(value)) => expr_hooks(value),
        Prop::Regular(_, PropVal::Getter(body)) => items_hooks(body@),
        Prop::Regular(_, PropVal::Setter(_, body)) => items_hooks(body@),
        Prop::Method(fun) => fun_hooks(fun),
        Prop::Shorthand(_) => Seq::empty(),
    }
}

/// The hook calls for the properties of an object literal, in order.
pub open spec fn props_hooks(props: Seq<Prop>) -> Seq<Hook>
    decreases props, 0int,
{
    if props.len() == 0 {
        Seq::empty()
    } else {
        props_hooks(props.drop_last()) + prop_hooks(props.last())
    }
}

} // verus!
