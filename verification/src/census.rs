//! How many nodes of each kind a walk visits, and the law that every visited
//! node gets exactly one enter call and one exit call.
use vstd::prelude::*;
use crate::ast::{
    AssignTarget, Case, Catch, ConstDtor, Decl, Dtor, Expr, ExprListItem, Fun, Prop, PropVal,
    Script, Stmt, StmtListItem,
};
use crate::nesting::{enters, exits, is_enter, kind_of, NodeKind};
use crate::trace::{
    arg_hooks, args_hooks, case_hooks, cases_hooks, catch_hooks, const_dtors_hooks,
    decl_children_hooks, decl_hooks, dtor_hooks, dtors_hooks, element_hooks, elements_hooks,
    expr_children_hooks, expr_hooks, exprs_hooks, fun_hooks, item_hooks, items_hooks,
    opt_expr_hooks, opt_items_hooks, opt_stmt_hooks, prop_hooks, props_hooks, script_hooks,
    stmt_children_hooks, stmt_hooks, target_hooks, Hook,
};

verus! {

/// One if `same` holds, else zero.
pub open spec fn one_if(same: bool) -> nat {
    if same {
        1
    } else {
        0
    }
}

/// The number of nodes of `kind` that a walk of the script visits.
pub open spec fn script_nodes(script: Script, kind: NodeKind) -> nat {
    one_if(NodeKind::Script == kind) + items_nodes(script.items@, kind)
}

/// The number of nodes of `kind` visited in a statement list.
pub open spec fn items_nodes(items: Seq<StmtListItem>, kind: NodeKind) -> nat
    decreases items, 0int,
{
    if items.len() == 0 {
        0nat
    } else {
        items_nodes(items.drop_last(), kind) + item_nodes(items.last(), kind)
    }
}

/// The number of nodes of `kind` visited in walking one item of a statement list.
pub open spec fn item_nodes(item: StmtListItem, kind: NodeKind) -> nat
    decreases item, 0int,
{
    match item {
        StmtListItem::Stmt(stmt) => stmt_nodes(stmt, kind),
        StmtListItem::Decl(decl) => decl_nodes(decl, kind),
    }
}

/// The number of nodes of `kind` visited in walking a statement list that may be absent.
pub open spec fn opt_items_nodes(items: Option<Vec<StmtListItem>>, kind: NodeKind) -> nat
    decreases items, 0int,
{
    match items {
        Some(items) => items_nodes(items@, kind),
        None => 0nat,
    }
}

/// The number of nodes of `kind` visited in walking an expression that may be absent.
pub open spec fn opt_expr_nodes(expr: Option<Expr>, kind: NodeKind) -> nat
    decreases expr, 0int,
{
    match expr {
        Some(expr) => expr_nodes(expr, kind),
        None => 0nat,
    }
}

/// The number of nodes of `kind` visited in walking a statement that may be absent.
pub open spec fn opt_stmt_nodes(stmt: Option<Box<Stmt>>, kind: NodeKind) -> nat
    decreases stmt, 0int,
{
    match stmt {
        Some(stmt) => stmt_nodes(*stmt, kind),
        None => 0nat,
    }
}

/// The number of nodes of `kind` visited in walking a `catch` clause that may be absent.
pub open spec fn catch_nodes(caught: Option<Catch>, kind: NodeKind) -> nat
    decreases caught, 0int,
{
    match caught {
        Some(caught) => items_nodes(caught.body@, kind),
        None => 0nat,
    }
}

/// The number of nodes of `kind` visited in walking one clause of a `switch`.
pub open spec fn case_nodes(case: Case, kind: NodeKind) -> nat
    decreases case, 0int,
{
    opt_expr_nodes(case.test, kind) + items_nodes(case.body@, kind)
}

/// The number of nodes of `kind` visited in walking the clauses of a `switch`.
pub open spec fn cases_nodes(cases: Seq<Case>, kind: NodeKind) -> nat
    decreases cases, 0int,
{
    if cases.len() == 0 {
        0nat
    } else {
        cases_nodes(cases.drop_last(), kind) + case_nodes(cases.last(), kind)
    }
}

/// The number of nodes of `kind` visited in walking a statement: the
/// statement itself and what its children hold.
pub open spec fn stmt_nodes(stmt: Stmt, kind: NodeKind) -> nat
    decreases stmt, 1int,
{
    one_if(NodeKind::Stmt == kind) + stmt_children_nodes(stmt, kind)
}

/// The number of nodes of `kind` visited below a statement. A statement
/// kind without an arm of its own has none, whatever it holds.
pub open spec fn stmt_children_nodes(stmt: Stmt, kind: NodeKind) -> nat
    decreases stmt, 0int,
{
    match stmt {
        Stmt::Block(items) => items_nodes(items@, kind),
        Stmt::Var(dtors) => dtors_nodes(dtors@, kind),
        Stmt::Expr(expr) => expr_nodes(expr, kind),
        Stmt::If(cond, cons, alt) => expr_nodes(cond, kind) + stmt_nodes(*cons, kind)
            + opt_stmt_nodes(alt, kind),
        Stmt::Label(_, body) => stmt_nodes(*body, kind),
        Stmt::Switch(cond, cases) => expr_nodes(cond, kind) + cases_nodes(cases@, kind),
        Stmt::Return(arg) => opt_expr_nodes(arg, kind),
        Stmt::Throw(arg) => expr_nodes(arg, kind),
        Stmt::Try(body, caught, finally) => items_nodes(body@, kind) + catch_nodes(caught, kind)
            + opt_items_nodes(finally, kind),
        Stmt::While(cond, body) => expr_nodes(cond, kind) + stmt_nodes(*body, kind),
        Stmt::DoWhile(body, cond) => stmt_nodes(*body, kind) + expr_nodes(cond, kind),
        Stmt::For(_, cond, update, body) => opt_expr_nodes(cond, kind)
            + opt_expr_nodes(update, kind)
            + stmt_nodes(*body, kind),
        Stmt::ForIn(_, iterable, body) => expr_nodes(iterable, kind) + stmt_nodes(*body, kind),
        Stmt::ForOf(_, iterable, body) => expr_nodes(iterable, kind) + stmt_nodes(*body, kind),
        _ => 0nat,
    }
}

/// The number of nodes of `kind` visited in walking a declaration.
pub open spec fn decl_nodes(decl: Decl, kind: NodeKind) -> nat
    decreases decl, 1int,
{
    one_if(NodeKind::Decl == kind) + decl_children_nodes(decl, kind)
}

/// The number of nodes of `kind` visited below a declaration.
pub open spec fn decl_children_nodes(decl: Decl, kind: NodeKind) -> nat
    decreases decl, 0int,
{
    match decl {
        Decl::Fun(fun) => fun_nodes(fun, kind),
        Decl::Let(dtors) => dtors_nodes(dtors@, kind),
        Decl::Const(dtors) => const_dtors_nodes(dtors@, kind),
    }
}

/// The number of nodes of `kind` visited in walking a declarator.
pub open spec fn dtor_nodes(dtor: Dtor, kind: NodeKind) -> nat
    decreases dtor, 0int,
{
    opt_expr_nodes(dtor.init, kind)
}

/// The number of nodes of `kind` visited in walking the declarators of a `var` or `let`.
pub open spec fn dtors_nodes(dtors: Seq<Dtor>, kind: NodeKind) -> nat
    decreases dtors, 0int,
{
    if dtors.len() == 0 {
        0nat
    } else {
        dtors_nodes(dtors.drop_last(), kind) + dtor_nodes(dtors.last(), kind)
    }
}

/// The number of nodes of `kind` visited in walking the declarators of a `const`.
pub open spec fn const_dtors_nodes(dtors: Seq<ConstDtor>, kind: NodeKind) -> nat
    decreases dtors, 0int,
{
    if dtors.len() == 0 {
        0nat
    } else {
        const_dtors_nodes(dtors.drop_last(), kind) + expr_nodes(dtors.last().value, kind)
    }
}

/// The number of nodes of `kind` visited in walking a function: the
/// function itself and its body.
pub open spec fn fun_nodes(fun: Fun, kind: NodeKind) -> nat
    decreases fun, 0int,
{
    one_if(NodeKind::Fun == kind) + items_nodes(fun.body@, kind)
}

/// The number of nodes of `kind` visited in walking an expression: the
/// expression itself and what its children hold.
pub open spec fn expr_nodes(expr: Expr, kind: NodeKind) -> nat
    decreases expr, 1int,
{
    one_if(NodeKind::Expr == kind) + expr_children_nodes(expr, kind)
}

/// The number of nodes of `kind` visited below an expression.
pub open spec fn expr_children_nodes(expr: Expr, kind: NodeKind) -> nat
    decreases expr, 0int,
{
    match expr {
        Expr::Call(callee, args) => expr_nodes(*callee, kind) + args_nodes(args@, kind),
        Expr::Sequence(exprs) => exprs_nodes(exprs@, kind),
        Expr::Arr(elements) => elements_nodes(elements@, kind),
        Expr::Obj(props) => props_nodes(props@, kind),
        Expr::Fun(fun) => fun_nodes(fun, kind),
        Expr::Binop(_, left, right) => expr_nodes(*left, kind) + expr_nodes(*right, kind),
        Expr::Logop(_, left, right) => expr_nodes(*left, kind) + expr_nodes(*right, kind),
        Expr::Unop(_, operand) => expr_nodes(*operand, kind),
        Expr::PreInc(target) => target_nodes(*target, kind),
        Expr::PostInc(target) => target_nodes(*target, kind),
        Expr::PreDec(target) => target_nodes(*target, kind),
        Expr::PostDec(target) => target_nodes(*target, kind),
        Expr::Assign(_, value) => expr_nodes(*value, kind),
        Expr::BinAssign(_, target, value) => target_nodes(target, kind) + expr_nodes(*value, kind),
        Expr::Cond(cond, cons, alt) => expr_nodes(*cond, kind) + expr_nodes(*cons, kind)
            + expr_nodes(*alt, kind),
        Expr::Dot(object, _) => expr_nodes(*object, kind),
        Expr::Brack(object, key) => expr_nodes(*object, kind) + expr_nodes(*key, kind),
        _ => 0nat,
    }
}

/// The number of nodes of `kind` visited in walking a list of expressions.
pub open spec fn exprs_nodes(exprs: Seq<Expr>, kind: NodeKind) -> nat
    decreases exprs, 0int,
{
    if exprs.len() == 0 {
        0nat
    } else {
        exprs_nodes(exprs.drop_last(), kind) + expr_nodes(exprs.last(), kind)
    }
}

/// The number of nodes of `kind` visited in walking an argument.
pub open spec fn arg_nodes(arg: ExprListItem, kind: NodeKind) -> nat
    decreases arg, 0int,
{
    match arg {
        ExprListItem::Expr(expr) => expr_nodes(expr, kind),
        ExprListItem::Spread(expr) => expr_nodes(expr, kind),
    }
}

/// The number of nodes of `kind` visited in walking an argument list.
pub open spec fn args_nodes(args: Seq<ExprListItem>, kind: NodeKind) -> nat
    decreases args, 0int,
{
    if args.len() == 0 {
        0nat
    } else {
        args_nodes(args.drop_last(), kind) + arg_nodes(args.last(), kind)
    }
}

/// The number of nodes of `kind` visited in walking an element of an array literal.
pub open spec fn element_nodes(element: Option<ExprListItem>, kind: NodeKind) -> nat
    decreases element, 0int,
{
    match element {
        Some(arg) => arg_nodes(arg, kind),
        None => 0nat,
    }
}

/// The number of nodes of `kind` visited in walking the elements of an array literal.
pub open spec fn elements_nodes(elements: Seq<Option<ExprListItem>>, kind: NodeKind) -> nat
    decreases elements, 0int,
{
    if elements.len() == 0 {
        0nat
    } else {
        elements_nodes(elements.drop_last(), kind) + element_nodes(elements.last(), kind)
    }
}

/// The number of nodes of `kind` visited in walking an assignment target.
pub open spec fn target_nodes(target: AssignTarget, kind: NodeKind) -> nat
    decreases target, 0int,
{
    match target {
        AssignTarget::Id(_) => 0nat,
        AssignTarget::Dot(object, _) => expr_nodes(*object, kind),
        AssignTarget::Brack(object, key) => expr_nodes(*object, kind) + expr_nodes(*key, kind),
    }
}

/// The number of nodes of `kind` visited in walking a property of an object literal.
pub open spec fn prop_nodes(prop: Prop, kind: NodeKind) -> nat
    decreases prop, 0int,
{
    match prop {
        Prop::Regular(_, PropVal::Init(value)) => expr_nodes(value, kind),
        Prop::Regular(_, PropVal::Getter(body)) => items_nodes(body@, kind),
        Prop::Regular(_, PropVal::Setter(_, body)) => items_nodes(body@, kind),
        Prop::Method(fun) => fun_nodes(fun, kind),
        Prop::Shorthand(_) => 0nat,
    }
}

/// The number of nodes of `kind` visited in walking the properties of an object literal.
pub open spec fn props_nodes(props: Seq<Prop>, kind: NodeKind) -> nat
    decreases props, 0int,
{
    if props.len() == 0 {
        0nat
    } else {
        props_nodes(props.drop_last(), kind) + prop_nodes(props.last(), kind)
    }
}

/// The enter calls of two runs in a row add up.
pub broadcast proof fn lemma_enters_concat(first: Seq<Hook>, second: Seq<Hook>, kind: NodeKind)
    ensures
        #[trigger] enters(first + second, kind) == enters(first, kind) + enters(second, kind),
    decreases second.len(),
{
    if second.len() == 0 {
        assert(first + second =~= first);
    } else {
        lemma_enters_concat(first, second.drop_last(), kind);
        assert((first + second).drop_last() =~= first + second.drop_last());
        assert((first + second).last() == second.last());
    }
}

/// The exit calls of two runs in a row add up.
pub broadcast proof fn lemma_exits_concat(first: Seq<Hook>, second: Seq<Hook>, kind: NodeKind)
    ensures
        #[trigger] exits(first + second, kind) == exits(first, kind) + exits(second, kind),
    decreases second.len(),
{
    if second.len() == 0 {
        assert(first + second =~= first);
    } else {
        lemma_exits_concat(first, second.drop_last(), kind);
        assert((first + second).drop_last() =~= first + second.drop_last());
        assert((first + second).last() == second.last());
    }
}

/// A run between a node's enter call and its exit call has one enter and one
/// exit call more for the node's kind, and as many as before for the others.
pub proof fn lemma_count_wrap(enter: Hook, between: Seq<Hook>, exit: Hook, kind: NodeKind)
    requires
        is_enter(enter),
        !is_enter(exit),
        kind_of(enter) == kind_of(exit),
    ensures
        enters(seq![enter] + between + seq![exit], kind) == one_if(kind_of(enter) == kind)
            + enters(between, kind),
        exits(seq![enter] + between + seq![exit], kind) == one_if(kind_of(enter) == kind) + exits(
            between,
            kind,
        ),
{
    reveal_with_fuel(enters, 2);
    reveal_with_fuel(exits, 2);
    assert(seq![enter].drop_last() =~= Seq::<Hook>::empty());
    assert(seq![exit].drop_last() =~= Seq::<Hook>::empty());
    lemma_enters_concat(seq![enter], between, kind);
    lemma_enters_concat(seq![enter] + between, seq![exit], kind);
    lemma_exits_concat(seq![enter], between, kind);
    lemma_exits_concat(seq![enter] + between, seq![exit], kind);
}

proof fn lemma_items_count(items: Seq<StmtListItem>, kind: NodeKind)
    ensures
        enters(items_hooks(items), kind) == items_nodes(items, kind),
        exits(items_hooks(items), kind) == items_nodes(items, kind),
    decreases items, 0int,
{
    broadcast use {lemma_enters_concat, lemma_exits_concat};
    if items.len() > 0 {
        lemma_items_count(items.drop_last(), kind);
        lemma_item_count(items.last(), kind);
    }
}

proof fn lemma_item_count(item: StmtListItem, kind: NodeKind)
    ensures
        enters(item_hooks(item), kind) == item_nodes(item, kind),
        exits(item_hooks(item), kind) == item_nodes(item, kind),
    decreases item, 0int,
{
    broadcast use {lemma_enters_concat, lemma_exits_concat};
    match item {
        StmtListItem::Stmt(stmt) => lemma_stmt_count(stmt, kind),
        StmtListItem::Decl(decl) => lemma_decl_count(decl, kind),
    }
}

proof fn lemma_opt_items_count(items: Option<Vec<StmtListItem>>, kind: NodeKind)
    ensures
        enters(opt_items_hooks(items), kind) == opt_items_nodes(items, kind),
        exits(opt_items_hooks(items), kind) == opt_items_nodes(items, kind),
    decreases items, 0int,
{
    broadcast use {lemma_enters_concat, lemma_exits_concat};
    match items {
        Some(items) => lemma_items_count(items@, kind),
        None => {},
    }
}

proof fn lemma_opt_expr_count(expr: Option<Expr>, kind: NodeKind)
    ensures
        enters(opt_expr_hooks(expr), kind) == opt_expr_nodes(expr, kind),
        exits(opt_expr_hooks(expr), kind) == opt_expr_nodes(expr, kind),
    decreases expr, 0int,
{
    broadcast use {lemma_enters_concat, lemma_exits_concat};
    match expr {
        Some(expr) => lemma_expr_count(expr, kind),
        None => {},
    }
}

proof fn lemma_opt_stmt_count(stmt: Option<Box<Stmt>>, kind: NodeKind)
    ensures
        enters(opt_stmt_hooks(stmt), kind) == opt_stmt_nodes(stmt, kind),
        exits(opt_stmt_hooks(stmt), kind) == opt_stmt_nodes(stmt, kind),
    decreases stmt, 0int,
{
    broadcast use {lemma_enters_concat, lemma_exits_concat};
    match stmt {
        Some(stmt) => lemma_stmt_count(*stmt, kind),
        None => {},
    }
}

proof fn lemma_catch_count(caught: Option<Catch>, kind: NodeKind)
    ensures
        enters(catch_hooks(caught), kind) == catch_nodes(caught, kind),
        exits(catch_hooks(caught), kind) == catch_nodes(caught, kind),
    decreases caught, 0int,
{
    broadcast use {lemma_enters_concat, lemma_exits_concat};
    match caught {
        Some(caught) => lemma_items_count(caught.body@, kind),
        None => {},
    }
}

proof fn lemma_case_count(case: Case, kind: NodeKind)
    ensures
        enters(case_hooks(case), kind) == case_nodes(case, kind),
        exits(case_hooks(case), kind) == case_nodes(case, kind),
    decreases case, 0int,
{
    broadcast use {lemma_enters_concat, lemma_exits_concat};
    lemma_opt_expr_count(case.test, kind);
    lemma_items_count(case.body@, kind);
}

proof fn lemma_cases_count(cases: Seq<Case>, kind: NodeKind)
    ensures
        enters(cases_hooks(cases), kind) == cases_nodes(cases, kind),
        exits(cases_hooks(cases), kind) == cases_nodes(cases, kind),
    decreases cases, 0int,
{
    broadcast use {lemma_enters_concat, lemma_exits_concat};
    if cases.len() > 0 {
        lemma_cases_count(cases.drop_last(), kind);
        lemma_case_count(cases.last(), kind);
    }
}

proof fn lemma_stmt_count(stmt: Stmt, kind: NodeKind)
    ensures
        enters(stmt_hooks(stmt), kind) == stmt_nodes(stmt, kind),
        exits(stmt_hooks(stmt), kind) == stmt_nodes(stmt, kind),
    decreases stmt, 1int,
{
    broadcast use {lemma_enters_concat, lemma_exits_concat};
    lemma_stmt_children_count(stmt, kind);
    lemma_count_wrap(Hook::PreStmt(stmt), stmt_children_hooks(stmt), Hook::PostStmt(stmt), kind);
}

proof fn lemma_stmt_children_count(stmt: Stmt, kind: NodeKind)
    ensures
        enters(stmt_children_hooks(stmt), kind) == stmt_children_nodes(stmt, kind),
        exits(stmt_children_hooks(stmt), kind) == stmt_children_nodes(stmt, kind),
    decreases stmt, 0int,
{
    broadcast use {lemma_enters_concat, lemma_exits_concat};
    match stmt {
        Stmt::Block(items) => lemma_items_count(items@, kind),
        Stmt::Var(dtors) => lemma_dtors_count(dtors@, kind),
        Stmt::Expr(expr) => lemma_expr_count(expr, kind),
        Stmt::If(cond, cons, alt) => {
            lemma_expr_count(cond, kind);
            lemma_stmt_count(*cons, kind);
            lemma_opt_stmt_count(alt, kind);
        },
        Stmt::Label(_, body) => lemma_stmt_count(*body, kind),
        Stmt::Switch(cond, cases) => {
            lemma_expr_count(cond, kind);
            lemma_cases_count(cases@, kind);
        },
        Stmt::Return(arg) => lemma_opt_expr_count(arg, kind),
        Stmt::Throw(arg) => lemma_expr_count(arg, kind),
        Stmt::Try(body, caught, finally) => {
            lemma_items_count(body@, kind);
            lemma_catch_count(caught, kind);
            lemma_opt_items_count(finally, kind);
        },
        Stmt::While(cond, body) => {
            lemma_expr_count(cond, kind);
            lemma_stmt_count(*body, kind);
        },
        Stmt::DoWhile(body, cond) => {
            lemma_stmt_count(*body, kind);
            lemma_expr_count(cond, kind);
        },
        Stmt::For(_, cond, update, body) => {
            lemma_opt_expr_count(cond, kind);
            lemma_opt_expr_count(update, kind);
            lemma_stmt_count(*body, kind);
        },
        Stmt::ForIn(_, iterable, body) => {
            lemma_expr_count(iterable, kind);
            lemma_stmt_count(*body, kind);
        },
        Stmt::ForOf(_, iterable, body) => {
            lemma_expr_count(iterable, kind);
            lemma_stmt_count(*body, kind);
        },
        _ => {},
    }
}

proof fn lemma_decl_count(decl: Decl, kind: NodeKind)
    ensures
        enters(decl_hooks(decl), kind) == decl_nodes(decl, kind),
        exits(decl_hooks(decl), kind) == decl_nodes(decl, kind),
    decreases decl, 1int,
{
    broadcast use {lemma_enters_concat, lemma_exits_concat};
    lemma_decl_children_count(decl, kind);
    lemma_count_wrap(Hook::PreDecl(decl), decl_children_hooks(decl), Hook::PostDecl(decl), kind);
}

proof fn lemma_decl_children_count(decl: Decl, kind: NodeKind)
    ensures
        enters(decl_children_hooks(decl), kind) == decl_children_nodes(decl, kind),
        exits(decl_children_hooks(decl), kind) == decl_children_nodes(decl, kind),
    decreases decl, 0int,
{
    broadcast use {lemma_enters_concat, lemma_exits_concat};
    match decl {
        Decl::Fun(fun) => lemma_fun_count(fun, kind),
        Decl::Let(dtors) => lemma_dtors_count(dtors@, kind),
        Decl::Const(dtors) => lemma_const_dtors_count(dtors@, kind),
    }
}

proof fn lemma_dtor_count(dtor: Dtor, kind: NodeKind)
    ensures
        enters(dtor_hooks(dtor), kind) == dtor_nodes(dtor, kind),
        exits(dtor_hooks(dtor), kind) == dtor_nodes(dtor, kind),
    decreases dtor, 0int,
{
    broadcast use {lemma_enters_concat, lemma_exits_concat};
    lemma_opt_expr_count(dtor.init, kind);
}

proof fn lemma_dtors_count(dtors: Seq<Dtor>, kind: NodeKind)
    ensures
        enters(dtors_hooks(dtors), kind) == dtors_nodes(dtors, kind),
        exits(dtors_hooks(dtors), kind) == dtors_nodes(dtors, kind),
    decreases dtors, 0int,
{
    broadcast use {lemma_enters_concat, lemma_exits_concat};
    if dtors.len() > 0 {
        lemma_dtors_count(dtors.drop_last(), kind);
        lemma_dtor_count(dtors.last(), kind);
    }
}

proof fn lemma_const_dtors_count(const_dtors: Seq<ConstDtor>, kind: NodeKind)
    ensures
        enters(const_dtors_hooks(const_dtors), kind) == const_dtors_nodes(const_dtors, kind),
        exits(const_dtors_hooks(const_dtors), kind) == const_dtors_nodes(const_dtors, kind),
    decreases const_dtors, 0int,
{
    broadcast use {lemma_enters_concat, lemma_exits_concat};
    if const_dtors.len() > 0 {
        lemma_const_dtors_count(const_dtors.drop_last(), kind);
        lemma_expr_count(const_dtors.last().value, kind);
    }
}

proof fn lemma_fun_count(fun: Fun, kind: NodeKind)
    ensures
        enters(fun_hooks(fun), kind) == fun_nodes(fun, kind),
        exits(fun_hooks(fun), kind) == fun_nodes(fun, kind),
    decreases fun, 0int,
{
    broadcast use {lemma_enters_concat, lemma_exits_concat};
    lemma_items_count(fun.body@, kind);
    lemma_count_wrap(Hook::PreFun(fun), items_hooks(fun.body@), Hook::PostFun(fun), kind);
}

proof fn lemma_expr_count(expr: Expr, kind: NodeKind)
    ensures
        enters(expr_hooks(expr), kind) == expr_nodes(expr, kind),
        exits(expr_hooks(expr), kind) == expr_nodes(expr, kind),
    decreases expr, 1int,
{
    broadcast use {lemma_enters_concat, lemma_exits_concat};
    lemma_expr_children_count(expr, kind);
    lemma_count_wrap(Hook::PreExpr(expr), expr_children_hooks(expr), Hook::PostExpr(expr), kind);
}

proof fn lemma_expr_children_count(expr: Expr, kind: NodeKind)
    ensures
        enters(expr_children_hooks(expr), kind) == expr_children_nodes(expr, kind),
        exits(expr_children_hooks(expr), kind) == expr_children_nodes(expr, kind),
    decreases expr, 0int,
{
    broadcast use {lemma_enters_concat, lemma_exits_concat};
    match expr {
        Expr::Call(callee, args) => {
            lemma_expr_count(*callee, kind);
            lemma_args_count(args@, kind);
        },
        Expr::Sequence(exprs) => lemma_exprs_count(exprs@, kind),
        Expr::Arr(elements) => lemma_elements_count(elements@, kind),
        Expr::Obj(props) => lemma_props_count(props@, kind),
        Expr::Fun(fun) => lemma_fun_count(fun, kind),
        Expr::Binop(_, left, right) => {
            lemma_expr_count(*left, kind);
            lemma_expr_count(*right, kind);
        },
        Expr::Logop(_, left, right) => {
            lemma_expr_count(*left, kind);
            lemma_expr_count(*right, kind);
        },
        Expr::Unop(_, operand) => lemma_expr_count(*operand, kind),
        Expr::PreInc(target) => lemma_target_count(*target, kind),
        Expr::PostInc(target) => lemma_target_count(*target, kind),
        Expr::PreDec(target) => lemma_target_count(*target, kind),
        Expr::PostDec(target) => lemma_target_count(*target, kind),
        Expr::Assign(_, value) => lemma_expr_count(*value, kind),
        Expr::BinAssign(_, target, value) => {
            lemma_target_count(target, kind);
            lemma_expr_count(*value, kind);
        },
        Expr::Cond(cond, cons, alt) => {
            lemma_expr_count(*cond, kind);
            lemma_expr_count(*cons, kind);
            lemma_expr_count(*alt, kind);
        },
        Expr::Dot(object, _) => lemma_expr_count(*object, kind),
        Expr::Brack(object, key) => {
            lemma_expr_count(*object, kind);
            lemma_expr_count(*key, kind);
        },
        _ => {},
    }
}

proof fn lemma_exprs_count(exprs: Seq<Expr>, kind: NodeKind)
    ensures
        enters(exprs_hooks(exprs), kind) == exprs_nodes(exprs, kind),
        exits(exprs_hooks(exprs), kind) == exprs_nodes(exprs, kind),
    decreases exprs, 0int,
{
    broadcast use {lemma_enters_concat, lemma_exits_concat};
    if exprs.len() > 0 {
        lemma_exprs_count(exprs.drop_last(), kind);
        lemma_expr_count(exprs.last(), kind);
    }
}

proof fn lemma_arg_count(arg: ExprListItem, kind: NodeKind)
    ensures
        enters(arg_hooks(arg), kind) == arg_nodes(arg, kind),
        exits(arg_hooks(arg), kind) == arg_nodes(arg, kind),
    decreases arg, 0int,
{
    broadcast use {lemma_enters_concat, lemma_exits_concat};
    match arg {
        ExprListItem::Expr(expr) => lemma_expr_count(expr, kind),
        ExprListItem::Spread(expr) => lemma_expr_count(expr, kind),
    }
}

proof fn lemma_args_count(args: Seq<ExprListItem>, kind: NodeKind)
    ensures
        enters(args_hooks(args), kind) == args_nodes(args, kind),
        exits(args_hooks(args), kind) == args_nodes(args, kind),
    decreases args, 0int,
{
    broadcast use {lemma_enters_concat, lemma_exits_concat};
    if args.len() > 0 {
        lemma_args_count(args.drop_last(), kind);
        lemma_arg_count(args.last(), kind);
    }
}

proof fn lemma_element_count(element: Option<ExprListItem>, kind: NodeKind)
    ensures
        enters(element_hooks(element), kind) == element_nodes(element, kind),
        exits(element_hooks(element), kind) == element_nodes(element, kind),
    decreases element, 0int,
{
    broadcast use {lemma_enters_concat, lemma_exits_concat};
    match element {
        Some(arg) => lemma_arg_count(arg, kind),
        None => {},
    }
}

proof fn lemma_elements_count(elements: Seq<Option<ExprListItem>>, kind: NodeKind)
    ensures
        enters(elements_hooks(elements), kind) == elements_nodes(elements, kind),
        exits(elements_hooks(elements), kind) == elements_nodes(elements, kind),
    decreases elements, 0int,
{
    broadcast use {lemma_enters_concat, lemma_exits_concat};
    if elements.len() > 0 {
        lemma_elements_count(elements.drop_last(), kind);
        lemma_element_count(elements.last(), kind);
    }
}

proof fn lemma_target_count(target: AssignTarget, kind: NodeKind)
    ensures
        enters(target_hooks(target), kind) == target_nodes(target, kind),
        exits(target_hooks(target), kind) == target_nodes(target, kind),
    decreases target, 0int,
{
    broadcast use {lemma_enters_concat, lemma_exits_concat};
    match target {
        AssignTarget::Id(_) => {},
        AssignTarget::Dot(object, _) => lemma_expr_count(*object, kind),
        AssignTarget::Brack(object, key) => {
            lemma_expr_count(*object, kind);
            lemma_expr_count(*key, kind);
        },
    }
}

proof fn lemma_prop_count(prop: Prop, kind: NodeKind)
    ensures
        enters(prop_hooks(prop), kind) == prop_nodes(prop, kind),
        exits(prop_hooks(prop), kind) == prop_nodes(prop, kind),
    decreases prop, 0int,
{
    broadcast use {lemma_enters_concat, lemma_exits_concat};
    match prop {
        Prop::Regular(_, PropVal::Init(value)) => lemma_expr_count(value, kind),
        Prop::Regular(_, PropVal::Getter(body)) => lemma_items_count(body@, kind),
        Prop::Regular(_, PropVal::Setter(_, body)) => lemma_items_count(body@, kind),
        Prop::Method(fun) => lemma_fun_count(fun, kind),
        Prop::Shorthand(_) => {},
    }
}

proof fn lemma_props_count(props: Seq<Prop>, kind: NodeKind)
    ensures
        enters(props_hooks(props), kind) == props_nodes(props, kind),
        exits(props_hooks(props), kind) == props_nodes(props, kind),
    decreases props, 0int,
{
    broadcast use {lemma_enters_concat, lemma_exits_concat};
    if props.len() > 0 {
        lemma_props_count(props.drop_last(), kind);
        lemma_prop_count(props.last(), kind);
    }
}

/// Over a whole walk, the enter calls for each kind of node, and the exit
/// calls for it, are as many as the nodes of that kind that the walk visits.
pub proof fn lemma_walk_counts(script: Script, kind: NodeKind)
    ensures
        enters(script_hooks(script), kind) == script_nodes(script, kind),
        exits(script_hooks(script), kind) == script_nodes(script, kind),
{
    lemma_items_count(script.items@, kind);
    lemma_count_wrap(
        Hook::PreScript(script),
        items_hooks(script.items@),
        Hook::PostScript(script),
        kind,
    );
}

} // verus!
