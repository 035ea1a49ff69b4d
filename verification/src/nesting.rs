//! What holds of the hook calls of every walk: enter and exit hooks pair up
//! like brackets, node by node.
use vstd::prelude::*;
use crate::ast::{
    AssignTarget, Case, Catch, ConstDtor, Decl, Dtor, Expr, ExprListItem, Fun, Prop, PropVal,
    Script, Stmt, StmtListItem,
};
use crate::trace::{
    arg_hooks, args_hooks, case_hooks, cases_hooks, catch_hooks, const_dtors_hooks,
    decl_children_hooks, decl_hooks, dtor_hooks, dtors_hooks, element_hooks, elements_hooks,
    expr_children_hooks, expr_hooks, exprs_hooks, fun_hooks, item_hooks, items_hooks,
    opt_expr_hooks, opt_items_hooks, opt_stmt_hooks, prop_hooks, props_hooks, script_hooks,
    is_leaf_expr, is_leaf_stmt, stmt_children_hooks, stmt_hooks, target_hooks, Hook,
};

verus! {

/// The five kinds of node that have hooks.
pub enum NodeKind {
    Script,
    Stmt,
    Expr,
    Decl,
    Fun,
}

/// The kind of node that a hook call is about.
pub open spec fn kind_of(hook: Hook) -> NodeKind {
    match hook {
        Hook::PreScript(_) | Hook::PostScript(_) => NodeKind::Script,
        Hook::PreStmt(_) | Hook::PostStmt(_) => NodeKind::Stmt,
        Hook::PreExpr(_) | Hook::PostExpr(_) => NodeKind::Expr,
        Hook::PreDecl(_) | Hook::PostDecl(_) => NodeKind::Decl,
        Hook::PreFun(_) | Hook::PostFun(_) => NodeKind::Fun,
    }
}

/// Whether a hook call is an enter call.
pub open spec fn is_enter(hook: Hook) -> bool {
    match hook {
        Hook::PreScript(_) | Hook::PreStmt(_) | Hook::PreExpr(_) | Hook::PreDecl(_) | Hook::PreFun(
            _,
        ) => true,
        _ => false,
    }
}

/// Whether `exit` is the exit call for the node that `enter` entered.
pub open spec fn closes(exit: Hook, enter: Hook) -> bool {
    match (enter, exit) {
        (Hook::PreScript(a), Hook::PostScript(b)) => a == b,
        (Hook::PreStmt(a), Hook::PostStmt(b)) => a == b,
        (Hook::PreExpr(a), Hook::PostExpr(b)) => a == b,
        (Hook::PreDecl(a), Hook::PostDecl(b)) => a == b,
        (Hook::PreFun(a), Hook::PostFun(b)) => a == b,
        _ => false,
    }
}

/// Reads `hooks` as brackets. `open` holds the enter calls not yet closed,
/// innermost last. An enter call is added to them; an exit call must close the
/// innermost one, which is then removed. The result is what is still open at
/// the end, or `None` if some exit call did not close the innermost open node.
pub open spec fn open_after(hooks: Seq<Hook>, open: Seq<Hook>) -> Option<Seq<Hook>>
    decreases hooks.len(),
{
    if hooks.len() == 0 {
        Some(open)
    } else {
        match open_after(hooks.drop_last(), open) {
            None => None,
            Some(inner) => {
                let hook = hooks.last();
                if is_enter(hook) {
                    Some(inner.push(hook))
                } else if inner.len() > 0 && closes(hook, inner.last()) {
                    Some(inner.drop_last())
                } else {
                    None
                }
            },
        }
    }
}

/// A run of hook calls that closes exactly what it opens: wherever it
/// starts, it ends with the same nodes open.
pub open spec fn balanced(hooks: Seq<Hook>) -> bool {
    forall|open: Seq<Hook>| #[trigger] open_after(hooks, open) == Some(open)
}

/// The number of enter calls for nodes of `kind` among `hooks`.
pub open spec fn enters(hooks: Seq<Hook>, kind: NodeKind) -> nat
    decreases hooks.len(),
{
    if hooks.len() == 0 {
        0
    } else {
        enters(hooks.drop_last(), kind) + if is_enter(hooks.last()) && kind_of(hooks.last())
            == kind {
            1nat
        } else {
            0nat
        }
    }
}

/// The number of exit calls for nodes of `kind` among `hooks`.
pub open spec fn exits(hooks: Seq<Hook>, kind: NodeKind) -> nat
    decreases hooks.len(),
{
    if hooks.len() == 0 {
        0
    } else {
        exits(hooks.drop_last(), kind) + if !is_enter(hooks.last()) && kind_of(hooks.last())
            == kind {
            1nat
        } else {
            0nat
        }
    }
}

/// Reading two runs one after the other is reading their concatenation.
pub proof fn lemma_open_after_concat(first: Seq<Hook>, second: Seq<Hook>, open: Seq<Hook>)
    ensures
        open_after(first + second, open) == match open_after(first, open) {
            Some(inner) => open_after(second, inner),
            None => None,
        },
    decreases second.len(),
{
    if second.len() == 0 {
        assert(first + second =~= first);
    } else {
        lemma_open_after_concat(first, second.drop_last(), open);
        assert((first + second).drop_last() =~= first + second.drop_last());
        assert((first + second).last() == second.last());
    }
}

/// The empty run is balanced.
pub broadcast proof fn lemma_balanced_empty()
    ensures
        #[trigger] balanced(Seq::<Hook>::empty()),
{
}

/// Two balanced runs in a row are balanced.
pub broadcast proof fn lemma_balanced_concat(first: Seq<Hook>, second: Seq<Hook>)
    requires
        balanced(first),
        balanced(second),
    ensures
        #[trigger] balanced(first + second),
{
    assert forall|open: Seq<Hook>| #[trigger] open_after(first + second, open) == Some(open) by {
        lemma_open_after_concat(first, second, open);
    }
}

/// A balanced run between an enter call and the exit call that closes it is
/// balanced.
pub proof fn lemma_balanced_wrap(enter: Hook, between: Seq<Hook>, exit: Hook)
    requires
        is_enter(enter),
        closes(exit, enter),
        balanced(between),
    ensures
        balanced(seq![enter] + between + seq![exit]),
{
    assert forall|open: Seq<Hook>| #[trigger]
        open_after(seq![enter] + between + seq![exit], open) == Some(open) by {
        reveal_with_fuel(open_after, 2);
        assert(seq![enter].drop_last() =~= Seq::<Hook>::empty());
        assert(seq![exit].drop_last() =~= Seq::<Hook>::empty());
        assert(open_after(seq![enter], open) == Some(open.push(enter)));
        lemma_open_after_concat(seq![enter], between, open);
        assert(open_after(between, open.push(enter)) == Some(open.push(enter)));
        lemma_open_after_concat(seq![enter] + between, seq![exit], open);
        assert(open.push(enter).drop_last() =~= open);
    }
}

/// The hook calls for a statement list are balanced.
proof fn lemma_items_balanced(items: Seq<StmtListItem>)
    ensures
        balanced(items_hooks(items)),
    decreases items, 0int,
{
    broadcast use {lemma_balanced_empty, lemma_balanced_concat};
    if items.len() > 0 {
        lemma_items_balanced(items.drop_last());
        lemma_item_balanced(items.last());
    }
}

proof fn lemma_item_balanced(item: StmtListItem)
    ensures
        balanced(item_hooks(item)),
    decreases item, 0int,
{
    broadcast use {lemma_balanced_empty, lemma_balanced_concat};
    match item {
        StmtListItem::Stmt(stmt) => lemma_stmt_balanced(stmt),
        StmtListItem::Decl(decl) => lemma_decl_balanced(decl),
    }
}

proof fn lemma_opt_items_balanced(items: Option<Vec<StmtListItem>>)
    ensures
        balanced(opt_items_hooks(items)),
    decreases items, 0int,
{
    broadcast use {lemma_balanced_empty, lemma_balanced_concat};
    match items {
        Some(items) => lemma_items_balanced(items@),
        None => {},
    }
}

proof fn lemma_opt_expr_balanced(expr: Option<Expr>)
    ensures
        balanced(opt_expr_hooks(expr)),
    decreases expr, 0int,
{
    broadcast use {lemma_balanced_empty, lemma_balanced_concat};
    match expr {
        Some(expr) => lemma_expr_balanced(expr),
        None => {},
    }
}

proof fn lemma_opt_stmt_balanced(stmt: Option<Box<Stmt>>)
    ensures
        balanced(opt_stmt_hooks(stmt)),
    decreases stmt, 0int,
{
    broadcast use {lemma_balanced_empty, lemma_balanced_concat};
    match stmt {
        Some(stmt) => lemma_stmt_balanced(*stmt),
        None => {},
    }
}

proof fn lemma_catch_balanced(caught: Option<Catch>)
    ensures
        balanced(catch_hooks(caught)),
    decreases caught, 0int,
{
    broadcast use {lemma_balanced_empty, lemma_balanced_concat};
    match caught {
        Some(caught) => lemma_items_balanced(caught.body@),
        None => {},
    }
}

proof fn lemma_case_balanced(case: Case)
    ensures
        balanced(case_hooks(case)),
    decreases case, 0int,
{
    broadcast use {lemma_balanced_empty, lemma_balanced_concat};
    lemma_opt_expr_balanced(case.test);
    lemma_items_balanced(case.body@);
}

/// The hook calls for the clauses of a `switch` are balanced.
proof fn lemma_cases_balanced(cases: Seq<Case>)
    ensures
        balanced(cases_hooks(cases)),
    decreases cases, 0int,
{
    broadcast use {lemma_balanced_empty, lemma_balanced_concat};
    if cases.len() > 0 {
        lemma_cases_balanced(cases.drop_last());
        lemma_case_balanced(cases.last());
    }
}

/// The hook calls for a statement are balanced: its exit call closes its
/// enter call, and every node entered in between is left in between.
pub proof fn lemma_stmt_balanced(stmt: Stmt)
    ensures
        balanced(stmt_hooks(stmt)),
    decreases stmt, 1int,
{
    broadcast use {lemma_balanced_empty, lemma_balanced_concat};
    lemma_stmt_children_balanced(stmt);
    lemma_balanced_wrap(Hook::PreStmt(stmt), stmt_children_hooks(stmt), Hook::PostStmt(stmt));
}

proof fn lemma_stmt_children_balanced(stmt: Stmt)
    ensures
        balanced(stmt_children_hooks(stmt)),
    decreases stmt, 0int,
{
    broadcast use {lemma_balanced_empty, lemma_balanced_concat};
    match stmt {
        Stmt::Block(items) => lemma_items_balanced(items@),
        Stmt::Var(dtors) => lemma_dtors_balanced(dtors@),
        Stmt::Expr(expr) => lemma_expr_balanced(expr),
        Stmt::If(cond, cons, alt) => {
            lemma_expr_balanced(cond);
            lemma_stmt_balanced(*cons);
            lemma_opt_stmt_balanced(alt);
        },
        Stmt::Label(_, body) => lemma_stmt_balanced(*body),
        Stmt::Switch(cond, cases) => {
            lemma_expr_balanced(cond);
            lemma_cases_balanced(cases@);
        },
        Stmt::Return(arg) => lemma_opt_expr_balanced(arg),
        Stmt::Throw(arg) => lemma_expr_balanced(arg),
        Stmt::Try(body, caught, finally) => {
            lemma_items_balanced(body@);
            lemma_catch_balanced(caught);
            lemma_opt_items_balanced(finally);
        },
        Stmt::While(cond, body) => {
            lemma_expr_balanced(cond);
            lemma_stmt_balanced(*body);
        },
        Stmt::DoWhile(body, cond) => {
            lemma_stmt_balanced(*body);
            lemma_expr_balanced(cond);
        },
        Stmt::For(_, cond, update, body) => {
            lemma_opt_expr_balanced(cond);
            lemma_opt_expr_balanced(update);
            lemma_stmt_balanced(*body);
        },
        Stmt::ForIn(_, iterable, body) => {
            lemma_expr_balanced(iterable);
            lemma_stmt_balanced(*body);
        },
        Stmt::ForOf(_, iterable, body) => {
            lemma_expr_balanced(iterable);
            lemma_stmt_balanced(*body);
        },
        _ => {},
    }
}

/// The hook calls for a declaration are balanced.
pub proof fn lemma_decl_balanced(decl: Decl)
    ensures
        balanced(decl_hooks(decl)),
    decreases decl, 1int,
{
    broadcast use {lemma_balanced_empty, lemma_balanced_concat};
    lemma_decl_children_balanced(decl);
    lemma_balanced_wrap(Hook::PreDecl(decl), decl_children_hooks(decl), Hook::PostDecl(decl));
}

proof fn lemma_decl_children_balanced(decl: Decl)
    ensures
        balanced(decl_children_hooks(decl)),
    decreases decl, 0int,
{
    broadcast use {lemma_balanced_empty, lemma_balanced_concat};
    match decl {
        Decl::Fun(fun) => lemma_fun_balanced(fun),
        Decl::Let(dtors) => lemma_dtors_balanced(dtors@),
        Decl::Const(dtors) => lemma_const_dtors_balanced(dtors@),
    }
}

proof fn lemma_dtor_balanced(dtor: Dtor)
    ensures
        balanced(dtor_hooks(dtor)),
    decreases dtor, 0int,
{
    broadcast use {lemma_balanced_empty, lemma_balanced_concat};
    lemma_opt_expr_balanced(dtor.init);
}

/// The hook calls for a list of declarators are balanced.
proof fn lemma_dtors_balanced(dtors: Seq<Dtor>)
    ensures
        balanced(dtors_hooks(dtors)),
    decreases dtors, 0int,
{
    broadcast use {lemma_balanced_empty, lemma_balanced_concat};
    if dtors.len() > 0 {
        lemma_dtors_balanced(dtors.drop_last());
        lemma_dtor_balanced(dtors.last());
    }
}

/// The hook calls for a list of `const` declarators are balanced.
proof fn lemma_const_dtors_balanced(const_dtors: Seq<ConstDtor>)
    ensures
        balanced(const_dtors_hooks(const_dtors)),
    decreases const_dtors, 0int,
{
    broadcast use {lemma_balanced_empty, lemma_balanced_concat};
    if const_dtors.len() > 0 {
        lemma_const_dtors_balanced(const_dtors.drop_last());
        lemma_expr_balanced(const_dtors.last().value);
    }
}

/// The hook calls for a function are balanced.
pub proof fn lemma_fun_balanced(fun: Fun)
    ensures
        balanced(fun_hooks(fun)),
    decreases fun, 0int,
{
    broadcast use {lemma_balanced_empty, lemma_balanced_concat};
    lemma_items_balanced(fun.body@);
    lemma_balanced_wrap(Hook::PreFun(fun), items_hooks(fun.body@), Hook::PostFun(fun));
}

/// The hook calls for an expression are balanced.
pub proof fn lemma_expr_balanced(expr: Expr)
    ensures
        balanced(expr_hooks(expr)),
    decreases expr, 1int,
{
    broadcast use {lemma_balanced_empty, lemma_balanced_concat};
    lemma_expr_children_balanced(expr);
    lemma_balanced_wrap(Hook::PreExpr(expr), expr_children_hooks(expr), Hook::PostExpr(expr));
}

proof fn lemma_expr_children_balanced(expr: Expr)
    ensures
        balanced(expr_children_hooks(expr)),
    decreases expr, 0int,
{
    broadcast use {lemma_balanced_empty, lemma_balanced_concat};
    match expr {
        Expr::Call(callee, args) => {
            lemma_expr_balanced(*callee);
            lemma_args_balanced(args@);
        },
        Expr::Sequence(exprs) => lemma_exprs_balanced(exprs@),
        Expr::Arr(elements) => lemma_elements_balanced(elements@),
        Expr::Obj(props) => lemma_props_balanced(props@),
        Expr::Fun(fun) => lemma_fun_balanced(fun),
        Expr::Binop(_, left, right) => {
            lemma_expr_balanced(*left);
            lemma_expr_balanced(*right);
        },
        Expr::Logop(_, left, right) => {
            lemma_expr_balanced(*left);
            lemma_expr_balanced(*right);
        },
        Expr::Unop(_, operand) => lemma_expr_balanced(*operand),
        Expr::PreInc(target) => lemma_target_balanced(*target),
        Expr::PostInc(target) => lemma_target_balanced(*target),
        Expr::PreDec(target) => lemma_target_balanced(*target),
        Expr::PostDec(target) => lemma_target_balanced(*target),
        Expr::Assign(_, value) => lemma_expr_balanced(*value),
        Expr::BinAssign(_, target, value) => {
            lemma_target_balanced(target);
            lemma_expr_balanced(*value);
        },
        Expr::Cond(cond, cons, alt) => {
            lemma_expr_balanced(*cond);
            lemma_expr_balanced(*cons);
            lemma_expr_balanced(*alt);
        },
        Expr::Dot(object, _) => lemma_expr_balanced(*object),
        Expr::Brack(object, key) => {
            lemma_expr_balanced(*object);
            lemma_expr_balanced(*key);
        },
        _ => {},
    }
}

/// The hook calls for a list of expressions are balanced.
proof fn lemma_exprs_balanced(exprs: Seq<Expr>)
    ensures
        balanced(exprs_hooks(exprs)),
    decreases exprs, 0int,
{
    broadcast use {lemma_balanced_empty, lemma_balanced_concat};
    if exprs.len() > 0 {
        lemma_exprs_balanced(exprs.drop_last());
        lemma_expr_balanced(exprs.last());
    }
}

proof fn lemma_arg_balanced(arg: ExprListItem)
    ensures
        balanced(arg_hooks(arg)),
    decreases arg, 0int,
{
    broadcast use {lemma_balanced_empty, lemma_balanced_concat};
    match arg {
        ExprListItem::Expr(expr) => lemma_expr_balanced(expr),
        ExprListItem::Spread(expr) => lemma_expr_balanced(expr),
    }
}

/// The hook calls for an argument list are balanced.
proof fn lemma_args_balanced(args: Seq<ExprListItem>)
    ensures
        balanced(args_hooks(args)),
    decreases args, 0int,
{
    broadcast use {lemma_balanced_empty, lemma_balanced_concat};
    if args.len() > 0 {
        lemma_args_balanced(args.drop_last());
        lemma_arg_balanced(args.last());
    }
}

proof fn lemma_element_balanced(element: Option<ExprListItem>)
    ensures
        balanced(element_hooks(element)),
    decreases element, 0int,
{
    broadcast use {lemma_balanced_empty, lemma_balanced_concat};
    match element {
        Some(arg) => lemma_arg_balanced(arg),
        None => {},
    }
}

/// The hook calls for the elements of an array literal are balanced.
proof fn lemma_elements_balanced(elements: Seq<Option<ExprListItem>>)
    ensures
        balanced(elements_hooks(elements)),
    decreases elements, 0int,
{
    broadcast use {lemma_balanced_empty, lemma_balanced_concat};
    if elements.len() > 0 {
        lemma_elements_balanced(elements.drop_last());
        lemma_element_balanced(elements.last());
    }
}

proof fn lemma_target_balanced(target: AssignTarget)
    ensures
        balanced(target_hooks(target)),
    decreases target, 0int,
{
    broadcast use {lemma_balanced_empty, lemma_balanced_concat};
    match target {
        AssignTarget::Id(_) => {},
        AssignTarget::Dot(object, _) => lemma_expr_balanced(*object),
        AssignTarget::Brack(object, key) => {
            lemma_expr_balanced(*object);
            lemma_expr_balanced(*key);
        },
    }
}

proof fn lemma_prop_balanced(prop: Prop)
    ensures
        balanced(prop_hooks(prop)),
    decreases prop, 0int,
{
    broadcast use {lemma_balanced_empty, lemma_balanced_concat};
    match prop {
        Prop::Regular(_, PropVal::Init(value)) => lemma_expr_balanced(value),
        Prop::Regular(_, PropVal::Getter(body)) => lemma_items_balanced(body@),
        Prop::Regular(_, PropVal::Setter(_, body)) => lemma_items_balanced(body@),
        Prop::Method(fun) => lemma_fun_balanced(fun),
        Prop::Shorthand(_) => {},
    }
}

/// The hook calls for the properties of an object literal are balanced.
proof fn lemma_props_balanced(props: Seq<Prop>)
    ensures
        balanced(props_hooks(props)),
    decreases props, 0int,
{
    broadcast use {lemma_balanced_empty, lemma_balanced_concat};
    if props.len() > 0 {
        lemma_props_balanced(props.drop_last());
        lemma_prop_balanced(props.last());
    }
}

/// The hook calls of the walk of the node that a hook call is about.
pub open spec fn own_hooks(hook: Hook) -> Seq<Hook> {
    match hook {
        Hook::PreScript(script) | Hook::PostScript(script) => script_hooks(script),
        Hook::PreStmt(stmt) | Hook::PostStmt(stmt) => stmt_hooks(stmt),
        Hook::PreExpr(expr) | Hook::PostExpr(expr) => expr_hooks(expr),
        Hook::PreDecl(decl) | Hook::PostDecl(decl) => decl_hooks(decl),
        Hook::PreFun(fun) | Hook::PostFun(fun) => fun_hooks(fun),
    }
}

/// The hook call at position `i` of `hooks` stands where the walk of its node
/// puts it: an enter call starts a run, within `hooks`, that is the whole
/// walk of its node, and an exit call ends such a run.
pub open spec fn anchored_at(hooks: Seq<Hook>, i: int) -> bool {
    let own = own_hooks(hooks[i]);
    if is_enter(hooks[i]) {
        i + own.len() <= hooks.len() && hooks.subrange(i, i + own.len()) == own
    } else {
        0 <= i + 1 - own.len() && hooks.subrange(i + 1 - own.len(), i + 1) == own
    }
}

/// Every hook call in `hooks` is anchored: the walk of each node appears in
/// `hooks` in one piece, from the node's enter call to its exit call.
pub open spec fn anchored(hooks: Seq<Hook>) -> bool {
    forall|i: int| 0 <= i < hooks.len() ==> #[trigger] anchored_at(hooks, i)
}

/// The empty run is anchored.
pub broadcast proof fn lemma_anchored_empty()
    ensures
        #[trigger] anchored(Seq::<Hook>::empty()),
{
}

/// Two anchored runs in a row are anchored.
pub broadcast proof fn lemma_anchored_concat(first: Seq<Hook>, second: Seq<Hook>)
    requires
        anchored(first),
        anchored(second),
    ensures
        #[trigger] anchored(first + second),
{
    let both = first + second;
    assert forall|i: int| 0 <= i < both.len() implies #[trigger] anchored_at(both, i) by {
        let n = own_hooks(both[i]).len() as int;
        if i < first.len() {
            assert(anchored_at(first, i));
            if is_enter(both[i]) {
                assert(both.subrange(i, i + n) =~= first.subrange(i, i + n));
            } else {
                assert(both.subrange(i + 1 - n, i + 1) =~= first.subrange(i + 1 - n, i + 1));
            }
        } else {
            let k = i - first.len();
            assert(anchored_at(second, k));
            if is_enter(both[i]) {
                assert(both.subrange(i, i + n) =~= second.subrange(k, k + n));
            } else {
                assert(both.subrange(i + 1 - n, i + 1) =~= second.subrange(k + 1 - n, k + 1));
            }
        }
    }
}

/// The walk of a node is anchored if what lies between its enter call and its
/// exit call is.
pub proof fn lemma_anchored_wrap(enter: Hook, between: Seq<Hook>, exit: Hook)
    requires
        is_enter(enter),
        !is_enter(exit),
        own_hooks(enter) == seq![enter] + between + seq![exit],
        own_hooks(exit) == seq![enter] + between + seq![exit],
        anchored(between),
    ensures
        anchored(seq![enter] + between + seq![exit]),
{
    let all = seq![enter] + between + seq![exit];
    assert forall|i: int| 0 <= i < all.len() implies #[trigger] anchored_at(all, i) by {
        let n = own_hooks(all[i]).len() as int;
        if i == 0 || i == all.len() - 1 {
            assert(all.subrange(0, all.len() as int) =~= all);
        } else {
            assert(anchored_at(between, i - 1));
            assert(all[i] == between[i - 1]);
            if is_enter(all[i]) {
                assert(all.subrange(i, i + n) =~= between.subrange(i - 1, i - 1 + n));
            } else {
                assert(all.subrange(i + 1 - n, i + 1) =~= between.subrange(i - n, i));
            }
        }
    }
}

proof fn lemma_items_anchored(items: Seq<StmtListItem>)
    ensures
        anchored(items_hooks(items)),
    decreases items, 0int,
{
    broadcast use {lemma_anchored_empty, lemma_anchored_concat};
    if items.len() > 0 {
        lemma_items_anchored(items.drop_last());
        lemma_item_anchored(items.last());
    }
}

proof fn lemma_item_anchored(item: StmtListItem)
    ensures
        anchored(item_hooks(item)),
    decreases item, 0int,
{
    broadcast use {lemma_anchored_empty, lemma_anchored_concat};
    match item {
        StmtListItem::Stmt(stmt) => lemma_stmt_anchored(stmt),
        StmtListItem::Decl(decl) => lemma_decl_anchored(decl),
    }
}

proof fn lemma_opt_items_anchored(items: Option<Vec<StmtListItem>>)
    ensures
        anchored(opt_items_hooks(items)),
    decreases items, 0int,
{
    broadcast use {lemma_anchored_empty, lemma_anchored_concat};
    match items {
        Some(items) => lemma_items_anchored(items@),
        None => {},
    }
}

proof fn lemma_opt_expr_anchored(expr: Option<Expr>)
    ensures
        anchored(opt_expr_hooks(expr)),
    decreases expr, 0int,
{
    broadcast use {lemma_anchored_empty, lemma_anchored_concat};
    match expr {
        Some(expr) => lemma_expr_anchored(expr),
        None => {},
    }
}

proof fn lemma_opt_stmt_anchored(stmt: Option<Box<Stmt>>)
    ensures
        anchored(opt_stmt_hooks(stmt)),
    decreases stmt, 0int,
{
    broadcast use {lemma_anchored_empty, lemma_anchored_concat};
    match stmt {
        Some(stmt) => lemma_stmt_anchored(*stmt),
        None => {},
    }
}

proof fn lemma_catch_anchored(caught: Option<Catch>)
    ensures
        anchored(catch_hooks(caught)),
    decreases caught, 0int,
{
    broadcast use {lemma_anchored_empty, lemma_anchored_concat};
    match caught {
        Some(caught) => lemma_items_anchored(caught.body@),
        None => {},
    }
}

proof fn lemma_case_anchored(case: Case)
    ensures
        anchored(case_hooks(case)),
    decreases case, 0int,
{
    broadcast use {lemma_anchored_empty, lemma_anchored_concat};
    lemma_opt_expr_anchored(case.test);
    lemma_items_anchored(case.body@);
}

proof fn lemma_cases_anchored(cases: Seq<Case>)
    ensures
        anchored(cases_hooks(cases)),
    decreases cases, 0int,
{
    broadcast use {lemma_anchored_empty, lemma_anchored_concat};
    if cases.len() > 0 {
        lemma_cases_anchored(cases.drop_last());
        lemma_case_anchored(cases.last());
    }
}

proof fn lemma_stmt_anchored(stmt: Stmt)
    ensures
        anchored(stmt_hooks(stmt)),
    decreases stmt, 1int,
{
    broadcast use {lemma_anchored_empty, lemma_anchored_concat};
    lemma_stmt_children_anchored(stmt);
    lemma_anchored_wrap(Hook::PreStmt(stmt), stmt_children_hooks(stmt), Hook::PostStmt(stmt));
}

proof fn lemma_stmt_children_anchored(stmt: Stmt)
    ensures
        anchored(stmt_children_hooks(stmt)),
    decreases stmt, 0int,
{
    broadcast use {lemma_anchored_empty, lemma_anchored_concat};
    match stmt {
        Stmt::Block(items) => lemma_items_anchored(items@),
        Stmt::Var(dtors) => lemma_dtors_anchored(dtors@),
        Stmt::Expr(expr) => lemma_expr_anchored(expr),
        Stmt::If(cond, cons, alt) => {
            lemma_expr_anchored(cond);
            lemma_stmt_anchored(*cons);
            lemma_opt_stmt_anchored(alt);
        },
        Stmt::Label(_, body) => lemma_stmt_anchored(*body),
        Stmt::Switch(cond, cases) => {
            lemma_expr_anchored(cond);
            lemma_cases_anchored(cases@);
        },
        Stmt::Return(arg) => lemma_opt_expr_anchored(arg),
        Stmt::Throw(arg) => lemma_expr_anchored(arg),
        Stmt::Try(body, caught, finally) => {
            lemma_items_anchored(body@);
            lemma_catch_anchored(caught);
            lemma_opt_items_anchored(finally);
        },
        Stmt::While(cond, body) => {
            lemma_expr_anchored(cond);
            lemma_stmt_anchored(*body);
        },
        Stmt::DoWhile(body, cond) => {
            lemma_stmt_anchored(*body);
            lemma_expr_anchored(cond);
        },
        Stmt::For(_, cond, update, body) => {
            lemma_opt_expr_anchored(cond);
            lemma_opt_expr_anchored(update);
            lemma_stmt_anchored(*body);
        },
        Stmt::ForIn(_, iterable, body) => {
            lemma_expr_anchored(iterable);
            lemma_stmt_anchored(*body);
        },
        Stmt::ForOf(_, iterable, body) => {
            lemma_expr_anchored(iterable);
            lemma_stmt_anchored(*body);
        },
        _ => {},
    }
}

proof fn lemma_decl_anchored(decl: Decl)
    ensures
        anchored(decl_hooks(decl)),
    decreases decl, 1int,
{
    broadcast use {lemma_anchored_empty, lemma_anchored_concat};
    lemma_decl_children_anchored(decl);
    lemma_anchored_wrap(Hook::PreDecl(decl), decl_children_hooks(decl), Hook::PostDecl(decl));
}

proof fn lemma_decl_children_anchored(decl: Decl)
    ensures
        anchored(decl_children_hooks(decl)),
    decreases decl, 0int,
{
    broadcast use {lemma_anchored_empty, lemma_anchored_concat};
    match decl {
        Decl::Fun(fun) => lemma_fun_anchored(fun),
        Decl::Let(dtors) => lemma_dtors_anchored(dtors@),
        Decl::Const(dtors) => lemma_const_dtors_anchored(dtors@),
    }
}

proof fn lemma_dtor_anchored(dtor: Dtor)
    ensures
        anchored(dtor_hooks(dtor)),
    decreases dtor, 0int,
{
    broadcast use {lemma_anchored_empty, lemma_anchored_concat};
    lemma_opt_expr_anchored(dtor.init);
}

proof fn lemma_dtors_anchored(dtors: Seq<Dtor>)
    ensures
        anchored(dtors_hooks(dtors)),
    decreases dtors, 0int,
{
    broadcast use {lemma_anchored_empty, lemma_anchored_concat};
    if dtors.len() > 0 {
        lemma_dtors_anchored(dtors.drop_last());
        lemma_dtor_anchored(dtors.last());
    }
}

proof fn lemma_const_dtors_anchored(const_dtors: Seq<ConstDtor>)
    ensures
        anchored(const_dtors_hooks(const_dtors)),
    decreases const_dtors, 0int,
{
    broadcast use {lemma_anchored_empty, lemma_anchored_concat};
    if const_dtors.len() > 0 {
        lemma_const_dtors_anchored(const_dtors.drop_last());
        lemma_expr_anchored(const_dtors.last().value);
    }
}

proof fn lemma_fun_anchored(fun: Fun)
    ensures
        anchored(fun_hooks(fun)),
    decreases fun, 0int,
{
    broadcast use {lemma_anchored_empty, lemma_anchored_concat};
    lemma_items_anchored(fun.body@);
    lemma_anchored_wrap(Hook::PreFun(fun), items_hooks(fun.body@), Hook::PostFun(fun));
}

proof fn lemma_expr_anchored(expr: Expr)
    ensures
        anchored(expr_hooks(expr)),
    decreases expr, 1int,
{
    broadcast use {lemma_anchored_empty, lemma_anchored_concat};
    lemma_expr_children_anchored(expr);
    lemma_anchored_wrap(Hook::PreExpr(expr), expr_children_hooks(expr), Hook::PostExpr(expr));
}

proof fn lemma_expr_children_anchored(expr: Expr)
    ensures
        anchored(expr_children_hooks(expr)),
    decreases expr, 0int,
{
    broadcast use {lemma_anchored_empty, lemma_anchored_concat};
    match expr {
        Expr::Call(callee, args) => {
            lemma_expr_anchored(*callee);
            lemma_args_anchored(args@);
        },
        Expr::Sequence(exprs) => lemma_exprs_anchored(exprs@),
        Expr::Arr(elements) => lemma_elements_anchored(elements@),
        Expr::Obj(props) => lemma_props_anchored(props@),
        Expr::Fun(fun) => lemma_fun_anchored(fun),
        Expr::Binop(_, left, right) => {
            lemma_expr_anchored(*left);
            lemma_expr_anchored(*right);
        },
        Expr::Logop(_, left, right) => {
            lemma_expr_anchored(*left);
            lemma_expr_anchored(*right);
        },
        Expr::Unop(_, operand) => lemma_expr_anchored(*operand),
        Expr::PreInc(target) => lemma_target_anchored(*target),
        Expr::PostInc(target) => lemma_target_anchored(*target),
        Expr::PreDec(target) => lemma_target_anchored(*target),
        Expr::PostDec(target) => lemma_target_anchored(*target),
        Expr::Assign(_, value) => lemma_expr_anchored(*value),
        Expr::BinAssign(_, target, value) => {
            lemma_target_anchored(target);
            lemma_expr_anchored(*value);
        },
        Expr::Cond(cond, cons, alt) => {
            lemma_expr_anchored(*cond);
            lemma_expr_anchored(*cons);
            lemma_expr_anchored(*alt);
        },
        Expr::Dot(object, _) => lemma_expr_anchored(*object),
        Expr::Brack(object, key) => {
            lemma_expr_anchored(*object);
            lemma_expr_anchored(*key);
        },
        _ => {},
    }
}

proof fn lemma_exprs_anchored(exprs: Seq<Expr>)
    ensures
        anchored(exprs_hooks(exprs)),
    decreases exprs, 0int,
{
    broadcast use {lemma_anchored_empty, lemma_anchored_concat};
    if exprs.len() > 0 {
        lemma_exprs_anchored(exprs.drop_last());
        lemma_expr_anchored(exprs.last());
    }
}

proof fn lemma_arg_anchored(arg: ExprListItem)
    ensures
        anchored(arg_hooks(arg)),
    decreases arg, 0int,
{
    broadcast use {lemma_anchored_empty, lemma_anchored_concat};
    match arg {
        ExprListItem::Expr(expr) => lemma_expr_anchored(expr),
        ExprListItem::Spread(expr) => lemma_expr_anchored(expr),
    }
}

proof fn lemma_args_anchored(args: Seq<ExprListItem>)
    ensures
        anchored(args_hooks(args)),
    decreases args, 0int,
{
    broadcast use {lemma_anchored_empty, lemma_anchored_concat};
    if args.len() > 0 {
        lemma_args_anchored(args.drop_last());
        lemma_arg_anchored(args.last());
    }
}

proof fn lemma_element_anchored(element: Option<ExprListItem>)
    ensures
        anchored(element_hooks(element)),
    decreases element, 0int,
{
    broadcast use {lemma_anchored_empty, lemma_anchored_concat};
    match element {
        Some(arg) => lemma_arg_anchored(arg),
        None => {},
    }
}

proof fn lemma_elements_anchored(elements: Seq<Option<ExprListItem>>)
    ensures
        anchored(elements_hooks(elements)),
    decreases elements, 0int,
{
    broadcast use {lemma_anchored_empty, lemma_anchored_concat};
    if elements.len() > 0 {
        lemma_elements_anchored(elements.drop_last());
        lemma_element_anchored(elements.last());
    }
}

proof fn lemma_target_anchored(target: AssignTarget)
    ensures
        anchored(target_hooks(target)),
    decreases target, 0int,
{
    broadcast use {lemma_anchored_empty, lemma_anchored_concat};
    match target {
        AssignTarget::Id(_) => {},
        AssignTarget::Dot(object, _) => lemma_expr_anchored(*object),
        AssignTarget::Brack(object, key) => {
            lemma_expr_anchored(*object);
            lemma_expr_anchored(*key);
        },
    }
}

proof fn lemma_prop_anchored(prop: Prop)
    ensures
        anchored(prop_hooks(prop)),
    decreases prop, 0int,
{
    broadcast use {lemma_anchored_empty, lemma_anchored_concat};
    match prop {
        Prop::Regular(_, PropVal::Init(value)) => lemma_expr_anchored(value),
        Prop::Regular(_, PropVal::Getter(body)) => lemma_items_anchored(body@),
        Prop::Regular(_, PropVal::Setter(_, body)) => lemma_items_anchored(body@),
        Prop::Method(fun) => lemma_fun_anchored(fun),
        Prop::Shorthand(_) => {},
    }
}

proof fn lemma_props_anchored(props: Seq<Prop>)
    ensures
        anchored(props_hooks(props)),
    decreases props, 0int,
{
    broadcast use {lemma_anchored_empty, lemma_anchored_concat};
    if props.len() > 0 {
        lemma_props_anchored(props.drop_last());
        lemma_prop_anchored(props.last());
    }
}

/// In a whole walk, the walk of every node visited stands in one piece. From
/// a node's enter call on come the hook calls for what is below the node, all
/// of them and nothing else, and then the node's exit call; and every exit
/// call is the end of such a run. So a node's enter call precedes its exit
/// call and every hook call for its descendants, and its exit call follows
/// them all.
pub proof fn lemma_walk_anchored(script: Script)
    ensures
        anchored(script_hooks(script)),
{
    lemma_items_anchored(script.items@);
    lemma_anchored_wrap(
        Hook::PreScript(script),
        items_hooks(script.items@),
        Hook::PostScript(script),
    );
}

/// A statement's enter call comes first and its exit call last; all that
/// lies between are the hook calls for what is below it, and those are
/// balanced.
pub proof fn lemma_stmt_hooks_shape(stmt: Stmt)
    ensures
        stmt_hooks(stmt).len() == stmt_children_hooks(stmt).len() + 2,
        stmt_hooks(stmt).first() == Hook::PreStmt(stmt),
        stmt_hooks(stmt).last() == Hook::PostStmt(stmt),
        stmt_hooks(stmt).subrange(1, stmt_hooks(stmt).len() - 1) == stmt_children_hooks(stmt),
        balanced(stmt_children_hooks(stmt)),
{
    lemma_stmt_children_balanced(stmt);
    assert(stmt_hooks(stmt).subrange(1, stmt_hooks(stmt).len() - 1) =~= stmt_children_hooks(stmt));
}

/// An expression's enter call comes first and its exit call last; all that
/// lies between are the hook calls for what is below it, and those are
/// balanced.
pub proof fn lemma_expr_hooks_shape(expr: Expr)
    ensures
        expr_hooks(expr).len() == expr_children_hooks(expr).len() + 2,
        expr_hooks(expr).first() == Hook::PreExpr(expr),
        expr_hooks(expr).last() == Hook::PostExpr(expr),
        expr_hooks(expr).subrange(1, expr_hooks(expr).len() - 1) == expr_children_hooks(expr),
        balanced(expr_children_hooks(expr)),
{
    lemma_expr_children_balanced(expr);
    assert(expr_hooks(expr).subrange(1, expr_hooks(expr).len() - 1) =~= expr_children_hooks(expr));
}

/// A declaration's enter call comes first and its exit call last; all that
/// lies between are the hook calls for what is below it, and those are
/// balanced.
pub proof fn lemma_decl_hooks_shape(decl: Decl)
    ensures
        decl_hooks(decl).len() == decl_children_hooks(decl).len() + 2,
        decl_hooks(decl).first() == Hook::PreDecl(decl),
        decl_hooks(decl).last() == Hook::PostDecl(decl),
        decl_hooks(decl).subrange(1, decl_hooks(decl).len() - 1) == decl_children_hooks(decl),
        balanced(decl_children_hooks(decl)),
{
    lemma_decl_children_balanced(decl);
    assert(decl_hooks(decl).subrange(1, decl_hooks(decl).len() - 1) =~= decl_children_hooks(decl));
}

/// A function's enter call comes first and its exit call last; all that lies
/// between are the hook calls for its body, and those are balanced.
pub proof fn lemma_fun_hooks_shape(fun: Fun)
    ensures
        fun_hooks(fun).len() == items_hooks(fun.body@).len() + 2,
        fun_hooks(fun).first() == Hook::PreFun(fun),
        fun_hooks(fun).last() == Hook::PostFun(fun),
        fun_hooks(fun).subrange(1, fun_hooks(fun).len() - 1) == items_hooks(fun.body@),
        balanced(items_hooks(fun.body@)),
{
    lemma_items_balanced(fun.body@);
    assert(fun_hooks(fun).subrange(1, fun_hooks(fun).len() - 1) =~= items_hooks(fun.body@));
}

/// The script's enter call is the first hook call of a walk and its exit call
/// the last; all that lies between are the hook calls for its items, and
/// those are balanced.
pub proof fn lemma_script_hooks_shape(script: Script)
    ensures
        script_hooks(script).len() == items_hooks(script.items@).len() + 2,
        script_hooks(script).first() == Hook::PreScript(script),
        script_hooks(script).last() == Hook::PostScript(script),
        script_hooks(script).subrange(1, script_hooks(script).len() - 1) == items_hooks(
            script.items@,
        ),
        balanced(items_hooks(script.items@)),
{
    lemma_items_balanced(script.items@);
    assert(script_hooks(script).subrange(1, script_hooks(script).len() - 1) =~= items_hooks(
        script.items@,
    ));
}

/// A statement of a kind that the walk treats as a leaf gets its enter call
/// and its exit call and nothing in between.
pub proof fn lemma_leaf_stmt_hooks(stmt: Stmt)
    requires
        is_leaf_stmt(stmt),
    ensures
        stmt_hooks(stmt) == seq![Hook::PreStmt(stmt), Hook::PostStmt(stmt)],
{
    assert(stmt_hooks(stmt) =~= seq![Hook::PreStmt(stmt), Hook::PostStmt(stmt)]);
}

/// An expression of a kind that the walk treats as a leaf gets its enter call
/// and its exit call and nothing in between.
pub proof fn lemma_leaf_expr_hooks(expr: Expr)
    requires
        is_leaf_expr(expr),
    ensures
        expr_hooks(expr) == seq![Hook::PreExpr(expr), Hook::PostExpr(expr)],
{
    assert(expr_hooks(expr) =~= seq![Hook::PreExpr(expr), Hook::PostExpr(expr)]);
}

/// The hook calls of a whole walk are properly nested: read from nothing
/// open, every exit call closes the innermost node still open, which is the
/// node it is about, and at the end nothing is left open.
pub proof fn lemma_walk_properly_nested(script: Script)
    ensures
        balanced(script_hooks(script)),
        open_after(script_hooks(script), Seq::empty()) == Some(Seq::<Hook>::empty()),
{
    lemma_items_balanced(script.items@);
    lemma_balanced_wrap(
        Hook::PreScript(script),
        items_hooks(script.items@),
        Hook::PostScript(script),
    );
}

/// Reading a run of hook calls keeps the books: per kind of node, the enter
/// calls read and those open before are the exit calls read and those open
/// after.
pub proof fn lemma_open_after_counts(hooks: Seq<Hook>, open: Seq<Hook>, kind: NodeKind)
    requires
        open_after(hooks, open) is Some,
    ensures
        enters(hooks, kind) + enters(open, kind) == exits(hooks, kind) + enters(
            open_after(hooks, open)->0,
            kind,
        ),
    decreases hooks.len(),
{
    if hooks.len() > 0 {
        lemma_open_after_counts(hooks.drop_last(), open, kind);
        let inner = open_after(hooks.drop_last(), open)->0;
        let hook = hooks.last();
        if is_enter(hook) {
            assert(inner.push(hook).drop_last() =~= inner);
        }
    }
}

/// In a balanced run of hook calls, each kind of node has as many enter calls
/// as exit calls.
pub proof fn lemma_balanced_enters_equal_exits(hooks: Seq<Hook>, kind: NodeKind)
    requires
        balanced(hooks),
    ensures
        enters(hooks, kind) == exits(hooks, kind),
{
    assert(open_after(hooks, Seq::empty()) == Some(Seq::<Hook>::empty()));
    lemma_open_after_counts(hooks, Seq::empty(), kind);
}

/// Over a whole walk, each kind of node has as many enter calls as exit calls.
pub proof fn lemma_walk_enters_equal_exits(script: Script, kind: NodeKind)
    ensures
        enters(script_hooks(script), kind) == exits(script_hooks(script), kind),
{
    lemma_walk_properly_nested(script);
    lemma_balanced_enters_equal_exits(script_hooks(script), kind);
}

} // verus!
