//! The walker and the hook interface it drives.
use vstd::prelude::*;
use crate::ast::{
    AssignPatt, AssignTarget, Case, Catch, ConstDtor, Decl, Dtor, Expr, ExprListItem, Fun, Patt,
    Prop, PropVal, Script, Stmt, StmtListItem,
};
use crate::trace::{
    arg_hooks, args_hooks, case_hooks, cases_hooks, catch_hooks, const_dtors_hooks,
    decl_children_hooks, decl_hooks, dtor_hooks, dtors_hooks, element_hooks, elements_hooks,
    expr_children_hooks, expr_hooks, exprs_hooks, fun_hooks, item_hooks, items_hooks,
    opt_expr_hooks, opt_items_hooks, opt_stmt_hooks, prop_hooks, props_hooks, script_hooks,
    stmt_children_hooks, stmt_hooks, target_hooks, Hook,
};

verus! {

/// The hooks that a walk calls: one on entering and one on leaving each
/// script, statement, expression, declaration and function.
///
/// A hook sees the node read-only and may change only the callback set
/// itself. `after` names the state that a callback set is in once a hook has
/// been called on it; every hook method must leave the set in exactly that
/// state. A set that ignores a hook gives it an empty body and lets `after`
/// return `self` for it.
pub trait Callbacks: Sized {
    /// The callback set after `hook` has been called on it. Unless a set
    /// says otherwise, it ignores every hook.
    open spec fn after(self, hook: Hook) -> Self {
        self
    }

    /// Called before a top-level script is entered.
    fn pre_script(&mut self, node: &Script)
        ensures
            *final(self) == old(self).after(Hook::PreScript(*node)),
    ;

    /// Called before a statement is entered.
    fn pre_stmt(&mut self, node: &Stmt)
        ensures
            *final(self) == old(self).after(Hook::PreStmt(*node)),
    ;

    /// Called before an expression is entered.
    fn pre_expr(&mut self, node: &Expr)
        ensures
            *final(self) == old(self).after(Hook::PreExpr(*node)),
    ;

    /// Called before a declaration is entered.
    fn pre_decl(&mut self, node: &Decl)
        ensures
            *final(self) == old(self).after(Hook::PreDecl(*node)),
    ;

    /// Called before a function is entered.
    fn pre_fun(&mut self, node: &Fun)
        ensures
            *final(self) == old(self).after(Hook::PreFun(*node)),
    ;

    /// Called after a top-level script was handled.
    fn post_script(&mut self, node: &Script)
        ensures
            *final(self) == old(self).after(Hook::PostScript(*node)),
    ;

    /// Called after a statement was handled.
    fn post_stmt(&mut self, node: &Stmt)
        ensures
            *final(self) == old(self).after(Hook::PostStmt(*node)),
    ;

    /// Called after an expression was handled.
    fn post_expr(&mut self, node: &Expr)
        ensures
            *final(self) == old(self).after(Hook::PostExpr(*node)),
    ;

    /// Called after a declaration was handled.
    fn post_decl(&mut self, node: &Decl)
        ensures
            *final(self) == old(self).after(Hook::PostDecl(*node)),
    ;

    /// Called after a function was handled.
    fn post_fun(&mut self, node: &Fun)
        ensures
            *final(self) == old(self).after(Hook::PostFun(*node)),
    ;
}

/// The callback set after the hook calls `hooks` have been made on it, first
/// to last.
pub open spec fn replay<C: Callbacks>(callbacks: C, hooks: Seq<Hook>) -> C
    decreases hooks.len(),
{
    if hooks.len() == 0 {
        callbacks
    } else {
        replay(callbacks, hooks.drop_last()).after(hooks.last())
    }
}

/// Replaying one hook call is that hook's effect.
pub broadcast proof fn lemma_replay_one<C: Callbacks>(callbacks: C, hook: Hook)
    ensures
        #[trigger] replay(callbacks, seq![hook]) == callbacks.after(hook),
{
    reveal_with_fuel(replay, 2);
    assert(seq![hook].drop_last() =~= Seq::<Hook>::empty());
}

/// Replaying two runs of hook calls one after the other is replaying their
/// concatenation.
pub broadcast proof fn lemma_replay_concat<C: Callbacks>(
    callbacks: C,
    first: Seq<Hook>,
    second: Seq<Hook>,
)
    ensures
        #[trigger] replay(replay(callbacks, first), second) == replay(callbacks, first + second),
    decreases second.len(),
{
    if second.len() == 0 {
        assert(first + second =~= first);
    } else {
        lemma_replay_concat(callbacks, first, second.drop_last());
        assert((first + second).drop_last() =~= first + second.drop_last());
        assert((first + second).last() == second.last());
    }
}

/// Replaying a node's own hook calls: the enter hook, what lies between, the
/// exit hook.
pub proof fn lemma_replay_wrap<C: Callbacks>(
    callbacks: C,
    enter: Hook,
    between: Seq<Hook>,
    exit: Hook,
)
    ensures
        replay(callbacks, seq![enter] + between + seq![exit]) == replay(
            callbacks.after(enter),
            between,
        ).after(exit),
{
    lemma_replay_one(callbacks, enter);
    lemma_replay_concat(callbacks, seq![enter], between);
    lemma_replay_concat(callbacks, seq![enter] + between, seq![exit]);
    lemma_replay_one(replay(callbacks, seq![enter] + between), exit);
}

/// A walker over one script, holding the callback set for the duration of the
/// walk.
pub struct Walker<'a, C: Callbacks> {
    ast: &'a Script,
    callbacks: C,
}

impl<'a, C: Callbacks> Walker<'a, C> {
    /// The script this walker will traverse.
    pub closed spec fn script(&self) -> Script {
        *self.ast
    }

    /// The callback set in its current state.
    pub closed spec fn state(&self) -> C {
        self.callbacks
    }

    /// A walker for `ast` that reports to `callbacks`.
    pub fn new(ast: &'a Script, callbacks: C) -> (walker: Walker<'a, C>)
        ensures
            walker.script() == *ast,
            walker.state() == callbacks,
    {
        Walker { ast, callbacks }
    }

    /// Walks the whole script once, depth first, and hands the callback set
    /// back in the state that the hook calls of the walk left it in.
    pub fn walk(self) -> (callbacks: C)
        ensures
            callbacks == replay(self.state(), script_hooks(self.script())),
    {
        let mut walker = self;
        walker.walk_script();
        walker.callbacks
    }

    /// Walks the script: enter hook, top-level items in order, exit hook.
    fn walk_script(&mut self)
        ensures
            final(self).ast == old(self).ast,
            final(self).callbacks == replay(old(self).callbacks, script_hooks(*old(self).ast)),
    {
        let ghost start = self.callbacks;
        let ast = self.ast;
        self.callbacks.pre_script(ast);
        self.walk_items(&ast.items);
        self.callbacks.post_script(ast);
        proof {
            lemma_replay_wrap(
                start,
                Hook::PreScript(*ast),
                items_hooks(ast.items@),
                Hook::PostScript(*ast),
            );
        }
    }

    /// Walks the items of a statement list in order.
    fn walk_items(&mut self, items: &Vec<StmtListItem>)
        ensures
            final(self).ast == old(self).ast,
            final(self).callbacks == replay(old(self).callbacks, items_hooks(items@)),
        decreases items, 1int,
    {
        let ghost start = self.callbacks;
        let ghost ast = self.ast;
        let mut i: usize = 0;
        while i < items.len()
            invariant
                i <= items.len(),
                self.ast == ast,
                self.callbacks == replay(start, items_hooks(items@.take(i as int))),
            decreases items.len() - i,
        {
            proof {
                broadcast use lemma_replay_concat;
                assert(items@.take(i + 1).drop_last() =~= items@.take(i as int));
            }
            self.walk_stmt_item(&items[i]);
            i += 1;
        }
        assert(items@.take(items.len() as int) =~= items@);
    }

    /// Walks one item of a statement list.
    fn walk_stmt_item(&mut self, item: &StmtListItem)
        ensures
            final(self).ast == old(self).ast,
            final(self).callbacks == replay(old(self).callbacks, item_hooks(*item)),
        decreases item, 0int,
    {
        match item {
            StmtListItem::Stmt(stmt) => self.walk_stmt(stmt),
            StmtListItem::Decl(decl) => self.walk_decl(decl),
        }
    }

    /// Walks the statement, if there is one.
    fn walk_opt_stmt(&mut self, stmt: &Option<Box<Stmt>>)
        ensures
            final(self).ast == old(self).ast,
            final(self).callbacks == replay(old(self).callbacks, opt_stmt_hooks(*stmt)),
        decreases stmt, 0int,
    {
        if let Some(node) = stmt {
            self.walk_stmt(node);
        }
    }

    /// Walks the expression, if there is one.
    fn walk_opt_expr(&mut self, expr: &Option<Expr>)
        ensures
            final(self).ast == old(self).ast,
            final(self).callbacks == replay(old(self).callbacks, opt_expr_hooks(*expr)),
        decreases expr, 0int,
    {
        if let Some(node) = expr {
            self.walk_expr(node);
        }
    }

    /// Walks the statement list, if there is one.
    fn walk_opt_items(&mut self, items: &Option<Vec<StmtListItem>>)
        ensures
            final(self).ast == old(self).ast,
            final(self).callbacks == replay(old(self).callbacks, opt_items_hooks(*items)),
        decreases items, 0int,
    {
        if let Some(list) = items {
            self.walk_items(list);
        }
    }

    /// Walks the body of a `catch` clause, if there is one.
    fn walk_catch(&mut self, caught: &Option<Catch>)
        ensures
            final(self).ast == old(self).ast,
            final(self).callbacks == replay(old(self).callbacks, catch_hooks(*caught)),
        decreases caught, 0int,
    {
        if let Some(clause) = caught {
            self.walk_items(&clause.body);
        }
    }

    /// Walks one clause of a `switch`: its test, if any, then its body.
    fn walk_case(&mut self, case: &Case)
        ensures
            final(self).ast == old(self).ast,
            final(self).callbacks == replay(old(self).callbacks, case_hooks(*case)),
        decreases case, 0int,
    {
        proof {
            broadcast use lemma_replay_concat;
        }
        self.walk_opt_expr(&case.test);
        self.walk_items(&case.body);
    }

    /// Walks the clauses of a `switch` in order.
    fn walk_cases(&mut self, cases: &Vec<Case>)
        ensures
            final(self).ast == old(self).ast,
            final(self).callbacks == replay(old(self).callbacks, cases_hooks(cases@)),
        decreases cases, 1int,
    {
        let ghost start = self.callbacks;
        let ghost ast = self.ast;
        let mut i: usize = 0;
        while i < cases.len()
            invariant
                i <= cases.len(),
                self.ast == ast,
                self.callbacks == replay(start, cases_hooks(cases@.take(i as int))),
            decreases cases.len() - i,
        {
            proof {
                broadcast use lemma_replay_concat;
                assert(cases@.take(i + 1).drop_last() =~= cases@.take(i as int));
            }
            self.walk_case(&cases[i]);
            i += 1;
        }
        assert(cases@.take(cases.len() as int) =~= cases@);
    }

    /// Walks a statement: enter hook, children in dispatch order, exit hook.
    fn walk_stmt(&mut self, stmt: &Stmt)
        ensures
            final(self).ast == old(self).ast,
            final(self).callbacks == replay(old(self).callbacks, stmt_hooks(*stmt)),
        decreases stmt, 0int,
    {
        let ghost start = self.callbacks;
        self.callbacks.pre_stmt(stmt);
        proof {
            broadcast use lemma_replay_concat;
        }
        match stmt {
            Stmt::Block(items) => {
                self.walk_items(items);
            },
            Stmt::Var(decls) => self.walk_var(decls),
            Stmt::Expr(expr) => self.walk_expr(expr),
            Stmt::If(cond, cons, alt) => {
                self.walk_expr(cond);
                self.walk_stmt(cons);
                self.walk_opt_stmt(alt);
            },
            Stmt::Label(_, body) => self.walk_stmt(body),
            Stmt::Switch(cond, cases) => {
                self.walk_expr(cond);
                self.walk_cases(cases);
            },
            Stmt::Return(arg) => self.walk_opt_expr(arg),
            Stmt::Throw(arg) => self.walk_expr(arg),
            Stmt::Try(body, caught, finally) => {
                self.walk_items(body);
                self.walk_catch(caught);
                self.walk_opt_items(finally);
            },
            Stmt::While(cond, body) => {
                self.walk_expr(cond);
                self.walk_stmt(body);
            },
            Stmt::DoWhile(body, cond) => {
                self.walk_stmt(body);
                self.walk_expr(cond);
            },
            Stmt::For(_, cond, update, body) => {
                self.walk_opt_expr(cond);
                self.walk_opt_expr(update);
                self.walk_stmt(body);
            },
            Stmt::ForIn(_, iterable, body) => {
                self.walk_expr(iterable);
                self.walk_stmt(body);
            },
            Stmt::ForOf(_, iterable, body) => {
                self.walk_expr(iterable);
                self.walk_stmt(body);
            },
            _ => (),
        }
        self.callbacks.post_stmt(stmt);
        proof {
            lemma_replay_wrap(
                start,
                Hook::PreStmt(*stmt),
                stmt_children_hooks(*stmt),
                Hook::PostStmt(*stmt),
            );
        }
    }

    /// Walks a declaration: enter hook, children, exit hook.
    fn walk_decl(&mut self, decl: &Decl)
        ensures
            final(self).ast == old(self).ast,
            final(self).callbacks == replay(old(self).callbacks, decl_hooks(*decl)),
        decreases decl, 0int,
    {
        let ghost start = self.callbacks;
        self.callbacks.pre_decl(decl);
        match decl {
            Decl::Fun(fun) => self.walk_fun(fun),
            Decl::Let(dtors) => self.walk_var(dtors),
            Decl::Const(dtors) => self.walk_const_dtors(dtors),
        }
        self.callbacks.post_decl(decl);
        proof {
            lemma_replay_wrap(
                start,
                Hook::PreDecl(*decl),
                decl_children_hooks(*decl),
                Hook::PostDecl(*decl),
            );
        }
    }

    /// Walks the declarators of a `const` declaration in order: for each, its
    /// pattern and then its initialiser.
    fn walk_const_dtors(&mut self, dtors: &Vec<ConstDtor>)
        ensures
            final(self).ast == old(self).ast,
            final(self).callbacks == replay(old(self).callbacks, const_dtors_hooks(dtors@)),
        decreases dtors, 1int,
    {
        let ghost start = self.callbacks;
        let ghost ast = self.ast;
        let mut i: usize = 0;
        while i < dtors.len()
            invariant
                i <= dtors.len(),
                self.ast == ast,
                self.callbacks == replay(start, const_dtors_hooks(dtors@.take(i as int))),
            decreases dtors.len() - i,
        {
            proof {
                broadcast use lemma_replay_concat;
                assert(dtors@.take(i + 1).drop_last() =~= dtors@.take(i as int));
            }
            let dtor = &dtors[i];
            self.walk_patt(&dtor.patt);
            self.walk_expr(&dtor.value);
            i += 1;
        }
        assert(dtors@.take(dtors.len() as int) =~= dtors@);
    }

    /// Walks the declarators of a `var` or `let` in order.
    fn walk_var(&mut self, decls: &Vec<Dtor>)
        ensures
            final(self).ast == old(self).ast,
            final(self).callbacks == replay(old(self).callbacks, dtors_hooks(decls@)),
        decreases decls, 1int,
    {
        let ghost start = self.callbacks;
        let ghost ast = self.ast;
        let mut i: usize = 0;
        while i < decls.len()
            invariant
                i <= decls.len(),
                self.ast == ast,
                self.callbacks == replay(start, dtors_hooks(decls@.take(i as int))),
            decreases decls.len() - i,
        {
            proof {
                broadcast use lemma_replay_concat;
                assert(decls@.take(i + 1).drop_last() =~= decls@.take(i as int));
            }
            self.walk_dtor(&decls[i]);
            i += 1;
        }
        assert(decls@.take(decls.len() as int) =~= decls@);
    }

    /// Walks a declarator's initialiser, if it has one.
    fn walk_dtor(&mut self, dtor: &Dtor)
        ensures
            final(self).ast == old(self).ast,
            final(self).callbacks == replay(old(self).callbacks, dtor_hooks(*dtor)),
        decreases dtor, 0int,
    {
        self.walk_opt_expr(&dtor.init);
    }

    /// Walks one argument or array element: its inner expression.
    fn walk_arg(&mut self, arg: &ExprListItem)
        ensures
            final(self).ast == old(self).ast,
            final(self).callbacks == replay(old(self).callbacks, arg_hooks(*arg)),
        decreases arg, 0int,
    {
        match arg {
            ExprListItem::Expr(node) => self.walk_expr(node),
            ExprListItem::Spread(node) => self.walk_expr(node),
        }
    }

    /// Walks an argument list in order.
    fn walk_args(&mut self, args: &Vec<ExprListItem>)
        ensures
            final(self).ast == old(self).ast,
            final(self).callbacks == replay(old(self).callbacks, args_hooks(args@)),
        decreases args, 1int,
    {
        let ghost start = self.callbacks;
        let ghost ast = self.ast;
        let mut i: usize = 0;
        while i < args.len()
            invariant
                i <= args.len(),
                self.ast == ast,
                self.callbacks == replay(start, args_hooks(args@.take(i as int))),
            decreases args.len() - i,
        {
            proof {
                broadcast use lemma_replay_concat;
                assert(args@.take(i + 1).drop_last() =~= args@.take(i as int));
            }
            self.walk_arg(&args[i]);
            i += 1;
        }
        assert(args@.take(args.len() as int) =~= args@);
    }

    /// Walks one element of an array literal; a hole has nothing to walk.
    fn walk_element(&mut self, element: &Option<ExprListItem>)
        ensures
            final(self).ast == old(self).ast,
            final(self).callbacks == replay(old(self).callbacks, element_hooks(*element)),
        decreases element, 0int,
    {
        match element {
            Some(arg) => self.walk_arg(arg),
            None => (),
        }
    }

    /// Walks the elements of an array literal in order, passing over holes.
    fn walk_elements(&mut self, elements: &Vec<Option<ExprListItem>>)
        ensures
            final(self).ast == old(self).ast,
            final(self).callbacks == replay(old(self).callbacks, elements_hooks(elements@)),
        decreases elements, 1int,
    {
        let ghost start = self.callbacks;
        let ghost ast = self.ast;
        let mut i: usize = 0;
        while i < elements.len()
            invariant
                i <= elements.len(),
                self.ast == ast,
                self.callbacks == replay(start, elements_hooks(elements@.take(i as int))),
            decreases elements.len() - i,
        {
            proof {
                broadcast use lemma_replay_concat;
                assert(elements@.take(i + 1).drop_last() =~= elements@.take(i as int));
            }
            self.walk_element(&elements[i]);
            i += 1;
        }
        assert(elements@.take(elements.len() as int) =~= elements@);
    }

    /// Walks the expressions of a sequence in order.
    fn walk_exprs(&mut self, exprs: &Vec<Expr>)
        ensures
            final(self).ast == old(self).ast,
            final(self).callbacks == replay(old(self).callbacks, exprs_hooks(exprs@)),
        decreases exprs, 1int,
    {
        let ghost start = self.callbacks;
        let ghost ast = self.ast;
        let mut i: usize = 0;
        while i < exprs.len()
            invariant
                i <= exprs.len(),
                self.ast == ast,
                self.callbacks == replay(start, exprs_hooks(exprs@.take(i as int))),
            decreases exprs.len() - i,
        {
            proof {
                broadcast use lemma_replay_concat;
                assert(exprs@.take(i + 1).drop_last() =~= exprs@.take(i as int));
            }
            self.walk_expr(&exprs[i]);
            i += 1;
        }
        assert(exprs@.take(exprs.len() as int) =~= exprs@);
    }

    /// Walks the properties of an object literal in order.
    fn walk_props(&mut self, props: &Vec<Prop>)
        ensures
            final(self).ast == old(self).ast,
            final(self).callbacks == replay(old(self).callbacks, props_hooks(props@)),
        decreases props, 1int,
    {
        let ghost start = self.callbacks;
        let ghost ast = self.ast;
        let mut i: usize = 0;
        while i < props.len()
            invariant
                i <= props.len(),
                self.ast == ast,
                self.callbacks == replay(start, props_hooks(props@.take(i as int))),
            decreases props.len() - i,
        {
            proof {
                broadcast use lemma_replay_concat;
                assert(props@.take(i + 1).drop_last() =~= props@.take(i as int));
            }
            self.walk_prop(&props[i]);
            i += 1;
        }
        assert(props@.take(props.len() as int) =~= props@);
    }

    /// Walks an expression: enter hook, children in dispatch order, exit hook.
    fn walk_expr(&mut self, expr: &Expr)
        ensures
            final(self).ast == old(self).ast,
            final(self).callbacks == replay(old(self).callbacks, expr_hooks(*expr)),
        decreases expr, 0int,
    {
        let ghost start = self.callbacks;
        self.callbacks.pre_expr(expr);
        proof {
            broadcast use lemma_replay_concat;
        }
        match expr {
            Expr::Call(callee, args) => {
                self.walk_expr(callee);
                self.walk_args(args);
            },
            Expr::Sequence(exprs) => self.walk_exprs(exprs),
            Expr::Arr(elements) => self.walk_elements(elements),
            Expr::Obj(properties) => self.walk_props(properties),
            Expr::Fun(fun) => self.walk_fun(fun),
            Expr::Binop(_, a, b) => {
                self.walk_expr(a);
                self.walk_expr(b);
            },
            Expr::Logop(_, a, b) => {
                self.walk_expr(a);
                self.walk_expr(b);
            },
            Expr::Unop(_, operand) => self.walk_expr(operand),
            Expr::PreInc(target) => self.walk_assign_target(target),
            Expr::PostInc(target) => self.walk_assign_target(target),
            Expr::PreDec(target) => self.walk_assign_target(target),
            Expr::PostDec(target) => self.walk_assign_target(target),
            Expr::Assign(target, value) => {
                self.walk_assign_patt(target);
                self.walk_expr(value);
            },
            Expr::BinAssign(_, target, value) => {
                self.walk_assign_target(target);
                self.walk_expr(value);
            },
            Expr::Cond(cond, cons, alt) => {
                self.walk_expr(cond);
                self.walk_expr(cons);
                self.walk_expr(alt);
            },
            Expr::Dot(object, _) => self.walk_expr(object),
            Expr::Brack(object, property) => {
                self.walk_expr(object);
                self.walk_expr(property);
            },
            _ => (),
        }
        self.callbacks.post_expr(expr);
        proof {
            lemma_replay_wrap(
                start,
                Hook::PreExpr(*expr),
                expr_children_hooks(*expr),
                Hook::PostExpr(*expr),
            );
        }
    }

    /// Walks a function: enter hook, body items in order, exit hook.
    fn walk_fun(&mut self, fun: &Fun)
        ensures
            final(self).ast == old(self).ast,
            final(self).callbacks == replay(old(self).callbacks, fun_hooks(*fun)),
        decreases fun, 0int,
    {
        let ghost start = self.callbacks;
        self.callbacks.pre_fun(fun);
        self.walk_items(&fun.body);
        self.callbacks.post_fun(fun);
        proof {
            lemma_replay_wrap(
                start,
                Hook::PreFun(*fun),
                items_hooks(fun.body@),
                Hook::PostFun(*fun),
            );
        }
    }

    /// Binding patterns are not walked.
    fn walk_patt(&mut self, _target: &Patt)
        ensures
            *final(self) == *old(self),
    {
    }

    /// Assignment patterns are not walked.
    fn walk_assign_patt(&mut self, _target: &AssignPatt)
        ensures
            *final(self) == *old(self),
    {
    }

    /// Walks the expressions inside an assignment target.
    fn walk_assign_target(&mut self, target: &AssignTarget)
        ensures
            final(self).ast == old(self).ast,
            final(self).callbacks == replay(old(self).callbacks, target_hooks(*target)),
        decreases target, 0int,
    {
        proof {
            broadcast use lemma_replay_concat;
        }
        match target {
            AssignTarget::Id(_) => (),
            AssignTarget::Dot(object, _) => self.walk_expr(object),
            AssignTarget::Brack(object, property) => {
                self.walk_expr(object);
                self.walk_expr(property);
            },
        }
    }

    /// Walks what a property of an object literal holds.
    fn walk_prop(&mut self, prop: &Prop)
        ensures
            final(self).ast == old(self).ast,
            final(self).callbacks == replay(old(self).callbacks, prop_hooks(*prop)),
        decreases prop, 0int,
    {
        match prop {
            Prop::Regular(_, val) => {
                match val {
                    PropVal::Init(value) => self.walk_expr(value),
                    PropVal::Getter(body) => self.walk_items(body),
                    PropVal::Setter(_, body) => self.walk_items(body),
                }
            },
            Prop::Method(fun) => self.walk_fun(fun),
            Prop::Shorthand(_) => (),
        }
    }
}

} // verus!
