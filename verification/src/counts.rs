//! A callback set that counts how often each hook is called.
use vstd::prelude::*;
use crate::ast::{Decl, Expr, Fun, Script, Stmt};
use crate::census::{lemma_walk_counts, one_if, script_nodes};
use crate::nesting::{enters, exits, is_enter, kind_of, NodeKind};
use crate::trace::{script_hooks, Hook};
use crate::walk::{replay, Callbacks};

verus! {

/// One counter per hook. A counter that has reached `u64::MAX` stays there.
#[derive(Clone, Copy, Debug, PartialEq, Eq)]
pub struct HookCounts {
    pub pre_script: u64,
    pub post_script: u64,
    pub pre_stmt: u64,
    pub post_stmt: u64,
    pub pre_expr: u64,
    pub post_expr: u64,
    pub pre_decl: u64,
    pub post_decl: u64,
    pub pre_fun: u64,
    pub post_fun: u64,
}

/// `n + 1`, held at `u64::MAX`.
pub open spec fn bumped(n: u64) -> u64 {
    if n < u64::MAX {
        (n + 1) as u64
    } else {
        n
    }
}

fn bump(n: u64) -> (m: u64)
    ensures
        m == bumped(n),
{
    if n < u64::MAX {
        n + 1
    } else {
        n
    }
}

impl HookCounts {
    /// All counters at zero.
    pub fn new() -> (counts: HookCounts)
        ensures
            counts == (HookCounts {
                pre_script: 0,
                post_script: 0,
                pre_stmt: 0,
                post_stmt: 0,
                pre_expr: 0,
                post_expr: 0,
                pre_decl: 0,
                post_decl: 0,
                pre_fun: 0,
                post_fun: 0,
            }),
    {
        HookCounts {
            pre_script: 0,
            post_script: 0,
            pre_stmt: 0,
            post_stmt: 0,
            pre_expr: 0,
            post_expr: 0,
            pre_decl: 0,
            post_decl: 0,
            pre_fun: 0,
            post_fun: 0,
        }
    }
}

impl Callbacks for HookCounts {
    open spec fn after(self, hook: Hook) -> HookCounts {
        match hook {
            Hook::PreScript(_) => HookCounts { pre_script: bumped(self.pre_script), ..self },
            Hook::PostScript(_) => HookCounts { post_script: bumped(self.post_script), ..self },
            Hook::PreStmt(_) => HookCounts { pre_stmt: bumped(self.pre_stmt), ..self },
            Hook::PostStmt(_) => HookCounts { post_stmt: bumped(self.post_stmt), ..self },
            Hook::PreExpr(_) => HookCounts { pre_expr: bumped(self.pre_expr), ..self },
            Hook::PostExpr(_) => HookCounts { post_expr: bumped(self.post_expr), ..self },
            Hook::PreDecl(_) => HookCounts { pre_decl: bumped(self.pre_decl), ..self },
            Hook::PostDecl(_) => HookCounts { post_decl: bumped(self.post_decl), ..self },
            Hook::PreFun(_) => HookCounts { pre_fun: bumped(self.pre_fun), ..self },
            Hook::PostFun(_) => HookCounts { post_fun: bumped(self.post_fun), ..self },
        }
    }

    fn pre_script(&mut self, _node: &Script) {
        self.pre_script = bump(self.pre_script);
    }

    fn pre_stmt(&mut self, _node: &Stmt) {
        self.pre_stmt = bump(self.pre_stmt);
    }

    fn pre_expr(&mut self, _node: &Expr) {
        self.pre_expr = bump(self.pre_expr);
    }

    fn pre_decl(&mut self, _node: &Decl) {
        self.pre_decl = bump(self.pre_decl);
    }

    fn pre_fun(&mut self, _node: &Fun) {
        self.pre_fun = bump(self.pre_fun);
    }

    fn post_script(&mut self, _node: &Script) {
        self.post_script = bump(self.post_script);
    }

    fn post_stmt(&mut self, _node: &Stmt) {
        self.post_stmt = bump(self.post_stmt);
    }

    fn post_expr(&mut self, _node: &Expr) {
        self.post_expr = bump(self.post_expr);
    }

    fn post_decl(&mut self, _node: &Decl) {
        self.post_decl = bump(self.post_decl);
    }

    fn post_fun(&mut self, _node: &Fun) {
        self.post_fun = bump(self.post_fun);
    }
}

/// `n + by`, held at `u64::MAX`.
pub open spec fn raised(n: u64, by: nat) -> u64 {
    if n + by < u64::MAX {
        (n + by) as u64
    } else {
        u64::MAX
    }
}

/// The counters after `hooks`: each raised by the number of calls of its hook.
pub open spec fn tallied(counts: HookCounts, hooks: Seq<Hook>) -> HookCounts {
    HookCounts {
        pre_script: raised(counts.pre_script, enters(hooks, NodeKind::Script)),
        post_script: raised(counts.post_script, exits(hooks, NodeKind::Script)),
        pre_stmt: raised(counts.pre_stmt, enters(hooks, NodeKind::Stmt)),
        post_stmt: raised(counts.post_stmt, exits(hooks, NodeKind::Stmt)),
        pre_expr: raised(counts.pre_expr, enters(hooks, NodeKind::Expr)),
        post_expr: raised(counts.post_expr, exits(hooks, NodeKind::Expr)),
        pre_decl: raised(counts.pre_decl, enters(hooks, NodeKind::Decl)),
        post_decl: raised(counts.post_decl, exits(hooks, NodeKind::Decl)),
        pre_fun: raised(counts.pre_fun, enters(hooks, NodeKind::Fun)),
        post_fun: raised(counts.post_fun, exits(hooks, NodeKind::Fun)),
    }
}

/// One more hook call adds one to the enter or exit calls of its kind and
/// nothing to the others.
proof fn lemma_tally_step(earlier: Seq<Hook>, last: Hook, kind: NodeKind)
    ensures
        enters(earlier.push(last), kind) == enters(earlier, kind) + one_if(
            is_enter(last) && kind_of(last) == kind,
        ),
        exits(earlier.push(last), kind) == exits(earlier, kind) + one_if(
            !is_enter(last) && kind_of(last) == kind,
        ),
{
    assert(earlier.push(last).drop_last() =~= earlier);
}

/// Replaying hook calls on the counters raises each counter by the number of
/// calls of its hook.
pub proof fn lemma_replay_tallies(counts: HookCounts, hooks: Seq<Hook>)
    ensures
        replay(counts, hooks) == tallied(counts, hooks),
    decreases hooks.len(),
{
    if hooks.len() > 0 {
        let earlier = hooks.drop_last();
        let last = hooks.last();
        lemma_replay_tallies(counts, earlier);
        assert(replay(counts, hooks) == tallied(counts, earlier).after(last));
        lemma_tally_step(earlier, last, NodeKind::Script);
        lemma_tally_step(earlier, last, NodeKind::Stmt);
        lemma_tally_step(earlier, last, NodeKind::Expr);
        lemma_tally_step(earlier, last, NodeKind::Decl);
        lemma_tally_step(earlier, last, NodeKind::Fun);
        assert(hooks =~= earlier.push(last));
    }
}

/// After a walk, the enter counter and the exit counter of each kind of node
/// have both been raised by the number of nodes of that kind that the walk
/// visits.
pub proof fn lemma_walk_tallies_nodes(counts: HookCounts, script: Script)
    ensures
        replay(counts, script_hooks(script)) == (HookCounts {
            pre_script: raised(counts.pre_script, script_nodes(script, NodeKind::Script)),
            post_script: raised(counts.post_script, script_nodes(script, NodeKind::Script)),
            pre_stmt: raised(counts.pre_stmt, script_nodes(script, NodeKind::Stmt)),
            post_stmt: raised(counts.post_stmt, script_nodes(script, NodeKind::Stmt)),
            pre_expr: raised(counts.pre_expr, script_nodes(script, NodeKind::Expr)),
            post_expr: raised(counts.post_expr, script_nodes(script, NodeKind::Expr)),
            pre_decl: raised(counts.pre_decl, script_nodes(script, NodeKind::Decl)),
            post_decl: raised(counts.post_decl, script_nodes(script, NodeKind::Decl)),
            pre_fun: raised(counts.pre_fun, script_nodes(script, NodeKind::Fun)),
            post_fun: raised(counts.post_fun, script_nodes(script, NodeKind::Fun)),
        }),
{
    lemma_replay_tallies(counts, script_hooks(script));
    lemma_walk_counts(script, NodeKind::Script);
    lemma_walk_counts(script, NodeKind::Stmt);
    lemma_walk_counts(script, NodeKind::Expr);
    lemma_walk_counts(script, NodeKind::Decl);
    lemma_walk_counts(script, NodeKind::Fun);
}

} // verus!
