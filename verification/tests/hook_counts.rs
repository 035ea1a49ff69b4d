use estree_walk::ast::{
    Decl, Dtor, Expr, ExprListItem, Fun, Patt, Prop, PropVal, Script, Stmt, StmtListItem,
};
use estree_walk::counts::HookCounts;
use estree_walk::walk::{Callbacks, Walker};

fn id(name: &str) -> Expr {
    Expr::Id(name.to_string())
}

fn sample() -> Script {
    // function f(p) { return g(p, [1, , ...p]); }
    // var o = { m() { debugger; }, get v() { return 1; }, s };
    // if (o) { f(o); } else ;
    let call_g = Expr::Call(
        Box::new(id("g")),
        vec![
            ExprListItem::Expr(id("p")),
            ExprListItem::Expr(Expr::Arr(vec![
                Some(ExprListItem::Expr(Expr::Number("1".to_string()))),
                None,
                Some(ExprListItem::Spread(id("p"))),
            ])),
        ],
    );
    let f = Fun {
        id: Some("f".to_string()),
        params: vec![Patt::Id("p".to_string())],
        body: vec![StmtListItem::Stmt(Stmt::Return(Some(call_g)))],
    };
    let object = Expr::Obj(vec![
        Prop::Method(Fun {
            id: Some("m".to_string()),
            params: Vec::new(),
            body: vec![StmtListItem::Stmt(Stmt::Debugger)],
        }),
        Prop::Regular(
            "v".to_string(),
            PropVal::Getter(vec![StmtListItem::Stmt(Stmt::Return(Some(Expr::Number(
                "1".to_string(),
            ))))]),
        ),
        Prop::Shorthand("s".to_string()),
    ]);
    let var = Stmt::Var(vec![Dtor { patt: Patt::Id("o".to_string()), init: Some(object) }]);
    let call_f = Expr::Call(Box::new(id("f")), vec![ExprListItem::Expr(id("o"))]);
    let branch = Stmt::If(
        id("o"),
        Box::new(Stmt::Block(vec![StmtListItem::Stmt(Stmt::Expr(call_f))])),
        Some(Box::new(Stmt::Empty)),
    );
    Script {
        items: vec![
            StmtListItem::Decl(Decl::Fun(f)),
            StmtListItem::Stmt(var),
            StmtListItem::Stmt(branch),
        ],
    }
}

#[test]
fn new_counts_are_zero() {
    let counts = HookCounts::new();
    assert_eq!(
        counts,
        HookCounts {
            pre_script: 0,
            post_script: 0,
            pre_stmt: 0,
            post_stmt: 0,
            pre_expr: 0,
            post_expr: 0,
            pre_decl: 0,
            post_decl: 0,
            pre_fun: 0,
            post_fun: 0,
        }
    );
}

#[test]
fn enter_and_exit_counts_match_the_nodes_visited() {
    let script = sample();
    let counts = Walker::new(&script, HookCounts::new()).walk();
    // Statements: return, var, debugger, return, if, block, expression, empty.
    assert_eq!(counts.pre_stmt, 8);
    assert_eq!(counts.post_stmt, 8);
    // Expressions: call g, g, p, array, 1, p, object, 1, o, call f, f, o.
    assert_eq!(counts.pre_expr, 12);
    assert_eq!(counts.post_expr, 12);
    assert_eq!(counts.pre_decl, 1);
    assert_eq!(counts.post_decl, 1);
    // Functions: f and the method m.
    assert_eq!(counts.pre_fun, 2);
    assert_eq!(counts.post_fun, 2);
    assert_eq!(counts.pre_script, 1);
    assert_eq!(counts.post_script, 1);
}

#[test]
fn counts_carry_on_from_where_they_stood() {
    let script = Script { items: vec![StmtListItem::Stmt(Stmt::Expr(id("x")))] };
    let once = Walker::new(&script, HookCounts::new()).walk();
    let twice = Walker::new(&script, once).walk();
    assert_eq!(once.pre_stmt, 1);
    assert_eq!(once.pre_expr, 1);
    assert_eq!(twice.pre_stmt, 2);
    assert_eq!(twice.post_stmt, 2);
    assert_eq!(twice.pre_expr, 2);
    assert_eq!(twice.post_expr, 2);
    assert_eq!(twice.pre_script, 2);
    assert_eq!(twice.post_script, 2);
    assert_eq!(twice.pre_decl, 0);
    assert_eq!(twice.pre_fun, 0);
}

#[test]
fn a_full_counter_stays_full() {
    let mut counts = HookCounts::new();
    counts.pre_stmt = u64::MAX;
    counts.post_expr = u64::MAX - 1;
    let script = Script { items: vec![StmtListItem::Stmt(Stmt::Expr(id("x")))] };
    let counts = Walker::new(&script, counts).walk();
    assert_eq!(counts.pre_stmt, u64::MAX);
    assert_eq!(counts.post_stmt, 1);
    assert_eq!(counts.post_expr, u64::MAX);
    assert_eq!(counts.pre_expr, 1);
}

#[test]
fn hooks_called_directly_count_once_each() {
    let mut counts = HookCounts::new();
    let script = Script { items: Vec::new() };
    let fun = Fun { id: None, params: Vec::new(), body: Vec::new() };
    counts.pre_script(&script);
    counts.pre_stmt(&Stmt::Empty);
    counts.pre_stmt(&Stmt::Debugger);
    counts.post_stmt(&Stmt::Empty);
    counts.pre_expr(&Expr::This);
    counts.post_expr(&Expr::This);
    counts.post_expr(&Expr::Null);
    counts.post_expr(&Expr::True);
    counts.pre_decl(&Decl::Let(Vec::new()));
    counts.post_decl(&Decl::Let(Vec::new()));
    counts.pre_fun(&fun);
    counts.post_fun(&fun);
    counts.post_fun(&fun);
    assert_eq!(
        counts,
        HookCounts {
            pre_script: 1,
            post_script: 0,
            pre_stmt: 2,
            post_stmt: 1,
            pre_expr: 1,
            post_expr: 3,
            pre_decl: 1,
            post_decl: 1,
            pre_fun: 1,
            post_fun: 2,
        }
    );
}
