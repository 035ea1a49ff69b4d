use estree_walk::ast::{
    AssignPatt, AssignTarget, Case, Catch, ConstDtor, Decl, Dtor, Expr, ExprListItem, ForHead,
    ForInHead, ForOfHead, Fun, Patt, Prop, PropVal, Script, Stmt, StmtListItem,
};
use estree_walk::walk::{Callbacks, Walker};

/// Records every hook call as a short line of text.
struct Log {
    lines: Vec<String>,
}

fn stmt_name(node: &Stmt) -> &'static str {
    match node {
        Stmt::Empty => "empty",
        Stmt::Block(..) => "block",
        Stmt::Var(..) => "var",
        Stmt::Expr(..) => "expr",
        Stmt::If(..) => "if",
        Stmt::Label(..) => "label",
        Stmt::Break(..) => "break",
        Stmt::Cont(..) => "continue",
        Stmt::With(..) => "with",
        Stmt::Switch(..) => "switch",
        Stmt::Return(..) => "return",
        Stmt::Throw(..) => "throw",
        Stmt::Try(..) => "try",
        Stmt::While(..) => "while",
        Stmt::DoWhile(..) => "do",
        Stmt::For(..) => "for",
        Stmt::ForIn(..) => "forin",
        Stmt::ForOf(..) => "forof",
        Stmt::Debugger => "debugger",
    }
}

fn expr_name(node: &Expr) -> String {
    match node {
        Expr::Id(name) => name.clone(),
        Expr::Number(text) => text.clone(),
        Expr::String(text) => format!("'{}'", text),
        Expr::Call(callee, _) => format!("call {}", expr_name(callee)),
        Expr::New(callee, _) => format!("new {}", expr_name(callee)),
        Expr::Fun(_) => "function".to_string(),
        Expr::Obj(_) => "object".to_string(),
        Expr::Arr(_) => "array".to_string(),
        Expr::Sequence(_) => "sequence".to_string(),
        Expr::Unop(op, _) => format!("unop {}", op),
        Expr::Binop(op, _, _) => format!("binop {}", op),
        Expr::Logop(op, _, _) => format!("logop {}", op),
        Expr::PreInc(_) => "++x".to_string(),
        Expr::PostInc(_) => "x++".to_string(),
        Expr::PreDec(_) => "--x".to_string(),
        Expr::PostDec(_) => "x--".to_string(),
        Expr::Assign(..) => "assign".to_string(),
        Expr::BinAssign(op, _, _) => format!("assign {}", op),
        Expr::Cond(..) => "cond".to_string(),
        Expr::Dot(_, key) => format!("dot {}", key),
        Expr::Brack(..) => "brack".to_string(),
        Expr::This => "this".to_string(),
        Expr::NewTarget => "new.target".to_string(),
        Expr::True => "true".to_string(),
        Expr::False => "false".to_string(),
        Expr::Null => "null".to_string(),
        Expr::RegExp(text) => text.clone(),
    }
}

fn decl_name(node: &Decl) -> &'static str {
    match node {
        Decl::Fun(_) => "function",
        Decl::Let(_) => "let",
        Decl::Const(_) => "const",
    }
}

fn fun_name(node: &Fun) -> String {
    match &node.id {
        Some(name) => name.clone(),
        None => "anonymous".to_string(),
    }
}

impl Callbacks for Log {
    fn pre_script(&mut self, node: &Script) {
        self.lines.push(format!("+script {}", node.items.len()));
    }
    fn pre_stmt(&mut self, node: &Stmt) {
        self.lines.push(format!("+stmt {}", stmt_name(node)));
    }
    fn pre_expr(&mut self, node: &Expr) {
        self.lines.push(format!("+expr {}", expr_name(node)));
    }
    fn pre_decl(&mut self, node: &Decl) {
        self.lines.push(format!("+decl {}", decl_name(node)));
    }
    fn pre_fun(&mut self, node: &Fun) {
        self.lines.push(format!("+fun {}", fun_name(node)));
    }
    fn post_script(&mut self, node: &Script) {
        self.lines.push(format!("-script {}", node.items.len()));
    }
    fn post_stmt(&mut self, node: &Stmt) {
        self.lines.push(format!("-stmt {}", stmt_name(node)));
    }
    fn post_expr(&mut self, node: &Expr) {
        self.lines.push(format!("-expr {}", expr_name(node)));
    }
    fn post_decl(&mut self, node: &Decl) {
        self.lines.push(format!("-decl {}", decl_name(node)));
    }
    fn post_fun(&mut self, node: &Fun) {
        self.lines.push(format!("-fun {}", fun_name(node)));
    }
}

fn id(name: &str) -> Expr {
    Expr::Id(name.to_string())
}

fn bid(name: &str) -> Box<Expr> {
    Box::new(id(name))
}

fn num(text: &str) -> Expr {
    Expr::Number(text.to_string())
}

fn call(callee: &str, args: Vec<Expr>) -> Expr {
    Expr::Call(bid(callee), args.into_iter().map(ExprListItem::Expr).collect())
}

fn expr_stmt(expr: Expr) -> Stmt {
    Stmt::Expr(expr)
}

fn item(stmt: Stmt) -> StmtListItem {
    StmtListItem::Stmt(stmt)
}

fn block(stmts: Vec<Stmt>) -> Stmt {
    Stmt::Block(stmts.into_iter().map(StmtListItem::Stmt).collect())
}

fn patt(name: &str) -> Patt {
    Patt::Id(name.to_string())
}

fn script_of(items: Vec<StmtListItem>) -> Script {
    Script { items }
}

/// Walks `items` as a script and returns the hook calls between the script's
/// own enter and exit hooks.
fn inner(items: Vec<StmtListItem>) -> Vec<String> {
    let count = items.len();
    let script = script_of(items);
    let log = Walker::new(&script, Log { lines: Vec::new() }).walk();
    let mut lines = log.lines;
    assert_eq!(lines.first().unwrap(), &format!("+script {}", count));
    assert_eq!(lines.pop().unwrap(), format!("-script {}", count));
    lines.remove(0);
    lines
}

fn inner_stmt(stmt: Stmt) -> Vec<String> {
    inner(vec![item(stmt)])
}

/// The hook calls for the expression statement `expr;`, without the
/// statement's own pair.
fn inner_expr(expr: Expr) -> Vec<String> {
    let mut lines = inner_stmt(expr_stmt(expr));
    assert_eq!(lines.remove(0), "+stmt expr");
    assert_eq!(lines.pop().unwrap(), "-stmt expr");
    lines
}

fn leaf(name: &str) -> Vec<String> {
    vec![format!("+expr {}", name), format!("-expr {}", name)]
}

fn leaves(names: &[&str]) -> Vec<String> {
    names.iter().flat_map(|name| leaf(name)).collect()
}

fn wrapped(enter: &str, mut between: Vec<String>, exit: &str) -> Vec<String> {
    let mut lines = vec![enter.to_string()];
    lines.append(&mut between);
    lines.push(exit.to_string());
    lines
}

#[test]
fn empty_script_fires_only_the_script_hooks() {
    let script = script_of(Vec::new());
    let log = Walker::new(&script, Log { lines: Vec::new() }).walk();
    assert_eq!(log.lines, vec!["+script 0", "-script 0"]);
}

#[test]
fn if_else_hook_order() {
    let stmt = Stmt::If(
        id("a"),
        Box::new(block(vec![expr_stmt(id("b"))])),
        Some(Box::new(block(vec![expr_stmt(id("c"))]))),
    );
    assert_eq!(
        inner_stmt(stmt),
        vec![
            "+stmt if", "+expr a", "-expr a", "+stmt block", "+stmt expr", "+expr b", "-expr b",
            "-stmt expr", "-stmt block", "+stmt block", "+stmt expr", "+expr c", "-expr c",
            "-stmt expr", "-stmt block", "-stmt if",
        ]
    );
}

#[test]
fn if_without_else_walks_condition_and_consequent() {
    let stmt = Stmt::If(id("a"), Box::new(expr_stmt(id("b"))), None);
    assert_eq!(
        inner_stmt(stmt),
        vec!["+stmt if", "+expr a", "-expr a", "+stmt expr", "+expr b", "-expr b", "-stmt expr", "-stmt if"]
    );
}

#[test]
fn call_with_function_argument_hook_order() {
    let body = vec![item(expr_stmt(call("g", Vec::new())))];
    let fun = Expr::Fun(Fun { id: None, params: Vec::new(), body });
    assert_eq!(
        inner_expr(call("f", vec![fun])),
        vec![
            "+expr call f", "+expr f", "-expr f", "+expr function", "+fun anonymous",
            "+stmt expr", "+expr call g", "+expr g", "-expr g", "-expr call g", "-stmt expr",
            "-fun anonymous", "-expr function", "-expr call f",
        ]
    );
}

#[test]
fn object_literal_properties() {
    let getter_body = vec![item(Stmt::Return(Some(call("h", Vec::new()))))];
    let object = Expr::Obj(vec![
        Prop::Regular("a".to_string(), PropVal::Init(num("1"))),
        Prop::Regular("b".to_string(), PropVal::Getter(getter_body)),
        Prop::Method(Fun { id: Some("c".to_string()), params: Vec::new(), body: Vec::new() }),
        Prop::Shorthand("d".to_string()),
    ]);
    assert_eq!(
        inner_expr(object),
        vec![
            "+expr object", "+expr 1", "-expr 1", "+stmt return", "+expr call h", "+expr h",
            "-expr h", "-expr call h", "-stmt return", "+fun c", "-fun c", "-expr object",
        ]
    );
}

#[test]
fn shorthand_property_has_no_child_hooks() {
    let object = Expr::Obj(vec![Prop::Shorthand("d".to_string())]);
    assert_eq!(inner_expr(object), leaf("object"));
}

#[test]
fn setter_body_is_walked_but_not_its_parameter() {
    let body = vec![item(expr_stmt(id("v")))];
    let object = Expr::Obj(vec![Prop::Regular("s".to_string(), PropVal::Setter(patt("v"), body))]);
    assert_eq!(
        inner_expr(object),
        wrapped(
            "+expr object",
            wrapped("+stmt expr", leaf("v"), "-stmt expr"),
            "-expr object"
        )
    );
}

#[test]
fn unlisted_statement_is_shallow() {
    assert_eq!(inner_stmt(Stmt::Debugger), vec!["+stmt debugger", "-stmt debugger"]);
    assert_eq!(inner_stmt(Stmt::Empty), vec!["+stmt empty", "-stmt empty"]);
    assert_eq!(inner_stmt(Stmt::Break(None)), vec!["+stmt break", "-stmt break"]);
    assert_eq!(
        inner_stmt(Stmt::Cont(Some("l".to_string()))),
        vec!["+stmt continue", "-stmt continue"]
    );
}

#[test]
fn with_statement_is_shallow_although_it_has_children() {
    let stmt = Stmt::With(id("o"), Box::new(expr_stmt(id("x"))));
    assert_eq!(inner_stmt(stmt), vec!["+stmt with", "-stmt with"]);
}

#[test]
fn unlisted_expression_is_shallow() {
    let new = Expr::New(bid("C"), Some(vec![ExprListItem::Expr(id("x"))]));
    assert_eq!(inner_expr(new), leaf("new C"));
    assert_eq!(inner_expr(Expr::This), leaf("this"));
    assert_eq!(inner_expr(Expr::String("s".to_string())), leaf("'s'"));
    assert_eq!(inner_expr(Expr::Null), leaf("null"));
}

#[test]
fn independent_walks_do_not_interfere() {
    let script = script_of(vec![item(expr_stmt(call("f", vec![id("x")])))]);
    let first = Walker::new(&script, Log { lines: Vec::new() });
    let second = Walker::new(&script, Log { lines: vec!["seed".to_string()] });
    let second = second.walk();
    let first = first.walk();
    let expected = vec![
        "+script 1", "+stmt expr", "+expr call f", "+expr f", "-expr f", "+expr x", "-expr x",
        "-expr call f", "-stmt expr", "-script 1",
    ];
    assert_eq!(first.lines, expected);
    assert_eq!(second.lines[0], "seed");
    assert_eq!(&second.lines[1..], &expected[..]);
    let again = Walker::new(&script, Log { lines: Vec::new() }).walk();
    assert_eq!(again.lines, first.lines);
}

#[test]
fn while_walks_condition_then_body() {
    let stmt = Stmt::While(id("c"), Box::new(expr_stmt(id("b"))));
    let mut between = leaf("c");
    between.append(&mut wrapped("+stmt expr", leaf("b"), "-stmt expr"));
    assert_eq!(inner_stmt(stmt), wrapped("+stmt while", between, "-stmt while"));
}

#[test]
fn do_while_walks_body_then_condition() {
    let stmt = Stmt::DoWhile(Box::new(expr_stmt(id("b"))), id("c"));
    let mut between = wrapped("+stmt expr", leaf("b"), "-stmt expr");
    between.append(&mut leaf("c"));
    assert_eq!(inner_stmt(stmt), wrapped("+stmt do", between, "-stmt do"));
}

#[test]
fn for_skips_its_head() {
    let head = ForHead::Var(vec![Dtor { patt: patt("i"), init: Some(id("start")) }]);
    let stmt = Stmt::For(Some(head), Some(id("test")), Some(id("step")), Box::new(Stmt::Empty));
    let mut between = leaves(&["test", "step"]);
    between.append(&mut vec!["+stmt empty".to_string(), "-stmt empty".to_string()]);
    assert_eq!(inner_stmt(stmt), wrapped("+stmt for", between, "-stmt for"));
}

#[test]
fn for_with_expression_head_and_nothing_else_walks_only_the_body() {
    let stmt = Stmt::For(Some(ForHead::Expr(id("init"))), None, None, Box::new(Stmt::Empty));
    assert_eq!(
        inner_stmt(stmt),
        vec!["+stmt for", "+stmt empty", "-stmt empty", "-stmt for"]
    );
}

#[test]
fn for_in_and_for_of_walk_iterable_then_body() {
    let mut between = leaf("xs");
    between.append(&mut vec!["+stmt empty".to_string(), "-stmt empty".to_string()]);
    let for_in = Stmt::ForIn(ForInHead::Var(patt("k")), id("xs"), Box::new(Stmt::Empty));
    assert_eq!(inner_stmt(for_in), wrapped("+stmt forin", between.clone(), "-stmt forin"));
    let for_of = Stmt::ForOf(ForOfHead::Let(patt("v")), id("xs"), Box::new(Stmt::Empty));
    assert_eq!(inner_stmt(for_of), wrapped("+stmt forof", between.clone(), "-stmt forof"));
    let for_in = Stmt::ForIn(
        ForInHead::VarInit("k".to_string(), id("init")),
        id("xs"),
        Box::new(Stmt::Empty),
    );
    assert_eq!(inner_stmt(for_in), wrapped("+stmt forin", between.clone(), "-stmt forin"));
    let for_of = Stmt::ForOf(ForOfHead::Expr(id("target")), id("xs"), Box::new(Stmt::Empty));
    assert_eq!(inner_stmt(for_of), wrapped("+stmt forof", between, "-stmt forof"));
}

#[test]
fn switch_walks_discriminant_then_each_case() {
    let stmt = Stmt::Switch(
        id("d"),
        vec![
            Case { test: Some(id("t1")), body: vec![item(expr_stmt(id("b1")))] },
            Case { test: None, body: vec![item(Stmt::Break(None))] },
            Case { test: Some(id("t3")), body: Vec::new() },
        ],
    );
    assert_eq!(
        inner_stmt(stmt),
        vec![
            "+stmt switch", "+expr d", "-expr d", "+expr t1", "-expr t1", "+stmt expr", "+expr b1",
            "-expr b1", "-stmt expr", "+stmt break", "-stmt break", "+expr t3", "-expr t3",
            "-stmt switch",
        ]
    );
}

#[test]
fn try_walks_body_catch_finally() {
    let stmt = Stmt::Try(
        vec![item(expr_stmt(id("a")))],
        Some(Catch { param: patt("e"), body: vec![item(expr_stmt(id("b")))] }),
        Some(vec![item(expr_stmt(id("c")))]),
    );
    let mut between = Vec::new();
    for name in ["a", "b", "c"] {
        between.append(&mut wrapped("+stmt expr", leaf(name), "-stmt expr"));
    }
    assert_eq!(inner_stmt(stmt), wrapped("+stmt try", between, "-stmt try"));
}

#[test]
fn try_without_catch_or_finally_walks_only_its_body() {
    let stmt = Stmt::Try(vec![item(expr_stmt(id("a")))], None, None);
    assert_eq!(
        inner_stmt(stmt),
        wrapped("+stmt try", wrapped("+stmt expr", leaf("a"), "-stmt expr"), "-stmt try")
    );
}

#[test]
fn return_and_throw_walk_their_argument() {
    assert_eq!(inner_stmt(Stmt::Return(None)), vec!["+stmt return", "-stmt return"]);
    assert_eq!(
        inner_stmt(Stmt::Return(Some(id("r")))),
        wrapped("+stmt return", leaf("r"), "-stmt return")
    );
    assert_eq!(inner_stmt(Stmt::Throw(id("e"))), wrapped("+stmt throw", leaf("e"), "-stmt throw"));
}

#[test]
fn label_walks_the_labelled_statement() {
    let stmt = Stmt::Label("l".to_string(), Box::new(Stmt::Empty));
    assert_eq!(
        inner_stmt(stmt),
        vec!["+stmt label", "+stmt empty", "-stmt empty", "-stmt label"]
    );
}

#[test]
fn var_walks_initialisers_that_are_present() {
    let stmt = Stmt::Var(vec![
        Dtor { patt: patt("a"), init: Some(id("x")) },
        Dtor { patt: patt("b"), init: None },
        Dtor { patt: Patt::Compound(vec![patt("c")]), init: Some(id("y")) },
    ]);
    assert_eq!(inner_stmt(stmt), wrapped("+stmt var", leaves(&["x", "y"]), "-stmt var"));
}

#[test]
fn let_and_const_declarations() {
    let decl = Decl::Let(vec![
        Dtor { patt: patt("a"), init: None },
        Dtor { patt: patt("b"), init: Some(id("x")) },
    ]);
    assert_eq!(
        inner(vec![StmtListItem::Decl(decl)]),
        wrapped("+decl let", leaf("x"), "-decl let")
    );
    let decl = Decl::Const(vec![
        ConstDtor { patt: patt("a"), value: id("x") },
        ConstDtor { patt: patt("b"), value: id("y") },
    ]);
    assert_eq!(
        inner(vec![StmtListItem::Decl(decl)]),
        wrapped("+decl const", leaves(&["x", "y"]), "-decl const")
    );
}

#[test]
fn function_declaration_walks_body_not_parameters() {
    let fun = Fun {
        id: Some("f".to_string()),
        params: vec![patt("p")],
        body: vec![item(Stmt::Return(Some(id("p"))))],
    };
    assert_eq!(
        inner(vec![StmtListItem::Decl(Decl::Fun(fun))]),
        vec![
            "+decl function", "+fun f", "+stmt return", "+expr p", "-expr p", "-stmt return",
            "-fun f", "-decl function",
        ]
    );
}

#[test]
fn call_walks_callee_then_arguments_spread_or_not() {
    let expr = Expr::Call(
        bid("f"),
        vec![ExprListItem::Expr(id("a")), ExprListItem::Spread(id("rest"))],
    );
    assert_eq!(inner_expr(expr), wrapped("+expr call f", leaves(&["f", "a", "rest"]), "-expr call f"));
}

#[test]
fn array_holes_contribute_nothing() {
    let expr = Expr::Arr(vec![
        Some(ExprListItem::Expr(id("a"))),
        None,
        Some(ExprListItem::Spread(id("b"))),
        None,
    ]);
    assert_eq!(inner_expr(expr), wrapped("+expr array", leaves(&["a", "b"]), "-expr array"));
}

#[test]
fn sequence_and_operators() {
    let expr = Expr::Sequence(vec![id("a"), id("b"), id("c")]);
    assert_eq!(inner_expr(expr), wrapped("+expr sequence", leaves(&["a", "b", "c"]), "-expr sequence"));
    let expr = Expr::Binop("+".to_string(), bid("l"), bid("r"));
    assert_eq!(inner_expr(expr), wrapped("+expr binop +", leaves(&["l", "r"]), "-expr binop +"));
    let expr = Expr::Logop("&&".to_string(), bid("l"), bid("r"));
    assert_eq!(inner_expr(expr), wrapped("+expr logop &&", leaves(&["l", "r"]), "-expr logop &&"));
    let expr = Expr::Unop("!".to_string(), bid("x"));
    assert_eq!(inner_expr(expr), wrapped("+expr unop !", leaf("x"), "-expr unop !"));
    let expr = Expr::Cond(bid("c"), bid("t"), bid("e"));
    assert_eq!(inner_expr(expr), wrapped("+expr cond", leaves(&["c", "t", "e"]), "-expr cond"));
}

#[test]
fn member_access() {
    let expr = Expr::Dot(bid("o"), "p".to_string());
    assert_eq!(inner_expr(expr), wrapped("+expr dot p", leaf("o"), "-expr dot p"));
    let expr = Expr::Brack(bid("o"), bid("k"));
    assert_eq!(inner_expr(expr), wrapped("+expr brack", leaves(&["o", "k"]), "-expr brack"));
}

#[test]
fn plain_assignment_skips_its_target() {
    let target = AssignPatt::Simple(AssignTarget::Brack(bid("o"), bid("k")));
    let expr = Expr::Assign(target, bid("v"));
    assert_eq!(inner_expr(expr), wrapped("+expr assign", leaf("v"), "-expr assign"));
}

#[test]
fn compound_assignment_walks_target_then_value() {
    let expr = Expr::BinAssign("+=".to_string(), AssignTarget::Brack(bid("o"), bid("k")), bid("v"));
    assert_eq!(inner_expr(expr), wrapped("+expr assign +=", leaves(&["o", "k", "v"]), "-expr assign +="));
    let expr = Expr::BinAssign("-=".to_string(), AssignTarget::Id("x".to_string()), bid("v"));
    assert_eq!(inner_expr(expr), wrapped("+expr assign -=", leaf("v"), "-expr assign -="));
}

#[test]
fn increments_and_decrements_walk_their_target() {
    let expr = Expr::PreInc(Box::new(AssignTarget::Id("x".to_string())));
    assert_eq!(inner_expr(expr), leaf("++x"));
    let expr = Expr::PostInc(Box::new(AssignTarget::Dot(bid("o"), "p".to_string())));
    assert_eq!(inner_expr(expr), wrapped("+expr x++", leaf("o"), "-expr x++"));
    let expr = Expr::PreDec(Box::new(AssignTarget::Brack(bid("o"), bid("k"))));
    assert_eq!(inner_expr(expr), wrapped("+expr --x", leaves(&["o", "k"]), "-expr --x"));
    let expr = Expr::PostDec(Box::new(AssignTarget::Dot(bid("o"), "p".to_string())));
    assert_eq!(inner_expr(expr), wrapped("+expr x--", leaf("o"), "-expr x--"));
}

#[test]
fn block_walks_items_in_order() {
    let stmt = Stmt::Block(vec![
        item(Stmt::Empty),
        StmtListItem::Decl(Decl::Let(Vec::new())),
        item(Stmt::Debugger),
    ]);
    assert_eq!(
        inner_stmt(stmt),
        vec![
            "+stmt block", "+stmt empty", "-stmt empty", "+decl let", "-decl let",
            "+stmt debugger", "-stmt debugger", "-stmt block",
        ]
    );
}

#[test]
fn hook_calls_nest_like_brackets() {
    let getter_body = vec![item(Stmt::Return(Some(call("h", Vec::new()))))];
    let object = Expr::Obj(vec![
        Prop::Regular("a".to_string(), PropVal::Init(num("1"))),
        Prop::Regular("b".to_string(), PropVal::Getter(getter_body)),
        Prop::Method(Fun { id: Some("c".to_string()), params: Vec::new(), body: Vec::new() }),
    ]);
    let fun = Fun {
        id: Some("f".to_string()),
        params: Vec::new(),
        body: vec![
            item(Stmt::Var(vec![Dtor { patt: patt("o"), init: Some(object) }])),
            item(Stmt::While(
                id("c"),
                Box::new(block(vec![expr_stmt(call("f", vec![id("o")])), Stmt::Break(None)])),
            )),
        ],
    };
    let script = script_of(vec![StmtListItem::Decl(Decl::Fun(fun)), item(Stmt::Debugger)]);
    let log = Walker::new(&script, Log { lines: Vec::new() }).walk();
    // Nineteen nodes, two hook calls each.
    assert_eq!(log.lines.len(), 38);
    let mut open: Vec<&str> = Vec::new();
    for line in &log.lines {
        let (sign, node) = line.split_at(1);
        if sign == "+" {
            open.push(node);
        } else {
            assert_eq!(sign, "-");
            assert_eq!(open.pop(), Some(node));
        }
    }
    assert!(open.is_empty());
    assert_eq!(log.lines[0], "+script 2");
    assert_eq!(log.lines[37], "-script 2");
}
