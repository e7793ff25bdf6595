use midend::ast;
use midend::database::Database;
use midend::hir::{Expr, ExprIdx, Func, FuncIdx, Root, Stmt, StmtIdx};
use midend::syntax::{NodeData, SyntaxElement, SyntaxToken, SyntaxTree};
use midend::syntax_kind::SyntaxKind;
use midend::visitor::{
    expr_visits, root_visits, walk_expr, walk_expr_idx, walk_func, walk_func_idx, walk_root, walk_stmt, walk_stmt_idx, Visit,
    Visitor,
};

fn tok(kind: SyntaxKind, text: &str) -> SyntaxElement {
    SyntaxElement::Token(SyntaxToken { kind, text: text.to_string() })
}

fn node(kind: SyntaxKind, elements: Vec<SyntaxElement>) -> NodeData {
    NodeData { kind, elements }
}

fn lit(text: &str) -> NodeData {
    node(SyntaxKind::Literal, vec![tok(SyntaxKind::Number, text)])
}

#[derive(Default)]
struct Recorder {
    seen: Vec<String>,
}

impl Visitor for Recorder {
    fn visit_root(&mut self, _root: &Root) {
        self.seen.push("root".to_string());
    }

    fn visit_func(&mut self, idx: FuncIdx, _func: &Func) {
        self.seen.push(format!("func {}", idx.0));
    }

    fn visit_stmt(&mut self, idx: StmtIdx, _stmt: &Stmt) {
        self.seen.push(format!("stmt {}", idx.0));
    }

    fn visit_expr(&mut self, idx: ExprIdx, expr: &Expr) {
        match expr {
            Expr::NumberLiteral { n } => self.seen.push(format!("expr {} = {}", idx.0, n)),
            _ => self.seen.push(format!("expr {}", idx.0)),
        }
    }
}

struct OnlyExprs {
    count: usize,
}

impl Visitor for OnlyExprs {
    fn visit_expr(&mut self, _idx: ExprIdx, _expr: &Expr) {
        self.count += 1;
    }
}

#[test]
fn single_literal_is_one_leaf_visit() {
    let t = SyntaxTree::from_nodes(vec![
        node(SyntaxKind::Root, vec![SyntaxElement::Node(1)]),
        node(SyntaxKind::ExprStmt, vec![SyntaxElement::Node(2)]),
        lit("42"),
    ])
    .unwrap();
    let mut db = Database::new();
    db.lower_root(&t, ast::Root(0)).unwrap();
    let mut rec = Recorder::default();
    let order = walk_expr_idx(&mut rec, &db, ExprIdx(0));
    assert_eq!(order, vec![Visit::Expr(ExprIdx(0))]);
    assert_eq!(rec.seen, vec!["expr 0 = 42".to_string()]);
}

#[test]
fn program_is_walked_in_pre_order() {
    // 1 + 2;  fun f() { 3 }
    let t = SyntaxTree::from_nodes(vec![
        node(SyntaxKind::Root, vec![SyntaxElement::Node(1), SyntaxElement::Node(5)]),
        node(SyntaxKind::ExprStmt, vec![SyntaxElement::Node(2)]),
        node(SyntaxKind::BinaryExpr, vec![SyntaxElement::Node(3), tok(SyntaxKind::Plus, "+"), SyntaxElement::Node(4)]),
        lit("1"),
        lit("2"),
        node(SyntaxKind::FuncDef, vec![tok(SyntaxKind::Ident, "f"), SyntaxElement::Node(6)]),
        node(SyntaxKind::BlockExpr, vec![SyntaxElement::Node(7)]),
        node(SyntaxKind::ExprStmt, vec![SyntaxElement::Node(8)]),
        lit("3"),
    ])
    .unwrap();
    let mut db = Database::new();
    let root = db.lower_root(&t, ast::Root(0)).unwrap();
    // exprs: 0 = 1, 1 = 2, 2 = 1 + 2, 3 = 3, 4 = block; stmts: 0 = `3`, 1 = `1 + 2`, 2 = fun
    let expected = vec![
        Visit::Root,
        Visit::Stmt(StmtIdx(1)),
        Visit::Expr(ExprIdx(2)),
        Visit::Expr(ExprIdx(0)),
        Visit::Expr(ExprIdx(1)),
        Visit::Stmt(StmtIdx(2)),
        Visit::Func(FuncIdx(0)),
        Visit::Expr(ExprIdx(4)),
        Visit::Stmt(StmtIdx(0)),
        Visit::Expr(ExprIdx(3)),
    ];
    assert_eq!(root_visits(&db, &root), expected);
    let mut rec = Recorder::default();
    assert_eq!(walk_root(&mut rec, &db, &root), expected);
    assert_eq!(
        rec.seen,
        vec!["root", "stmt 1", "expr 2", "expr 0 = 1", "expr 1 = 2", "stmt 2", "func 0", "expr 4", "stmt 0", "expr 3 = 3"]
    );
    let mut only = OnlyExprs { count: 0 };
    walk_root(&mut only, &db, &root);
    assert_eq!(only.count, 5);
    assert_eq!(expr_visits(&db, ExprIdx(2)), vec![Visit::Expr(ExprIdx(2)), Visit::Expr(ExprIdx(0)), Visit::Expr(ExprIdx(1))]);
}

#[test]
fn index_outside_the_arena_is_skipped() {
    let db = Database::new();
    assert_eq!(expr_visits(&db, ExprIdx(3)), vec![]);
}

#[test]
fn value_walkers_visit_only_what_lies_below() {
    // fun f() { 1 + 2 }
    let t = SyntaxTree::from_nodes(vec![
        node(SyntaxKind::Root, vec![SyntaxElement::Node(1)]),
        node(SyntaxKind::FuncDef, vec![tok(SyntaxKind::Ident, "f"), SyntaxElement::Node(2)]),
        node(SyntaxKind::BinaryExpr, vec![SyntaxElement::Node(3), tok(SyntaxKind::Plus, "+"), SyntaxElement::Node(4)]),
        lit("1"),
        lit("2"),
    ])
    .unwrap();
    let mut db = Database::new();
    db.lower_root(&t, ast::Root(0)).unwrap();
    // exprs: 0 = 1, 1 = 2, 2 = 1 + 2; func 0; stmt 0 = fun
    let mut rec = Recorder::default();
    let below_binary = walk_expr(&mut rec, &db, db.expr(ExprIdx(2)));
    assert_eq!(below_binary, vec![Visit::Expr(ExprIdx(0)), Visit::Expr(ExprIdx(1))]);
    assert_eq!(rec.seen, vec!["expr 0 = 1", "expr 1 = 2"]);
    let below_stmt = walk_stmt(&mut Recorder::default(), &db, db.stmt(StmtIdx(0)));
    assert_eq!(
        below_stmt,
        vec![Visit::Func(FuncIdx(0)), Visit::Expr(ExprIdx(2)), Visit::Expr(ExprIdx(0)), Visit::Expr(ExprIdx(1))]
    );
    let body = walk_func(&mut Recorder::default(), &db, db.func(FuncIdx(0)));
    assert_eq!(body, vec![Visit::Expr(ExprIdx(2)), Visit::Expr(ExprIdx(0)), Visit::Expr(ExprIdx(1))]);
    let mut rec = Recorder::default();
    assert_eq!(walk_stmt_idx(&mut rec, &db, StmtIdx(0)).len(), 5);
    assert_eq!(rec.seen[0], "stmt 0");
    assert_eq!(walk_func_idx(&mut Recorder::default(), &db, FuncIdx(0)).len(), 4);
}
