use midend::ast;
use midend::database::{Database, LowerError};
use midend::hir::{BinaryOp, Expr, ExprIdx, ExprRange, Func, FuncIdx, Stmt, StmtIdx, StmtRange, UnaryOp};
use midend::syntax::{NodeData, SyntaxElement, SyntaxToken, SyntaxTree};
use midend::syntax_kind::SyntaxKind;

fn tok(kind: SyntaxKind, text: &str) -> SyntaxElement {
    SyntaxElement::Token(SyntaxToken { kind, text: text.to_string() })
}

fn node(kind: SyntaxKind, elements: Vec<SyntaxElement>) -> NodeData {
    NodeData { kind, elements }
}

fn tree(nodes: Vec<NodeData>) -> SyntaxTree {
    SyntaxTree::from_nodes(nodes).expect("well-formed tree")
}

fn lit(text: &str) -> NodeData {
    node(SyntaxKind::Literal, vec![tok(SyntaxKind::Number, text)])
}

/// `<1> op <2>` as node 0, its operands as nodes 1 and 2.
fn binary(op: SyntaxKind, text: &str) -> SyntaxTree {
    tree(vec![
        node(SyntaxKind::BinaryExpr, vec![SyntaxElement::Node(1), tok(op, text), SyntaxElement::Node(2)]),
        lit("1"),
        lit("2"),
    ])
}

fn lower_one(t: &SyntaxTree) -> (Database, Result<Expr, LowerError>) {
    let mut db = Database::new();
    let e = ast::Expr::cast(t, 0);
    let r = db.lower_expr(t, e);
    (db, r)
}

#[test]
fn absent_expression_lowers_to_missing() {
    let t = tree(vec![node(SyntaxKind::Root, vec![])]);
    let mut db = Database::new();
    assert_eq!(db.lower_expr(&t, None), Ok(Expr::Missing));
    assert_eq!(db.expr_len(), 0);
}

#[test]
fn operators_map_to_semantic_operators() {
    let cases = [
        (SyntaxKind::Plus, "+", BinaryOp::Add),
        (SyntaxKind::Minus, "-", BinaryOp::Sub),
        (SyntaxKind::Star, "*", BinaryOp::Mul),
        (SyntaxKind::Slash, "/", BinaryOp::Div),
        (SyntaxKind::Percent, "%", BinaryOp::Rem),
        (SyntaxKind::EqEq, "==", BinaryOp::Eq),
        (SyntaxKind::Neq, "!=", BinaryOp::Ne),
        (SyntaxKind::Equals, "=", BinaryOp::Assign),
    ];
    for (kind, text, op) in cases {
        let t = binary(kind, text);
        let (db, r) = lower_one(&t);
        assert_eq!(r, Ok(Expr::Binary { op, lhs: ExprIdx(0), rhs: ExprIdx(1) }));
        assert_eq!(db.expr(ExprIdx(0)), &Expr::NumberLiteral { n: 1 });
        assert_eq!(db.expr(ExprIdx(1)), &Expr::NumberLiteral { n: 2 });
    }
}

#[test]
fn prefix_minus_lowers_to_negation() {
    let t = tree(vec![node(SyntaxKind::PrefixExpr, vec![tok(SyntaxKind::Minus, "-"), SyntaxElement::Node(1)]), lit("5")]);
    let (db, r) = lower_one(&t);
    assert_eq!(r, Ok(Expr::Unary { op: UnaryOp::Neg, expr: ExprIdx(0) }));
    assert_eq!(db.expr(ExprIdx(0)), &Expr::NumberLiteral { n: 5 });
}

#[test]
fn binary_without_operator_is_an_internal_error() {
    let t = tree(vec![node(SyntaxKind::BinaryExpr, vec![SyntaxElement::Node(1), SyntaxElement::Node(2)]), lit("1"), lit("2")]);
    let (_, r) = lower_one(&t);
    assert_eq!(r, Err(LowerError::MissingOperator { node: 0 }));
}

#[test]
fn parentheses_are_transparent() {
    // (1 * 2) against 1 * 2
    let grouped = tree(vec![
        node(SyntaxKind::ParenExpr, vec![tok(SyntaxKind::OpenParen, "("), SyntaxElement::Node(1), tok(SyntaxKind::CloseParen, ")")]),
        node(SyntaxKind::BinaryExpr, vec![SyntaxElement::Node(2), tok(SyntaxKind::Star, "*"), SyntaxElement::Node(3)]),
        lit("1"),
        lit("2"),
    ]);
    let plain = binary(SyntaxKind::Star, "*");
    let (db1, r1) = lower_one(&grouped);
    let (db2, r2) = lower_one(&plain);
    assert_eq!(r1, r2);
    assert_eq!(db1.expr_len(), db2.expr_len());
    for i in 0..db1.expr_len() as u32 {
        assert_eq!(db1.expr(ExprIdx(i)), db2.expr(ExprIdx(i)));
    }
}

#[test]
fn literal_lowers_to_number() {
    let t = tree(vec![
        node(SyntaxKind::Root, vec![SyntaxElement::Node(1)]),
        node(SyntaxKind::ExprStmt, vec![SyntaxElement::Node(2), tok(SyntaxKind::Semicolon, ";")]),
        lit("42"),
    ]);
    assert_eq!(ast::Literal(2).parse(&t), Some(42));
    let mut db = Database::new();
    let root = db.lower_root(&t, ast::Root(0)).unwrap();
    assert_eq!(root.stmts, StmtRange { start: 0, end: 1 });
    assert_eq!(db.stmt(StmtIdx(0)), &Stmt::ExprStmt { expr: ExprIdx(0) });
    assert_eq!(db.expr(ExprIdx(0)), &Expr::NumberLiteral { n: 42 });
    let mut db2 = Database::new();
    assert_eq!(db2.lower_literal(&t, ast::Literal(2)), Ok(Expr::NumberLiteral { n: 42 }));
}

#[test]
fn oversized_literal_lowers_to_missing() {
    let t = tree(vec![lit("18446744073709551616")]);
    let (_, r) = lower_one(&t);
    assert_eq!(r, Ok(Expr::Missing));
}

#[test]
fn malformed_let_lowers_with_missing_operand() {
    // let x = 1 + ;
    let t = tree(vec![
        node(SyntaxKind::Root, vec![SyntaxElement::Node(1)]),
        node(
            SyntaxKind::LetStmt,
            vec![
                tok(SyntaxKind::LetKw, "let"),
                SyntaxElement::Node(2),
                tok(SyntaxKind::Equals, "="),
                SyntaxElement::Node(3),
                tok(SyntaxKind::Semicolon, ";"),
            ],
        ),
        node(SyntaxKind::TypedIdent, vec![tok(SyntaxKind::Ident, "x")]),
        node(SyntaxKind::BinaryExpr, vec![SyntaxElement::Node(4), tok(SyntaxKind::Plus, "+")]),
        lit("1"),
    ]);
    let mut db = Database::new();
    let root = db.lower_root(&t, ast::Root(0)).unwrap();
    assert_eq!(root.stmts, StmtRange { start: 0, end: 1 });
    assert_eq!(db.stmt(StmtIdx(0)), &Stmt::LetStmt { name: Some("x".to_string()), expr: ExprIdx(2) });
    assert_eq!(db.expr(ExprIdx(2)), &Expr::Binary { op: BinaryOp::Add, lhs: ExprIdx(0), rhs: ExprIdx(1) });
    assert_eq!(db.expr(ExprIdx(0)), &Expr::NumberLiteral { n: 1 });
    assert_eq!(db.expr(ExprIdx(1)), &Expr::Missing);
}

#[test]
fn children_are_allocated_before_parents() {
    // (1 + 2) * -3
    let t = tree(vec![
        node(SyntaxKind::BinaryExpr, vec![SyntaxElement::Node(1), tok(SyntaxKind::Star, "*"), SyntaxElement::Node(5)]),
        node(SyntaxKind::ParenExpr, vec![SyntaxElement::Node(2)]),
        node(SyntaxKind::BinaryExpr, vec![SyntaxElement::Node(3), tok(SyntaxKind::Plus, "+"), SyntaxElement::Node(4)]),
        lit("1"),
        lit("2"),
        node(SyntaxKind::PrefixExpr, vec![tok(SyntaxKind::Minus, "-"), SyntaxElement::Node(6)]),
        lit("3"),
    ]);
    let mut db = Database::new();
    let e = db.lower_expr(&t, ast::Expr::cast(&t, 0)).unwrap();
    let len = db.expr_len() as u32;
    match e {
        Expr::Binary { lhs, rhs, .. } => {
            assert!(lhs.0 < len && rhs.0 < len);
        }
        _ => panic!("expected a binary expression"),
    }
    for i in 0..len {
        match db.expr(ExprIdx(i)) {
            Expr::Binary { lhs, rhs, .. } => assert!(lhs.0 < i && rhs.0 < i),
            Expr::Unary { expr, .. } => assert!(expr.0 < i),
            _ => {}
        }
    }
}

#[test]
fn call_if_ref_and_block_lower() {
    // { f(1, 2); if c { 3 } }  with the if's branches reduced to literals
    let t = tree(vec![
        node(SyntaxKind::BlockExpr, vec![SyntaxElement::Node(1), SyntaxElement::Node(5)]),
        node(SyntaxKind::ExprStmt, vec![SyntaxElement::Node(2)]),
        node(SyntaxKind::FnCallExpr, vec![tok(SyntaxKind::Ident, "f"), SyntaxElement::Node(3), SyntaxElement::Node(4)]),
        lit("1"),
        lit("2"),
        node(SyntaxKind::ExprStmt, vec![SyntaxElement::Node(6)]),
        node(SyntaxKind::IfExpr, vec![SyntaxElement::Node(7), SyntaxElement::Node(8)]),
        node(SyntaxKind::RefExpr, vec![tok(SyntaxKind::Ident, "c")]),
        lit("3"),
    ]);
    let mut db = Database::new();
    let e = db.lower_expr(&t, ast::Expr::cast(&t, 0)).unwrap();
    assert_eq!(e, Expr::Block { stmts: StmtRange { start: 0, end: 2 } });
    assert_eq!(db.expr(ExprIdx(0)), &Expr::NumberLiteral { n: 1 });
    assert_eq!(db.expr(ExprIdx(1)), &Expr::NumberLiteral { n: 2 });
    assert_eq!(db.expr(ExprIdx(2)), &Expr::FnCall { callee: "f".to_string(), args: ExprRange { start: 0, end: 2 } });
    assert_eq!(db.expr(ExprIdx(3)), &Expr::Ref { name: "c".to_string() });
    assert_eq!(db.expr(ExprIdx(4)), &Expr::NumberLiteral { n: 3 });
    assert_eq!(db.expr(ExprIdx(5)), &Expr::If { cond: ExprIdx(3), then_expr: ExprIdx(4), else_expr: None });
    assert_eq!(db.stmt(StmtIdx(0)), &Stmt::ExprStmt { expr: ExprIdx(2) });
    assert_eq!(db.stmt(StmtIdx(1)), &Stmt::ExprStmt { expr: ExprIdx(5) });
}

#[test]
fn call_without_name_and_ref_without_name_are_missing() {
    let t = tree(vec![node(SyntaxKind::FnCallExpr, vec![SyntaxElement::Node(1)]), lit("1")]);
    assert_eq!(lower_one(&t).1, Ok(Expr::Missing));
    let t = tree(vec![node(SyntaxKind::RefExpr, vec![])]);
    assert_eq!(lower_one(&t).1, Ok(Expr::Missing));
}

#[test]
fn function_and_while_lower() {
    // fun main() { while 1 { break } }
    let t = tree(vec![
        node(SyntaxKind::Root, vec![SyntaxElement::Node(1)]),
        node(SyntaxKind::FuncDef, vec![tok(SyntaxKind::FunKw, "fun"), tok(SyntaxKind::Ident, "main"), SyntaxElement::Node(2)]),
        node(SyntaxKind::BlockExpr, vec![SyntaxElement::Node(3)]),
        node(SyntaxKind::WhileStmt, vec![SyntaxElement::Node(4), SyntaxElement::Node(5)]),
        lit("1"),
        node(SyntaxKind::BlockExpr, vec![SyntaxElement::Node(6)]),
        node(SyntaxKind::BreakStmt, vec![tok(SyntaxKind::BreakKw, "break")]),
    ]);
    let mut db = Database::new();
    let root = db.lower_root(&t, ast::Root(0)).unwrap();
    assert_eq!(root.stmts, StmtRange { start: 2, end: 3 });
    assert_eq!(db.stmt(StmtIdx(0)), &Stmt::BreakStmt);
    assert_eq!(db.expr(ExprIdx(0)), &Expr::NumberLiteral { n: 1 });
    assert_eq!(db.expr(ExprIdx(1)), &Expr::Block { stmts: StmtRange { start: 0, end: 1 } });
    assert_eq!(db.stmt(StmtIdx(1)), &Stmt::WhileStmt { cond: ExprIdx(0), block: ExprIdx(1) });
    assert_eq!(db.expr(ExprIdx(2)), &Expr::Block { stmts: StmtRange { start: 1, end: 2 } });
    assert_eq!(db.func(FuncIdx(0)), &Func { name: Some("main".to_string()), block: ExprIdx(2) });
    assert_eq!(db.stmt(StmtIdx(2)), &Stmt::FuncDef { func: FuncIdx(0) });
    assert_eq!(db.func_len(), 1);
    assert_eq!(db.stmt_len(), 3);
}
