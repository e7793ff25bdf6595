use midend::ast::{BinaryExpr, Expr, FnCallExpr, FuncDef, IfExpr, LetStmt, Literal, Root, Stmt};
use midend::number::parse_u64;
use midend::syntax::{NodeData, SyntaxElement, SyntaxToken, SyntaxTree};
use midend::syntax_kind::SyntaxKind;

fn tok(kind: SyntaxKind, text: &str) -> SyntaxElement {
    SyntaxElement::Token(SyntaxToken { kind, text: text.to_string() })
}

fn node(kind: SyntaxKind, elements: Vec<SyntaxElement>) -> NodeData {
    NodeData { kind, elements }
}

fn tree(nodes: Vec<NodeData>) -> SyntaxTree {
    SyntaxTree::from_nodes(nodes).expect("well-formed tree")
}

#[test]
fn kind_predicates() {
    assert!(SyntaxKind::Eof.is_eof());
    assert!(!SyntaxKind::Error.is_eof());
    assert!(SyntaxKind::Error.is_error());
    assert!(!SyntaxKind::Ident.is_error());
    assert!(SyntaxKind::Whitespace.is_trivia());
    assert!(!SyntaxKind::Comma.is_trivia());
}

#[test]
fn kind_raw_codes_round_trip() {
    assert_eq!(SyntaxKind::Error.to_raw(), 0);
    assert_eq!(SyntaxKind::ExprStmt.to_raw(), 42);
    for raw in 0u16..43 {
        let k = SyntaxKind::from_raw(raw).expect("a kind");
        assert_eq!(k.to_raw(), raw);
    }
    assert_eq!(SyntaxKind::from_raw(43), None);
}

#[test]
fn parse_unsigned_numerals() {
    assert_eq!(parse_u64("42"), Some(42));
    assert_eq!(parse_u64("0"), Some(0));
    assert_eq!(parse_u64("+7"), Some(7));
    assert_eq!(parse_u64("18446744073709551615"), Some(u64::MAX));
    assert_eq!(parse_u64("18446744073709551616"), None);
    assert_eq!(parse_u64(""), None);
    assert_eq!(parse_u64("+"), None);
    assert_eq!(parse_u64("-1"), None);
    assert_eq!(parse_u64("4a"), None);
    assert_eq!(parse_u64(" 4"), None);
}

#[test]
fn from_nodes_rejects_bad_child_ids() {
    let back = vec![node(SyntaxKind::Root, vec![]), node(SyntaxKind::ExprStmt, vec![SyntaxElement::Node(0)])];
    assert!(SyntaxTree::from_nodes(back).is_none());
    let outside = vec![node(SyntaxKind::Root, vec![SyntaxElement::Node(5)])];
    assert!(SyntaxTree::from_nodes(outside).is_none());
    let good = vec![node(SyntaxKind::Root, vec![SyntaxElement::Node(1)]), node(SyntaxKind::ExprStmt, vec![])];
    assert!(SyntaxTree::from_nodes(good).is_some());
}

#[test]
fn cast_follows_kind_only() {
    // a binary expression with no children at all still casts
    let t = tree(vec![node(SyntaxKind::BinaryExpr, vec![]), node(SyntaxKind::LetStmt, vec![])]);
    assert_eq!(BinaryExpr::cast(&t, 0), Some(BinaryExpr(0)));
    assert_eq!(Expr::cast(&t, 0), Some(Expr::BinaryExpr(BinaryExpr(0))));
    assert_eq!(Stmt::cast(&t, 0), None);
    assert_eq!(Expr::cast(&t, 1), None);
    assert_eq!(Stmt::cast(&t, 1), Some(Stmt::LetStmt(LetStmt(1))));
    assert_eq!(LetStmt::cast(&t, 0), None);
    assert!(Expr::can_cast(SyntaxKind::Literal));
    assert!(!Expr::can_cast(SyntaxKind::LetStmt));
    assert!(Stmt::can_cast(SyntaxKind::FuncDef));
    assert!(!Stmt::can_cast(SyntaxKind::Root));
    assert_eq!(Expr::cast(&t, 0).unwrap().syntax(), 0);
}

#[test]
fn can_cast_agrees_with_cast_for_every_kind() {
    for raw in 0u16..43 {
        let k = SyntaxKind::from_raw(raw).unwrap();
        let t = tree(vec![node(k, vec![])]);
        assert_eq!(Expr::cast(&t, 0).is_some(), Expr::can_cast(k));
        assert_eq!(Stmt::cast(&t, 0).is_some(), Stmt::can_cast(k));
        assert_eq!(Literal::cast(&t, 0).is_some(), Literal::can_cast(k));
        assert_eq!(Root::cast(&t, 0).is_some(), Root::can_cast(k));
    }
}

/// `let x = 1 + ;`
fn malformed_let() -> SyntaxTree {
    tree(vec![
        node(SyntaxKind::Root, vec![SyntaxElement::Node(1)]),
        node(
            SyntaxKind::LetStmt,
            vec![
                tok(SyntaxKind::LetKw, "let"),
                tok(SyntaxKind::Whitespace, " "),
                SyntaxElement::Node(2),
                tok(SyntaxKind::Whitespace, " "),
                tok(SyntaxKind::Equals, "="),
                tok(SyntaxKind::Whitespace, " "),
                SyntaxElement::Node(3),
                tok(SyntaxKind::Semicolon, ";"),
            ],
        ),
        node(SyntaxKind::TypedIdent, vec![tok(SyntaxKind::Ident, "x")]),
        node(
            SyntaxKind::BinaryExpr,
            vec![SyntaxElement::Node(4), tok(SyntaxKind::Whitespace, " "), tok(SyntaxKind::Plus, "+"), tok(SyntaxKind::Whitespace, " ")],
        ),
        node(SyntaxKind::Literal, vec![tok(SyntaxKind::Number, "1")]),
    ])
}

#[test]
fn malformed_let_projects_partially() {
    let t = malformed_let();
    let stmts = Root(0).stmts(&t);
    assert_eq!(stmts, vec![Stmt::LetStmt(LetStmt(1))]);
    let let_stmt = LetStmt::cast(&t, 1).unwrap();
    assert_eq!(let_stmt.name(&t).unwrap().text, "x");
    assert!(let_stmt.ty(&t).is_none());
    let e = let_stmt.expr(&t).unwrap();
    assert_eq!(e, Expr::BinaryExpr(BinaryExpr(3)));
    let b = BinaryExpr(3);
    assert_eq!(b.lhs(&t), Some(Expr::Literal(Literal(4))));
    assert_eq!(b.rhs(&t), None);
    let op = b.op(&t).unwrap();
    assert_eq!(op.kind, SyntaxKind::Plus);
    assert_eq!(op.text, "+");
    assert_eq!(Literal(4).parse(&t), Some(1));
}

#[test]
fn literal_parse_reads_first_token() {
    let t = tree(vec![
        node(SyntaxKind::Literal, vec![tok(SyntaxKind::Number, "42")]),
        node(SyntaxKind::Literal, vec![tok(SyntaxKind::Number, "99999999999999999999")]),
        node(SyntaxKind::Literal, vec![]),
    ]);
    assert_eq!(Literal(0).parse(&t), Some(42));
    assert_eq!(Literal(1).parse(&t), None);
    assert_eq!(Literal(2).parse(&t), None);
}

#[test]
fn if_and_call_accessors() {
    // if c { 1 } else { 2 }  with blocks reduced to literals, then f(3, 4)
    let t = tree(vec![
        node(
            SyntaxKind::IfExpr,
            vec![tok(SyntaxKind::IfKw, "if"), SyntaxElement::Node(1), SyntaxElement::Node(2), tok(SyntaxKind::ElseKw, "else"), SyntaxElement::Node(3)],
        ),
        node(SyntaxKind::RefExpr, vec![tok(SyntaxKind::Ident, "c")]),
        node(SyntaxKind::Literal, vec![tok(SyntaxKind::Number, "1")]),
        node(SyntaxKind::Literal, vec![tok(SyntaxKind::Number, "2")]),
        node(
            SyntaxKind::FnCallExpr,
            vec![
                tok(SyntaxKind::Ident, "f"),
                tok(SyntaxKind::OpenParen, "("),
                SyntaxElement::Node(5),
                tok(SyntaxKind::Comma, ","),
                SyntaxElement::Node(6),
                tok(SyntaxKind::CloseParen, ")"),
            ],
        ),
        node(SyntaxKind::Literal, vec![tok(SyntaxKind::Number, "3")]),
        node(SyntaxKind::Literal, vec![tok(SyntaxKind::Number, "4")]),
    ]);
    let i = IfExpr(0);
    assert_eq!(i.cond(&t).unwrap().syntax(), 1);
    assert_eq!(i.then_expr(&t).unwrap().syntax(), 2);
    assert_eq!(i.else_expr(&t).unwrap().syntax(), 3);
    let c = FnCallExpr(4);
    assert_eq!(c.ident(&t).unwrap().text, "f");
    assert_eq!(c.args(&t), vec![Expr::Literal(Literal(5)), Expr::Literal(Literal(6))]);
}

#[test]
fn func_def_accessors() {
    // fun add(a: Int, b: Int) Int 0
    let t = tree(vec![
        node(
            SyntaxKind::FuncDef,
            vec![
                tok(SyntaxKind::FunKw, "fun"),
                tok(SyntaxKind::Ident, "add"),
                SyntaxElement::Node(1),
                tok(SyntaxKind::Ident, "Int"),
                SyntaxElement::Node(4),
            ],
        ),
        node(SyntaxKind::ParamList, vec![SyntaxElement::Node(2), tok(SyntaxKind::Comma, ","), SyntaxElement::Node(3)]),
        node(SyntaxKind::TypedIdent, vec![tok(SyntaxKind::Ident, "a"), tok(SyntaxKind::Colon, ":"), tok(SyntaxKind::Ident, "Int")]),
        node(SyntaxKind::TypedIdent, vec![tok(SyntaxKind::Ident, "b"), tok(SyntaxKind::Colon, ":"), tok(SyntaxKind::Ident, "Int")]),
        node(SyntaxKind::Literal, vec![tok(SyntaxKind::Number, "0")]),
    ]);
    let f = FuncDef(0);
    assert_eq!(f.name(&t).unwrap().text, "add");
    assert_eq!(f.return_ty(&t).unwrap().text, "Int");
    let params = f.param_list(&t);
    assert_eq!(params.len(), 2);
    assert_eq!(params[0].ident(&t).unwrap().text, "a");
    assert_eq!(params[1].ident(&t).unwrap().text, "b");
    assert_eq!(params[1].ty(&t).unwrap().text, "Int");
    assert_eq!(f.block(&t), Some(Expr::Literal(Literal(4))));
}
