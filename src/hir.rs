use vstd::prelude::*;

verus! {

/// The index of an expression in its database's expression arena.
#[derive(Debug, Clone, Copy, PartialEq, Eq, Structural, Hash)]
pub struct ExprIdx(pub u32);

/// The index of a statement in its database's statement arena.
#[derive(Debug, Clone, Copy, PartialEq, Eq, Structural, Hash)]
pub struct StmtIdx(pub u32);

/// The index of a function in its database's function arena.
#[derive(Debug, Clone, Copy, PartialEq, Eq, Structural, Hash)]
pub struct FuncIdx(pub u32);

/// The expressions in slots `start` up to, not including, `end`.
#[derive(Debug, Clone, Copy, PartialEq, Eq, Structural, Hash)]
pub struct ExprRange {
    pub start: u32,
    pub end: u32,
}

/// The statements in slots `start` up to, not including, `end`.
#[derive(Debug, Clone, Copy, PartialEq, Eq, Structural, Hash)]
pub struct StmtRange {
    pub start: u32,
    pub end: u32,
}

pub open spec fn expr_range_seq(r: ExprRange) -> Seq<ExprIdx> {
    if r.start < r.end {
        Seq::new((r.end - r.start) as nat, |k: int| ExprIdx((r.start + k) as u32))
    } else {
        seq![]
    }
}

pub open spec fn stmt_range_seq(r: StmtRange) -> Seq<StmtIdx> {
    if r.start < r.end {
        Seq::new((r.end - r.start) as nat, |k: int| StmtIdx((r.start + k) as u32))
    } else {
        seq![]
    }
}

#[derive(Debug, Clone, Copy, PartialEq, Eq, Structural, Hash)]
pub enum BinaryOp {
    Add,
    Sub,
    Mul,
    Div,
    Rem,
    Assign,
    Eq,
    Ne,
}

#[derive(Debug, Clone, Copy, PartialEq, Eq, Structural, Hash)]
pub enum UnaryOp {
    Neg,
}

/// An expression of the semantic IR; children are arena indices.
#[derive(Debug, PartialEq, Eq)]
#[allow(inconsistent_fields)]
pub enum Expr {
    /// Stands where the syntax held no usable expression.
    Missing,
    Binary { op: BinaryOp, lhs: ExprIdx, rhs: ExprIdx },
    Unary { op: UnaryOp, expr: ExprIdx },
    Ref { name: String },
    If { cond: ExprIdx, then_expr: ExprIdx, else_expr: Option<ExprIdx> },
    FnCall { callee: String, args: ExprRange },
    Index { main_expr: ExprIdx, index_expr: ExprIdx },
    Block { stmts: StmtRange },
    NumberLiteral { n: u64 },
    BoolLiteral { val: bool },
    StringLiteral { val: String },
    ArrayLiteral { len: ExprIdx, initial: ExprIdx },
}

/// A statement of the semantic IR.
#[derive(Debug, PartialEq, Eq)]
pub enum Stmt {
    LetStmt { name: Option<String>, expr: ExprIdx },
    WhileStmt { cond: ExprIdx, block: ExprIdx },
    BreakStmt,
    ExprStmt { expr: ExprIdx },
    FuncDef { func: FuncIdx },
}

/// A function definition: its name, where the syntax gives one, and its body.
#[derive(Debug, PartialEq, Eq)]
pub struct Func {
    pub name: Option<String>,
    pub block: ExprIdx,
}

/// A lowered program: its top-level statements in source order.
#[derive(Debug, PartialEq, Eq)]
pub struct Root {
    pub stmts: StmtRange,
}

/// The expression children of `e`, in traversal order.
pub open spec fn expr_children(e: Expr) -> Seq<ExprIdx> {
    match e {
        Expr::Binary { lhs, rhs, .. } => seq![lhs, rhs],
        Expr::Unary { expr, .. } => seq![expr],
        Expr::If { cond, then_expr, else_expr } => match else_expr {
            Some(x) => seq![cond, then_expr, x],
            None => seq![cond, then_expr],
        },
        Expr::FnCall { args, .. } => expr_range_seq(args),
        Expr::Index { main_expr, index_expr } => seq![main_expr, index_expr],
        Expr::ArrayLiteral { len, initial } => seq![len, initial],
        _ => seq![],
    }
}

/// The statement children of `e`, in traversal order.
pub open spec fn expr_stmt_children(e: Expr) -> Seq<StmtIdx> {
    match e {
        Expr::Block { stmts } => stmt_range_seq(stmts),
        _ => seq![],
    }
}

/// Every expression child of `e` lies below `bound`.
pub open spec fn children_below(e: Expr, bound: int) -> bool {
    forall|k: int| 0 <= k < expr_children(e).len() ==> (#[trigger] expr_children(e)[k]).0 < bound
}

/// Each expression's children lie at smaller indices than the expression itself.
pub open spec fn preordered(exprs: Seq<Expr>) -> bool {
    forall|i: int| 0 <= i < exprs.len() ==> children_below(#[trigger] exprs[i], i)
}

} // verus!
