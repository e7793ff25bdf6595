use vstd::prelude::*;

use la_arena::Arena;

use crate::arena::{
    alloc_expr, alloc_func, alloc_stmt, expr_at, expr_count, expr_slots, func_at, func_count,
    func_slots, stmt_at,
    new_expr_arena, new_func_arena, new_stmt_arena, stmt_count, stmt_slots,
};
use crate::ast;
use crate::ast::{
    child_exprs, child_idents, child_stmts, lemma_children_after, literal_value, typed_ident_part,
};
use crate::hir::{children_below, preordered, BinaryOp, Expr, ExprIdx, ExprRange, Func, FuncIdx, Root, Stmt, StmtIdx, StmtRange, UnaryOp};
use crate::syntax::{seq_nth, tokens_in, SyntaxToken, SyntaxTree, TokenSet};
use crate::syntax_kind::SyntaxKind;

verus! {

/// Why lowering stopped. Neither comes from malformed user code, which
/// lowers to `Expr::Missing` instead.
#[derive(Debug, Clone, Copy, PartialEq, Eq, Structural)]
pub enum LowerError {
    /// A binary expression node without an operator token: a parser defect.
    MissingOperator { node: usize },
    /// An arena would outgrow its 32-bit indices.
    ArenaFull,
}

/// What the three arenas of a database hold: expressions, statements, functions.
pub type Slots = (Seq<Expr>, Seq<Stmt>, Seq<Func>);

pub open spec fn pushed_expr(s: Slots, e: Expr) -> Result<(Slots, ExprIdx), LowerError> {
    if s.0.len() < u32::MAX {
        Ok(((s.0.push(e), s.1, s.2), ExprIdx(s.0.len() as u32)))
    } else {
        Err(LowerError::ArenaFull)
    }
}

pub open spec fn pushed_exprs(s: Slots, es: Seq<Expr>) -> Result<(Slots, ExprRange), LowerError> {
    if s.0.len() + es.len() <= u32::MAX {
        Ok(
            (
                (s.0 + es, s.1, s.2),
                ExprRange { start: s.0.len() as u32, end: (s.0.len() + es.len()) as u32 },
            ),
        )
    } else {
        Err(LowerError::ArenaFull)
    }
}

pub open spec fn pushed_stmts(s: Slots, ss: Seq<Stmt>) -> Result<(Slots, StmtRange), LowerError> {
    if s.1.len() + ss.len() <= u32::MAX {
        Ok(
            (
                (s.0, s.1 + ss, s.2),
                StmtRange { start: s.1.len() as u32, end: (s.1.len() + ss.len()) as u32 },
            ),
        )
    } else {
        Err(LowerError::ArenaFull)
    }
}

pub open spec fn pushed_func(s: Slots, f: Func) -> Result<(Slots, FuncIdx), LowerError> {
    if s.2.len() < u32::MAX {
        Ok(((s.0, s.1, s.2.push(f)), FuncIdx(s.2.len() as u32)))
    } else {
        Err(LowerError::ArenaFull)
    }
}

/// The semantic operator of an operator token kind.
pub open spec fn operator_of(k: SyntaxKind) -> BinaryOp {
    match k {
        SyntaxKind::Minus => BinaryOp::Sub,
        SyntaxKind::Star => BinaryOp::Mul,
        SyntaxKind::Slash => BinaryOp::Div,
        SyntaxKind::Percent => BinaryOp::Rem,
        SyntaxKind::Equals => BinaryOp::Assign,
        SyntaxKind::EqEq => BinaryOp::Eq,
        SyntaxKind::Neq => BinaryOp::Ne,
        _ => BinaryOp::Add,
    }
}

/// How far the node of `e` lies from the end of the tree; 0 for nothing.
pub open spec fn depth(t: &SyntaxTree, e: Option<ast::Expr>) -> int {
    match e {
        Some(x) => t.nodes@.len() - x.node(),
        None => 0,
    }
}

/// `e` where its node lies after node `p` inside the tree, as in a
/// well-formed tree every child does; nothing otherwise.
pub open spec fn below(t: &SyntaxTree, p: usize, e: Option<ast::Expr>) -> Option<ast::Expr> {
    match e {
        Some(x) => if p < x.node() < t.nodes@.len() {
            e
        } else {
            None
        },
        None => None,
    }
}

/// The `n`-th expression child of node `p`.
pub open spec fn child_at(t: &SyntaxTree, p: usize, n: int) -> Option<ast::Expr> {
    below(t, p, seq_nth(child_exprs(t, p), n))
}

pub open spec fn token_text(tok: Option<SyntaxToken>) -> Option<String> {
    match tok {
        Some(x) => Some(x.text),
        None => None,
    }
}

/// What lowering `e` against arenas holding `s` gives: the arenas after, and
/// the expression, which is not allocated itself; or the error.
pub open spec fn lowered_expr(t: &SyntaxTree, e: Option<ast::Expr>, s: Slots) -> Result<
    (Slots, Expr),
    LowerError,
>
    decreases depth(t, e), 1int, 0int,
{
    match e {
        None => Ok((s, Expr::Missing)),
        Some(x) => if x.node() >= t.nodes@.len() {
            Ok((s, Expr::Missing))
        } else {
            let p = x.node();
            match x {
                ast::Expr::BinaryExpr(_) => match seq_nth(
                    tokens_in(t.elems(p as int), TokenSet::Operator),
                    0,
                ) {
                    None => Err(LowerError::MissingOperator { node: p }),
                    Some(tok) => match lowered_expr(t, child_at(t, p, 0), s) {
                        Err(err) => Err(err),
                        Ok((s1, l)) => match lowered_expr(t, child_at(t, p, 1), s1) {
                            Err(err) => Err(err),
                            Ok((s2, r)) => match pushed_expr(s2, l) {
                                Err(err) => Err(err),
                                Ok((s3, li)) => match pushed_expr(s3, r) {
                                    Err(err) => Err(err),
                                    Ok((s4, ri)) => Ok(
                                        (s4, Expr::Binary { op: operator_of(tok.kind), lhs: li, rhs: ri }),
                                    ),
                                },
                            },
                        },
                    },
                },
                ast::Expr::PrefixExpr(_) => match lowered_child(t, child_at(t, p, 0), s) {
                    Err(err) => Err(err),
                    Ok((s1, i)) => Ok((s1, Expr::Unary { op: UnaryOp::Neg, expr: i })),
                },
                ast::Expr::ParenExpr(_) => lowered_expr(t, child_at(t, p, 0), s),
                ast::Expr::RefExpr(_) => match seq_nth(child_idents(t, p), 0) {
                    Some(tok) => Ok((s, Expr::Ref { name: tok.text })),
                    None => Ok((s, Expr::Missing)),
                },
                ast::Expr::IfExpr(_) => match lowered_child(t, child_at(t, p, 0), s) {
                    Err(err) => Err(err),
                    Ok((s1, c)) => match lowered_child(t, child_at(t, p, 1), s1) {
                        Err(err) => Err(err),
                        Ok((s2, th)) => match seq_nth(child_exprs(t, p), 2) {
                            None => Ok((s2, Expr::If { cond: c, then_expr: th, else_expr: None })),
                            Some(_) => match lowered_child(t, child_at(t, p, 2), s2) {
                                Err(err) => Err(err),
                                Ok((s3, el)) => Ok(
                                    (s3, Expr::If { cond: c, then_expr: th, else_expr: Some(el) }),
                                ),
                            },
                        },
                    },
                },
                ast::Expr::FnCallExpr(_) => match seq_nth(child_idents(t, p), 0) {
                    None => Ok((s, Expr::Missing)),
                    Some(tok) => match lowered_exprs(t, p, child_exprs(t, p), s) {
                        Err(err) => Err(err),
                        Ok((s1, es)) => match pushed_exprs(s1, es) {
                            Err(err) => Err(err),
                            Ok((s2, args)) => Ok((s2, Expr::FnCall { callee: tok.text, args })),
                        },
                    },
                },
                ast::Expr::BlockExpr(_) => match lowered_stmts(t, p, child_stmts(t, p), s) {
                    Err(err) => Err(err),
                    Ok((s1, ss)) => match pushed_stmts(s1, ss) {
                        Err(err) => Err(err),
                        Ok((s2, stmts)) => Ok((s2, Expr::Block { stmts })),
                    },
                },
                ast::Expr::Literal(_) => match literal_value(t, p) {
                    Some(n) => Ok((s, Expr::NumberLiteral { n })),
                    None => Ok((s, Expr::Missing)),
                },
            }
        },
    }
}

/// Lowering `e`, then allocating the result: its index.
pub open spec fn lowered_child(t: &SyntaxTree, e: Option<ast::Expr>, s: Slots) -> Result<
    (Slots, ExprIdx),
    LowerError,
>
    decreases depth(t, e), 2int, 0int,
{
    match lowered_expr(t, e, s) {
        Err(err) => Err(err),
        Ok((s1, x)) => pushed_expr(s1, x),
    }
}

/// Lowering the children `items` of node `p` one after another, none allocated.
pub open spec fn lowered_exprs(t: &SyntaxTree, p: usize, items: Seq<ast::Expr>, s: Slots) -> Result<
    (Slots, Seq<Expr>),
    LowerError,
>
    decreases t.nodes@.len() - p, 0int, items.len(),
{
    if items.len() == 0 || p >= t.nodes@.len() {
        Ok((s, seq![]))
    } else {
        match lowered_exprs(t, p, items.drop_last(), s) {
            Err(err) => Err(err),
            Ok((s1, done)) => match lowered_expr(t, below(t, p, Some(items.last())), s1) {
                Err(err) => Err(err),
                Ok((s2, x)) => Ok((s2, done.push(x))),
            },
        }
    }
}

/// Lowering the statement children `items` of node `p` one after another,
/// none allocated.
pub open spec fn lowered_stmts(t: &SyntaxTree, p: usize, items: Seq<ast::Stmt>, s: Slots) -> Result<
    (Slots, Seq<Stmt>),
    LowerError,
>
    decreases t.nodes@.len() - p, 0int, items.len(),
{
    if items.len() == 0 || p >= t.nodes@.len() {
        Ok((s, seq![]))
    } else {
        match lowered_stmts(t, p, items.drop_last(), s) {
            Err(err) => Err(err),
            Ok((s1, done)) => {
                let st = items.last();
                if p < st.node() < t.nodes@.len() {
                    match lowered_stmt(t, st, s1) {
                        Err(err) => Err(err),
                        Ok((s2, x)) => Ok((s2, done.push(x))),
                    }
                } else {
                    Ok((s1, done))
                }
            },
        }
    }
}

/// What lowering statement `st` gives: the arenas after, and the statement,
/// which is not allocated itself; or the error.
pub open spec fn lowered_stmt(t: &SyntaxTree, st: ast::Stmt, s: Slots) -> Result<
    (Slots, Stmt),
    LowerError,
>
    decreases t.nodes@.len() - st.node(), 1int, 0int,
{
    let p = st.node();
    if p >= t.nodes@.len() {
        Ok((s, Stmt::BreakStmt))
    } else {
        match st {
            ast::Stmt::LetStmt(_) => match lowered_child(t, child_at(t, p, 0), s) {
                Err(err) => Err(err),
                Ok((s1, i)) => Ok(
                    (s1, Stmt::LetStmt { name: token_text(typed_ident_part(t, p, 0)), expr: i }),
                ),
            },
            ast::Stmt::WhileStmt(_) => match lowered_child(t, child_at(t, p, 0), s) {
                Err(err) => Err(err),
                Ok((s1, c)) => match lowered_child(t, child_at(t, p, 1), s1) {
                    Err(err) => Err(err),
                    Ok((s2, b)) => Ok((s2, Stmt::WhileStmt { cond: c, block: b })),
                },
            },
            ast::Stmt::BreakStmt(_) => Ok((s, Stmt::BreakStmt)),
            ast::Stmt::ExprStmt(_) => match lowered_child(t, child_at(t, p, 0), s) {
                Err(err) => Err(err),
                Ok((s1, i)) => Ok((s1, Stmt::ExprStmt { expr: i })),
            },
            ast::Stmt::FuncDef(_) => match lowered_child(t, child_at(t, p, 0), s) {
                Err(err) => Err(err),
                Ok((s1, b)) => match pushed_func(
                    s1,
                    Func { name: token_text(seq_nth(child_idents(t, p), 0)), block: b },
                ) {
                    Err(err) => Err(err),
                    Ok((s2, f)) => Ok((s2, Stmt::FuncDef { func: f })),
                },
            },
        }
    }
}

/// What lowering the root `r` gives: its statements, allocated in order.
pub open spec fn lowered_root(t: &SyntaxTree, r: ast::Root, s: Slots) -> Result<
    (Slots, Root),
    LowerError,
> {
    match lowered_stmts(t, r.0, child_stmts(t, r.0), s) {
        Err(err) => Err(err),
        Ok((s1, ss)) => match pushed_stmts(s1, ss) {
            Err(err) => Err(err),
            Ok((s2, stmts)) => Ok((s2, Root { stmts })),
        },
    }
}

/// Every expression of `es` has its children below `bound`.
pub open spec fn all_below(es: Seq<Expr>, bound: int) -> bool {
    forall|k: int| 0 <= k < es.len() ==> children_below(#[trigger] es[k], bound)
}

/// Each arena of `after` holds the values of `before` in their slots,
/// perhaps followed by more.
pub open spec fn extends(before: Slots, after: Slots) -> bool {
    &&& before.0.len() <= after.0.len()
    &&& before.1.len() <= after.1.len()
    &&& before.2.len() <= after.2.len()
    &&& forall|k: int| 0 <= k < before.0.len() ==> after.0[k] == #[trigger] before.0[k]
    &&& forall|k: int| 0 <= k < before.1.len() ==> after.1[k] == #[trigger] before.1[k]
    &&& forall|k: int| 0 <= k < before.2.len() ==> after.2[k] == #[trigger] before.2[k]
}

/// The expression arena only grew, and stayed pre-ordered if it was.
pub open spec fn grows_preordered(before: Slots, after: Slots) -> bool {
    &&& after.0.len() >= before.0.len()
    &&& preordered(before.0) ==> preordered(after.0)
}

/// `r` and the arenas `after` are what `model` gives.
pub open spec fn lowers_to<A>(model: Result<(Slots, A), LowerError>, r: Result<A, LowerError>, after: Slots) -> bool {
    match model {
        Ok((s, v)) => r == Ok::<A, LowerError>(v) && after == s,
        Err(err) => r == Err::<A, LowerError>(err),
    }
}

/// The owner of the IR: one append-only arena per node category.
pub struct Database {
    pub exprs: Arena<Expr>,
    pub stmts: Arena<Stmt>,
    pub funcs: Arena<Func>,
}

fn operator_kind(k: SyntaxKind) -> (r: BinaryOp)
    ensures
        r == operator_of(k),
{
    match k {
        SyntaxKind::Minus => BinaryOp::Sub,
        SyntaxKind::Star => BinaryOp::Mul,
        SyntaxKind::Slash => BinaryOp::Div,
        SyntaxKind::Percent => BinaryOp::Rem,
        SyntaxKind::Equals => BinaryOp::Assign,
        SyntaxKind::EqEq => BinaryOp::Eq,
        SyntaxKind::Neq => BinaryOp::Ne,
        _ => BinaryOp::Add,
    }
}

fn text_of(tok: Option<SyntaxToken>) -> (r: Option<String>)
    ensures
        r == token_text(tok),
{
    match tok {
        Some(x) => Some(x.text),
        None => None,
    }
}

impl Database {
    pub open spec fn slots(&self) -> Slots {
        (expr_slots(self.exprs), stmt_slots(self.stmts), func_slots(self.funcs))
    }

    /// A database whose arenas are empty.
    pub fn new() -> (r: Database)
        ensures
            r.slots() == (Seq::<Expr>::empty(), Seq::<Stmt>::empty(), Seq::<Func>::empty()),
    {
        Database { exprs: new_expr_arena(), stmts: new_stmt_arena(), funcs: new_func_arena() }
    }

    pub fn expr_len(&self) -> (r: usize)
        ensures
            r == self.slots().0.len(),
    {
        expr_count(&self.exprs)
    }

    pub fn stmt_len(&self) -> (r: usize)
        ensures
            r == self.slots().1.len(),
    {
        stmt_count(&self.stmts)
    }

    pub fn func_len(&self) -> (r: usize)
        ensures
            r == self.slots().2.len(),
    {
        func_count(&self.funcs)
    }

    /// The expression at `i`.
    pub fn expr(&self, i: ExprIdx) -> (r: &Expr)
        requires
            (i.0 as int) < self.slots().0.len(),
        ensures
            *r == self.slots().0[i.0 as int],
    {
        expr_at(&self.exprs, i)
    }

    /// The statement at `j`.
    pub fn stmt(&self, j: StmtIdx) -> (r: &Stmt)
        requires
            (j.0 as int) < self.slots().1.len(),
        ensures
            *r == self.slots().1[j.0 as int],
    {
        stmt_at(&self.stmts, j)
    }

    /// The function at `f`.
    pub fn func(&self, f: FuncIdx) -> (r: &Func)
        requires
            (f.0 as int) < self.slots().2.len(),
        ensures
            *r == self.slots().2[f.0 as int],
    {
        func_at(&self.funcs, f)
    }

    fn push_expr(&mut self, e: Expr) -> (r: Result<ExprIdx, LowerError>)
        ensures
            extends(old(self).slots(), final(self).slots()),
            lowers_to(pushed_expr(old(self).slots(), e), r, final(self).slots()),
            r is Ok ==> (preordered(old(self).slots().0) && children_below(
                e,
                old(self).slots().0.len() as int,
            ) ==> preordered(final(self).slots().0)),
    {
        if expr_count(&self.exprs) >= u32::MAX as usize {
            return Err(LowerError::ArenaFull);
        }
        let ghost before = self.slots().0;
        let i = alloc_expr(&mut self.exprs, e);
        proof {
            let after = self.slots().0;
            if preordered(before) && children_below(e, before.len() as int) {
                assert forall|k: int| 0 <= k < after.len() implies children_below(
                    #[trigger] after[k],
                    k,
                ) by {
                    if k < before.len() {
                        assert(after[k] == before[k]);
                    }
                }
            }
        }
        Ok(i)
    }

    fn push_exprs(&mut self, es: Vec<Expr>) -> (r: Result<ExprRange, LowerError>)
        ensures
            extends(old(self).slots(), final(self).slots()),
            lowers_to(pushed_exprs(old(self).slots(), es@), r, final(self).slots()),
            r is Ok ==> (preordered(old(self).slots().0) && all_below(
                es@,
                old(self).slots().0.len() as int,
            ) ==> preordered(final(self).slots().0)),
    {
        let count = expr_count(&self.exprs);
        if count > u32::MAX as usize || es.len() > u32::MAX as usize - count {
            return Err(LowerError::ArenaFull);
        }
        let ghost s0 = self.slots();
        let ghost all = es@;
        let mut rest = es;
        let n = rest.len();
        let mut i: usize = 0;
        while i < n
            invariant
                n == all.len(),
                i <= n,
                count + n <= u32::MAX,
                s0.0.len() == count,
                rest@ == all.skip(i as int),
                self.slots() == (s0.0 + all.take(i as int), s0.1, s0.2),
            decreases n - i,
        {
            let e = rest.remove(0);
            alloc_expr(&mut self.exprs, e);
            assert(all.take(i as int + 1) == all.take(i as int).push(all[i as int]));
            assert(rest@ == all.skip(i as int + 1));
            i = i + 1;
        }
        assert(all.take(n as int) == all);
        proof {
            let after = self.slots().0;
            if preordered(s0.0) && all_below(all, count as int) {
                assert forall|k: int| 0 <= k < after.len() implies children_below(
                    #[trigger] after[k],
                    k,
                ) by {
                    if k < count {
                        assert(after[k] == s0.0[k]);
                    } else {
                        assert(after[k] == all[k - count]);
                        assert(children_below(all[k - count], count as int));
                    }
                }
            }
        }
        Ok(ExprRange { start: count as u32, end: (count + n) as u32 })
    }

    fn push_stmts(&mut self, ss: Vec<Stmt>) -> (r: Result<StmtRange, LowerError>)
        ensures
            extends(old(self).slots(), final(self).slots()),
            lowers_to(pushed_stmts(old(self).slots(), ss@), r, final(self).slots()),
    {
        let count = stmt_count(&self.stmts);
        if count > u32::MAX as usize || ss.len() > u32::MAX as usize - count {
            return Err(LowerError::ArenaFull);
        }
        let ghost s0 = self.slots();
        let ghost all = ss@;
        let mut rest = ss;
        let n = rest.len();
        let mut i: usize = 0;
        while i < n
            invariant
                n == all.len(),
                i <= n,
                count + n <= u32::MAX,
                s0.1.len() == count,
                rest@ == all.skip(i as int),
                self.slots() == (s0.0, s0.1 + all.take(i as int), s0.2),
            decreases n - i,
        {
            let s = rest.remove(0);
            alloc_stmt(&mut self.stmts, s);
            assert(all.take(i as int + 1) == all.take(i as int).push(all[i as int]));
            assert(rest@ == all.skip(i as int + 1));
            i = i + 1;
        }
        assert(all.take(n as int) == all);
        Ok(StmtRange { start: count as u32, end: (count + n) as u32 })
    }

    fn push_func(&mut self, f: Func) -> (r: Result<FuncIdx, LowerError>)
        ensures
            extends(old(self).slots(), final(self).slots()),
            lowers_to(pushed_func(old(self).slots(), f), r, final(self).slots()),
    {
        if func_count(&self.funcs) >= u32::MAX as usize {
            return Err(LowerError::ArenaFull);
        }
        Ok(alloc_func(&mut self.funcs, f))
    }

    /// Lowers `ast`, or `Missing` where there is none; the result itself is
    /// not allocated.
    pub fn lower_expr(&mut self, tree: &SyntaxTree, ast: Option<ast::Expr>) -> (r: Result<Expr, LowerError>)
        requires
            tree.wf(),
        ensures
            extends(old(self).slots(), final(self).slots()),
            lowers_to(lowered_expr(tree, ast, old(self).slots()), r, final(self).slots()),
            r matches Ok(e) ==> grows_preordered(old(self).slots(), final(self).slots())
                && children_below(e, final(self).slots().0.len() as int),
        decreases depth(tree, ast), 1int, 0int,
    {
        match ast {
            None => Ok(Expr::Missing),
            Some(x) => {
                if x.syntax() >= tree.len() {
                    return Ok(Expr::Missing);
                }
                match x {
                    ast::Expr::BinaryExpr(b) => self.lower_binary_expr(tree, b),
                    ast::Expr::PrefixExpr(pe) => self.lower_prefix_expr(tree, pe),
                    ast::Expr::ParenExpr(pa) => {
                        proof {
                            lemma_children_after(tree, pa.0);
                        }
                        self.lower_expr(tree, pa.expr(tree))
                    },
                    ast::Expr::RefExpr(re) => self.lower_ref_expr(tree, re),
                    ast::Expr::IfExpr(ie) => self.lower_if_expr(tree, ie),
                    ast::Expr::FnCallExpr(fc) => self.lower_fn_call_expr(tree, fc),
                    ast::Expr::BlockExpr(be) => self.lower_block_expr(tree, be),
                    ast::Expr::Literal(l) => self.lower_literal(tree, l),
                }
            },
        }
    }

    /// Lowers `ast` and allocates the result.
    fn lower_child(&mut self, tree: &SyntaxTree, ast: Option<ast::Expr>) -> (r: Result<ExprIdx, LowerError>)
        requires
            tree.wf(),
        ensures
            extends(old(self).slots(), final(self).slots()),
            lowers_to(lowered_child(tree, ast, old(self).slots()), r, final(self).slots()),
            r matches Ok(i) ==> grows_preordered(old(self).slots(), final(self).slots())
                && i.0 < final(self).slots().0.len(),
        decreases depth(tree, ast), 2int, 0int,
    {
        let e = match self.lower_expr(tree, ast) {
            Ok(e) => e,
            Err(err) => return Err(err),
        };
        self.push_expr(e)
    }

    pub fn lower_binary_expr(&mut self, tree: &SyntaxTree, ast: ast::BinaryExpr) -> (r: Result<Expr, LowerError>)
        requires
            tree.wf(),
            tree.has(ast.0 as int),
        ensures
            extends(old(self).slots(), final(self).slots()),
            lowers_to(
                lowered_expr(tree, Some(ast::Expr::BinaryExpr(ast)), old(self).slots()),
                r,
                final(self).slots(),
            ),
            r matches Ok(e) ==> grows_preordered(old(self).slots(), final(self).slots())
                && children_below(e, final(self).slots().0.len() as int),
        decreases tree.nodes@.len() - ast.0, 0int, 1int,
    {
        proof {
            lemma_children_after(tree, ast.0);
        }
        let op = match ast.op(tree) {
            Some(tok) => operator_kind(tok.kind),
            None => return Err(LowerError::MissingOperator { node: ast.0 }),
        };
        let lhs = match self.lower_expr(tree, ast.lhs(tree)) {
            Ok(e) => e,
            Err(err) => return Err(err),
        };
        let rhs = match self.lower_expr(tree, ast.rhs(tree)) {
            Ok(e) => e,
            Err(err) => return Err(err),
        };
        let li = match self.push_expr(lhs) {
            Ok(i) => i,
            Err(err) => return Err(err),
        };
        let ri = match self.push_expr(rhs) {
            Ok(i) => i,
            Err(err) => return Err(err),
        };
        Ok(Expr::Binary { op, lhs: li, rhs: ri })
    }

    pub fn lower_prefix_expr(&mut self, tree: &SyntaxTree, ast: ast::PrefixExpr) -> (r: Result<Expr, LowerError>)
        requires
            tree.wf(),
            tree.has(ast.0 as int),
        ensures
            extends(old(self).slots(), final(self).slots()),
            lowers_to(
                lowered_expr(tree, Some(ast::Expr::PrefixExpr(ast)), old(self).slots()),
                r,
                final(self).slots(),
            ),
            r matches Ok(e) ==> grows_preordered(old(self).slots(), final(self).slots())
                && children_below(e, final(self).slots().0.len() as int),
        decreases tree.nodes@.len() - ast.0, 0int, 1int,
    {
        proof {
            lemma_children_after(tree, ast.0);
        }
        let i = match self.lower_child(tree, ast.expr(tree)) {
            Ok(i) => i,
            Err(err) => return Err(err),
        };
        Ok(Expr::Unary { op: UnaryOp::Neg, expr: i })
    }

    pub fn lower_ref_expr(&mut self, tree: &SyntaxTree, ast: ast::RefExpr) -> (r: Result<Expr, LowerError>)
        requires
            tree.wf(),
            tree.has(ast.0 as int),
        ensures
            extends(old(self).slots(), final(self).slots()),
            lowers_to(
                lowered_expr(tree, Some(ast::Expr::RefExpr(ast)), old(self).slots()),
                r,
                final(self).slots(),
            ),
            r matches Ok(e) ==> grows_preordered(old(self).slots(), final(self).slots())
                && children_below(e, final(self).slots().0.len() as int),
    {
        match ast.ident(tree) {
            Some(tok) => Ok(Expr::Ref { name: tok.text }),
            None => Ok(Expr::Missing),
        }
    }

    pub fn lower_if_expr(&mut self, tree: &SyntaxTree, ast: ast::IfExpr) -> (r: Result<Expr, LowerError>)
        requires
            tree.wf(),
            tree.has(ast.0 as int),
        ensures
            extends(old(self).slots(), final(self).slots()),
            lowers_to(
                lowered_expr(tree, Some(ast::Expr::IfExpr(ast)), old(self).slots()),
                r,
                final(self).slots(),
            ),
            r matches Ok(e) ==> grows_preordered(old(self).slots(), final(self).slots())
                && children_below(e, final(self).slots().0.len() as int),
        decreases tree.nodes@.len() - ast.0, 0int, 1int,
    {
        proof {
            lemma_children_after(tree, ast.0);
        }
        let c = match self.lower_child(tree, ast.cond(tree)) {
            Ok(i) => i,
            Err(err) => return Err(err),
        };
        let th = match self.lower_child(tree, ast.then_expr(tree)) {
            Ok(i) => i,
            Err(err) => return Err(err),
        };
        match ast.else_expr(tree) {
            None => Ok(Expr::If { cond: c, then_expr: th, else_expr: None }),
            Some(x) => {
                let el = match self.lower_child(tree, Some(x)) {
                    Ok(i) => i,
                    Err(err) => return Err(err),
                };
                Ok(Expr::If { cond: c, then_expr: th, else_expr: Some(el) })
            },
        }
    }

    pub fn lower_fn_call_expr(&mut self, tree: &SyntaxTree, ast: ast::FnCallExpr) -> (r: Result<Expr, LowerError>)
        requires
            tree.wf(),
            tree.has(ast.0 as int),
        ensures
            extends(old(self).slots(), final(self).slots()),
            lowers_to(
                lowered_expr(tree, Some(ast::Expr::FnCallExpr(ast)), old(self).slots()),
                r,
                final(self).slots(),
            ),
            r matches Ok(e) ==> grows_preordered(old(self).slots(), final(self).slots())
                && children_below(e, final(self).slots().0.len() as int),
        decreases tree.nodes@.len() - ast.0, 0int, 1int,
    {
        let callee = match ast.ident(tree) {
            Some(tok) => tok.text,
            None => return Ok(Expr::Missing),
        };
        proof {
            lemma_children_after(tree, ast.0);
        }
        let items = ast.args(tree);
        let es = match self.lower_exprs(tree, ast.0, &items) {
            Ok(es) => es,
            Err(err) => return Err(err),
        };
        let args = match self.push_exprs(es) {
            Ok(r) => r,
            Err(err) => return Err(err),
        };
        Ok(Expr::FnCall { callee, args })
    }

    pub fn lower_block_expr(&mut self, tree: &SyntaxTree, ast: ast::BlockExpr) -> (r: Result<Expr, LowerError>)
        requires
            tree.wf(),
            tree.has(ast.0 as int),
        ensures
            extends(old(self).slots(), final(self).slots()),
            lowers_to(
                lowered_expr(tree, Some(ast::Expr::BlockExpr(ast)), old(self).slots()),
                r,
                final(self).slots(),
            ),
            r matches Ok(e) ==> grows_preordered(old(self).slots(), final(self).slots())
                && children_below(e, final(self).slots().0.len() as int),
        decreases tree.nodes@.len() - ast.0, 0int, 1int,
    {
        proof {
            lemma_children_after(tree, ast.0);
        }
        let items = ast.stmts(tree);
        let ss = match self.lower_stmts(tree, ast.0, &items) {
            Ok(ss) => ss,
            Err(err) => return Err(err),
        };
        let stmts = match self.push_stmts(ss) {
            Ok(r) => r,
            Err(err) => return Err(err),
        };
        Ok(Expr::Block { stmts })
    }

    /// A number literal with the parsed value, or `Missing` where the text
    /// is no unsigned numeral that fits.
    pub fn lower_literal(&mut self, tree: &SyntaxTree, ast: ast::Literal) -> (r: Result<Expr, LowerError>)
        requires
            tree.wf(),
            tree.has(ast.0 as int),
        ensures
            extends(old(self).slots(), final(self).slots()),
            lowers_to(
                lowered_expr(tree, Some(ast::Expr::Literal(ast)), old(self).slots()),
                r,
                final(self).slots(),
            ),
            r matches Ok(e) ==> grows_preordered(old(self).slots(), final(self).slots())
                && children_below(e, final(self).slots().0.len() as int),
    {
        match ast.parse(tree) {
            Some(n) => Ok(Expr::NumberLiteral { n }),
            None => Ok(Expr::Missing),
        }
    }

    /// Lowers the expression children `items` of node `p` in order.
    fn lower_exprs(&mut self, tree: &SyntaxTree, p: usize, items: &Vec<ast::Expr>) -> (r: Result<
        Vec<Expr>,
        LowerError,
    >)
        requires
            tree.wf(),
            tree.has(p as int),
            forall|k: int| 0 <= k < items@.len() ==> p < (#[trigger] items@[k]).node() < tree.nodes@.len(),
        ensures
            extends(old(self).slots(), final(self).slots()),
            match lowered_exprs(tree, p, items@, old(self).slots()) {
                Ok((s, es)) => r matches Ok(v) && v@ == es && final(self).slots() == s,
                Err(err) => r == Err::<Vec<Expr>, LowerError>(err),
            },
            r matches Ok(v) ==> grows_preordered(old(self).slots(), final(self).slots())
                && all_below(v@, final(self).slots().0.len() as int),
        decreases tree.nodes@.len() - p, 0int, 0int,
    {
        let ghost s0 = self.slots();
        let mut out: Vec<Expr> = Vec::new();
        let mut i: usize = 0;
        while i < items.len()
            invariant
                tree.wf(),
                tree.has(p as int),
                forall|k: int| 0 <= k < items@.len() ==> p < (#[trigger] items@[k]).node() < tree.nodes@.len(),
                i <= items@.len(),
                lowered_exprs(tree, p, items@.take(i as int), s0) == Ok::<(Slots, Seq<Expr>), LowerError>((self.slots(), out@)),
                grows_preordered(s0, self.slots()),
                all_below(out@, self.slots().0.len() as int),
                s0 == old(self).slots(),
                extends(s0, self.slots()),
            decreases items@.len() - i,
        {
            assert(items@.take(i as int + 1).drop_last() == items@.take(i as int));
            let x = items[i];
            let ghost before = self.slots();
            let e = match self.lower_expr(tree, Some(x)) {
                Ok(e) => e,
                Err(err) => {
                    proof {
                        assert(items@.take(i as int + 1).last() == x);
                        assert(below(tree, p, Some(x)) == Some(x));
                        assert(lowered_exprs(tree, p, items@.take(i as int + 1), s0) == Err::<(Slots, Seq<Expr>), LowerError>(err));
                        lemma_exprs_err_extends(tree, p, items@, s0, i as int + 1);
                    }
                    return Err(err);
                },
            };
            out.push(e);
            i = i + 1;
        }
        assert(items@.take(items@.len() as int) == items@);
        Ok(out)
    }

    /// Lowers the statement children `items` of node `p` in order.
    fn lower_stmts(&mut self, tree: &SyntaxTree, p: usize, items: &Vec<ast::Stmt>) -> (r: Result<
        Vec<Stmt>,
        LowerError,
    >)
        requires
            tree.wf(),
            tree.has(p as int),
            forall|k: int| 0 <= k < items@.len() ==> p < (#[trigger] items@[k]).node() < tree.nodes@.len(),
        ensures
            extends(old(self).slots(), final(self).slots()),
            match lowered_stmts(tree, p, items@, old(self).slots()) {
                Ok((s, ss)) => r matches Ok(v) && v@ == ss && final(self).slots() == s,
                Err(err) => r == Err::<Vec<Stmt>, LowerError>(err),
            },
            r is Ok ==> grows_preordered(old(self).slots(), final(self).slots()),
        decreases tree.nodes@.len() - p, 0int, 0int,
    {
        let ghost s0 = self.slots();
        let mut out: Vec<Stmt> = Vec::new();
        let mut i: usize = 0;
        while i < items.len()
            invariant
                tree.wf(),
                tree.has(p as int),
                forall|k: int| 0 <= k < items@.len() ==> p < (#[trigger] items@[k]).node() < tree.nodes@.len(),
                i <= items@.len(),
                lowered_stmts(tree, p, items@.take(i as int), s0) == Ok::<(Slots, Seq<Stmt>), LowerError>((self.slots(), out@)),
                grows_preordered(s0, self.slots()),
                s0 == old(self).slots(),
                extends(s0, self.slots()),
            decreases items@.len() - i,
        {
            assert(items@.take(i as int + 1).drop_last() == items@.take(i as int));
            let x = items[i];
            let ghost before = self.slots();
            let st = match self.lower_stmt(tree, x) {
                Ok(st) => st,
                Err(err) => {
                    proof {
                        assert(items@.take(i as int + 1).last() == x);
                        assert(lowered_stmts(tree, p, items@.take(i as int + 1), s0) == Err::<(Slots, Seq<Stmt>), LowerError>(err));
                        lemma_stmts_err_extends(tree, p, items@, s0, i as int + 1);
                    }
                    return Err(err);
                },
            };
            out.push(st);
            i = i + 1;
        }
        assert(items@.take(items@.len() as int) == items@);
        Ok(out)
    }

    /// Lowers statement `ast`; the result itself is not allocated.
    pub fn lower_stmt(&mut self, tree: &SyntaxTree, ast: ast::Stmt) -> (r: Result<Stmt, LowerError>)
        requires
            tree.wf(),
            tree.has(ast.node() as int),
        ensures
            extends(old(self).slots(), final(self).slots()),
            lowers_to(lowered_stmt(tree, ast, old(self).slots()), r, final(self).slots()),
            r is Ok ==> grows_preordered(old(self).slots(), final(self).slots()),
        decreases tree.nodes@.len() - ast.node(), 1int, 0int,
    {
        let p = ast.syntax();
        proof {
            lemma_children_after(tree, p);
        }
        match ast {
            ast::Stmt::LetStmt(l) => {
                let i = match self.lower_child(tree, l.expr(tree)) {
                    Ok(i) => i,
                    Err(err) => return Err(err),
                };
                Ok(Stmt::LetStmt { name: text_of(l.name(tree)), expr: i })
            },
            ast::Stmt::WhileStmt(w) => {
                let c = match self.lower_child(tree, w.cond(tree)) {
                    Ok(i) => i,
                    Err(err) => return Err(err),
                };
                let b = match self.lower_child(tree, w.block(tree)) {
                    Ok(i) => i,
                    Err(err) => return Err(err),
                };
                Ok(Stmt::WhileStmt { cond: c, block: b })
            },
            ast::Stmt::BreakStmt(_) => Ok(Stmt::BreakStmt),
            ast::Stmt::ExprStmt(es) => {
                let i = match self.lower_child(tree, es.expr(tree)) {
                    Ok(i) => i,
                    Err(err) => return Err(err),
                };
                Ok(Stmt::ExprStmt { expr: i })
            },
            ast::Stmt::FuncDef(f) => {
                let b = match self.lower_child(tree, f.block(tree)) {
                    Ok(i) => i,
                    Err(err) => return Err(err),
                };
                let name = text_of(f.name(tree));
                let fi = match self.push_func(Func { name, block: b }) {
                    Ok(i) => i,
                    Err(err) => return Err(err),
                };
                Ok(Stmt::FuncDef { func: fi })
            },
        }
    }

    /// Lowers the top-level statements of `ast` and allocates them in order.
    pub fn lower_root(&mut self, tree: &SyntaxTree, ast: ast::Root) -> (r: Result<Root, LowerError>)
        requires
            tree.wf(),
            tree.has(ast.0 as int),
        ensures
            extends(old(self).slots(), final(self).slots()),
            lowers_to(lowered_root(tree, ast, old(self).slots()), r, final(self).slots()),
            r is Ok ==> grows_preordered(old(self).slots(), final(self).slots()),
    {
        proof {
            lemma_children_after(tree, ast.0);
        }
        let items = ast.stmts(tree);
        let ss = match self.lower_stmts(tree, ast.0, &items) {
            Ok(ss) => ss,
            Err(err) => return Err(err),
        };
        let stmts = match self.push_stmts(ss) {
            Ok(r) => r,
            Err(err) => return Err(err),
        };
        Ok(Root { stmts })
    }
}

proof fn lemma_exprs_err_extends(t: &SyntaxTree, p: usize, items: Seq<ast::Expr>, s: Slots, j: int)
    requires
        0 <= j <= items.len(),
        lowered_exprs(t, p, items.take(j), s) is Err,
    ensures
        lowered_exprs(t, p, items, s) == lowered_exprs(t, p, items.take(j), s),
    decreases items.len(),
{
    if items.len() > j {
        assert(items.drop_last().take(j) == items.take(j));
        lemma_exprs_err_extends(t, p, items.drop_last(), s, j);
    } else {
        assert(items.take(j) == items);
    }
}

proof fn lemma_stmts_err_extends(t: &SyntaxTree, p: usize, items: Seq<ast::Stmt>, s: Slots, j: int)
    requires
        0 <= j <= items.len(),
        lowered_stmts(t, p, items.take(j), s) is Err,
    ensures
        lowered_stmts(t, p, items, s) == lowered_stmts(t, p, items.take(j), s),
    decreases items.len(),
{
    if items.len() > j {
        assert(items.drop_last().take(j) == items.take(j));
        lemma_stmts_err_extends(t, p, items.drop_last(), s, j);
    } else {
        assert(items.take(j) == items);
    }
}

/// An absent expression lowers to `Missing`, with the arenas untouched.
pub proof fn lemma_absent_lowers_to_missing(t: &SyntaxTree, s: Slots)
    ensures
        lowered_expr(t, None, s) == Ok::<(Slots, Expr), LowerError>((s, Expr::Missing)),
{
}

/// A binary expression lowers with the operator that its first operator
/// token names (`+ - * / %` give `Add Sub Mul Div Rem`), and a prefix
/// expression lowers to a negation.
pub proof fn lemma_operator_mapping(t: &SyntaxTree, b: ast::BinaryExpr, pe: ast::PrefixExpr, s: Slots)
    requires
        t.has(b.0 as int),
        t.has(pe.0 as int),
        tokens_in(t.elems(b.0 as int), TokenSet::Operator).len() > 0,
    ensures
        lowered_expr(t, Some(ast::Expr::BinaryExpr(b)), s) matches Ok((_, e)) ==> e matches Expr::Binary {
            op,
            ..
        } && op == operator_of(tokens_in(t.elems(b.0 as int), TokenSet::Operator)[0].kind),
        lowered_expr(t, Some(ast::Expr::PrefixExpr(pe)), s) matches Ok((_, e)) ==> e matches Expr::Unary {
            op: UnaryOp::Neg,
            ..
        },
        operator_of(SyntaxKind::Plus) == BinaryOp::Add,
        operator_of(SyntaxKind::Minus) == BinaryOp::Sub,
        operator_of(SyntaxKind::Star) == BinaryOp::Mul,
        operator_of(SyntaxKind::Slash) == BinaryOp::Div,
        operator_of(SyntaxKind::Percent) == BinaryOp::Rem,
{
}

/// Parentheses are transparent: lowering `(E)` gives exactly what lowering
/// `E` gives, arenas included.
pub proof fn lemma_paren_transparent(t: &SyntaxTree, pa: ast::ParenExpr, s: Slots)
    requires
        t.wf(),
        t.has(pa.0 as int),
    ensures
        lowered_expr(t, Some(ast::Expr::ParenExpr(pa)), s) == lowered_expr(
            t,
            seq_nth(child_exprs(t, pa.0), 0),
            s,
        ),
{
    lemma_children_after(t, pa.0);
}

} // verus!
