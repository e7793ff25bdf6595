use vstd::prelude::*;

use crate::arena::{expr_at, expr_count, func_at, func_count, stmt_at, stmt_count};
use crate::database::{Database, Slots};
use crate::hir::{
    children_below, preordered,
    expr_children, expr_range_seq, expr_stmt_children, stmt_range_seq, Expr, ExprIdx, ExprRange,
    Func, FuncIdx, Root, Stmt, StmtIdx, StmtRange,
};

verus! {

/// One step of a traversal: the node that a hook is called for.
#[derive(Debug, Clone, Copy, PartialEq, Eq, Structural)]
pub enum Visit {
    Root,
    Func(FuncIdx),
    Stmt(StmtIdx),
    Expr(ExprIdx),
}

/// The pre-order visits of the expression at `i` and everything below it,
/// children left to right, descending at most `fuel` levels; an index outside
/// its arena is skipped.
pub open spec fn expr_order(s: Slots, i: ExprIdx, fuel: nat) -> Seq<Visit>
    decreases fuel, 0int,
{
    if fuel == 0 || i.0 >= s.0.len() {
        seq![]
    } else {
        let e = s.0[i.0 as int];
        seq![Visit::Expr(i)] + exprs_order(s, expr_children(e), (fuel - 1) as nat) + stmts_order(
            s,
            expr_stmt_children(e),
            (fuel - 1) as nat,
        )
    }
}

/// The pre-order visits of each expression of `is`, one after another.
pub open spec fn exprs_order(s: Slots, is: Seq<ExprIdx>, fuel: nat) -> Seq<Visit>
    decreases fuel, is.len(),
{
    if is.len() == 0 {
        seq![]
    } else {
        exprs_order(s, is.drop_last(), fuel) + expr_order(s, is.last(), fuel)
    }
}

/// The pre-order visits of the statement at `j` and everything below it.
pub open spec fn stmt_order(s: Slots, j: StmtIdx, fuel: nat) -> Seq<Visit>
    decreases fuel, 0int,
{
    if fuel == 0 || j.0 >= s.1.len() {
        seq![]
    } else {
        seq![Visit::Stmt(j)] + stmt_children_order(s, s.1[j.0 as int], (fuel - 1) as nat)
    }
}

/// The pre-order visits of what lies below statement `st`, in its child order.
pub open spec fn stmt_children_order(s: Slots, st: Stmt, fuel: nat) -> Seq<Visit>
    decreases fuel, 1int,
{
    match st {
        Stmt::LetStmt { expr, .. } => expr_order(s, expr, fuel),
        Stmt::WhileStmt { cond, block } => expr_order(s, cond, fuel) + expr_order(s, block, fuel),
        Stmt::BreakStmt => seq![],
        Stmt::ExprStmt { expr } => expr_order(s, expr, fuel),
        Stmt::FuncDef { func } => func_order(s, func, fuel),
    }
}

/// The pre-order visits of what lies below expression `e`: its expression
/// children, then its statement children, each left to right.
pub open spec fn expr_children_order(s: Slots, e: Expr, fuel: nat) -> Seq<Visit> {
    exprs_order(s, expr_children(e), fuel) + stmts_order(s, expr_stmt_children(e), fuel)
}

/// The pre-order visits of each statement of `js`, one after another.
pub open spec fn stmts_order(s: Slots, js: Seq<StmtIdx>, fuel: nat) -> Seq<Visit>
    decreases fuel, js.len(),
{
    if js.len() == 0 {
        seq![]
    } else {
        stmts_order(s, js.drop_last(), fuel) + stmt_order(s, js.last(), fuel)
    }
}

/// The pre-order visits of the function at `f` and its body.
pub open spec fn func_order(s: Slots, f: FuncIdx, fuel: nat) -> Seq<Visit>
    decreases fuel, 0int,
{
    if fuel == 0 || f.0 >= s.2.len() {
        seq![]
    } else {
        seq![Visit::Func(f)] + expr_order(s, s.2[f.0 as int].block, (fuel - 1) as nat)
    }
}

/// The pre-order visits of a program: the root, then each top-level statement.
pub open spec fn root_order(s: Slots, root: Root, fuel: nat) -> Seq<Visit> {
    seq![Visit::Root] + stmts_order(s, stmt_range_seq(root.stmts), fuel)
}

/// Hooks that a pass over the IR overrides; each is called once per visit,
/// in the traversal order that the `walk_*` functions fix.
pub trait Visitor {
    fn visit_root(&mut self, _root: &Root) {
    }

    fn visit_func(&mut self, _idx: FuncIdx, _func: &Func) {
    }

    fn visit_stmt(&mut self, _idx: StmtIdx, _stmt: &Stmt) {
    }

    fn visit_expr(&mut self, _idx: ExprIdx, _expr: &Expr) {
    }
}

pub open spec fn depth_budget_of(s: Slots) -> int {
    if s.0.len() < usize::MAX / 4 && s.1.len() < usize::MAX / 4 && s.2.len() < usize::MAX / 4 {
        (s.0.len() + s.1.len() + s.2.len() + 1) as int
    } else {
        usize::MAX as int
    }
}

/// How many levels a traversal of `db` may descend: more than the nodes it
/// holds, so that every acyclic tree in it is walked whole.
pub fn depth_budget(db: &Database) -> (r: usize)
    ensures
        r == depth_budget_of(db.slots()),
{
    let a = expr_count(&db.exprs);
    let b = stmt_count(&db.stmts);
    let c = func_count(&db.funcs);
    if a < usize::MAX / 4 && b < usize::MAX / 4 && c < usize::MAX / 4 {
        a + b + c + 1
    } else {
        usize::MAX
    }
}

fn range_exprs(r: ExprRange) -> (v: Vec<ExprIdx>)
    ensures
        v@ == expr_range_seq(r),
{
    let mut v: Vec<ExprIdx> = Vec::new();
    if r.start >= r.end {
        assert(v@ =~= expr_range_seq(r));
        return v;
    }
    let mut k: u32 = r.start;
    while k < r.end
        invariant
            r.start <= k <= r.end,
            v@ =~= Seq::new((k - r.start) as nat, |j: int| ExprIdx((r.start + j) as u32)),
        decreases r.end - k,
    {
        v.push(ExprIdx(k));
        k = k + 1;
        assert(v@ =~= Seq::new((k - r.start) as nat, |j: int| ExprIdx((r.start + j) as u32)));
    }
    assert(v@ =~= expr_range_seq(r));
    v
}

fn range_stmts(r: StmtRange) -> (v: Vec<StmtIdx>)
    ensures
        v@ == stmt_range_seq(r),
{
    let mut v: Vec<StmtIdx> = Vec::new();
    if r.start >= r.end {
        assert(v@ =~= stmt_range_seq(r));
        return v;
    }
    let mut k: u32 = r.start;
    while k < r.end
        invariant
            r.start <= k <= r.end,
            v@ =~= Seq::new((k - r.start) as nat, |j: int| StmtIdx((r.start + j) as u32)),
        decreases r.end - k,
    {
        v.push(StmtIdx(k));
        k = k + 1;
        assert(v@ =~= Seq::new((k - r.start) as nat, |j: int| StmtIdx((r.start + j) as u32)));
    }
    assert(v@ =~= stmt_range_seq(r));
    v
}

/// The expression children of `e`, in traversal order.
fn expr_kids(e: &Expr) -> (v: Vec<ExprIdx>)
    ensures
        v@ == expr_children(*e),
{
    let mut v: Vec<ExprIdx> = Vec::new();
    match e {
        Expr::Binary { lhs, rhs, .. } => {
            v.push(*lhs);
            v.push(*rhs);
        },
        Expr::Unary { expr, .. } => {
            v.push(*expr);
        },
        Expr::If { cond, then_expr, else_expr } => {
            v.push(*cond);
            v.push(*then_expr);
            match else_expr {
                Some(x) => v.push(*x),
                None => {},
            }
        },
        Expr::FnCall { args, .. } => {
            return range_exprs(*args);
        },
        Expr::Index { main_expr, index_expr } => {
            v.push(*main_expr);
            v.push(*index_expr);
        },
        Expr::ArrayLiteral { len, initial } => {
            v.push(*len);
            v.push(*initial);
        },
        _ => {},
    }
    assert(v@ =~= expr_children(*e));
    v
}

/// The statement children of `e`, in traversal order.
fn expr_stmt_kids(e: &Expr) -> (v: Vec<StmtIdx>)
    ensures
        v@ == expr_stmt_children(*e),
{
    match e {
        Expr::Block { stmts } => range_stmts(*stmts),
        _ => {
            let v: Vec<StmtIdx> = Vec::new();
            assert(v@ =~= expr_stmt_children(*e));
            v
        },
    }
}

fn push_expr_order(db: &Database, i: ExprIdx, fuel: usize, out: &mut Vec<Visit>)
    ensures
        final(out)@ == old(out)@ + expr_order(db.slots(), i, fuel as nat),
    decreases fuel, 0int,
{
    if fuel == 0 || i.0 as usize >= expr_count(&db.exprs) {
        assert(old(out)@ + Seq::<Visit>::empty() =~= old(out)@);
        return;
    }
    let ghost s = db.slots();
    out.push(Visit::Expr(i));
    let e = expr_at(&db.exprs, i);
    push_expr_children_order(db, e, fuel - 1, out);
    assert(out@ =~= old(out)@ + expr_order(s, i, fuel as nat));
}

fn push_expr_children_order(db: &Database, e: &Expr, fuel: usize, out: &mut Vec<Visit>)
    ensures
        final(out)@ == old(out)@ + expr_children_order(db.slots(), *e, fuel as nat),
    decreases fuel, 1int,
{
    let ghost s = db.slots();
    let kids = expr_kids(e);
    let skids = expr_stmt_kids(e);
    let ghost head = out@;
    let mut k: usize = 0;
    while k < kids.len()
        invariant
            s == db.slots(),
            k <= kids@.len(),
            out@ == head + exprs_order(s, kids@.take(k as int), fuel as nat),
        decreases kids@.len() - k,
    {
        assert(kids@.take(k as int + 1).drop_last() =~= kids@.take(k as int));
        push_expr_order(db, kids[k], fuel, out);
        k = k + 1;
        assert(out@ =~= head + exprs_order(s, kids@.take(k as int), fuel as nat));
    }
    assert(kids@.take(kids@.len() as int) =~= kids@);
    let ghost mid = out@;
    let mut k: usize = 0;
    while k < skids.len()
        invariant
            s == db.slots(),
            k <= skids@.len(),
            out@ == mid + stmts_order(s, skids@.take(k as int), fuel as nat),
        decreases skids@.len() - k,
    {
        assert(skids@.take(k as int + 1).drop_last() =~= skids@.take(k as int));
        push_stmt_order(db, skids[k], fuel, out);
        k = k + 1;
        assert(out@ =~= mid + stmts_order(s, skids@.take(k as int), fuel as nat));
    }
    assert(skids@.take(skids@.len() as int) =~= skids@);
    assert(out@ =~= head + expr_children_order(s, *e, fuel as nat));
}

fn push_stmt_order(db: &Database, j: StmtIdx, fuel: usize, out: &mut Vec<Visit>)
    ensures
        final(out)@ == old(out)@ + stmt_order(db.slots(), j, fuel as nat),
    decreases fuel, 0int,
{
    if fuel == 0 || j.0 as usize >= stmt_count(&db.stmts) {
        assert(old(out)@ + Seq::<Visit>::empty() =~= old(out)@);
        return;
    }
    let ghost s = db.slots();
    out.push(Visit::Stmt(j));
    push_stmt_children_order(db, stmt_at(&db.stmts, j), fuel - 1, out);
    assert(out@ =~= old(out)@ + stmt_order(s, j, fuel as nat));
}

fn push_stmt_children_order(db: &Database, st: &Stmt, fuel: usize, out: &mut Vec<Visit>)
    ensures
        final(out)@ == old(out)@ + stmt_children_order(db.slots(), *st, fuel as nat),
    decreases fuel, 1int,
{
    let ghost s = db.slots();
    let ghost base = old(out)@;
    match st {
        Stmt::LetStmt { expr, .. } => {
            push_expr_order(db, *expr, fuel, out);
        },
        Stmt::WhileStmt { cond, block } => {
            push_expr_order(db, *cond, fuel, out);
            push_expr_order(db, *block, fuel, out);
        },
        Stmt::BreakStmt => {},
        Stmt::ExprStmt { expr } => {
            push_expr_order(db, *expr, fuel, out);
        },
        Stmt::FuncDef { func } => {
            push_func_order(db, *func, fuel, out);
        },
    }
    assert(out@ =~= base + stmt_children_order(s, *st, fuel as nat));
}

fn push_func_order(db: &Database, fi: FuncIdx, fuel: usize, out: &mut Vec<Visit>)
    ensures
        final(out)@ == old(out)@ + func_order(db.slots(), fi, fuel as nat),
    decreases fuel, 0int,
{
    if fuel == 0 || fi.0 as usize >= func_count(&db.funcs) {
        assert(old(out)@ + Seq::<Visit>::empty() =~= old(out)@);
        return;
    }
    let ghost s = db.slots();
    let ghost base = old(out)@;
    out.push(Visit::Func(fi));
    let func = func_at(&db.funcs, fi);
    push_expr_order(db, func.block, fuel - 1, out);
    assert(out@ =~= base + func_order(s, fi, fuel as nat));
}

/// The visits of a whole program in traversal order: the root, then each
/// top-level statement with everything below it, left to right.
pub fn root_visits(db: &Database, root: &Root) -> (r: Vec<Visit>)
    ensures
        r@ == root_order(db.slots(), *root, depth_budget_of(db.slots()) as nat),
{
    let fuel = depth_budget(db);
    let ghost s = db.slots();
    let mut out: Vec<Visit> = Vec::new();
    out.push(Visit::Root);
    let ghost head = out@;
    let js = range_stmts(root.stmts);
    let mut k: usize = 0;
    while k < js.len()
        invariant
            s == db.slots(),
            k <= js@.len(),
            fuel == depth_budget_of(s),
            out@ == head + stmts_order(s, js@.take(k as int), fuel as nat),
        decreases js@.len() - k,
    {
        assert(js@.take(k as int + 1).drop_last() =~= js@.take(k as int));
        push_stmt_order(db, js[k], fuel, &mut out);
        k = k + 1;
        assert(out@ =~= head + stmts_order(s, js@.take(k as int), fuel as nat));
    }
    assert(js@.take(js@.len() as int) =~= js@);
    assert(out@ =~= root_order(s, *root, fuel as nat));
    out
}

/// The visits of the expression at `i` and everything below it.
pub fn expr_visits(db: &Database, i: ExprIdx) -> (r: Vec<Visit>)
    ensures
        r@ == expr_order(db.slots(), i, depth_budget_of(db.slots()) as nat),
{
    let mut out: Vec<Visit> = Vec::new();
    push_expr_order(db, i, depth_budget(db), &mut out);
    assert(out@ =~= expr_order(db.slots(), i, depth_budget_of(db.slots()) as nat));
    out
}

/// The visits of the statement at `j` and everything below it.
pub fn stmt_visits(db: &Database, j: StmtIdx) -> (r: Vec<Visit>)
    ensures
        r@ == stmt_order(db.slots(), j, depth_budget_of(db.slots()) as nat),
{
    let mut out: Vec<Visit> = Vec::new();
    push_stmt_order(db, j, depth_budget(db), &mut out);
    assert(out@ =~= stmt_order(db.slots(), j, depth_budget_of(db.slots()) as nat));
    out
}

/// The visits of the function at `f` and its body.
pub fn func_visits(db: &Database, f: FuncIdx) -> (r: Vec<Visit>)
    ensures
        r@ == func_order(db.slots(), f, depth_budget_of(db.slots()) as nat),
{
    let mut out: Vec<Visit> = Vec::new();
    push_func_order(db, f, depth_budget(db), &mut out);
    assert(out@ =~= func_order(db.slots(), f, depth_budget_of(db.slots()) as nat));
    out
}

/// Calls the hook of `visitor` for each of `visits`, in order.
fn dispatch<V: Visitor>(visitor: &mut V, db: &Database, root: Option<&Root>, visits: &Vec<Visit>) {
    let mut k: usize = 0;
    while k < visits.len()
        decreases visits@.len() - k,
    {
        match visits[k] {
            Visit::Root => match root {
                Some(r) => visitor.visit_root(r),
                None => {},
            },
            Visit::Func(f) => if (f.0 as usize) < func_count(&db.funcs) {
                visitor.visit_func(f, func_at(&db.funcs, f));
            },
            Visit::Stmt(j) => if (j.0 as usize) < stmt_count(&db.stmts) {
                visitor.visit_stmt(j, stmt_at(&db.stmts, j));
            },
            Visit::Expr(i) => if (i.0 as usize) < expr_count(&db.exprs) {
                visitor.visit_expr(i, expr_at(&db.exprs, i));
            },
        }
        k = k + 1;
    }
}

/// Walks what lies below expression `expr` (not `expr` itself), calling the
/// hooks of `visitor` in traversal order; returns that order.
pub fn walk_expr<V: Visitor>(visitor: &mut V, db: &Database, expr: &Expr) -> (r: Vec<Visit>)
    ensures
        r@ == expr_children_order(db.slots(), *expr, depth_budget_of(db.slots()) as nat),
{
    let mut visits: Vec<Visit> = Vec::new();
    push_expr_children_order(db, expr, depth_budget(db), &mut visits);
    assert(visits@ =~= expr_children_order(db.slots(), *expr, depth_budget_of(db.slots()) as nat));
    dispatch(visitor, db, None, &visits);
    visits
}

/// Walks what lies below statement `stmt` (not `stmt` itself), calling the
/// hooks of `visitor` in traversal order; returns that order.
pub fn walk_stmt<V: Visitor>(visitor: &mut V, db: &Database, stmt: &Stmt) -> (r: Vec<Visit>)
    ensures
        r@ == stmt_children_order(db.slots(), *stmt, depth_budget_of(db.slots()) as nat),
{
    let mut visits: Vec<Visit> = Vec::new();
    push_stmt_children_order(db, stmt, depth_budget(db), &mut visits);
    assert(visits@ =~= stmt_children_order(db.slots(), *stmt, depth_budget_of(db.slots()) as nat));
    dispatch(visitor, db, None, &visits);
    visits
}

/// Walks the body of `func`, calling the hooks of `visitor` in traversal
/// order; returns that order.
pub fn walk_func<V: Visitor>(visitor: &mut V, db: &Database, func: &Func) -> (r: Vec<Visit>)
    ensures
        r@ == expr_order(db.slots(), func.block, depth_budget_of(db.slots()) as nat),
{
    let visits = expr_visits(db, func.block);
    dispatch(visitor, db, None, &visits);
    visits
}

/// Walks a program, calling the hooks of `visitor` in the order that
/// `root_visits` gives; returns that order.
pub fn walk_root<V: Visitor>(visitor: &mut V, db: &Database, root: &Root) -> (r: Vec<Visit>)
    ensures
        r@ == root_order(db.slots(), *root, depth_budget_of(db.slots()) as nat),
{
    let visits = root_visits(db, root);
    dispatch(visitor, db, Some(root), &visits);
    visits
}

/// Walks the function at `f`, calling the hooks of `visitor` in the order
/// that `func_visits` gives; returns that order.
pub fn walk_func_idx<V: Visitor>(visitor: &mut V, db: &Database, f: FuncIdx) -> (r: Vec<Visit>)
    ensures
        r@ == func_order(db.slots(), f, depth_budget_of(db.slots()) as nat),
{
    let visits = func_visits(db, f);
    dispatch(visitor, db, None, &visits);
    visits
}

/// Walks the statement at `j`, calling the hooks of `visitor` in the order
/// that `stmt_visits` gives; returns that order.
pub fn walk_stmt_idx<V: Visitor>(visitor: &mut V, db: &Database, j: StmtIdx) -> (r: Vec<Visit>)
    ensures
        r@ == stmt_order(db.slots(), j, depth_budget_of(db.slots()) as nat),
{
    let visits = stmt_visits(db, j);
    dispatch(visitor, db, None, &visits);
    visits
}

/// Walks the expression at `i`, calling the hooks of `visitor` in the order
/// that `expr_visits` gives; returns that order.
pub fn walk_expr_idx<V: Visitor>(visitor: &mut V, db: &Database, i: ExprIdx) -> (r: Vec<Visit>)
    ensures
        r@ == expr_order(db.slots(), i, depth_budget_of(db.slots()) as nat),
{
    let visits = expr_visits(db, i);
    dispatch(visitor, db, None, &visits);
    visits
}

/// Where following child links from expression `i` leads: at each step
/// `path` names which expression child to take.
pub open spec fn follow(s: Slots, i: ExprIdx, path: Seq<int>) -> Option<ExprIdx>
    decreases path.len(),
{
    if path.len() == 0 {
        Some(i)
    } else if i.0 < s.0.len() && 0 <= path[0] < expr_children(s.0[i.0 as int]).len() {
        follow(s, expr_children(s.0[i.0 as int])[path[0]], path.drop_first())
    } else {
        None
    }
}

proof fn lemma_exprs_order_contains(s: Slots, is: Seq<ExprIdx>, fuel: nat, k: int, v: Visit)
    requires
        0 <= k < is.len(),
        expr_order(s, is[k], fuel).contains(v),
    ensures
        exprs_order(s, is, fuel).contains(v),
    decreases is.len(),
{
    let pre = is.drop_last();
    let a = exprs_order(s, pre, fuel);
    let b = expr_order(s, is.last(), fuel);
    assert(exprs_order(s, is, fuel) == a + b);
    if k == is.len() - 1 {
        let j = choose|j: int| 0 <= j < b.len() && b[j] == v;
        assert((a + b)[a.len() + j] == v);
    } else {
        assert(pre[k] == is[k]);
        lemma_exprs_order_contains(s, pre, fuel, k, v);
        let j = choose|j: int| 0 <= j < a.len() && a[j] == v;
        assert((a + b)[j] == v);
    }
}

/// A traversal that may descend more levels than `path` is long visits the
/// expression that `path` leads to.
pub proof fn lemma_reachable_visited(s: Slots, i: ExprIdx, path: Seq<int>, fuel: nat)
    requires
        follow(s, i, path) matches Some(c) && c.0 < s.0.len(),
        fuel > path.len(),
    ensures
        expr_order(s, i, fuel).contains(Visit::Expr(follow(s, i, path)->Some_0)),
    decreases path.len(),
{
    let c = follow(s, i, path)->Some_0;
    if path.len() == 0 {
        assert(expr_order(s, i, fuel)[0] == Visit::Expr(i));
    } else {
        let kids = expr_children(s.0[i.0 as int]);
        let k = path[0];
        let f = (fuel - 1) as nat;
        lemma_reachable_visited(s, kids[k], path.drop_first(), f);
        lemma_exprs_order_contains(s, kids, f, k, Visit::Expr(c));
        let a = seq![Visit::Expr(i)];
        let b = exprs_order(s, kids, f);
        let rest = stmts_order(s, expr_stmt_children(s.0[i.0 as int]), f);
        assert(expr_order(s, i, fuel) == a + b + rest);
        let j = choose|j: int| 0 <= j < b.len() && b[j] == Visit::Expr(c);
        assert((a + b + rest)[1 + j] == Visit::Expr(c));
    }
}

/// In a pre-ordered arena every link leads to a smaller index, so a path
/// from `i` that leads somewhere is no longer than `i`.
pub proof fn lemma_preordered_paths_are_short(s: Slots, i: ExprIdx, path: Seq<int>)
    requires
        preordered(s.0),
        follow(s, i, path) is Some,
    ensures
        path.len() <= i.0,
    decreases path.len(),
{
    if path.len() > 0 {
        let kids = expr_children(s.0[i.0 as int]);
        assert(children_below(s.0[i.0 as int], i.0 as int));
        assert(kids[path[0]].0 < i.0);
        lemma_preordered_paths_are_short(s, kids[path[0]], path.drop_first());
    }
}

/// Walking an expression of a pre-ordered arena (as lowering leaves it)
/// visits every expression reachable from it through child links.
pub proof fn lemma_walk_is_complete(s: Slots, i: ExprIdx, path: Seq<int>)
    requires
        preordered(s.0),
        s.0.len() <= u32::MAX,
        follow(s, i, path) matches Some(c) && c.0 < s.0.len(),
    ensures
        expr_order(s, i, depth_budget_of(s) as nat).contains(Visit::Expr(follow(s, i, path)->Some_0)),
{
    lemma_preordered_paths_are_short(s, i, path);
    lemma_reachable_visited(s, i, path, depth_budget_of(s) as nat);
}

} // verus!
