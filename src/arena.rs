use vstd::prelude::*;

use la_arena::{Arena, Idx, RawIdx};

use crate::hir::{Expr, ExprIdx, Func, FuncIdx, Stmt, StmtIdx};

verus! {

#[verifier::external_type_specification]
#[verifier::external_body]
#[verifier::reject_recursive_types(T)]
pub struct ExArena<T>(Arena<T>);

/// What an expression arena holds, slot by slot.
pub uninterp spec fn expr_slots(a: Arena<Expr>) -> Seq<Expr>;

/// What a statement arena holds, slot by slot.
pub uninterp spec fn stmt_slots(a: Arena<Stmt>) -> Seq<Stmt>;

/// What a function arena holds, slot by slot.
pub uninterp spec fn func_slots(a: Arena<Func>) -> Seq<Func>;

/// Relies on la_arena::Arena::new: a new arena holds nothing.
#[verifier::external_body]
pub(crate) fn new_expr_arena() -> (r: Arena<Expr>)
    ensures
        expr_slots(r) == Seq::<Expr>::empty(),
{
    Arena::new()
}

/// Relies on la_arena::Arena::new: a new arena holds nothing.
#[verifier::external_body]
pub(crate) fn new_stmt_arena() -> (r: Arena<Stmt>)
    ensures
        stmt_slots(r) == Seq::<Stmt>::empty(),
{
    Arena::new()
}

/// Relies on la_arena::Arena::new: a new arena holds nothing.
#[verifier::external_body]
pub(crate) fn new_func_arena() -> (r: Arena<Func>)
    ensures
        func_slots(r) == Seq::<Func>::empty(),
{
    Arena::new()
}

/// Relies on la_arena::Arena::len: the number of values allocated.
#[verifier::external_body]
pub(crate) fn expr_count(a: &Arena<Expr>) -> (r: usize)
    ensures
        r == expr_slots(*a).len(),
{
    a.len()
}

/// Relies on la_arena::Arena::len: the number of values allocated.
#[verifier::external_body]
pub(crate) fn stmt_count(a: &Arena<Stmt>) -> (r: usize)
    ensures
        r == stmt_slots(*a).len(),
{
    a.len()
}

/// Relies on la_arena::Arena::len: the number of values allocated.
#[verifier::external_body]
pub(crate) fn func_count(a: &Arena<Func>) -> (r: usize)
    ensures
        r == func_slots(*a).len(),
{
    a.len()
}

/// Relies on la_arena::Arena::alloc: the value goes to a new last slot, whose
/// index is the former length (which fits in 32 bits here).
#[verifier::external_body]
pub(crate) fn alloc_expr(a: &mut Arena<Expr>, e: Expr) -> (r: ExprIdx)
    requires
        expr_slots(*old(a)).len() < u32::MAX,
    ensures
        expr_slots(*final(a)) == expr_slots(*old(a)).push(e),
        r.0 == expr_slots(*old(a)).len(),
{
    ExprIdx(a.alloc(e).into_raw().into_u32())
}

/// Relies on la_arena::Arena::alloc: the value goes to a new last slot, whose
/// index is the former length (which fits in 32 bits here).
#[verifier::external_body]
pub(crate) fn alloc_stmt(a: &mut Arena<Stmt>, s: Stmt) -> (r: StmtIdx)
    requires
        stmt_slots(*old(a)).len() < u32::MAX,
    ensures
        stmt_slots(*final(a)) == stmt_slots(*old(a)).push(s),
        r.0 == stmt_slots(*old(a)).len(),
{
    StmtIdx(a.alloc(s).into_raw().into_u32())
}

/// Relies on la_arena::Arena::alloc: the value goes to a new last slot, whose
/// index is the former length (which fits in 32 bits here).
#[verifier::external_body]
pub(crate) fn alloc_func(a: &mut Arena<Func>, f: Func) -> (r: FuncIdx)
    requires
        func_slots(*old(a)).len() < u32::MAX,
    ensures
        func_slots(*final(a)) == func_slots(*old(a)).push(f),
        r.0 == func_slots(*old(a)).len(),
{
    FuncIdx(a.alloc(f).into_raw().into_u32())
}

/// Relies on la_arena's `Index` impl: the value in slot `i`; it panics past
/// the end, which `requires` leaves out.
#[verifier::external_body]
pub(crate) fn expr_at(a: &Arena<Expr>, i: ExprIdx) -> (r: &Expr)
    requires
        (i.0 as int) < expr_slots(*a).len(),
    ensures
        *r == expr_slots(*a)[i.0 as int],
{
    &a[Idx::from_raw(RawIdx::from_u32(i.0))]
}

/// Relies on la_arena's `Index` impl: the value in slot `i`; it panics past
/// the end, which `requires` leaves out.
#[verifier::external_body]
pub(crate) fn stmt_at(a: &Arena<Stmt>, i: StmtIdx) -> (r: &Stmt)
    requires
        (i.0 as int) < stmt_slots(*a).len(),
    ensures
        *r == stmt_slots(*a)[i.0 as int],
{
    &a[Idx::from_raw(RawIdx::from_u32(i.0))]
}

/// Relies on la_arena's `Index` impl: the value in slot `i`; it panics past
/// the end, which `requires` leaves out.
#[verifier::external_body]
pub(crate) fn func_at(a: &Arena<Func>, i: FuncIdx) -> (r: &Func)
    requires
        (i.0 as int) < func_slots(*a).len(),
    ensures
        *r == func_slots(*a)[i.0 as int],
{
    &a[Idx::from_raw(RawIdx::from_u32(i.0))]
}

} // verus!
