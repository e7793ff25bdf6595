use vstd::prelude::*;
use vstd::utf8::encode_utf8;

use crate::number::{parse_u64, parsed_u64};
use crate::syntax::{seq_nth, tokens_in, SyntaxElement, SyntaxToken, SyntaxTree, TokenSet};
use crate::syntax_kind::SyntaxKind;

verus! {

/// A typed view of a syntax node of kind `Root`.
#[derive(Debug, Clone, Copy, PartialEq, Eq, Structural)]
pub struct Root(pub usize);

impl Root {
    pub fn can_cast(kind: SyntaxKind) -> (r: bool)
        ensures
            r == (kind == SyntaxKind::Root),
    {
        kind == SyntaxKind::Root
    }

    /// A view of `node` where its kind is `Root`; nothing otherwise.
    pub fn cast(tree: &SyntaxTree, node: usize) -> (r: Option<Root>)
        requires
            tree.has(node as int),
        ensures
            r == (if tree.kind_of(node as int) == SyntaxKind::Root {
                Some(Root(node))
            } else {
                None
            }),
    {
        if tree.kind(node) == SyntaxKind::Root {
            Some(Root(node))
        } else {
            None
        }
    }

    pub fn syntax(&self) -> (r: usize)
        ensures
            r == self.0,
    {
        self.0
    }
}

/// A typed view of a syntax node of kind `FuncDef`.
#[derive(Debug, Clone, Copy, PartialEq, Eq, Structural)]
pub struct FuncDef(pub usize);

impl FuncDef {
    pub fn can_cast(kind: SyntaxKind) -> (r: bool)
        ensures
            r == (kind == SyntaxKind::FuncDef),
    {
        kind == SyntaxKind::FuncDef
    }

    /// A view of `node` where its kind is `FuncDef`; nothing otherwise.
    pub fn cast(tree: &SyntaxTree, node: usize) -> (r: Option<FuncDef>)
        requires
            tree.has(node as int),
        ensures
            r == (if tree.kind_of(node as int) == SyntaxKind::FuncDef {
                Some(FuncDef(node))
            } else {
                None
            }),
    {
        if tree.kind(node) == SyntaxKind::FuncDef {
            Some(FuncDef(node))
        } else {
            None
        }
    }

    pub fn syntax(&self) -> (r: usize)
        ensures
            r == self.0,
    {
        self.0
    }
}

/// A typed view of a syntax node of kind `LetStmt`.
#[derive(Debug, Clone, Copy, PartialEq, Eq, Structural)]
pub struct LetStmt(pub usize);

impl LetStmt {
    pub fn can_cast(kind: SyntaxKind) -> (r: bool)
        ensures
            r == (kind == SyntaxKind::LetStmt),
    {
        kind == SyntaxKind::LetStmt
    }

    /// A view of `node` where its kind is `LetStmt`; nothing otherwise.
    pub fn cast(tree: &SyntaxTree, node: usize) -> (r: Option<LetStmt>)
        requires
            tree.has(node as int),
        ensures
            r == (if tree.kind_of(node as int) == SyntaxKind::LetStmt {
                Some(LetStmt(node))
            } else {
                None
            }),
    {
        if tree.kind(node) == SyntaxKind::LetStmt {
            Some(LetStmt(node))
        } else {
            None
        }
    }

    pub fn syntax(&self) -> (r: usize)
        ensures
            r == self.0,
    {
        self.0
    }
}

/// A typed view of a syntax node of kind `WhileStmt`.
#[derive(Debug, Clone, Copy, PartialEq, Eq, Structural)]
pub struct WhileStmt(pub usize);

impl WhileStmt {
    pub fn can_cast(kind: SyntaxKind) -> (r: bool)
        ensures
            r == (kind == SyntaxKind::WhileStmt),
    {
        kind == SyntaxKind::WhileStmt
    }

    /// A view of `node` where its kind is `WhileStmt`; nothing otherwise.
    pub fn cast(tree: &SyntaxTree, node: usize) -> (r: Option<WhileStmt>)
        requires
            tree.has(node as int),
        ensures
            r == (if tree.kind_of(node as int) == SyntaxKind::WhileStmt {
                Some(WhileStmt(node))
            } else {
                None
            }),
    {
        if tree.kind(node) == SyntaxKind::WhileStmt {
            Some(WhileStmt(node))
        } else {
            None
        }
    }

    pub fn syntax(&self) -> (r: usize)
        ensures
            r == self.0,
    {
        self.0
    }
}

/// A typed view of a syntax node of kind `BreakStmt`.
#[derive(Debug, Clone, Copy, PartialEq, Eq, Structural)]
pub struct BreakStmt(pub usize);

impl BreakStmt {
    pub fn can_cast(kind: SyntaxKind) -> (r: bool)
        ensures
            r == (kind == SyntaxKind::BreakStmt),
    {
        kind == SyntaxKind::BreakStmt
    }

    /// A view of `node` where its kind is `BreakStmt`; nothing otherwise.
    pub fn cast(tree: &SyntaxTree, node: usize) -> (r: Option<BreakStmt>)
        requires
            tree.has(node as int),
        ensures
            r == (if tree.kind_of(node as int) == SyntaxKind::BreakStmt {
                Some(BreakStmt(node))
            } else {
                None
            }),
    {
        if tree.kind(node) == SyntaxKind::BreakStmt {
            Some(BreakStmt(node))
        } else {
            None
        }
    }

    pub fn syntax(&self) -> (r: usize)
        ensures
            r == self.0,
    {
        self.0
    }
}

/// A typed view of a syntax node of kind `ExprStmt`.
#[derive(Debug, Clone, Copy, PartialEq, Eq, Structural)]
pub struct ExprStmt(pub usize);

impl ExprStmt {
    pub fn can_cast(kind: SyntaxKind) -> (r: bool)
        ensures
            r == (kind == SyntaxKind::ExprStmt),
    {
        kind == SyntaxKind::ExprStmt
    }

    /// A view of `node` where its kind is `ExprStmt`; nothing otherwise.
    pub fn cast(tree: &SyntaxTree, node: usize) -> (r: Option<ExprStmt>)
        requires
            tree.has(node as int),
        ensures
            r == (if tree.kind_of(node as int) == SyntaxKind::ExprStmt {
                Some(ExprStmt(node))
            } else {
                None
            }),
    {
        if tree.kind(node) == SyntaxKind::ExprStmt {
            Some(ExprStmt(node))
        } else {
            None
        }
    }

    pub fn syntax(&self) -> (r: usize)
        ensures
            r == self.0,
    {
        self.0
    }
}

/// A typed view of a syntax node of kind `BinaryExpr`.
#[derive(Debug, Clone, Copy, PartialEq, Eq, Structural)]
pub struct BinaryExpr(pub usize);

impl BinaryExpr {
    pub fn can_cast(kind: SyntaxKind) -> (r: bool)
        ensures
            r == (kind == SyntaxKind::BinaryExpr),
    {
        kind == SyntaxKind::BinaryExpr
    }

    /// A view of `node` where its kind is `BinaryExpr`; nothing otherwise.
    pub fn cast(tree: &SyntaxTree, node: usize) -> (r: Option<BinaryExpr>)
        requires
            tree.has(node as int),
        ensures
            r == (if tree.kind_of(node as int) == SyntaxKind::BinaryExpr {
                Some(BinaryExpr(node))
            } else {
                None
            }),
    {
        if tree.kind(node) == SyntaxKind::BinaryExpr {
            Some(BinaryExpr(node))
        } else {
            None
        }
    }

    pub fn syntax(&self) -> (r: usize)
        ensures
            r == self.0,
    {
        self.0
    }
}

/// A typed view of a syntax node of kind `PrefixExpr`.
#[derive(Debug, Clone, Copy, PartialEq, Eq, Structural)]
pub struct PrefixExpr(pub usize);

impl PrefixExpr {
    pub fn can_cast(kind: SyntaxKind) -> (r: bool)
        ensures
            r == (kind == SyntaxKind::PrefixExpr),
    {
        kind == SyntaxKind::PrefixExpr
    }

    /// A view of `node` where its kind is `PrefixExpr`; nothing otherwise.
    pub fn cast(tree: &SyntaxTree, node: usize) -> (r: Option<PrefixExpr>)
        requires
            tree.has(node as int),
        ensures
            r == (if tree.kind_of(node as int) == SyntaxKind::PrefixExpr {
                Some(PrefixExpr(node))
            } else {
                None
            }),
    {
        if tree.kind(node) == SyntaxKind::PrefixExpr {
            Some(PrefixExpr(node))
        } else {
            None
        }
    }

    pub fn syntax(&self) -> (r: usize)
        ensures
            r == self.0,
    {
        self.0
    }
}

/// A typed view of a syntax node of kind `ParenExpr`.
#[derive(Debug, Clone, Copy, PartialEq, Eq, Structural)]
pub struct ParenExpr(pub usize);

impl ParenExpr {
    pub fn can_cast(kind: SyntaxKind) -> (r: bool)
        ensures
            r == (kind == SyntaxKind::ParenExpr),
    {
        kind == SyntaxKind::ParenExpr
    }

    /// A view of `node` where its kind is `ParenExpr`; nothing otherwise.
    pub fn cast(tree: &SyntaxTree, node: usize) -> (r: Option<ParenExpr>)
        requires
            tree.has(node as int),
        ensures
            r == (if tree.kind_of(node as int) == SyntaxKind::ParenExpr {
                Some(ParenExpr(node))
            } else {
                None
            }),
    {
        if tree.kind(node) == SyntaxKind::ParenExpr {
            Some(ParenExpr(node))
        } else {
            None
        }
    }

    pub fn syntax(&self) -> (r: usize)
        ensures
            r == self.0,
    {
        self.0
    }
}

/// A typed view of a syntax node of kind `RefExpr`.
#[derive(Debug, Clone, Copy, PartialEq, Eq, Structural)]
pub struct RefExpr(pub usize);

impl RefExpr {
    pub fn can_cast(kind: SyntaxKind) -> (r: bool)
        ensures
            r == (kind == SyntaxKind::RefExpr),
    {
        kind == SyntaxKind::RefExpr
    }

    /// A view of `node` where its kind is `RefExpr`; nothing otherwise.
    pub fn cast(tree: &SyntaxTree, node: usize) -> (r: Option<RefExpr>)
        requires
            tree.has(node as int),
        ensures
            r == (if tree.kind_of(node as int) == SyntaxKind::RefExpr {
                Some(RefExpr(node))
            } else {
                None
            }),
    {
        if tree.kind(node) == SyntaxKind::RefExpr {
            Some(RefExpr(node))
        } else {
            None
        }
    }

    pub fn syntax(&self) -> (r: usize)
        ensures
            r == self.0,
    {
        self.0
    }
}

/// A typed view of a syntax node of kind `IfExpr`.
#[derive(Debug, Clone, Copy, PartialEq, Eq, Structural)]
pub struct IfExpr(pub usize);

impl IfExpr {
    pub fn can_cast(kind: SyntaxKind) -> (r: bool)
        ensures
            r == (kind == SyntaxKind::IfExpr),
    {
        kind == SyntaxKind::IfExpr
    }

    /// A view of `node` where its kind is `IfExpr`; nothing otherwise.
    pub fn cast(tree: &SyntaxTree, node: usize) -> (r: Option<IfExpr>)
        requires
            tree.has(node as int),
        ensures
            r == (if tree.kind_of(node as int) == SyntaxKind::IfExpr {
                Some(IfExpr(node))
            } else {
                None
            }),
    {
        if tree.kind(node) == SyntaxKind::IfExpr {
            Some(IfExpr(node))
        } else {
            None
        }
    }

    pub fn syntax(&self) -> (r: usize)
        ensures
            r == self.0,
    {
        self.0
    }
}

/// A typed view of a syntax node of kind `FnCallExpr`.
#[derive(Debug, Clone, Copy, PartialEq, Eq, Structural)]
pub struct FnCallExpr(pub usize);

impl FnCallExpr {
    pub fn can_cast(kind: SyntaxKind) -> (r: bool)
        ensures
            r == (kind == SyntaxKind::FnCallExpr),
    {
        kind == SyntaxKind::FnCallExpr
    }

    /// A view of `node` where its kind is `FnCallExpr`; nothing otherwise.
    pub fn cast(tree: &SyntaxTree, node: usize) -> (r: Option<FnCallExpr>)
        requires
            tree.has(node as int),
        ensures
            r == (if tree.kind_of(node as int) == SyntaxKind::FnCallExpr {
                Some(FnCallExpr(node))
            } else {
                None
            }),
    {
        if tree.kind(node) == SyntaxKind::FnCallExpr {
            Some(FnCallExpr(node))
        } else {
            None
        }
    }

    pub fn syntax(&self) -> (r: usize)
        ensures
            r == self.0,
    {
        self.0
    }
}

/// A typed view of a syntax node of kind `BlockExpr`.
#[derive(Debug, Clone, Copy, PartialEq, Eq, Structural)]
pub struct BlockExpr(pub usize);

impl BlockExpr {
    pub fn can_cast(kind: SyntaxKind) -> (r: bool)
        ensures
            r == (kind == SyntaxKind::BlockExpr),
    {
        kind == SyntaxKind::BlockExpr
    }

    /// A view of `node` where its kind is `BlockExpr`; nothing otherwise.
    pub fn cast(tree: &SyntaxTree, node: usize) -> (r: Option<BlockExpr>)
        requires
            tree.has(node as int),
        ensures
            r == (if tree.kind_of(node as int) == SyntaxKind::BlockExpr {
                Some(BlockExpr(node))
            } else {
                None
            }),
    {
        if tree.kind(node) == SyntaxKind::BlockExpr {
            Some(BlockExpr(node))
        } else {
            None
        }
    }

    pub fn syntax(&self) -> (r: usize)
        ensures
            r == self.0,
    {
        self.0
    }
}

/// A typed view of a syntax node of kind `Literal`.
#[derive(Debug, Clone, Copy, PartialEq, Eq, Structural)]
pub struct Literal(pub usize);

impl Literal {
    pub fn can_cast(kind: SyntaxKind) -> (r: bool)
        ensures
            r == (kind == SyntaxKind::Literal),
    {
        kind == SyntaxKind::Literal
    }

    /// A view of `node` where its kind is `Literal`; nothing otherwise.
    pub fn cast(tree: &SyntaxTree, node: usize) -> (r: Option<Literal>)
        requires
            tree.has(node as int),
        ensures
            r == (if tree.kind_of(node as int) == SyntaxKind::Literal {
                Some(Literal(node))
            } else {
                None
            }),
    {
        if tree.kind(node) == SyntaxKind::Literal {
            Some(Literal(node))
        } else {
            None
        }
    }

    pub fn syntax(&self) -> (r: usize)
        ensures
            r == self.0,
    {
        self.0
    }
}

/// A typed view of a syntax node of kind `TypedIdent`.
#[derive(Debug, Clone, Copy, PartialEq, Eq, Structural)]
pub struct TypedIdent(pub usize);

impl TypedIdent {
    pub fn can_cast(kind: SyntaxKind) -> (r: bool)
        ensures
            r == (kind == SyntaxKind::TypedIdent),
    {
        kind == SyntaxKind::TypedIdent
    }

    /// A view of `node` where its kind is `TypedIdent`; nothing otherwise.
    pub fn cast(tree: &SyntaxTree, node: usize) -> (r: Option<TypedIdent>)
        requires
            tree.has(node as int),
        ensures
            r == (if tree.kind_of(node as int) == SyntaxKind::TypedIdent {
                Some(TypedIdent(node))
            } else {
                None
            }),
    {
        if tree.kind(node) == SyntaxKind::TypedIdent {
            Some(TypedIdent(node))
        } else {
            None
        }
    }

    pub fn syntax(&self) -> (r: usize)
        ensures
            r == self.0,
    {
        self.0
    }
}

/// A typed view of a syntax node whose kind is one of the `Stmt` shapes.
#[derive(Debug, Clone, Copy, PartialEq, Eq, Structural)]
pub enum Stmt {
    LetStmt(LetStmt),
    WhileStmt(WhileStmt),
    BreakStmt(BreakStmt),
    ExprStmt(ExprStmt),
    FuncDef(FuncDef),
}

/// The kinds that a `Stmt` view may have.
pub open spec fn is_stmt_kind(k: SyntaxKind) -> bool {
    k == SyntaxKind::LetStmt || k == SyntaxKind::WhileStmt || k == SyntaxKind::BreakStmt || k == SyntaxKind::ExprStmt || k == SyntaxKind::FuncDef
}

/// What casting node `id` to `Stmt` gives: the member whose kind the node has.
pub open spec fn stmt_at(t: &SyntaxTree, id: usize) -> Option<Stmt> {
    match t.kind_of(id as int) {
        SyntaxKind::LetStmt => Some(Stmt::LetStmt(LetStmt(id))),
        SyntaxKind::WhileStmt => Some(Stmt::WhileStmt(WhileStmt(id))),
        SyntaxKind::BreakStmt => Some(Stmt::BreakStmt(BreakStmt(id))),
        SyntaxKind::ExprStmt => Some(Stmt::ExprStmt(ExprStmt(id))),
        SyntaxKind::FuncDef => Some(Stmt::FuncDef(FuncDef(id))),
        _ => None,
    }
}

impl Stmt {
    pub open spec fn node(self) -> usize {
        match self {
            Stmt::LetStmt(v) => v.0,
            Stmt::WhileStmt(v) => v.0,
            Stmt::BreakStmt(v) => v.0,
            Stmt::ExprStmt(v) => v.0,
            Stmt::FuncDef(v) => v.0,
        }
    }

    pub fn can_cast(kind: SyntaxKind) -> (r: bool)
        ensures
            r == is_stmt_kind(kind),
    {
        matches!(kind, SyntaxKind::LetStmt | SyntaxKind::WhileStmt | SyntaxKind::BreakStmt | SyntaxKind::ExprStmt | SyntaxKind::FuncDef)
    }

    pub fn cast(tree: &SyntaxTree, node: usize) -> (r: Option<Stmt>)
        requires
            tree.has(node as int),
        ensures
            r == stmt_at(tree, node),
    {
        match tree.kind(node) {
            SyntaxKind::LetStmt => Some(Stmt::LetStmt(LetStmt(node))),
            SyntaxKind::WhileStmt => Some(Stmt::WhileStmt(WhileStmt(node))),
            SyntaxKind::BreakStmt => Some(Stmt::BreakStmt(BreakStmt(node))),
            SyntaxKind::ExprStmt => Some(Stmt::ExprStmt(ExprStmt(node))),
            SyntaxKind::FuncDef => Some(Stmt::FuncDef(FuncDef(node))),
            _ => None,
        }
    }

    pub fn syntax(&self) -> (r: usize)
        ensures
            r == self.node(),
    {
        match self {
            Stmt::LetStmt(v) => v.0,
            Stmt::WhileStmt(v) => v.0,
            Stmt::BreakStmt(v) => v.0,
            Stmt::ExprStmt(v) => v.0,
            Stmt::FuncDef(v) => v.0,
        }
    }
}

/// A typed view of a syntax node whose kind is one of the `Expr` shapes.
#[derive(Debug, Clone, Copy, PartialEq, Eq, Structural)]
pub enum Expr {
    BinaryExpr(BinaryExpr),
    PrefixExpr(PrefixExpr),
    ParenExpr(ParenExpr),
    RefExpr(RefExpr),
    IfExpr(IfExpr),
    FnCallExpr(FnCallExpr),
    BlockExpr(BlockExpr),
    Literal(Literal),
}

/// The kinds that a `Expr` view may have.
pub open spec fn is_expr_kind(k: SyntaxKind) -> bool {
    k == SyntaxKind::BinaryExpr || k == SyntaxKind::PrefixExpr || k == SyntaxKind::ParenExpr || k == SyntaxKind::RefExpr || k == SyntaxKind::IfExpr || k == SyntaxKind::FnCallExpr || k == SyntaxKind::BlockExpr || k == SyntaxKind::Literal
}

/// What casting node `id` to `Expr` gives: the member whose kind the node has.
pub open spec fn expr_at(t: &SyntaxTree, id: usize) -> Option<Expr> {
    match t.kind_of(id as int) {
        SyntaxKind::BinaryExpr => Some(Expr::BinaryExpr(BinaryExpr(id))),
        SyntaxKind::PrefixExpr => Some(Expr::PrefixExpr(PrefixExpr(id))),
        SyntaxKind::ParenExpr => Some(Expr::ParenExpr(ParenExpr(id))),
        SyntaxKind::RefExpr => Some(Expr::RefExpr(RefExpr(id))),
        SyntaxKind::IfExpr => Some(Expr::IfExpr(IfExpr(id))),
        SyntaxKind::FnCallExpr => Some(Expr::FnCallExpr(FnCallExpr(id))),
        SyntaxKind::BlockExpr => Some(Expr::BlockExpr(BlockExpr(id))),
        SyntaxKind::Literal => Some(Expr::Literal(Literal(id))),
        _ => None,
    }
}

impl Expr {
    pub open spec fn node(self) -> usize {
        match self {
            Expr::BinaryExpr(v) => v.0,
            Expr::PrefixExpr(v) => v.0,
            Expr::ParenExpr(v) => v.0,
            Expr::RefExpr(v) => v.0,
            Expr::IfExpr(v) => v.0,
            Expr::FnCallExpr(v) => v.0,
            Expr::BlockExpr(v) => v.0,
            Expr::Literal(v) => v.0,
        }
    }

    pub fn can_cast(kind: SyntaxKind) -> (r: bool)
        ensures
            r == is_expr_kind(kind),
    {
        matches!(kind, SyntaxKind::BinaryExpr | SyntaxKind::PrefixExpr | SyntaxKind::ParenExpr | SyntaxKind::RefExpr | SyntaxKind::IfExpr | SyntaxKind::FnCallExpr | SyntaxKind::BlockExpr | SyntaxKind::Literal)
    }

    pub fn cast(tree: &SyntaxTree, node: usize) -> (r: Option<Expr>)
        requires
            tree.has(node as int),
        ensures
            r == expr_at(tree, node),
    {
        match tree.kind(node) {
            SyntaxKind::BinaryExpr => Some(Expr::BinaryExpr(BinaryExpr(node))),
            SyntaxKind::PrefixExpr => Some(Expr::PrefixExpr(PrefixExpr(node))),
            SyntaxKind::ParenExpr => Some(Expr::ParenExpr(ParenExpr(node))),
            SyntaxKind::RefExpr => Some(Expr::RefExpr(RefExpr(node))),
            SyntaxKind::IfExpr => Some(Expr::IfExpr(IfExpr(node))),
            SyntaxKind::FnCallExpr => Some(Expr::FnCallExpr(FnCallExpr(node))),
            SyntaxKind::BlockExpr => Some(Expr::BlockExpr(BlockExpr(node))),
            SyntaxKind::Literal => Some(Expr::Literal(Literal(node))),
            _ => None,
        }
    }

    pub fn syntax(&self) -> (r: usize)
        ensures
            r == self.node(),
    {
        match self {
            Expr::BinaryExpr(v) => v.0,
            Expr::PrefixExpr(v) => v.0,
            Expr::ParenExpr(v) => v.0,
            Expr::RefExpr(v) => v.0,
            Expr::IfExpr(v) => v.0,
            Expr::FnCallExpr(v) => v.0,
            Expr::BlockExpr(v) => v.0,
            Expr::Literal(v) => v.0,
        }
    }
}

/// The child nodes among `es` that cast to `Expr`, in order.
pub open spec fn exprs_in(t: &SyntaxTree, es: Seq<SyntaxElement>) -> Seq<Expr>
    decreases es.len(),
{
    if es.len() == 0 {
        seq![]
    } else {
        let rest = exprs_in(t, es.drop_last());
        match es.last() {
            SyntaxElement::Node(c) => if t.has(c as int) {
                match expr_at(t, c) {
                    Some(v) => rest.push(v),
                    None => rest,
                }
            } else {
                rest
            },
            SyntaxElement::Token(_) => rest,
        }
    }
}

/// The child nodes among `es` that cast to `Stmt`, in order.
pub open spec fn stmts_in(t: &SyntaxTree, es: Seq<SyntaxElement>) -> Seq<Stmt>
    decreases es.len(),
{
    if es.len() == 0 {
        seq![]
    } else {
        let rest = stmts_in(t, es.drop_last());
        match es.last() {
            SyntaxElement::Node(c) => if t.has(c as int) {
                match stmt_at(t, c) {
                    Some(v) => rest.push(v),
                    None => rest,
                }
            } else {
                rest
            },
            SyntaxElement::Token(_) => rest,
        }
    }
}

/// The child nodes among `es` that cast to `TypedIdent`, in order.
pub open spec fn typed_idents_in(t: &SyntaxTree, es: Seq<SyntaxElement>) -> Seq<TypedIdent>
    decreases es.len(),
{
    if es.len() == 0 {
        seq![]
    } else {
        let rest = typed_idents_in(t, es.drop_last());
        match es.last() {
            SyntaxElement::Node(c) => if t.has(c as int) {
                match (if t.kind_of(c as int) == SyntaxKind::TypedIdent { Some(TypedIdent(c)) } else { None }) {
                    Some(v) => rest.push(v),
                    None => rest,
                }
            } else {
                rest
            },
            SyntaxElement::Token(_) => rest,
        }
    }
}
/// The ids of the child nodes among `es` of kind `ParamList`, in order.
pub open spec fn param_lists_in(t: &SyntaxTree, es: Seq<SyntaxElement>) -> Seq<usize>
    decreases es.len(),
{
    if es.len() == 0 {
        seq![]
    } else {
        let rest = param_lists_in(t, es.drop_last());
        match es.last() {
            SyntaxElement::Node(c) => if t.has(c as int) && t.kind_of(c as int)
                == SyntaxKind::ParamList {
                rest.push(c)
            } else {
                rest
            },
            SyntaxElement::Token(_) => rest,
        }
    }
}

/// The `TypedIdent` children of the `ParamList` nodes `pls`, list after list.
pub open spec fn params_in(t: &SyntaxTree, pls: Seq<usize>) -> Seq<TypedIdent>
    decreases pls.len(),
{
    if pls.len() == 0 {
        seq![]
    } else {
        params_in(t, pls.drop_last()) + child_typed_idents(t, pls.last())
    }
}

pub open spec fn child_exprs(t: &SyntaxTree, id: usize) -> Seq<Expr> {
    exprs_in(t, t.elems(id as int))
}

pub open spec fn child_stmts(t: &SyntaxTree, id: usize) -> Seq<Stmt> {
    stmts_in(t, t.elems(id as int))
}

pub open spec fn child_typed_idents(t: &SyntaxTree, id: usize) -> Seq<TypedIdent> {
    typed_idents_in(t, t.elems(id as int))
}

pub open spec fn child_idents(t: &SyntaxTree, id: usize) -> Seq<SyntaxToken> {
    tokens_in(t.elems(id as int), TokenSet::Ident)
}

/// The `n`-th identifier token of the first `TypedIdent` child of node `id`.
pub open spec fn typed_ident_part(t: &SyntaxTree, id: usize, n: int) -> Option<SyntaxToken> {
    match seq_nth(child_typed_idents(t, id), 0) {
        Some(ti) => seq_nth(child_idents(t, ti.0), n),
        None => None,
    }
}

/// What reading the text of the first token of node `id` as an unsigned
/// decimal numeral gives.
pub open spec fn literal_value(t: &SyntaxTree, id: usize) -> Option<u64> {
    match t.first_token(id as int) {
        Some(tok) => parsed_u64(encode_utf8(tok.text@)),
        None => None,
    }
}

pub open spec fn children_after(t: &SyntaxTree, es: Seq<SyntaxElement>, lo: int) -> bool {
    forall|j: int| 0 <= j < es.len() ==> #[trigger] crate::syntax::child_after(es[j], lo, t.nodes@.len() as int)
}

pub proof fn lemma_exprs_in_after(t: &SyntaxTree, es: Seq<SyntaxElement>, lo: int)
    requires
        children_after(t, es, lo),
    ensures
        forall|i: int|
            0 <= i < exprs_in(t, es).len() ==> lo < #[trigger] exprs_in(t, es)[i].node() < t.nodes@.len(),
    decreases es.len(),
{
    if es.len() > 0 {
        let pre = es.drop_last();
        assert forall|j: int| 0 <= j < pre.len() implies #[trigger] crate::syntax::child_after(
            pre[j],
            lo,
            t.nodes@.len() as int,
        ) by {
            assert(crate::syntax::child_after(es[j], lo, t.nodes@.len() as int));
        }
        assert(crate::syntax::child_after(es[es.len() - 1], lo, t.nodes@.len() as int));
        lemma_exprs_in_after(t, pre, lo);
        let r = exprs_in(t, es);
        assert forall|i: int| 0 <= i < r.len() implies lo < #[trigger] r[i].node() < t.nodes@.len() by {
            if i < exprs_in(t, pre).len() {
                assert(r[i] == exprs_in(t, pre)[i]);
            }
        }
    }
}

pub proof fn lemma_stmts_in_after(t: &SyntaxTree, es: Seq<SyntaxElement>, lo: int)
    requires
        children_after(t, es, lo),
    ensures
        forall|i: int|
            0 <= i < stmts_in(t, es).len() ==> lo < #[trigger] stmts_in(t, es)[i].node() < t.nodes@.len(),
    decreases es.len(),
{
    if es.len() > 0 {
        let pre = es.drop_last();
        assert forall|j: int| 0 <= j < pre.len() implies #[trigger] crate::syntax::child_after(
            pre[j],
            lo,
            t.nodes@.len() as int,
        ) by {
            assert(crate::syntax::child_after(es[j], lo, t.nodes@.len() as int));
        }
        assert(crate::syntax::child_after(es[es.len() - 1], lo, t.nodes@.len() as int));
        lemma_stmts_in_after(t, pre, lo);
        let r = stmts_in(t, es);
        assert forall|i: int| 0 <= i < r.len() implies lo < #[trigger] r[i].node() < t.nodes@.len() by {
            if i < stmts_in(t, pre).len() {
                assert(r[i] == stmts_in(t, pre)[i]);
            }
        }
    }
}

pub proof fn lemma_typed_idents_in_after(t: &SyntaxTree, es: Seq<SyntaxElement>, lo: int)
    requires
        children_after(t, es, lo),
    ensures
        forall|i: int|
            0 <= i < typed_idents_in(t, es).len() ==> lo < #[trigger] typed_idents_in(t, es)[i].0
                < t.nodes@.len(),
    decreases es.len(),
{
    if es.len() > 0 {
        let pre = es.drop_last();
        assert forall|j: int| 0 <= j < pre.len() implies #[trigger] crate::syntax::child_after(
            pre[j],
            lo,
            t.nodes@.len() as int,
        ) by {
            assert(crate::syntax::child_after(es[j], lo, t.nodes@.len() as int));
        }
        assert(crate::syntax::child_after(es[es.len() - 1], lo, t.nodes@.len() as int));
        lemma_typed_idents_in_after(t, pre, lo);
        let r = typed_idents_in(t, es);
        assert forall|i: int| 0 <= i < r.len() implies lo < #[trigger] r[i].0 < t.nodes@.len() by {
            if i < typed_idents_in(t, pre).len() {
                assert(r[i] == typed_idents_in(t, pre)[i]);
            }
        }
    }
}

pub proof fn lemma_param_lists_in_after(t: &SyntaxTree, es: Seq<SyntaxElement>, lo: int)
    requires
        children_after(t, es, lo),
    ensures
        forall|i: int|
            0 <= i < param_lists_in(t, es).len() ==> lo < #[trigger] param_lists_in(t, es)[i]
                < t.nodes@.len(),
    decreases es.len(),
{
    if es.len() > 0 {
        let pre = es.drop_last();
        assert forall|j: int| 0 <= j < pre.len() implies #[trigger] crate::syntax::child_after(
            pre[j],
            lo,
            t.nodes@.len() as int,
        ) by {
            assert(crate::syntax::child_after(es[j], lo, t.nodes@.len() as int));
        }
        assert(crate::syntax::child_after(es[es.len() - 1], lo, t.nodes@.len() as int));
        lemma_param_lists_in_after(t, pre, lo);
        let r = param_lists_in(t, es);
        assert forall|i: int| 0 <= i < r.len() implies lo < #[trigger] r[i] < t.nodes@.len() by {
            if i < param_lists_in(t, pre).len() {
                assert(r[i] == param_lists_in(t, pre)[i]);
            }
        }
    }
}

/// In a well-formed tree every typed child of node `id` lies after it.
pub proof fn lemma_children_after(t: &SyntaxTree, id: usize)
    requires
        t.wf(),
        t.has(id as int),
    ensures
        forall|i: int|
            0 <= i < child_exprs(t, id).len() ==> id < #[trigger] child_exprs(t, id)[i].node()
                < t.nodes@.len(),
        forall|i: int|
            0 <= i < child_stmts(t, id).len() ==> id < #[trigger] child_stmts(t, id)[i].node()
                < t.nodes@.len(),
        forall|i: int|
            0 <= i < child_typed_idents(t, id).len() ==> id < #[trigger] child_typed_idents(
                t,
                id,
            )[i].0 < t.nodes@.len(),
        forall|i: int|
            0 <= i < param_lists_in(t, t.elems(id as int)).len() ==> id < #[trigger] param_lists_in(
                t,
                t.elems(id as int),
            )[i] < t.nodes@.len(),
{
    let es = t.elems(id as int);
    assert forall|j: int| 0 <= j < es.len() implies #[trigger] crate::syntax::child_after(
        es[j],
        id as int,
        t.nodes@.len() as int,
    ) by {
        assert(crate::syntax::child_after(t.nodes@[id as int].elements@[j], id as int, t.nodes@.len() as int));
    }
    lemma_exprs_in_after(t, es, id as int);
    lemma_stmts_in_after(t, es, id as int);
    lemma_typed_idents_in_after(t, es, id as int);
    lemma_param_lists_in_after(t, es, id as int);
}

/// The children of node `id` that cast to `Expr`, in order.
fn expr_children(tree: &SyntaxTree, id: usize) -> (r: Vec<Expr>)
    requires
        tree.wf(),
        tree.has(id as int),
    ensures
        r@ == child_exprs(tree, id),
{
    let es = &tree.nodes[id].elements;
    let mut r: Vec<Expr> = Vec::new();
    let mut i: usize = 0;
    while i < es.len()
        invariant
            tree.wf(),
            tree.has(id as int),
            es@ == tree.elems(id as int),
            i <= es@.len(),
            r@ == exprs_in(tree, es@.take(i as int)),
        decreases es@.len() - i,
    {
        assert(es@.take(i as int + 1).drop_last() == es@.take(i as int));
        match &es[i] {
            SyntaxElement::Node(c) => {
                assert(crate::syntax::child_after(tree.nodes@[id as int].elements@[i as int], id as int, tree.nodes@.len() as int));
                match Expr::cast(tree, *c) {
                    Some(e) => r.push(e),
                    None => {},
                }
            },
            SyntaxElement::Token(_) => {},
        }
        i = i + 1;
    }
    assert(es@.take(es@.len() as int) == es@);
    r
}

/// The children of node `id` that cast to `Stmt`, in order.
fn stmt_children(tree: &SyntaxTree, id: usize) -> (r: Vec<Stmt>)
    requires
        tree.wf(),
        tree.has(id as int),
    ensures
        r@ == child_stmts(tree, id),
{
    let es = &tree.nodes[id].elements;
    let mut r: Vec<Stmt> = Vec::new();
    let mut i: usize = 0;
    while i < es.len()
        invariant
            tree.wf(),
            tree.has(id as int),
            es@ == tree.elems(id as int),
            i <= es@.len(),
            r@ == stmts_in(tree, es@.take(i as int)),
        decreases es@.len() - i,
    {
        assert(es@.take(i as int + 1).drop_last() == es@.take(i as int));
        match &es[i] {
            SyntaxElement::Node(c) => {
                assert(crate::syntax::child_after(tree.nodes@[id as int].elements@[i as int], id as int, tree.nodes@.len() as int));
                match Stmt::cast(tree, *c) {
                    Some(s) => r.push(s),
                    None => {},
                }
            },
            SyntaxElement::Token(_) => {},
        }
        i = i + 1;
    }
    assert(es@.take(es@.len() as int) == es@);
    r
}

/// The children of node `id` that cast to `TypedIdent`, in order.
fn typed_ident_children(tree: &SyntaxTree, id: usize) -> (r: Vec<TypedIdent>)
    requires
        tree.wf(),
        tree.has(id as int),
    ensures
        r@ == child_typed_idents(tree, id),
{
    let es = &tree.nodes[id].elements;
    let mut r: Vec<TypedIdent> = Vec::new();
    let mut i: usize = 0;
    while i < es.len()
        invariant
            tree.wf(),
            tree.has(id as int),
            es@ == tree.elems(id as int),
            i <= es@.len(),
            r@ == typed_idents_in(tree, es@.take(i as int)),
        decreases es@.len() - i,
    {
        assert(es@.take(i as int + 1).drop_last() == es@.take(i as int));
        match &es[i] {
            SyntaxElement::Node(c) => {
                assert(crate::syntax::child_after(tree.nodes@[id as int].elements@[i as int], id as int, tree.nodes@.len() as int));
                match TypedIdent::cast(tree, *c) {
                    Some(v) => r.push(v),
                    None => {},
                }
            },
            SyntaxElement::Token(_) => {},
        }
        i = i + 1;
    }
    assert(es@.take(es@.len() as int) == es@);
    r
}

/// The ids of the children of node `id` of kind `ParamList`, in order.
fn param_list_children(tree: &SyntaxTree, id: usize) -> (r: Vec<usize>)
    requires
        tree.wf(),
        tree.has(id as int),
    ensures
        r@ == param_lists_in(tree, tree.elems(id as int)),
{
    let es = &tree.nodes[id].elements;
    let mut r: Vec<usize> = Vec::new();
    let mut i: usize = 0;
    while i < es.len()
        invariant
            tree.wf(),
            tree.has(id as int),
            es@ == tree.elems(id as int),
            i <= es@.len(),
            r@ == param_lists_in(tree, es@.take(i as int)),
        decreases es@.len() - i,
    {
        assert(es@.take(i as int + 1).drop_last() == es@.take(i as int));
        match &es[i] {
            SyntaxElement::Node(c) => {
                assert(crate::syntax::child_after(tree.nodes@[id as int].elements@[i as int], id as int, tree.nodes@.len() as int));
                if tree.kind(*c) == SyntaxKind::ParamList {
                    r.push(*c);
                }
            },
            SyntaxElement::Token(_) => {},
        }
        i = i + 1;
    }
    assert(es@.take(es@.len() as int) == es@);
    r
}

/// The `n`-th child of node `id` that casts to `Expr`.
fn nth_expr(tree: &SyntaxTree, id: usize, n: usize) -> (r: Option<Expr>)
    requires
        tree.wf(),
        tree.has(id as int),
    ensures
        r == seq_nth(child_exprs(tree, id), n as int),
{
    let es = expr_children(tree, id);
    if n < es.len() {
        Some(es[n])
    } else {
        None
    }
}

/// The `n`-th identifier token of the first `TypedIdent` child of node `id`.
fn typed_ident_token(tree: &SyntaxTree, id: usize, n: usize) -> (r: Option<SyntaxToken>)
    requires
        tree.wf(),
        tree.has(id as int),
    ensures
        r == typed_ident_part(tree, id, n as int),
{
    let tis = typed_ident_children(tree, id);
    if tis.len() == 0 {
        return None;
    }
    proof {
        lemma_children_after(tree, id);
    }
    assert(id < child_typed_idents(tree, id)[0].0);
    tree.nth_token(tis[0].0, TokenSet::Ident, n)
}

impl Root {
    /// The statements at the top level, in source order.
    pub fn stmts(&self, tree: &SyntaxTree) -> (r: Vec<Stmt>)
        requires
            tree.wf(),
            tree.has(self.0 as int),
        ensures
            r@ == child_stmts(tree, self.0),
    {
        stmt_children(tree, self.0)
    }
}

impl FuncDef {
    /// The first identifier token: the function's name.
    pub fn name(&self, tree: &SyntaxTree) -> (r: Option<SyntaxToken>)
        requires
            tree.has(self.0 as int),
        ensures
            r == seq_nth(child_idents(tree, self.0), 0),
    {
        tree.nth_token(self.0, TokenSet::Ident, 0)
    }

    /// The parameters: the `TypedIdent` children of each `ParamList` child.
    pub fn param_list(&self, tree: &SyntaxTree) -> (r: Vec<TypedIdent>)
        requires
            tree.wf(),
            tree.has(self.0 as int),
        ensures
            r@ == params_in(tree, param_lists_in(tree, tree.elems(self.0 as int))),
    {
        let pls = param_list_children(tree, self.0);
        proof {
            lemma_children_after(tree, self.0);
        }
        let mut r: Vec<TypedIdent> = Vec::new();
        let mut i: usize = 0;
        while i < pls.len()
            invariant
                tree.wf(),
                pls@ == param_lists_in(tree, tree.elems(self.0 as int)),
                forall|k: int| 0 <= k < pls@.len() ==> tree.has(#[trigger] pls@[k] as int),
                i <= pls@.len(),
                r@ == params_in(tree, pls@.take(i as int)),
            decreases pls@.len() - i,
        {
            assert(pls@.take(i as int + 1).drop_last() == pls@.take(i as int));
            let mut tis = typed_ident_children(tree, pls[i]);
            r.append(&mut tis);
            i = i + 1;
        }
        assert(pls@.take(pls@.len() as int) == pls@);
        r
    }

    /// The second identifier token: the return type's name.
    pub fn return_ty(&self, tree: &SyntaxTree) -> (r: Option<SyntaxToken>)
        requires
            tree.has(self.0 as int),
        ensures
            r == seq_nth(child_idents(tree, self.0), 1),
    {
        tree.nth_token(self.0, TokenSet::Ident, 1)
    }

    /// The first expression child: the body.
    pub fn block(&self, tree: &SyntaxTree) -> (r: Option<Expr>)
        requires
            tree.wf(),
            tree.has(self.0 as int),
        ensures
            r == seq_nth(child_exprs(tree, self.0), 0),
    {
        nth_expr(tree, self.0, 0)
    }
}

impl LetStmt {
    /// The name in the first `TypedIdent` child.
    pub fn name(&self, tree: &SyntaxTree) -> (r: Option<SyntaxToken>)
        requires
            tree.wf(),
            tree.has(self.0 as int),
        ensures
            r == typed_ident_part(tree, self.0, 0),
    {
        typed_ident_token(tree, self.0, 0)
    }

    /// The type annotation in the first `TypedIdent` child.
    pub fn ty(&self, tree: &SyntaxTree) -> (r: Option<SyntaxToken>)
        requires
            tree.wf(),
            tree.has(self.0 as int),
        ensures
            r == typed_ident_part(tree, self.0, 1),
    {
        typed_ident_token(tree, self.0, 1)
    }

    /// The initialiser: the first expression child.
    pub fn expr(&self, tree: &SyntaxTree) -> (r: Option<Expr>)
        requires
            tree.wf(),
            tree.has(self.0 as int),
        ensures
            r == seq_nth(child_exprs(tree, self.0), 0),
    {
        nth_expr(tree, self.0, 0)
    }
}

impl WhileStmt {
    pub fn cond(&self, tree: &SyntaxTree) -> (r: Option<Expr>)
        requires
            tree.wf(),
            tree.has(self.0 as int),
        ensures
            r == seq_nth(child_exprs(tree, self.0), 0),
    {
        nth_expr(tree, self.0, 0)
    }

    pub fn block(&self, tree: &SyntaxTree) -> (r: Option<Expr>)
        requires
            tree.wf(),
            tree.has(self.0 as int),
        ensures
            r == seq_nth(child_exprs(tree, self.0), 1),
    {
        nth_expr(tree, self.0, 1)
    }
}

impl ExprStmt {
    pub fn expr(&self, tree: &SyntaxTree) -> (r: Option<Expr>)
        requires
            tree.wf(),
            tree.has(self.0 as int),
        ensures
            r == seq_nth(child_exprs(tree, self.0), 0),
    {
        nth_expr(tree, self.0, 0)
    }
}

impl BinaryExpr {
    pub fn lhs(&self, tree: &SyntaxTree) -> (r: Option<Expr>)
        requires
            tree.wf(),
            tree.has(self.0 as int),
        ensures
            r == seq_nth(child_exprs(tree, self.0), 0),
    {
        nth_expr(tree, self.0, 0)
    }

    pub fn rhs(&self, tree: &SyntaxTree) -> (r: Option<Expr>)
        requires
            tree.wf(),
            tree.has(self.0 as int),
        ensures
            r == seq_nth(child_exprs(tree, self.0), 1),
    {
        nth_expr(tree, self.0, 1)
    }

    /// The first direct token that is an operator.
    pub fn op(&self, tree: &SyntaxTree) -> (r: Option<SyntaxToken>)
        requires
            tree.has(self.0 as int),
        ensures
            r == seq_nth(tokens_in(tree.elems(self.0 as int), TokenSet::Operator), 0),
    {
        tree.nth_token(self.0, TokenSet::Operator, 0)
    }
}

impl PrefixExpr {
    pub fn expr(&self, tree: &SyntaxTree) -> (r: Option<Expr>)
        requires
            tree.wf(),
            tree.has(self.0 as int),
        ensures
            r == seq_nth(child_exprs(tree, self.0), 0),
    {
        nth_expr(tree, self.0, 0)
    }

    /// The first direct `-` token.
    pub fn op(&self, tree: &SyntaxTree) -> (r: Option<SyntaxToken>)
        requires
            tree.has(self.0 as int),
        ensures
            r == seq_nth(tokens_in(tree.elems(self.0 as int), TokenSet::Minus), 0),
    {
        tree.nth_token(self.0, TokenSet::Minus, 0)
    }
}

impl ParenExpr {
    pub fn expr(&self, tree: &SyntaxTree) -> (r: Option<Expr>)
        requires
            tree.wf(),
            tree.has(self.0 as int),
        ensures
            r == seq_nth(child_exprs(tree, self.0), 0),
    {
        nth_expr(tree, self.0, 0)
    }
}

impl RefExpr {
    pub fn ident(&self, tree: &SyntaxTree) -> (r: Option<SyntaxToken>)
        requires
            tree.has(self.0 as int),
        ensures
            r == seq_nth(child_idents(tree, self.0), 0),
    {
        tree.nth_token(self.0, TokenSet::Ident, 0)
    }
}

impl IfExpr {
    pub fn cond(&self, tree: &SyntaxTree) -> (r: Option<Expr>)
        requires
            tree.wf(),
            tree.has(self.0 as int),
        ensures
            r == seq_nth(child_exprs(tree, self.0), 0),
    {
        nth_expr(tree, self.0, 0)
    }

    pub fn then_expr(&self, tree: &SyntaxTree) -> (r: Option<Expr>)
        requires
            tree.wf(),
            tree.has(self.0 as int),
        ensures
            r == seq_nth(child_exprs(tree, self.0), 1),
    {
        nth_expr(tree, self.0, 1)
    }

    pub fn else_expr(&self, tree: &SyntaxTree) -> (r: Option<Expr>)
        requires
            tree.wf(),
            tree.has(self.0 as int),
        ensures
            r == seq_nth(child_exprs(tree, self.0), 2),
    {
        nth_expr(tree, self.0, 2)
    }
}

impl FnCallExpr {
    /// The callee's name: the first identifier token.
    pub fn ident(&self, tree: &SyntaxTree) -> (r: Option<SyntaxToken>)
        requires
            tree.has(self.0 as int),
        ensures
            r == seq_nth(child_idents(tree, self.0), 0),
    {
        tree.nth_token(self.0, TokenSet::Ident, 0)
    }

    /// The arguments, in source order.
    pub fn args(&self, tree: &SyntaxTree) -> (r: Vec<Expr>)
        requires
            tree.wf(),
            tree.has(self.0 as int),
        ensures
            r@ == child_exprs(tree, self.0),
    {
        expr_children(tree, self.0)
    }
}

impl BlockExpr {
    pub fn stmts(&self, tree: &SyntaxTree) -> (r: Vec<Stmt>)
        requires
            tree.wf(),
            tree.has(self.0 as int),
        ensures
            r@ == child_stmts(tree, self.0),
    {
        stmt_children(tree, self.0)
    }
}

impl Literal {
    /// The value of the first token read as an unsigned decimal numeral.
    pub fn parse(&self, tree: &SyntaxTree) -> (r: Option<u64>)
        requires
            tree.wf(),
            tree.has(self.0 as int),
        ensures
            r == literal_value(tree, self.0),
    {
        match tree.first_token_of(self.0) {
            Some(tok) => parse_u64(tok.text.as_str()),
            None => None,
        }
    }
}

impl TypedIdent {
    pub fn ident(&self, tree: &SyntaxTree) -> (r: Option<SyntaxToken>)
        requires
            tree.has(self.0 as int),
        ensures
            r == seq_nth(child_idents(tree, self.0), 0),
    {
        tree.nth_token(self.0, TokenSet::Ident, 0)
    }

    pub fn ty(&self, tree: &SyntaxTree) -> (r: Option<SyntaxToken>)
        requires
            tree.has(self.0 as int),
        ensures
            r == seq_nth(child_idents(tree, self.0), 1),
    {
        tree.nth_token(self.0, TokenSet::Ident, 1)
    }
}

/// Casting is decided by the node's kind alone: it succeeds on a member kind
/// of the union, whatever the node's children, yields a view of that very
/// node, and fails on every other kind.
pub proof fn lemma_cast_by_kind(t: &SyntaxTree, id: usize)
    requires
        t.has(id as int),
    ensures
        expr_at(t, id) is Some <==> is_expr_kind(t.kind_of(id as int)),
        stmt_at(t, id) is Some <==> is_stmt_kind(t.kind_of(id as int)),
        expr_at(t, id) matches Some(e) ==> e.node() == id,
        stmt_at(t, id) matches Some(s) ==> s.node() == id,
{
}

} // verus!
