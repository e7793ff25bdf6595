use vstd::prelude::*;

verus! {

/// The tag carried by every token and node of a concrete syntax tree.
#[derive(Debug, Clone, Copy, PartialEq, Eq, Structural, PartialOrd, Ord, Hash)]
pub enum SyntaxKind {
    Error,
    Whitespace,
    Eof,
    EqEq,
    Neq,
    Comma,
    Semicolon,
    Colon,
    Ident,
    TypedIdent,
    LetKw,
    IfKw,
    ElseKw,
    WhileKw,
    BreakKw,
    FunKw,
    Equals,
    Plus,
    Minus,
    Star,
    Slash,
    Percent,
    Number,
    OpenParen,
    CloseParen,
    OpenBrace,
    CloseBrace,
    Root,
    FuncDef,
    ParamList,
    Literal,
    BinaryExpr,
    PrefixExpr,
    ParenExpr,
    RefExpr,
    IfExpr,
    FnCallExpr,
    BlockExpr,
    Stmt,
    LetStmt,
    WhileStmt,
    BreakStmt,
    ExprStmt,
}

/// The number of distinct kinds.
pub const KIND_COUNT: u16 = 43;

/// The position of a kind in the declaration order, used as its raw code.
pub open spec fn kind_code(k: SyntaxKind) -> u16 {
    match k {
        SyntaxKind::Error => 0,
        SyntaxKind::Whitespace => 1,
        SyntaxKind::Eof => 2,
        SyntaxKind::EqEq => 3,
        SyntaxKind::Neq => 4,
        SyntaxKind::Comma => 5,
        SyntaxKind::Semicolon => 6,
        SyntaxKind::Colon => 7,
        SyntaxKind::Ident => 8,
        SyntaxKind::TypedIdent => 9,
        SyntaxKind::LetKw => 10,
        SyntaxKind::IfKw => 11,
        SyntaxKind::ElseKw => 12,
        SyntaxKind::WhileKw => 13,
        SyntaxKind::BreakKw => 14,
        SyntaxKind::FunKw => 15,
        SyntaxKind::Equals => 16,
        SyntaxKind::Plus => 17,
        SyntaxKind::Minus => 18,
        SyntaxKind::Star => 19,
        SyntaxKind::Slash => 20,
        SyntaxKind::Percent => 21,
        SyntaxKind::Number => 22,
        SyntaxKind::OpenParen => 23,
        SyntaxKind::CloseParen => 24,
        SyntaxKind::OpenBrace => 25,
        SyntaxKind::CloseBrace => 26,
        SyntaxKind::Root => 27,
        SyntaxKind::FuncDef => 28,
        SyntaxKind::ParamList => 29,
        SyntaxKind::Literal => 30,
        SyntaxKind::BinaryExpr => 31,
        SyntaxKind::PrefixExpr => 32,
        SyntaxKind::ParenExpr => 33,
        SyntaxKind::RefExpr => 34,
        SyntaxKind::IfExpr => 35,
        SyntaxKind::FnCallExpr => 36,
        SyntaxKind::BlockExpr => 37,
        SyntaxKind::Stmt => 38,
        SyntaxKind::LetStmt => 39,
        SyntaxKind::WhileStmt => 40,
        SyntaxKind::BreakStmt => 41,
        SyntaxKind::ExprStmt => 42,
    }
}

impl SyntaxKind {
    pub fn is_eof(self) -> (r: bool)
        ensures
            r == (self == SyntaxKind::Eof),
    {
        self == SyntaxKind::Eof
    }

    pub fn is_error(self) -> (r: bool)
        ensures
            r == (self == SyntaxKind::Error),
    {
        self == SyntaxKind::Error
    }

    /// Trivia is skipped when scanning children; only whitespace is trivia.
    pub fn is_trivia(self) -> (r: bool)
        ensures
            r == (self == SyntaxKind::Whitespace),
    {
        matches!(self, SyntaxKind::Whitespace)
    }

    /// The raw code of this kind.
    pub fn to_raw(self) -> (r: u16)
        ensures
            r == kind_code(self),
            r < KIND_COUNT,
    {
        match self {
            SyntaxKind::Error => 0,
            SyntaxKind::Whitespace => 1,
            SyntaxKind::Eof => 2,
            SyntaxKind::EqEq => 3,
            SyntaxKind::Neq => 4,
            SyntaxKind::Comma => 5,
            SyntaxKind::Semicolon => 6,
            SyntaxKind::Colon => 7,
            SyntaxKind::Ident => 8,
            SyntaxKind::TypedIdent => 9,
            SyntaxKind::LetKw => 10,
            SyntaxKind::IfKw => 11,
            SyntaxKind::ElseKw => 12,
            SyntaxKind::WhileKw => 13,
            SyntaxKind::BreakKw => 14,
            SyntaxKind::FunKw => 15,
            SyntaxKind::Equals => 16,
            SyntaxKind::Plus => 17,
            SyntaxKind::Minus => 18,
            SyntaxKind::Star => 19,
            SyntaxKind::Slash => 20,
            SyntaxKind::Percent => 21,
            SyntaxKind::Number => 22,
            SyntaxKind::OpenParen => 23,
            SyntaxKind::CloseParen => 24,
            SyntaxKind::OpenBrace => 25,
            SyntaxKind::CloseBrace => 26,
            SyntaxKind::Root => 27,
            SyntaxKind::FuncDef => 28,
            SyntaxKind::ParamList => 29,
            SyntaxKind::Literal => 30,
            SyntaxKind::BinaryExpr => 31,
            SyntaxKind::PrefixExpr => 32,
            SyntaxKind::ParenExpr => 33,
            SyntaxKind::RefExpr => 34,
            SyntaxKind::IfExpr => 35,
            SyntaxKind::FnCallExpr => 36,
            SyntaxKind::BlockExpr => 37,
            SyntaxKind::Stmt => 38,
            SyntaxKind::LetStmt => 39,
            SyntaxKind::WhileStmt => 40,
            SyntaxKind::BreakStmt => 41,
            SyntaxKind::ExprStmt => 42,
        }
    }

    /// The kind whose raw code is `raw`, if there is one.
    pub fn from_raw(raw: u16) -> (r: Option<SyntaxKind>)
        ensures
            match r {
                Some(k) => kind_code(k) == raw,
                None => raw >= KIND_COUNT,
            },
    {
        match raw {
            0 => Some(SyntaxKind::Error),
            1 => Some(SyntaxKind::Whitespace),
            2 => Some(SyntaxKind::Eof),
            3 => Some(SyntaxKind::EqEq),
            4 => Some(SyntaxKind::Neq),
            5 => Some(SyntaxKind::Comma),
            6 => Some(SyntaxKind::Semicolon),
            7 => Some(SyntaxKind::Colon),
            8 => Some(SyntaxKind::Ident),
            9 => Some(SyntaxKind::TypedIdent),
            10 => Some(SyntaxKind::LetKw),
            11 => Some(SyntaxKind::IfKw),
            12 => Some(SyntaxKind::ElseKw),
            13 => Some(SyntaxKind::WhileKw),
            14 => Some(SyntaxKind::BreakKw),
            15 => Some(SyntaxKind::FunKw),
            16 => Some(SyntaxKind::Equals),
            17 => Some(SyntaxKind::Plus),
            18 => Some(SyntaxKind::Minus),
            19 => Some(SyntaxKind::Star),
            20 => Some(SyntaxKind::Slash),
            21 => Some(SyntaxKind::Percent),
            22 => Some(SyntaxKind::Number),
            23 => Some(SyntaxKind::OpenParen),
            24 => Some(SyntaxKind::CloseParen),
            25 => Some(SyntaxKind::OpenBrace),
            26 => Some(SyntaxKind::CloseBrace),
            27 => Some(SyntaxKind::Root),
            28 => Some(SyntaxKind::FuncDef),
            29 => Some(SyntaxKind::ParamList),
            30 => Some(SyntaxKind::Literal),
            31 => Some(SyntaxKind::BinaryExpr),
            32 => Some(SyntaxKind::PrefixExpr),
            33 => Some(SyntaxKind::ParenExpr),
            34 => Some(SyntaxKind::RefExpr),
            35 => Some(SyntaxKind::IfExpr),
            36 => Some(SyntaxKind::FnCallExpr),
            37 => Some(SyntaxKind::BlockExpr),
            38 => Some(SyntaxKind::Stmt),
            39 => Some(SyntaxKind::LetStmt),
            40 => Some(SyntaxKind::WhileStmt),
            41 => Some(SyntaxKind::BreakStmt),
            42 => Some(SyntaxKind::ExprStmt),
            _ => None,
        }
    }
}

} // verus!
