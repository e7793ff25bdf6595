use vstd::prelude::*;

use crate::syntax_kind::SyntaxKind;

verus! {

/// A leaf of the concrete syntax tree: its kind and its source text.
#[derive(Debug)]
pub struct SyntaxToken {
    pub kind: SyntaxKind,
    pub text: String,
}

impl SyntaxToken {
    pub fn copy(&self) -> (r: SyntaxToken)
        ensures
            r == *self,
    {
        SyntaxToken { kind: self.kind, text: self.text.clone() }
    }
}

/// One entry of a node's ordered child list: a child node, by id, or a token.
#[derive(Debug)]
pub enum SyntaxElement {
    Node(usize),
    Token(SyntaxToken),
}

/// A node of the concrete syntax tree: its kind and its children, nodes and
/// tokens interleaved in source order (trivia included).
#[derive(Debug)]
pub struct NodeData {
    pub kind: SyntaxKind,
    pub elements: Vec<SyntaxElement>,
}

/// A concrete syntax tree addressed by node id. Node 0 is the root; every
/// child node has a larger id than its parent, as a pre-order numbering gives.
#[derive(Debug)]
pub struct SyntaxTree {
    pub nodes: Vec<NodeData>,
}

/// The kinds of tokens that the structural accessors look for.
#[derive(Clone, Copy, PartialEq, Eq, Structural)]
pub enum TokenSet {
    Ident,
    Minus,
    Operator,
}

pub open spec fn token_set_has(s: TokenSet, k: SyntaxKind) -> bool {
    match s {
        TokenSet::Ident => k == SyntaxKind::Ident,
        TokenSet::Minus => k == SyntaxKind::Minus,
        TokenSet::Operator => k == SyntaxKind::Plus || k == SyntaxKind::Minus || k
            == SyntaxKind::Star || k == SyntaxKind::Slash || k == SyntaxKind::Percent || k
            == SyntaxKind::Equals || k == SyntaxKind::EqEq || k == SyntaxKind::Neq,
    }
}

impl TokenSet {
    pub fn contains(self, k: SyntaxKind) -> (r: bool)
        ensures
            r == token_set_has(self, k),
    {
        match self {
            TokenSet::Ident => k == SyntaxKind::Ident,
            TokenSet::Minus => k == SyntaxKind::Minus,
            TokenSet::Operator => matches!(
                k,
                SyntaxKind::Plus | SyntaxKind::Minus | SyntaxKind::Star | SyntaxKind::Slash
                    | SyntaxKind::Percent | SyntaxKind::Equals | SyntaxKind::EqEq
                    | SyntaxKind::Neq
            ),
        }
    }
}

/// The element at position `n` of `s`, if there is one.
pub open spec fn seq_nth<A>(s: Seq<A>, n: int) -> Option<A> {
    if 0 <= n < s.len() {
        Some(s[n])
    } else {
        None
    }
}

/// The direct child tokens among `es` whose kind lies in `s`, in order.
pub open spec fn tokens_in(es: Seq<SyntaxElement>, s: TokenSet) -> Seq<SyntaxToken>
    decreases es.len(),
{
    if es.len() == 0 {
        seq![]
    } else {
        let rest = tokens_in(es.drop_last(), s);
        match es.last() {
            SyntaxElement::Token(t) => if token_set_has(s, t.kind) {
                rest.push(t)
            } else {
                rest
            },
            SyntaxElement::Node(_) => rest,
        }
    }
}

/// Every child id of every node lies after that node and inside the tree.
pub open spec fn nodes_well_formed(nodes: Seq<NodeData>) -> bool {
    forall|i: int, j: int|
        0 <= i < nodes.len() && 0 <= j < nodes[i].elements@.len()
            ==> #[trigger] child_after(nodes[i].elements@[j], i, nodes.len() as int)
}

pub open spec fn child_after(e: SyntaxElement, parent: int, len: int) -> bool {
    match e {
        SyntaxElement::Node(c) => parent < c < len,
        SyntaxElement::Token(_) => true,
    }
}

impl SyntaxTree {
    pub open spec fn wf(&self) -> bool {
        nodes_well_formed(self.nodes@)
    }

    pub open spec fn has(&self, id: int) -> bool {
        0 <= id < self.nodes@.len()
    }

    pub open spec fn kind_of(&self, id: int) -> SyntaxKind {
        self.nodes@[id].kind
    }

    pub open spec fn elems(&self, id: int) -> Seq<SyntaxElement> {
        self.nodes@[id].elements@
    }

    /// The first token of the subtree at `id`, descending through first
    /// children.
    pub open spec fn first_token(&self, id: int) -> Option<SyntaxToken>
        decreases self.nodes@.len() - id,
    {
        if self.has(id) && self.elems(id).len() > 0 {
            match self.elems(id)[0] {
                SyntaxElement::Token(t) => Some(t),
                SyntaxElement::Node(c) => if id < c < self.nodes@.len() {
                    self.first_token(c as int)
                } else {
                    None
                },
            }
        } else {
            None
        }
    }

    /// Builds a tree from its nodes, or nothing where some child id does not
    /// lie after its parent and inside the tree.
    pub fn from_nodes(nodes: Vec<NodeData>) -> (r: Option<SyntaxTree>)
        ensures
            r is Some <==> nodes_well_formed(nodes@),
            r matches Some(t) ==> t.nodes@ == nodes@,
    {
        let n = nodes.len();
        let mut i: usize = 0;
        while i < n
            invariant
                n == nodes@.len(),
                i <= n,
                forall|a: int, j: int|
                    0 <= a < i && 0 <= j < nodes@[a].elements@.len() ==> #[trigger] child_after(
                        nodes@[a].elements@[j],
                        a,
                        n as int,
                    ),
            decreases n - i,
        {
            let es = &nodes[i].elements;
            let mut j: usize = 0;
            while j < es.len()
                invariant
                    n == nodes@.len(),
                    i < n,
                    es@ == nodes@[i as int].elements@,
                    j <= es@.len(),
                    forall|b: int| 0 <= b < j ==> #[trigger] child_after(es@[b], i as int, n as int),
                decreases es@.len() - j,
            {
                match &es[j] {
                    SyntaxElement::Node(c) => {
                        if !(i < *c && *c < n) {
                            assert(!child_after(nodes@[i as int].elements@[j as int], i as int, n as int));
                            return None;
                        }
                    },
                    SyntaxElement::Token(_) => {},
                }
                j = j + 1;
            }
            i = i + 1;
        }
        Some(SyntaxTree { nodes })
    }

    pub fn len(&self) -> (r: usize)
        ensures
            r == self.nodes@.len(),
    {
        self.nodes.len()
    }

    pub fn kind(&self, id: usize) -> (r: SyntaxKind)
        requires
            self.has(id as int),
        ensures
            r == self.kind_of(id as int),
    {
        self.nodes[id].kind
    }

    /// The direct child tokens of node `id` whose kind lies in `s`, in order.
    pub fn tokens(&self, id: usize, s: TokenSet) -> (r: Vec<SyntaxToken>)
        requires
            self.has(id as int),
        ensures
            r@ == tokens_in(self.elems(id as int), s),
    {
        let es = &self.nodes[id].elements;
        let mut r: Vec<SyntaxToken> = Vec::new();
        let mut i: usize = 0;
        while i < es.len()
            invariant
                es@ == self.elems(id as int),
                i <= es@.len(),
                r@ == tokens_in(es@.take(i as int), s),
            decreases es@.len() - i,
        {
            assert(es@.take(i as int + 1).drop_last() == es@.take(i as int));
            match &es[i] {
                SyntaxElement::Token(t) => {
                    if s.contains(t.kind) {
                        r.push(t.copy());
                    }
                },
                SyntaxElement::Node(_) => {},
            }
            i = i + 1;
        }
        assert(es@.take(es@.len() as int) == es@);
        r
    }

    /// The `n`-th direct child token of node `id` whose kind lies in `s`.
    pub fn nth_token(&self, id: usize, s: TokenSet, n: usize) -> (r: Option<SyntaxToken>)
        requires
            self.has(id as int),
        ensures
            r == seq_nth(tokens_in(self.elems(id as int), s), n as int),
    {
        let ts = self.tokens(id, s);
        if n < ts.len() {
            Some(ts[n].copy())
        } else {
            None
        }
    }

    /// The first token of the subtree at `id`.
    pub fn first_token_of(&self, id: usize) -> (r: Option<SyntaxToken>)
        requires
            self.wf(),
            self.has(id as int),
        ensures
            r == self.first_token(id as int),
        decreases self.nodes@.len() - id,
    {
        let es = &self.nodes[id].elements;
        if es.len() == 0 {
            return None;
        }
        match &es[0] {
            SyntaxElement::Token(t) => Some(t.copy()),
            SyntaxElement::Node(c) => {
                assert(child_after(self.nodes@[id as int].elements@[0], id as int, self.nodes@.len() as int));
                self.first_token_of(*c)
            },
        }
    }
}

} // verus!
