//! The concrete syntax tree the checks read: an arena of nodes and tokens
//! with parent links, ordered children and source ranges, plus the generic
//! lookups (first child of a class, first token of a kind, children of a
//! class) the typed view is built from.

use vstd::prelude::*;

use crate::kind::{in_class, class_contains, Class, SyntaxKind};

verus! {

/// A range of source text, `start..end` in bytes.
#[derive(Clone, Copy, Debug, PartialEq, Eq, Structural)]
pub struct TextRange {
    pub start: u32,
    pub end: u32,
}

impl TextRange {
    /// The range `start..end`; `start` may not lie after `end`.
    pub fn new(start: u32, end: u32) -> (r: TextRange)
        requires
            start <= end,
        ensures
            r == (TextRange { start, end }),
    {
        TextRange { start, end }
    }

    /// The empty range at `offset`.
    pub fn empty(offset: u32) -> (r: TextRange)
        ensures
            r == (TextRange { start: offset, end: offset }),
    {
        TextRange { start: offset, end: offset }
    }

    /// The smallest range that contains both ranges.
    pub open spec fn spec_cover(self, other: TextRange) -> TextRange {
        TextRange {
            start: if self.start <= other.start { self.start } else { other.start },
            end: if self.end >= other.end { self.end } else { other.end },
        }
    }

    /// The smallest range that contains both ranges.
    pub fn cover(self, other: TextRange) -> (r: TextRange)
        ensures
            r == self.spec_cover(other),
    {
        TextRange {
            start: if self.start <= other.start { self.start } else { other.start },
            end: if self.end >= other.end { self.end } else { other.end },
        }
    }
}

/// A child of a node: another node or a token, by its index in the tree.
#[derive(Clone, Copy, Debug, PartialEq, Eq, Structural)]
pub enum Element {
    Node(usize),
    Token(usize),
}

/// One node: its kind, its parent (none for the root), its children in
/// source order, and the range it covers.
#[derive(Clone, Debug)]
pub struct NodeData {
    pub kind: SyntaxKind,
    pub parent: Option<usize>,
    pub children: Vec<Element>,
    pub range: TextRange,
}

/// One token: its kind, the node it belongs to, its text and its range.
#[derive(Clone, Debug)]
pub struct TokenData {
    pub kind: SyntaxKind,
    pub parent: usize,
    pub text: String,
    pub range: TextRange,
}

/// A syntax tree. Node 0 is the root; every other node has a parent with
/// a smaller index, so numbering the nodes in the order a builder opens
/// them (preorder) is one valid numbering. The validation pass walks the
/// children lists from the root, so its order is the tree's whatever the
/// numbering.
#[derive(Clone, Debug)]
pub struct SyntaxTree {
    pub nodes: Vec<NodeData>,
    pub tokens: Vec<TokenData>,
}

impl SyntaxTree {
    /// The number of nodes.
    pub open spec fn n_nodes(self) -> int {
        self.nodes@.len() as int
    }

    /// A node's kind.
    pub open spec fn kind(self, n: usize) -> SyntaxKind {
        self.nodes@[n as int].kind
    }

    /// A node's parent.
    pub open spec fn parent(self, n: usize) -> Option<usize> {
        self.nodes@[n as int].parent
    }

    /// A node's children, in order.
    pub open spec fn children(self, n: usize) -> Seq<Element> {
        self.nodes@[n as int].children@
    }

    /// A node's range.
    pub open spec fn node_range(self, n: usize) -> TextRange {
        self.nodes@[n as int].range
    }

    /// A token's kind.
    pub open spec fn token_kind(self, t: usize) -> SyntaxKind {
        self.tokens@[t as int].kind
    }

    /// A token's range.
    pub open spec fn token_range(self, t: usize) -> TextRange {
        self.tokens@[t as int].range
    }

    /// A token's text.
    pub open spec fn token_text(self, t: usize) -> Seq<char> {
        self.tokens@[t as int].text@
    }

    /// The range of a node or token.
    pub open spec fn elem_range(self, e: Element) -> TextRange {
        match e {
            Element::Node(c) => self.node_range(c),
            Element::Token(t) => self.token_range(t),
        }
    }

    /// The kind of a node or token.
    pub open spec fn elem_kind(self, e: Element) -> SyntaxKind {
        match e {
            Element::Node(c) => self.kind(c),
            Element::Token(t) => self.token_kind(t),
        }
    }

    /// Child `j` of node `n` is in the tree, points back at `n`, and lies
    /// inside `n`'s range.
    pub open spec fn child_ok(self, n: usize, j: int) -> bool {
        let r = self.node_range(n);
        &&& match self.children(n)[j] {
            Element::Node(c) => n < c < self.nodes@.len() && self.parent(c) == Some(n),
            Element::Token(t) => t < self.tokens@.len() && self.tokens@[t as int].parent == n,
        }
        &&& r.start <= self.elem_range(self.children(n)[j]).start
        &&& self.elem_range(self.children(n)[j]).end <= r.end
    }

    /// The local conditions on node `n`.
    pub open spec fn node_ok(self, n: usize) -> bool {
        &&& self.node_range(n).start <= self.node_range(n).end
        &&& (n == 0 <==> self.parent(n) is None)
        &&& (self.parent(n) matches Some(p) ==> p < n)
        &&& forall|j: int| 0 <= j < self.children(n).len() ==> #[trigger] self.child_ok(n, j)
        &&& forall|j: int|
            0 <= j < self.children(n).len() - 1 ==> self.elem_range(#[trigger] self.children(n)[j]).end
                <= self.elem_range(self.children(n)[j + 1]).start
    }

    /// The local conditions on token `t`.
    pub open spec fn token_ok(self, t: usize) -> bool {
        &&& self.token_range(t).start <= self.token_range(t).end
        &&& self.tokens@[t as int].parent < self.nodes@.len()
    }

    /// Well-formedness: a root, parent links that point back down, and
    /// children that lie in their parent's range in source order.
    pub open spec fn wf(self) -> bool {
        &&& self.nodes@.len() > 0
        &&& self.nodes@.len() < usize::MAX
        &&& forall|n: usize| n < self.nodes@.len() ==> #[trigger] self.node_ok(n)
        &&& forall|t: usize| t < self.tokens@.len() ==> #[trigger] self.token_ok(t)
    }

    /// In a well-formed tree, every element comes after the ones before it.
    pub proof fn lemma_children_ordered(self, n: usize, j: int, k: int)
        requires
            self.wf(),
            n < self.nodes@.len(),
            0 <= j < k < self.children(n).len(),
        ensures
            self.elem_range(self.children(n)[j]).end <= self.elem_range(self.children(n)[k]).start,
        decreases k - j,
    {
        assert(self.node_ok(n));
        if k > j + 1 {
            self.lemma_children_ordered(n, j, k - 1);
            self.lemma_elem_ok(n, k - 1);
        }
    }

    /// A child's range is a valid range.
    pub proof fn lemma_elem_ok(self, n: usize, j: int)
        requires
            self.wf(),
            n < self.nodes@.len(),
            0 <= j < self.children(n).len(),
        ensures
            self.elem_range(self.children(n)[j]).start <= self.elem_range(self.children(n)[j]).end,
            self.child_ok(n, j),
    {
        assert(self.node_ok(n));
        assert(self.child_ok(n, j));
        match self.children(n)[j] {
            Element::Node(c) => {
                assert(self.node_ok(c));
            },
            Element::Token(t) => {
                assert(self.token_ok(t));
            },
        }
    }

    /// The node at child position `j` of `n` (meaningful when it is one).
    pub open spec fn node_at(self, n: usize, j: int) -> usize {
        match self.children(n)[j] {
            Element::Node(c) => c,
            Element::Token(t) => 0,
        }
    }

    /// The token at child position `j` of `n` (meaningful when it is one).
    pub open spec fn token_at(self, n: usize, j: int) -> usize {
        match self.children(n)[j] {
            Element::Token(t) => t,
            Element::Node(c) => 0,
        }
    }

    /// The position of the first child node of `n`, at or after `from`,
    /// whose kind is in class `c`.
    pub open spec fn find_node(self, n: usize, from: int, c: Class) -> Option<int>
        decreases self.children(n).len() - from,
    {
        if from < 0 || from >= self.children(n).len() {
            None
        } else if self.children(n)[from] is Node && in_class(self.kind(self.node_at(n, from)), c) {
            Some(from)
        } else {
            self.find_node(n, from + 1, c)
        }
    }

    /// The position of the first child token of `n`, at or after `from`,
    /// of kind `k`.
    pub open spec fn find_token(self, n: usize, from: int, k: SyntaxKind) -> Option<int>
        decreases self.children(n).len() - from,
    {
        if from < 0 || from >= self.children(n).len() {
            None
        } else if self.children(n)[from] is Token && self.token_kind(self.token_at(n, from)) == k {
            Some(from)
        } else {
            self.find_token(n, from + 1, k)
        }
    }

    /// The first child node of `n` in class `c`.
    pub open spec fn child(self, n: usize, c: Class) -> Option<usize> {
        match self.find_node(n, 0, c) {
            Some(p) => Some(self.node_at(n, p)),
            None => None,
        }
    }

    /// The first child node of `n` in class `c` that comes after the first
    /// child token of kind `k`; none when there is no such token.
    pub open spec fn child_after(self, n: usize, k: SyntaxKind, c: Class) -> Option<usize> {
        match self.find_token(n, 0, k) {
            Some(tp) => match self.find_node(n, tp + 1, c) {
                Some(p) => Some(self.node_at(n, p)),
                None => None,
            },
            None => None,
        }
    }

    /// The first child token of `n` of kind `k`.
    pub open spec fn token(self, n: usize, k: SyntaxKind) -> Option<usize> {
        match self.find_token(n, 0, k) {
            Some(p) => Some(self.token_at(n, p)),
            None => None,
        }
    }

    /// The child nodes of `n` in class `c` among the first `upto` children,
    /// in order.
    pub open spec fn nodes_upto(self, n: usize, upto: int, c: Class) -> Seq<usize>
        decreases upto,
    {
        if upto <= 0 {
            Seq::empty()
        } else {
            let rest = self.nodes_upto(n, upto - 1, c);
            if self.children(n)[upto - 1] is Node && in_class(
                self.kind(self.node_at(n, upto - 1)),
                c,
            ) {
                rest.push(self.node_at(n, upto - 1))
            } else {
                rest
            }
        }
    }

    /// The child nodes of `n` in class `c`, in order.
    pub open spec fn nodes_of(self, n: usize, c: Class) -> Seq<usize> {
        self.nodes_upto(n, self.children(n).len() as int, c)
    }

    /// The text of a node: the text of its first token, or nothing.
    pub open spec fn node_text(self, n: usize) -> Seq<char> {
        match self.find_first_token(n, 0) {
            Some(p) => self.token_text(self.token_at(n, p)),
            None => Seq::empty(),
        }
    }

    /// The position of the first child token of `n` at or after `from`.
    pub open spec fn find_first_token(self, n: usize, from: int) -> Option<int>
        decreases self.children(n).len() - from,
    {
        if from < 0 || from >= self.children(n).len() {
            None
        } else if self.children(n)[from] is Token {
            Some(from)
        } else {
            self.find_first_token(n, from + 1)
        }
    }

    /// A found node is a node of the class, at or after `from`.
    pub proof fn lemma_find_node(self, n: usize, from: int, c: Class)
        ensures
            self.find_node(n, from, c) matches Some(p) ==> {
                &&& from <= p < self.children(n).len()
                &&& 0 <= p
                &&& self.children(n)[p] is Node
                &&& in_class(self.kind(self.node_at(n, p)), c)
            },
        decreases self.children(n).len() - from,
    {
        if from >= 0 && from < self.children(n).len() {
            self.lemma_find_node(n, from + 1, c);
        }
    }

    /// A found token is a token of the kind, at or after `from`.
    pub proof fn lemma_find_token(self, n: usize, from: int, k: SyntaxKind)
        ensures
            self.find_token(n, from, k) matches Some(p) ==> {
                &&& from <= p < self.children(n).len()
                &&& 0 <= p
                &&& self.children(n)[p] is Token
                &&& self.token_kind(self.token_at(n, p)) == k
            },
        decreases self.children(n).len() - from,
    {
        if from >= 0 && from < self.children(n).len() {
            self.lemma_find_token(n, from + 1, k);
        }
    }

    /// Finds the position of the first child node of `n`, at or after
    /// `from`, in class `c`.
    pub fn find_node_exec(&self, n: usize, from: usize, c: Class) -> (r: Option<usize>)
        requires
            self.wf(),
            n < self.nodes@.len(),
        ensures
            r matches Some(p) ==> self.find_node(n, from as int, c) == Some(p as int),
            r is None ==> self.find_node(n, from as int, c) is None,
            r matches Some(p) ==> from <= p < self.children(n).len(),
            r matches Some(p) ==> p < usize::MAX,
    {
        let len = self.nodes[n].children.len();
        let mut j = from;
        while j < len
            invariant
                from <= j,
                len == self.children(n).len(),
                n < self.nodes@.len(),
                self.wf(),
                self.find_node(n, from as int, c) == self.find_node(n, j as int, c),
            decreases len - j,
        {
            match self.nodes[n].children[j] {
                Element::Node(id) => {
                    proof {
                        assert(self.node_ok(n));
                        assert(self.child_ok(n, j as int));
                    }
                    if class_contains(c, self.nodes[id].kind) {
                        return Some(j);
                    }
                },
                Element::Token(_) => {},
            }
            j = j + 1;
        }
        None
    }

    /// Finds the position of the first child token of `n`, at or after
    /// `from`, of kind `k`.
    pub fn find_token_exec(&self, n: usize, from: usize, k: SyntaxKind) -> (r: Option<usize>)
        requires
            self.wf(),
            n < self.nodes@.len(),
        ensures
            r matches Some(p) ==> self.find_token(n, from as int, k) == Some(p as int),
            r is None ==> self.find_token(n, from as int, k) is None,
            r matches Some(p) ==> from <= p < self.children(n).len(),
            r matches Some(p) ==> p < usize::MAX,
    {
        let len = self.nodes[n].children.len();
        let mut j = from;
        while j < len
            invariant
                from <= j,
                len == self.children(n).len(),
                n < self.nodes@.len(),
                self.wf(),
                self.find_token(n, from as int, k) == self.find_token(n, j as int, k),
            decreases len - j,
        {
            match self.nodes[n].children[j] {
                Element::Token(id) => {
                    proof {
                        assert(self.node_ok(n));
                        assert(self.child_ok(n, j as int));
                    }
                    if self.tokens[id].kind == k {
                        return Some(j);
                    }
                },
                Element::Node(_) => {},
            }
            j = j + 1;
        }
        None
    }
}

impl SyntaxTree {
    /// Whether child `j` of node `n` meets [`SyntaxTree::child_ok`].
    fn check_child(&self, n: usize, j: usize) -> (b: bool)
        requires
            n < self.nodes@.len(),
            j < self.children(n).len(),
        ensures
            b == self.child_ok(n, j as int),
    {
        let r = self.nodes[n].range;
        match self.nodes[n].children[j] {
            Element::Node(c) => {
                n < c && c < self.nodes.len() && self.nodes[c].parent == Some(n) && r.start
                    <= self.nodes[c].range.start && self.nodes[c].range.end <= r.end
            },
            Element::Token(t) => {
                t < self.tokens.len() && self.tokens[t].parent == n && r.start <= self.tokens[t].range.start
                    && self.tokens[t].range.end <= r.end
            },
        }
    }

    /// The range of an element, for an element that is in the tree.
    fn elem_range_exec(&self, e: Element) -> (r: TextRange)
        requires
            match e {
                Element::Node(c) => c < self.nodes@.len(),
                Element::Token(t) => t < self.tokens@.len(),
            },
        ensures
            r == self.elem_range(e),
    {
        match e {
            Element::Node(c) => self.nodes[c].range,
            Element::Token(t) => self.tokens[t].range,
        }
    }

    /// Whether node `n` meets [`SyntaxTree::node_ok`].
    fn check_node(&self, n: usize) -> (b: bool)
        requires
            n < self.nodes@.len(),
        ensures
            b == self.node_ok(n),
    {
        let nd = &self.nodes[n];
        if nd.range.start > nd.range.end {
            return false;
        }
        match nd.parent {
            Some(p) => {
                if n == 0 || p >= n {
                    return false;
                }
            },
            None => {
                if n != 0 {
                    return false;
                }
            },
        }
        let len = nd.children.len();
        let mut j: usize = 0;
        while j < len
            invariant
                n < self.nodes@.len(),
                len == self.children(n).len(),
                j <= len,
                forall|i: int| 0 <= i < j ==> #[trigger] self.child_ok(n, i),
                forall|i: int|
                    0 <= i < j - 1 ==> self.elem_range(#[trigger] self.children(n)[i]).end
                        <= self.elem_range(self.children(n)[i + 1]).start,
            decreases len - j,
        {
            if !self.check_child(n, j) {
                return false;
            }
            if j > 0 {
                assert(self.child_ok(n, j - 1));
                let prev = self.elem_range_exec(self.nodes[n].children[j - 1]);
                let cur = self.elem_range_exec(self.nodes[n].children[j]);
                if prev.end > cur.start {
                    return false;
                }
            }
            j = j + 1;
        }
        true
    }

    /// Whether the tree is well-formed.
    pub fn check_wf(&self) -> (b: bool)
        ensures
            b == self.wf(),
    {
        if self.nodes.len() == 0 || self.nodes.len() == usize::MAX {
            return false;
        }
        let mut t: usize = 0;
        while t < self.tokens.len()
            invariant
                t <= self.tokens@.len(),
                forall|i: usize| i < t ==> #[trigger] self.token_ok(i),
            decreases self.tokens@.len() - t,
        {
            let tk = &self.tokens[t];
            if tk.range.start > tk.range.end || tk.parent >= self.nodes.len() {
                assert(!self.token_ok(t));
                return false;
            }
            t = t + 1;
        }
        let mut n: usize = 0;
        while n < self.nodes.len()
            invariant
                n <= self.nodes@.len(),
                forall|i: usize| i < n ==> #[trigger] self.node_ok(i),
            decreases self.nodes@.len() - n,
        {
            if !self.check_node(n) {
                return false;
            }
            n = n + 1;
        }
        true
    }

    /// A tree from its parts, when they make a well-formed tree.
    pub fn from_parts(nodes: Vec<NodeData>, tokens: Vec<TokenData>) -> (r: Option<SyntaxTree>)
        ensures
            match r {
                Some(t) => t.wf() && t.nodes@ == nodes@ && t.tokens@ == tokens@,
                None => !(SyntaxTree { nodes, tokens }).wf(),
            },
    {
        let tree = SyntaxTree { nodes, tokens };
        if tree.check_wf() {
            Some(tree)
        } else {
            None
        }
    }
}

} // verus!
