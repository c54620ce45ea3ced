//! The typed view of the tree: which child of a node plays which part
//! (a fn literal's body, an item's annotation, a member's value, ...),
//! defined over the generic lookups of [`crate::tree`], with the
//! executable lookups that compute them.
//!
//! A part that follows a marker token is looked up after that token: an
//! annotation is the type after `:`, a value is the expression after `=`,
//! the pattern of `mut pat` is the pattern after `mut`.

use vstd::prelude::*;

use crate::kind::{Class, SyntaxKind, spec_is_trivia};
use crate::tree::{Element, SyntaxTree, TextRange};

verus! {

/// `id` is a child node of `n`: in the tree, pointing back at `n`, and
/// inside `n`'s range.
pub open spec fn is_child(t: SyntaxTree, n: usize, id: usize) -> bool {
    &&& n < id < t.nodes@.len()
    &&& t.parent(id) == Some(n)
    &&& t.node_range(n).start <= t.node_range(id).start
    &&& t.node_range(id).start <= t.node_range(id).end
    &&& t.node_range(id).end <= t.node_range(n).end
}

/// `tk` is a child token of `n`, inside `n`'s range.
pub open spec fn is_child_token(t: SyntaxTree, n: usize, tk: usize) -> bool {
    &&& tk < t.tokens@.len()
    &&& t.node_range(n).start <= t.token_range(tk).start
    &&& t.token_range(tk).start <= t.token_range(tk).end
    &&& t.token_range(tk).end <= t.node_range(n).end
}

/// The pattern of a `let` or a parameter: the one after `mut` when `mut`
/// is written, else the first pattern.
pub open spec fn pat_of(t: SyntaxTree, n: usize) -> Option<usize> {
    if t.token(n, SyntaxKind::MUT_KW) is Some {
        t.child_after(n, SyntaxKind::MUT_KW, Class::Pat)
    } else {
        t.child(n, Class::Pat)
    }
}

/// The position after which an `if`'s branches start looking: the
/// condition's position, or the start.
pub open spec fn if_cond_pos(t: SyntaxTree, n: usize) -> int {
    match t.find_node(n, 0, Class::Expr) {
        Some(p) => p + 1,
        None => t.children(n).len() as int,
    }
}

/// The `then` branch of an `if`: the expression after the condition and
/// before `else`.
pub open spec fn if_then_branch(t: SyntaxTree, n: usize) -> Option<usize> {
    match t.find_node(n, if_cond_pos(t, n), Class::Expr) {
        Some(p) => if (match t.find_token(n, 0, SyntaxKind::ELSE_KW) {
            Some(e) => p < e,
            None => true,
        }) {
            Some(t.node_at(n, p))
        } else {
            None
        },
        None => None,
    }
}

/// The `else` branch of an `if`: the expression after `else`.
pub open spec fn if_else_branch(t: SyntaxTree, n: usize) -> Option<usize> {
    t.child_after(n, SyntaxKind::ELSE_KW, Class::Expr)
}

/// A path's own generic arguments: the list directly under the path (the
/// owner's), never a later segment's.
pub open spec fn generic_arg_list(t: SyntaxTree, path: usize) -> Option<usize> {
    t.child(path, Class::Kind(SyntaxKind::GENERIC_ARG_LIST))
}

/// A path's member arguments: the list of its second segment's turbofish,
/// never the owner's.
pub open spec fn member_generic_arg_list(t: SyntaxTree, path: usize) -> Option<usize> {
    match t.child(path, Class::Kind(SyntaxKind::MEMBER_GENERIC_ARGS)) {
        Some(m) => t.child(m, Class::Kind(SyntaxKind::GENERIC_ARG_LIST)),
        None => None,
    }
}

/// The variant segment of a path: the name after its `::`.
pub open spec fn variant_name_ref(t: SyntaxTree, path: usize) -> Option<usize> {
    t.child_after(path, SyntaxKind::COLON2, Class::Kind(SyntaxKind::NAME_REF))
}

/// A path type with neither arguments nor a variant segment.
pub open spec fn is_bare_path_type(t: SyntaxTree, ty: usize) -> bool {
    &&& t.kind(ty) == SyntaxKind::PATH_TYPE
    &&& t.child(ty, Class::Kind(SyntaxKind::GENERIC_ARG_LIST)) is None
    &&& variant_name_ref(t, ty) is None
}

/// The head of an impl element: its first type.
pub open spec fn impl_head(t: SyntaxTree, ie: usize) -> Option<usize> {
    t.child(ie, Class::Type)
}

/// The impl head is the bare name `Self`.
pub open spec fn is_self_head(t: SyntaxTree, ie: usize) -> bool {
    match impl_head(t, ie) {
        Some(h) => is_bare_path_type(t, h) && match t.child(h, Class::Kind(SyntaxKind::NAME_REF)) {
            Some(name) => t.node_text(name) == "Self"@,
            None => false,
        },
        None => false,
    }
}

/// The impl head when it is a bare name other than `Self`.
pub open spec fn bare_head(t: SyntaxTree, ie: usize) -> Option<usize> {
    match impl_head(t, ie) {
        Some(h) => if is_bare_path_type(t, h) {
            match t.child(h, Class::Kind(SyntaxKind::NAME_REF)) {
                Some(name) => if t.node_text(name) != "Self"@ {
                    Some(name)
                } else {
                    None
                },
                None => None,
            }
        } else {
            None
        },
        None => None,
    }
}

/// An attachment group with neither a binder nor clauses.
pub open spec fn is_plain_group(t: SyntaxTree, g: usize) -> bool {
    &&& t.child(g, Class::Kind(SyntaxKind::GENERIC_PARAM_LIST)) is None
    &&& t.child(g, Class::Kind(SyntaxKind::WITH_CLAUSE)) is None
}

/// The value of an item or member: the expression after `=`.
pub open spec fn value_of(t: SyntaxTree, n: usize) -> Option<usize> {
    t.child_after(n, SyntaxKind::EQ, Class::Expr)
}

/// The annotation of an item or member: the type after `:`.
pub open spec fn annotation_of(t: SyntaxTree, n: usize) -> Option<usize> {
    t.child_after(n, SyntaxKind::COLON, Class::Type)
}

/// A `static` item that declares a host import: `extern` with no value,
/// or the retired spelling whose value is an `extern fn` literal.
pub open spec fn declares_host_import(t: SyntaxTree, item: usize) -> bool {
    ||| t.token(item, SyntaxKind::EXTERN_KW) is Some && value_of(t, item) is None
    ||| match value_of(t, item) {
        Some(v) => t.kind(v) == SyntaxKind::FN_LITERAL && t.token(v, SyntaxKind::EXTERN_KW) is Some,
        None => false,
    }
}

/// The kind of a node's parent, if it has one.
pub open spec fn parent_kind(t: SyntaxTree, n: usize) -> Option<SyntaxKind> {
    match t.parent(n) {
        Some(p) => Some(t.kind(p)),
        None => None,
    }
}

/// The position of the element before child position `j` of `n` that is
/// not trivia.
pub open spec fn prev_non_trivia(t: SyntaxTree, n: usize, j: int) -> Option<int>
    decreases j,
{
    if j <= 0 {
        None
    } else if spec_is_trivia(t.elem_kind(t.children(n)[j - 1])) {
        prev_non_trivia(t, n, j - 1)
    } else {
        Some(j - 1)
    }
}

/// The nearest ancestor of `m`, or `m` itself, of kind `k`.
pub open spec fn ancestor_of_kind(t: SyntaxTree, m: usize, k: SyntaxKind) -> Option<usize>
    decreases m,
{
    if t.kind(m) == k {
        Some(m)
    } else {
        match t.parent(m) {
            Some(p) => if p < m {
                ancestor_of_kind(t, p, k)
            } else {
                None
            },
            None => None,
        }
    }
}

/// The nodes of kind `k` in the subtree of `root` (itself included), in
/// tree order: `root`, then the subtrees of its child nodes, in order.
pub open spec fn descendants_of_kind(t: SyntaxTree, root: usize, k: SyntaxKind) -> Seq<usize>
    decreases t.n_nodes() - root, 1int, 0int,
{
    (if t.kind(root) == k {
        seq![root]
    } else {
        Seq::empty()
    }) + child_descendants_of_kind(t, root, k, 0)
}

/// The nodes of kind `k` in the subtrees of `n`'s child nodes from child
/// position `j` on, in tree order.
pub open spec fn child_descendants_of_kind(t: SyntaxTree, n: usize, k: SyntaxKind, j: int) -> Seq<usize>
    decreases t.n_nodes() - n, 0int, t.children(n).len() - j,
{
    if j < 0 || j >= t.children(n).len() {
        Seq::empty()
    } else {
        (match t.children(n)[j] {
            Element::Node(c) => if n < c < t.n_nodes() {
                descendants_of_kind(t, c, k)
            } else {
                Seq::empty()
            },
            Element::Token(_) => Seq::empty(),
        }) + child_descendants_of_kind(t, n, k, j + 1)
    }
}

/// The kind of a node's first token.
pub open spec fn first_token_kind(t: SyntaxTree, n: usize) -> Option<SyntaxKind> {
    match t.find_first_token(n, 0) {
        Some(p) => Some(t.token_kind(t.token_at(n, p))),
        None => None,
    }
}

impl SyntaxTree {
    /// The kind of node `n`'s first token.
    pub fn first_token_kind_exec(&self, n: usize) -> (r: Option<SyntaxKind>)
        requires
            self.wf(),
            n < self.nodes@.len(),
        ensures
            r == first_token_kind(*self, n),
    {
        let len = self.nodes[n].children.len();
        let mut j: usize = 0;
        while j < len
            invariant
                j <= len,
                len == self.children(n).len(),
                n < self.nodes@.len(),
                self.wf(),
                self.find_first_token(n, 0) == self.find_first_token(n, j as int),
            decreases len - j,
        {
            match self.nodes[n].children[j] {
                Element::Token(tk) => {
                    proof {
                        assert(self.node_ok(n));
                        assert(self.child_ok(n, j as int));
                    }
                    return Some(self.tokens[tk].kind);
                },
                Element::Node(_) => {},
            }
            j = j + 1;
        }
        None
    }

    /// The nodes of kind `k` in the subtree of `root`, in tree order (see
    /// [`descendants_of_kind`]).
    pub fn descendants_of_kind_exec(&self, root: usize, k: SyntaxKind) -> (v: Vec<usize>)
        requires
            self.wf(),
            root < self.nodes@.len(),
        ensures
            v@ == descendants_of_kind(*self, root, k),
            forall|i: int| 0 <= i < v@.len() ==> #[trigger] v@[i] < self.nodes@.len(),
    {
        let mut v: Vec<usize> = Vec::new();
        self.collect_descendants(root, k, &mut v);
        assert(v@ =~= descendants_of_kind(*self, root, k));
        v
    }

    /// Appends the nodes of kind `k` in the subtree of `n`, in tree order.
    fn collect_descendants(&self, n: usize, k: SyntaxKind, v: &mut Vec<usize>)
        requires
            self.wf(),
            n < self.nodes@.len(),
            forall|i: int| 0 <= i < old(v)@.len() ==> #[trigger] old(v)@[i] < self.nodes@.len(),
        ensures
            final(v)@ == old(v)@ + descendants_of_kind(*self, n, k),
            forall|i: int| 0 <= i < final(v)@.len() ==> #[trigger] final(v)@[i] < self.nodes@.len(),
        decreases self.nodes@.len() - n,
    {
        if self.nodes[n].kind == k {
            v.push(n);
        }
        let ghost v1 = v@;
        let len = self.nodes[n].children.len();
        let mut j: usize = 0;
        while j < len
            invariant
                self.wf(),
                n < self.nodes@.len(),
                len == self.children(n).len(),
                j <= len,
                forall|i: int| 0 <= i < v@.len() ==> #[trigger] v@[i] < self.nodes@.len(),
                v@ + child_descendants_of_kind(*self, n, k, j as int) == v1 + child_descendants_of_kind(
                    *self,
                    n,
                    k,
                    0,
                ),
            decreases len - j,
        {
            let ghost v0 = v@;
            match self.nodes[n].children[j] {
                Element::Node(c) => {
                    proof {
                        self.lemma_elem_ok(n, j as int);
                    }
                    self.collect_descendants(c, k, v);
                },
                Element::Token(_) => {},
            }
            assert(v@ + child_descendants_of_kind(*self, n, k, j + 1) =~= v0 + child_descendants_of_kind(
                *self,
                n,
                k,
                j as int,
            ));
            j = j + 1;
        }
        assert(v@ =~= old(v)@ + descendants_of_kind(*self, n, k));
    }

    /// The `then` branch of an `if` (see [`if_then_branch`]).
    pub fn if_then_branch_exec(&self, n: usize) -> (r: Option<usize>)
        requires
            self.wf(),
            n < self.nodes@.len(),
        ensures
            r == if_then_branch(*self, n),
            r matches Some(b) ==> b < self.nodes@.len(),
    {
        let from = match self.find_node_exec(n, 0, Class::Expr) {
            Some(p) => p + 1,
            None => self.nodes[n].children.len(),
        };
        let p = self.find_node_exec(n, from, Class::Expr)?;
        proof {
            self.lemma_find_node(n, from as int, Class::Expr);
            self.lemma_elem_ok(n, p as int);
        }
        let before_else = match self.find_token_exec(n, 0, SyntaxKind::ELSE_KW) {
            Some(e) => p < e,
            None => true,
        };
        if !before_else {
            return None;
        }
        match self.nodes[n].children[p] {
            Element::Node(id) => Some(id),
            Element::Token(_) => None,
        }
    }

    /// A path's own generic arguments (see [`generic_arg_list`]).
    pub fn generic_arg_list_exec(&self, path: usize) -> (r: Option<usize>)
        requires
            self.wf(),
            path < self.nodes@.len(),
        ensures
            r == generic_arg_list(*self, path),
    {
        self.child_exec(path, Class::Kind(SyntaxKind::GENERIC_ARG_LIST))
    }

    /// A path's member arguments (see [`member_generic_arg_list`]).
    pub fn member_generic_arg_list_exec(&self, path: usize) -> (r: Option<usize>)
        requires
            self.wf(),
            path < self.nodes@.len(),
        ensures
            r == member_generic_arg_list(*self, path),
    {
        match self.child_exec(path, Class::Kind(SyntaxKind::MEMBER_GENERIC_ARGS)) {
            Some(m) => self.child_exec(m, Class::Kind(SyntaxKind::GENERIC_ARG_LIST)),
            None => None,
        }
    }

    /// The first child node of `n` in class `c`.
    pub fn child_exec(&self, n: usize, c: Class) -> (r: Option<usize>)
        requires
            self.wf(),
            n < self.nodes@.len(),
        ensures
            r == self.child(n, c),
            r matches Some(id) ==> is_child(*self, n, id),
    {
        match self.find_node_exec(n, 0, c) {
            Some(p) => {
                proof {
                    self.lemma_find_node(n, 0, c);
                    self.lemma_elem_ok(n, p as int);
                }
                match self.nodes[n].children[p] {
                    Element::Node(id) => Some(id),
                    Element::Token(_) => None,
                }
            },
            None => None,
        }
    }

    /// The first child token of `n` of kind `k`.
    pub fn token_exec(&self, n: usize, k: SyntaxKind) -> (r: Option<usize>)
        requires
            self.wf(),
            n < self.nodes@.len(),
        ensures
            r == self.token(n, k),
            r matches Some(tk) ==> is_child_token(*self, n, tk),
    {
        match self.find_token_exec(n, 0, k) {
            Some(p) => {
                proof {
                    self.lemma_find_token(n, 0, k);
                    self.lemma_elem_ok(n, p as int);
                }
                match self.nodes[n].children[p] {
                    Element::Token(id) => Some(id),
                    Element::Node(_) => None,
                }
            },
            None => None,
        }
    }

    /// The first child node of `n` in class `c` after the first child
    /// token of kind `k`; it starts no earlier than that token ends.
    pub fn child_after_exec(&self, n: usize, k: SyntaxKind, c: Class) -> (r: Option<usize>)
        requires
            self.wf(),
            n < self.nodes@.len(),
        ensures
            r == self.child_after(n, k, c),
            r matches Some(id) ==> {
                &&& is_child(*self, n, id)
                &&& self.token(n, k) matches Some(tk) && is_child_token(*self, n, tk)
                    && self.token_range(tk).end <= self.node_range(id).start
            },
    {
        match self.find_token_exec(n, 0, k) {
            Some(tp) => {
                proof {
                    self.lemma_find_token(n, 0, k);
                    self.lemma_elem_ok(n, tp as int);
                }
                match self.find_node_exec(n, tp + 1, c) {
                    Some(p) => {
                        proof {
                            self.lemma_find_node(n, tp + 1, c);
                            self.lemma_elem_ok(n, p as int);
                            self.lemma_children_ordered(n, tp as int, p as int);
                        }
                        match self.nodes[n].children[p] {
                            Element::Node(id) => Some(id),
                            Element::Token(_) => None,
                        }
                    },
                    None => None,
                }
            },
            None => None,
        }
    }

    /// The kind of node `n`.
    pub fn kind_exec(&self, n: usize) -> (k: SyntaxKind)
        requires
            n < self.nodes@.len(),
        ensures
            k == self.kind(n),
    {
        self.nodes[n].kind
    }

    /// The range of node `n`.
    pub fn range_exec(&self, n: usize) -> (r: TextRange)
        requires
            n < self.nodes@.len(),
        ensures
            r == self.node_range(n),
    {
        self.nodes[n].range
    }

    /// The range of token `tk`.
    pub fn token_range_exec(&self, tk: usize) -> (r: TextRange)
        requires
            tk < self.tokens@.len(),
        ensures
            r == self.token_range(tk),
    {
        self.tokens[tk].range
    }

    /// The parent of node `n`; in a well-formed tree it comes before `n`.
    pub fn parent_exec(&self, n: usize) -> (r: Option<usize>)
        requires
            self.wf(),
            n < self.nodes@.len(),
        ensures
            r == self.parent(n),
            r matches Some(p) ==> p < n,
    {
        proof {
            assert(self.node_ok(n));
        }
        self.nodes[n].parent
    }

    /// The kind of the parent of node `n`.
    pub fn parent_kind_exec(&self, n: usize) -> (r: Option<SyntaxKind>)
        requires
            self.wf(),
            n < self.nodes@.len(),
        ensures
            r == parent_kind(*self, n),
    {
        match self.parent_exec(n) {
            Some(p) => Some(self.nodes[p].kind),
            None => None,
        }
    }

    /// The text of node `n`: the text of its first token.
    pub fn text_exec(&self, n: usize) -> (s: String)
        requires
            self.wf(),
            n < self.nodes@.len(),
        ensures
            s@ == self.node_text(n),
    {
        let len = self.nodes[n].children.len();
        let mut j: usize = 0;
        while j < len
            invariant
                j <= len,
                len == self.children(n).len(),
                n < self.nodes@.len(),
                self.wf(),
                self.find_first_token(n, 0) == self.find_first_token(n, j as int),
            decreases len - j,
        {
            match self.nodes[n].children[j] {
                Element::Token(tk) => {
                    proof {
                        assert(self.node_ok(n));
                        assert(self.child_ok(n, j as int));
                    }
                    return self.tokens[tk].text.clone();
                },
                Element::Node(_) => {},
            }
            j = j + 1;
        }
        String::new()
    }

    /// The child nodes of `n` in class `c`, in order.
    pub fn nodes_of_exec(&self, n: usize, c: Class) -> (v: Vec<usize>)
        requires
            self.wf(),
            n < self.nodes@.len(),
        ensures
            v@ == self.nodes_of(n, c),
            forall|i: int| 0 <= i < v@.len() ==> is_child(*self, n, #[trigger] v@[i]),
    {
        let len = self.nodes[n].children.len();
        let mut v: Vec<usize> = Vec::new();
        let mut j: usize = 0;
        while j < len
            invariant
                j <= len,
                len == self.children(n).len(),
                n < self.nodes@.len(),
                self.wf(),
                v@ == self.nodes_upto(n, j as int, c),
                forall|i: int| 0 <= i < v@.len() ==> is_child(*self, n, #[trigger] v@[i]),
            decreases len - j,
        {
            match self.nodes[n].children[j] {
                Element::Node(id) => {
                    proof {
                        self.lemma_elem_ok(n, j as int);
                        assert(self.node_ok(id));
                    }
                    if crate::kind::class_contains(c, self.nodes[id].kind) {
                        v.push(id);
                    }
                },
                Element::Token(_) => {},
            }
            j = j + 1;
        }
        v
    }

    /// The pattern of a `let` or a parameter (see [`pat_of`]).
    pub fn pat_exec(&self, n: usize) -> (r: Option<usize>)
        requires
            self.wf(),
            n < self.nodes@.len(),
        ensures
            r == pat_of(*self, n),
            r matches Some(p) ==> is_child(*self, n, p),
            r matches Some(p) ==> (self.token(n, SyntaxKind::MUT_KW) matches Some(m) ==> self.token_range(
                m,
            ).end <= self.node_range(p).start),
    {
        if self.token_exec(n, SyntaxKind::MUT_KW).is_some() {
            self.child_after_exec(n, SyntaxKind::MUT_KW, Class::Pat)
        } else {
            self.child_exec(n, Class::Pat)
        }
    }

    /// The value of an item or member: the expression after `=`.
    pub fn value_exec(&self, n: usize) -> (r: Option<usize>)
        requires
            self.wf(),
            n < self.nodes@.len(),
        ensures
            r == value_of(*self, n),
            r matches Some(id) ==> {
                &&& is_child(*self, n, id)
                &&& self.token(n, SyntaxKind::EQ) matches Some(tk) && is_child_token(*self, n, tk)
                    && self.token_range(tk).end <= self.node_range(id).start
            },
    {
        self.child_after_exec(n, SyntaxKind::EQ, Class::Expr)
    }

    /// The annotation of an item or member: the type after `:`.
    pub fn annotation_exec(&self, n: usize) -> (r: Option<usize>)
        requires
            self.wf(),
            n < self.nodes@.len(),
        ensures
            r == annotation_of(*self, n),
            r matches Some(id) ==> {
                &&& is_child(*self, n, id)
                &&& self.token(n, SyntaxKind::COLON) matches Some(tk) && is_child_token(*self, n, tk)
                    && self.token_range(tk).end <= self.node_range(id).start
            },
    {
        self.child_after_exec(n, SyntaxKind::COLON, Class::Type)
    }

    /// Whether the text of node `n` is `lit`.
    pub fn text_is(&self, n: usize, lit: &str) -> (b: bool)
        requires
            self.wf(),
            n < self.nodes@.len(),
        ensures
            b == (self.node_text(n) == lit@),
    {
        let s = self.text_exec(n);
        let l = String::from_str(lit);
        s == l
    }

    /// The variant segment of a path (see [`variant_name_ref`]).
    pub fn variant_name_ref_exec(&self, path: usize) -> (r: Option<usize>)
        requires
            self.wf(),
            path < self.nodes@.len(),
        ensures
            r == variant_name_ref(*self, path),
            r matches Some(id) ==> is_child(*self, path, id),
    {
        self.child_after_exec(path, SyntaxKind::COLON2, Class::Kind(SyntaxKind::NAME_REF))
    }

    /// Whether a type is a bare path (see [`is_bare_path_type`]).
    pub fn is_bare_path_type_exec(&self, ty: usize) -> (b: bool)
        requires
            self.wf(),
            ty < self.nodes@.len(),
        ensures
            b == is_bare_path_type(*self, ty),
    {
        self.nodes[ty].kind == SyntaxKind::PATH_TYPE && self.child_exec(
            ty,
            Class::Kind(SyntaxKind::GENERIC_ARG_LIST),
        ).is_none() && self.variant_name_ref_exec(ty).is_none()
    }

    /// Whether the impl head is `Self` (see [`is_self_head`]).
    pub fn is_self_head_exec(&self, ie: usize) -> (b: bool)
        requires
            self.wf(),
            ie < self.nodes@.len(),
        ensures
            b == is_self_head(*self, ie),
    {
        match self.child_exec(ie, Class::Type) {
            Some(h) => self.is_bare_path_type_exec(h) && match self.child_exec(
                h,
                Class::Kind(SyntaxKind::NAME_REF),
            ) {
                Some(name) => self.text_is(name, "Self"),
                None => false,
            },
            None => false,
        }
    }

    /// Whether an attachment group is plain (see [`is_plain_group`]).
    pub fn is_plain_group_exec(&self, g: usize) -> (b: bool)
        requires
            self.wf(),
            g < self.nodes@.len(),
        ensures
            b == is_plain_group(*self, g),
    {
        self.child_exec(g, Class::Kind(SyntaxKind::GENERIC_PARAM_LIST)).is_none() && self.child_exec(
            g,
            Class::Kind(SyntaxKind::WITH_CLAUSE),
        ).is_none()
    }

    /// Whether a `static` item declares a host import (see
    /// [`declares_host_import`]).
    pub fn declares_host_import_exec(&self, item: usize) -> (b: bool)
        requires
            self.wf(),
            item < self.nodes@.len(),
        ensures
            b == declares_host_import(*self, item),
    {
        let value = self.value_exec(item);
        if self.token_exec(item, SyntaxKind::EXTERN_KW).is_some() && value.is_none() {
            return true;
        }
        match value {
            Some(v) => self.nodes[v].kind == SyntaxKind::FN_LITERAL && self.token_exec(
                v,
                SyntaxKind::EXTERN_KW,
            ).is_some(),
            None => false,
        }
    }

    /// The nearest ancestor of `m`, or `m` itself, of kind `k`.
    pub fn ancestor_of_kind_exec(&self, m: usize, k: SyntaxKind) -> (r: Option<usize>)
        requires
            self.wf(),
            m < self.nodes@.len(),
        ensures
            r == ancestor_of_kind(*self, m, k),
            r matches Some(a) ==> a < self.nodes@.len(),
    {
        let mut cur = m;
        loop
            invariant
                self.wf(),
                cur < self.nodes@.len(),
                ancestor_of_kind(*self, m, k) == ancestor_of_kind(*self, cur, k),
            decreases cur,
        {
            if self.nodes[cur].kind == k {
                return Some(cur);
            }
            match self.parent_exec(cur) {
                Some(p) => {
                    cur = p;
                },
                None => {
                    return None;
                },
            }
        }
    }
}

} // verus!
