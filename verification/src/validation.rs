//! The validation pass: every node of the tree, in tree order, judged by
//! the rules for its kind.

use vstd::prelude::*;

use crate::ast::{if_else_branch, if_then_branch, parent_kind, pat_of};
use crate::binders::{
    stray_binder_errors, binder_order_errors, nested_binder_errors, reject_nested_generic_binder, require_regions_first,
    type_param_bound_errors, validate_type_param_bounds,
};
use crate::error::{each, errors_view, lemma_each_contains, plain, push_plain, text, ErrorView, SyntaxError};
use crate::exprs::{
    bare_angle_errors, bare_variant_errors, block_errors, literal_pattern_errors, mut_binding_errors,
    prefix_borrow_expr_errors, prefix_borrow_type_errors, reject_bare_angle_generic_args,
    reject_non_char_literal_pat, reject_prefix_borrow_expr, reject_prefix_borrow_type,
    reject_unqualified_bare_variant_pat, require_block,
    require_mut_names_a_binding, require_variable_target, target_errors, BRACE_RULE,
};
use crate::items::{
    extern_fn_errors, extern_marker_errors, extern_static_errors, fn_type_errors, reject_extern_marker,
    reject_type_item_annotation, trait_item_errors, type_item_annotation_errors, validate_extern_fn,
    validate_extern_static, validate_fn_type, validate_trait_item, validate_with_group, validate_without_clause,
    with_group_errors, without_clause_errors,
};
use crate::kind::{Class, SyntaxKind};
use crate::members::{impl_element_errors, member_errors, validate_impl_element, validate_member};
use crate::records::{
    duplicates_of, enum_expr_errors, open_record_errors, pub_field_errors, record_expr_errors, record_expr_field_errors, record_type_errors, reject_rest_pat, report_duplicate_fields,
    rest_pat_errors, validate_enum_expr, validate_record_expr, validate_record_type,
};
use crate::tree::{Element, SyntaxTree};

verus! {

/// The message for an `unsafe fn` literal.
pub open spec fn msg_unsafe_fn_literal() -> Seq<char> {
    "`unsafe fn` is not supported yet; use `unsafe { ... }` blocks inside a plain `fn`"@
}

/// A fn literal: the retired import spelling, or a body that must be a
/// block; then where its binder may stand.
pub open spec fn fn_literal_errors(t: SyntaxTree, n: usize) -> Seq<ErrorView> {
    (if t.token(n, SyntaxKind::EXTERN_KW) is Some {
        extern_fn_errors(t, n)
    } else {
        match t.child(n, Class::Expr) {
            Some(body) => block_errors(t, body, BRACE_RULE@),
            None => Seq::empty(),
        }
    }) + nested_binder_errors(t, n)
}

/// An `if`: both branches are blocks (an `else if` judges itself).
pub open spec fn if_errors(t: SyntaxTree, n: usize) -> Seq<ErrorView> {
    (match if_then_branch(t, n) {
        Some(b) => block_errors(t, b, "`if` branches are blocks"@),
        None => Seq::empty(),
    }) + match if_else_branch(t, n) {
        Some(e) => if t.kind(e) != SyntaxKind::IF_EXPR {
            block_errors(t, e, "`else` branches are blocks"@)
        } else {
            Seq::empty()
        },
        None => Seq::empty(),
    }
}

/// An `unsafe` expression: an `unsafe fn` literal is reserved; any other
/// body must be a block.
pub open spec fn unsafe_block_errors(t: SyntaxTree, n: usize) -> Seq<ErrorView> {
    match t.child(n, Class::Expr) {
        Some(e) => if t.kind(e) == SyntaxKind::FN_LITERAL {
            seq![plain(msg_unsafe_fn_literal(), t.node_range(e))]
        } else {
            block_errors(t, e, "`unsafe` blocks"@)
        },
        None => Seq::empty(),
    }
}

/// A reserved modifier keyword on an impl element.
pub open spec fn keyword_errors(t: SyntaxTree, n: usize, k: SyntaxKind, message: Seq<char>) -> Seq<ErrorView> {
    match t.token(n, k) {
        Some(tk) => seq![plain(message, t.token_range(tk))],
        None => Seq::empty(),
    }
}

/// The diagnostics for one node, by its kind.
pub open spec fn node_errors(t: SyntaxTree, n: usize) -> Seq<ErrorView> {
    match t.kind(n) {
        SyntaxKind::FN_LITERAL => fn_literal_errors(t, n),
        SyntaxKind::IF_EXPR => if_errors(t, n),
        SyntaxKind::LOOP_EXPR => match t.child(n, Class::Expr) {
            Some(b) => block_errors(t, b, "`loop` bodies are blocks"@),
            None => Seq::empty(),
        },
        SyntaxKind::ASSIGN_STMT => match t.child(n, Class::Expr) {
            Some(lhs) => target_errors(t, lhs),
            None => Seq::empty(),
        },
        SyntaxKind::LET_STMT => mut_binding_errors(t, n),
        SyntaxKind::RECORD_TYPE => record_type_errors(t, n),
        SyntaxKind::RECORD_EXPR => record_expr_errors(t, n),
        SyntaxKind::FN_TYPE => fn_type_errors(t, n),
        SyntaxKind::STATIC_ITEM => extern_static_errors(t, n),
        SyntaxKind::TYPE_ITEM => extern_marker_errors(t, n) + type_item_annotation_errors(t, n),
        SyntaxKind::TRAIT_ITEM => extern_marker_errors(t, n) + trait_item_errors(t, n),
        SyntaxKind::TYPE_PARAM => type_param_bound_errors(t, n),
        SyntaxKind::GENERIC_PARAM_LIST => binder_order_errors(t, n),
        SyntaxKind::ENUM_EXPR => enum_expr_errors(t, n),
        SyntaxKind::REST_PAT => rest_pat_errors(t, n),
        SyntaxKind::LITERAL_PAT => literal_pattern_errors(t, n),
        SyntaxKind::RECORD_PAT => duplicates_of(t, n, SyntaxKind::RECORD_PAT_FIELD, SyntaxKind::NAME, "field"@),
        SyntaxKind::VARIANT_PAT => bare_variant_errors(t, n),
        SyntaxKind::PARAM => mut_binding_errors(t, n),
        SyntaxKind::UNSAFE_BLOCK_EXPR => unsafe_block_errors(t, n),
        SyntaxKind::WITH_GROUP => with_group_errors(t, n),
        SyntaxKind::WITHOUT_CLAUSE => without_clause_errors(t, n),
        SyntaxKind::UNSAFE_ELEMENT => keyword_errors(
            t,
            n,
            SyntaxKind::UNSAFE_KW,
            "`unsafe` impl elements are not supported yet"@,
        ),
        SyntaxKind::FOR_ELEMENT => keyword_errors(
            t,
            n,
            SyntaxKind::FOR_KW,
            "`for` (covered) impl elements are not supported yet"@,
        ),
        SyntaxKind::IMPL_ELEMENT => impl_element_errors(t, n),
        SyntaxKind::MEMBER => member_errors(t, n),
        SyntaxKind::PATH_TYPE => bare_angle_errors(t, n),
        SyntaxKind::PATH_EXPR => bare_angle_errors(t, n),
        SyntaxKind::BORROW_EXPR => prefix_borrow_expr_errors(t, n),
        SyntaxKind::BORROW_TYPE => prefix_borrow_type_errors(t, n),
        _ => Seq::empty(),
    }
}

/// The diagnostics of the subtree of `n`, in tree order: `n`'s own, then
/// each child node's subtree, in the order of the children.
pub open spec fn subtree_errors(t: SyntaxTree, n: usize) -> Seq<ErrorView>
    decreases t.n_nodes() - n, 1int, 0int,
{
    node_errors(t, n) + children_errors(t, n, 0)
}

/// The diagnostics of the subtrees of `n`'s child nodes from child
/// position `j` on, in order.
pub open spec fn children_errors(t: SyntaxTree, n: usize, j: int) -> Seq<ErrorView>
    decreases t.n_nodes() - n, 0int, t.children(n).len() - j,
{
    if j < 0 || j >= t.children(n).len() {
        Seq::empty()
    } else {
        (match t.children(n)[j] {
            Element::Node(c) => if n < c < t.n_nodes() {
                subtree_errors(t, c)
            } else {
                Seq::empty()
            },
            Element::Token(_) => Seq::empty(),
        }) + children_errors(t, n, j + 1)
    }
}

/// The diagnostics of the whole tree: every node's, in tree order
/// (preorder) from the root.
pub open spec fn validation_errors(t: SyntaxTree) -> Seq<ErrorView> {
    subtree_errors(t, 0)
}

/// The pass judges each of these nodes by its rule and by nothing else: a
/// `let` and a parameter alike by the `mut` rule, an assignment by the
/// place rule on its target, a fn type by the fn-type rule, a borrow type
/// by the postfix rule, and a `static` by the import rules; and each node
/// that hangs from the root has those diagnostics in the pass's result.
pub proof fn the_pass_applies_each_rule_to_its_node(t: SyntaxTree, n: usize)
    ensures
        (t.kind(n) == SyntaxKind::LET_STMT || t.kind(n) == SyntaxKind::PARAM) ==> node_errors(t, n)
            == mut_binding_errors(t, n),
        t.kind(n) == SyntaxKind::ASSIGN_STMT ==> node_errors(t, n) == match t.child(n, Class::Expr) {
            Some(lhs) => target_errors(t, lhs),
            None => Seq::<ErrorView>::empty(),
        },
        t.kind(n) == SyntaxKind::FN_TYPE ==> node_errors(t, n) == fn_type_errors(t, n),
        t.kind(n) == SyntaxKind::BORROW_TYPE ==> node_errors(t, n) == prefix_borrow_type_errors(t, n),
        t.kind(n) == SyntaxKind::STATIC_ITEM ==> node_errors(t, n) == extern_static_errors(t, n),
{
}

// ---- where a node's diagnostics stand in the whole --------------------------

/// `n` hangs from the root through the children lists: it is the root, or
/// a child node listed by its parent, which hangs from the root.
pub open spec fn reachable(t: SyntaxTree, n: usize) -> bool
    decreases n,
{
    if n == 0 {
        true
    } else {
        match t.parent(n) {
            Some(p) => p < n && t.children(p).contains(Element::Node(n)) && reachable(t, p),
            None => false,
        }
    }
}

/// `small` stands in `big` as one contiguous piece.
pub open spec fn occurs_in(small: Seq<ErrorView>, big: Seq<ErrorView>) -> bool {
    exists|i: int, j: int| 0 <= i && j == i + small.len() && j <= big.len() && #[trigger] big.subrange(i, j) == small
}

proof fn lemma_occurs_self(a: Seq<ErrorView>)
    ensures
        occurs_in(a, a),
{
    assert(a.subrange(0, a.len() as int) =~= a);
}

proof fn lemma_occurs_left(a: Seq<ErrorView>, b: Seq<ErrorView>, c: Seq<ErrorView>)
    requires
        occurs_in(a, b),
    ensures
        occurs_in(a, b + c),
{
    let (i, _) = choose|i: int, j: int| 0 <= i && j == i + a.len() && j <= b.len() && #[trigger] b.subrange(i, j) == a;
    assert((b + c).subrange(i, i + a.len()) =~= b.subrange(i, i + a.len()));
}

proof fn lemma_occurs_right(a: Seq<ErrorView>, b: Seq<ErrorView>, c: Seq<ErrorView>)
    requires
        occurs_in(a, c),
    ensures
        occurs_in(a, b + c),
{
    let (i, _) = choose|i: int, j: int| 0 <= i && j == i + a.len() && j <= c.len() && #[trigger] c.subrange(i, j) == a;
    let k = b.len() + i;
    assert((b + c).subrange(k, k + a.len()) =~= c.subrange(i, i + a.len()));
}

proof fn lemma_occurs_trans(a: Seq<ErrorView>, b: Seq<ErrorView>, c: Seq<ErrorView>)
    requires
        occurs_in(a, b),
        occurs_in(b, c),
    ensures
        occurs_in(a, c),
{
    let (i, _) = choose|i: int, j: int| 0 <= i && j == i + a.len() && j <= b.len() && #[trigger] b.subrange(i, j) == a;
    let (j, _) = choose|i: int, j: int| 0 <= i && j == i + b.len() && j <= c.len() && #[trigger] c.subrange(i, j) == b;
    assert(c.subrange(j + i, j + i + a.len()) =~= b.subrange(i, i + a.len()));
}

/// The subtree of the child at position `j` stands in the diagnostics of
/// the children from position `k` on.
proof fn lemma_child_occurs(t: SyntaxTree, p: usize, c: usize, j: int, k: int)
    requires
        0 <= k <= j < t.children(p).len(),
        t.children(p)[j] == Element::Node(c),
        p < c < t.n_nodes(),
    ensures
        occurs_in(subtree_errors(t, c), children_errors(t, p, k)),
    decreases j - k,
{
    let here = match t.children(p)[k] {
        Element::Node(d) => if p < d < t.n_nodes() {
            subtree_errors(t, d)
        } else {
            Seq::empty()
        },
        Element::Token(_) => Seq::empty(),
    };
    assert(children_errors(t, p, k) == here + children_errors(t, p, k + 1));
    if k == j {
        let s = subtree_errors(t, c);
        lemma_occurs_self(s);
        lemma_occurs_left(s, s, children_errors(t, p, k + 1));
    } else {
        lemma_child_occurs(t, p, c, j, k + 1);
        lemma_occurs_right(subtree_errors(t, c), here, children_errors(t, p, k + 1));
    }
}

proof fn lemma_subtree_occurs(t: SyntaxTree, n: usize)
    requires
        t.wf(),
        n < t.n_nodes(),
        reachable(t, n),
    ensures
        occurs_in(subtree_errors(t, n), validation_errors(t)),
    decreases n,
{
    let s = subtree_errors(t, n);
    if n == 0 {
        lemma_occurs_self(s);
    } else {
        let p = t.parent(n).unwrap();
        lemma_subtree_occurs(t, p);
        let j = choose|j: int| 0 <= j < t.children(p).len() && t.children(p)[j] == Element::Node(n);
        lemma_child_occurs(t, p, n, j, 0);
        lemma_occurs_right(s, node_errors(t, p), children_errors(t, p, 0));
        lemma_occurs_trans(s, subtree_errors(t, p), validation_errors(t));
    }
}

/// Every node that hangs from the root is judged, and judged in one
/// place: its diagnostics stand in the pass's result as one contiguous
/// piece, exactly as the rules for its kind give them.
pub proof fn every_node_is_judged_in_place(t: SyntaxTree, n: usize)
    requires
        t.wf(),
        n < t.n_nodes(),
        reachable(t, n),
    ensures
        occurs_in(node_errors(t, n), validation_errors(t)),
{
    lemma_subtree_occurs(t, n);
    let s = subtree_errors(t, n);
    let e = node_errors(t, n);
    lemma_occurs_self(e);
    lemma_occurs_left(e, e, children_errors(t, n, 0));
    lemma_occurs_trans(e, s, validation_errors(t));
}

/// A piece that stands in the result brings its diagnostics with it.
proof fn lemma_occurs_contains(a: Seq<ErrorView>, b: Seq<ErrorView>, x: ErrorView)
    requires
        occurs_in(a, b),
        a.contains(x),
    ensures
        b.contains(x),
{
    let (i, _) = choose|i: int, j: int| 0 <= i && j == i + a.len() && j <= b.len() && #[trigger] b.subrange(i, j) == a;
    let k = choose|k: int| 0 <= k < a.len() && a[k] == x;
    assert(b.subrange(i, i + a.len())[k] == b[i + k]);
}

/// `..` is legal only in a record pattern: a rest pattern draws the
/// reservation exactly when its parent is not a record pattern (so
/// `S { x, .. }` draws nothing), and when it does, the pass reports it.
pub proof fn a_rest_pattern_is_reported_outside_a_record_pattern(t: SyntaxTree, r: usize)
    requires
        t.wf(),
        r < t.n_nodes(),
        t.kind(r) == SyntaxKind::REST_PAT,
        reachable(t, r),
    ensures
        node_errors(t, r) == (if parent_kind(t, r) == Some(SyntaxKind::RECORD_PAT) {
            Seq::<ErrorView>::empty()
        } else {
            seq![plain("`..` in patterns is not supported yet"@, t.node_range(r))]
        }),
        parent_kind(t, r) != Some(SyntaxKind::RECORD_PAT) ==> validation_errors(t).contains(
            plain("`..` in patterns is not supported yet"@, t.node_range(r)),
        ),
{
    every_node_is_judged_in_place(t, r);
    if parent_kind(t, r) != Some(SyntaxKind::RECORD_PAT) {
        let x = plain("`..` in patterns is not supported yet"@, t.node_range(r));
        assert(node_errors(t, r)[0] == x);
        lemma_occurs_contains(node_errors(t, r), validation_errors(t), x);
    }
}

/// The message for a construction field with a type and no value.
pub open spec fn msg_typed_field_without_value() -> Seq<char> {
    "this field has a type but no value; write `name: Type = value` (or `name = value`)"@
}

/// A construction literal defines every field: a field of a record literal
/// draws "has a type but no value" exactly when the literal is not a
/// `type` declaration's value and the field has a `:`, no `=` and no
/// expression (after its visibility diagnostic, if it has `pub`); and
/// when it does, the pass reports it.
pub proof fn a_typed_field_without_a_value_is_reported(t: SyntaxTree, r: usize, f: usize)
    requires
        t.wf(),
        r < t.n_nodes(),
        t.kind(r) == SyntaxKind::RECORD_EXPR,
        t.nodes_of(r, Class::Kind(SyntaxKind::RECORD_EXPR_FIELD)).contains(f),
        reachable(t, r),
    ensures
        record_expr_field_errors(t, parent_kind(t, r) == Some(SyntaxKind::TYPE_ITEM))(f) == pub_field_errors(t, f) + (
        if parent_kind(t, r) != Some(SyntaxKind::TYPE_ITEM) && t.token(f, SyntaxKind::COLON) is Some && t.token(
            f,
            SyntaxKind::EQ,
        ) is None && t.child(f, Class::Expr) is None {
            seq![plain(msg_typed_field_without_value(), t.node_range(f))]
        } else {
            Seq::<ErrorView>::empty()
        }),
        parent_kind(t, r) != Some(SyntaxKind::TYPE_ITEM) && t.token(f, SyntaxKind::COLON) is Some && t.token(
            f,
            SyntaxKind::EQ,
        ) is None && t.child(f, Class::Expr) is None ==> validation_errors(t).contains(
            plain(msg_typed_field_without_value(), t.node_range(f)),
        ),
{
    let decl = parent_kind(t, r) == Some(SyntaxKind::TYPE_ITEM);
    let g = record_expr_field_errors(t, decl);
    let fields = t.nodes_of(r, Class::Kind(SyntaxKind::RECORD_EXPR_FIELD));
    let x = plain(msg_typed_field_without_value(), t.node_range(f));
    if !decl && t.token(f, SyntaxKind::COLON) is Some && t.token(f, SyntaxKind::EQ) is None && t.child(f, Class::Expr)
        is None {
        assert(g(f)[pub_field_errors(t, f).len() as int] == x);
        lemma_each_contains(fields, g, f, x);
        let head = duplicates_of(t, r, SyntaxKind::RECORD_EXPR_FIELD, SyntaxKind::NAME_REF, "field"@)
            + open_record_errors(t, r) + stray_binder_errors(
            t,
            t.child(r, Class::Kind(SyntaxKind::GENERIC_PARAM_LIST)),
            r,
        );
        let rest = each(fields, g);
        assert(node_errors(t, r) == head + rest);
        let m = choose|m: int| 0 <= m < rest.len() && rest[m] == x;
        assert(node_errors(t, r)[head.len() + m] == x);
        every_node_is_judged_in_place(t, r);
        lemma_occurs_contains(node_errors(t, r), validation_errors(t), x);
    }
}

/// The checks for one node.
#[verifier::rlimit(40)]
fn validate_node(t: &SyntaxTree, n: usize, errors: &mut Vec<SyntaxError>)
    requires
        t.wf(),
        n < t.nodes@.len(),
    ensures
        errors_view(final(errors)@) == errors_view(old(errors)@) + node_errors(*t, n),
{
    match t.kind_exec(n) {
        SyntaxKind::FN_LITERAL => {
            if t.token_exec(n, SyntaxKind::EXTERN_KW).is_some() {
                validate_extern_fn(t, n, errors);
            } else if let Some(body) = t.child_exec(n, Class::Expr) {
                require_block(t, body, BRACE_RULE, errors);
            }
            reject_nested_generic_binder(t, n, errors);
        },
        SyntaxKind::IF_EXPR => {
            if let Some(then) = t.if_then_branch_exec(n) {
                require_block(t, then, "`if` branches are blocks", errors);
            }
            if let Some(els) = t.child_after_exec(n, SyntaxKind::ELSE_KW, Class::Expr) {
                if t.kind_exec(els) != SyntaxKind::IF_EXPR {
                    require_block(t, els, "`else` branches are blocks", errors);
                }
            }
        },
        SyntaxKind::LOOP_EXPR => {
            if let Some(body) = t.child_exec(n, Class::Expr) {
                require_block(t, body, "`loop` bodies are blocks", errors);
            }
        },
        SyntaxKind::ASSIGN_STMT => {
            if let Some(lhs) = t.child_exec(n, Class::Expr) {
                require_variable_target(t, lhs, errors);
            }
        },
        SyntaxKind::LET_STMT => require_mut_names_a_binding(t, n, errors),
        SyntaxKind::RECORD_TYPE => validate_record_type(t, n, errors),
        SyntaxKind::RECORD_EXPR => validate_record_expr(t, n, errors),
        SyntaxKind::FN_TYPE => validate_fn_type(t, n, errors),
        SyntaxKind::STATIC_ITEM => validate_extern_static(t, n, errors),
        SyntaxKind::TYPE_ITEM => {
            reject_extern_marker(t, n, errors);
            reject_type_item_annotation(t, n, errors);
        },
        SyntaxKind::TRAIT_ITEM => {
            reject_extern_marker(t, n, errors);
            validate_trait_item(t, n, errors);
        },
        SyntaxKind::TYPE_PARAM => validate_type_param_bounds(t, n, errors),
        SyntaxKind::GENERIC_PARAM_LIST => require_regions_first(t, n, errors),
        SyntaxKind::ENUM_EXPR => validate_enum_expr(t, n, errors),
        SyntaxKind::REST_PAT => reject_rest_pat(t, n, errors),
        SyntaxKind::LITERAL_PAT => reject_non_char_literal_pat(t, n, errors),
        SyntaxKind::RECORD_PAT => report_duplicate_fields(t, n, SyntaxKind::RECORD_PAT_FIELD, SyntaxKind::NAME, errors),
        SyntaxKind::VARIANT_PAT => reject_unqualified_bare_variant_pat(t, n, errors),
        SyntaxKind::PARAM => require_mut_names_a_binding(t, n, errors),
        SyntaxKind::UNSAFE_BLOCK_EXPR => {
            if let Some(e) = t.child_exec(n, Class::Expr) {
                if t.kind_exec(e) == SyntaxKind::FN_LITERAL {
                    push_plain(
                        errors,
                        text("`unsafe fn` is not supported yet; use `unsafe { ... }` blocks inside a plain `fn`"),
                        t.range_exec(e),
                    );
                } else {
                    require_block(t, e, "`unsafe` blocks", errors);
                }
            }
        },
        SyntaxKind::WITH_GROUP => validate_with_group(t, n, errors),
        SyntaxKind::WITHOUT_CLAUSE => validate_without_clause(t, n, errors),
        SyntaxKind::UNSAFE_ELEMENT => {
            if let Some(tk) = t.token_exec(n, SyntaxKind::UNSAFE_KW) {
                push_plain(errors, text("`unsafe` impl elements are not supported yet"), t.token_range_exec(tk));
            }
        },
        SyntaxKind::FOR_ELEMENT => {
            if let Some(tk) = t.token_exec(n, SyntaxKind::FOR_KW) {
                push_plain(errors, text("`for` (covered) impl elements are not supported yet"), t.token_range_exec(tk));
            }
        },
        SyntaxKind::IMPL_ELEMENT => validate_impl_element(t, n, errors),
        SyntaxKind::MEMBER => validate_member(t, n, errors),
        SyntaxKind::PATH_TYPE => reject_bare_angle_generic_args(t, n, errors),
        SyntaxKind::PATH_EXPR => reject_bare_angle_generic_args(t, n, errors),
        SyntaxKind::BORROW_EXPR => reject_prefix_borrow_expr(t, n, errors),
        SyntaxKind::BORROW_TYPE => reject_prefix_borrow_type(t, n, errors),
        _ => {},
    }
    assert(errors_view(errors@) =~= errors_view(old(errors)@) + node_errors(*t, n));
}

/// The checks for the subtree of `n`, in tree order.
fn validate_subtree(t: &SyntaxTree, n: usize, errors: &mut Vec<SyntaxError>)
    requires
        t.wf(),
        n < t.nodes@.len(),
    ensures
        errors_view(final(errors)@) == errors_view(old(errors)@) + subtree_errors(*t, n),
    decreases t.nodes@.len() - n,
{
    validate_node(t, n, errors);
    let len = t.nodes[n].children.len();
    let mut j: usize = 0;
    while j < len
        invariant
            t.wf(),
            n < t.nodes@.len(),
            len == t.children(n).len(),
            j <= len,
            errors_view(errors@) + children_errors(*t, n, j as int) == errors_view(old(errors)@) + subtree_errors(
                *t,
                n,
            ),
        decreases len - j,
    {
        let ghost e0 = errors_view(errors@);
        match t.nodes[n].children[j] {
            Element::Node(c) => {
                proof {
                    t.lemma_elem_ok(n, j as int);
                }
                validate_subtree(t, c, errors);
            },
            Element::Token(_) => {},
        }
        assert(errors_view(errors@) + children_errors(*t, n, j + 1) =~= e0 + children_errors(*t, n, j as int));
        j = j + 1;
    }
}

/// Validates a whole tree: the diagnostics of every node, in tree order
/// (preorder) from the root.
pub fn validate(t: &SyntaxTree) -> (errors: Vec<SyntaxError>)
    requires
        t.wf(),
    ensures
        errors_view(errors@) == validation_errors(*t),
{
    let mut errors: Vec<SyntaxError> = Vec::new();
    validate_subtree(t, 0, &mut errors);
    assert(errors_view(errors@) =~= validation_errors(*t));
    errors
}

} // verus!
