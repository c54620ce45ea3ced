//! The checks on `impl` elements and their members, and the semantic
//! member context the member rules apply in.

use vstd::prelude::*;

use crate::ast::{
    ancestor_of_kind, annotation_of, bare_head, is_child, is_plain_group, is_self_head, impl_head,
    parent_kind, pat_of, value_of,
};
use crate::error::{each, errors_view, lemma_each_ends, lemma_each_step, plain, push_plain, text, ErrorView, SyntaxError};
use crate::kind::{Class, SyntaxKind};
use crate::tree::{SyntaxTree, TextRange};

verus! {

/// The semantically supported member contexts.
#[derive(Clone, Copy, Debug, PartialEq, Eq, Structural)]
pub enum MemberContext {
    /// `impl Self { ... }` on a `type` declaration.
    Inherent,
    /// `impl Trait { ... }` on a type / `impl Type { ... }` on a trait.
    TraitImpl,
}

/// The plain attachment group an impl element sits directly in.
pub open spec fn impl_group(t: SyntaxTree, ie: usize) -> Option<usize> {
    match t.parent(ie) {
        Some(g) => if t.kind(g) == SyntaxKind::WITH_GROUP && is_plain_group(t, g) {
            Some(g)
        } else {
            None
        },
        None => None,
    }
}

/// A `type` declaration whose `struct`/`enum` value has a binder.
pub open spec fn owner_is_generic_type(t: SyntaxTree, owner: usize) -> bool {
    match value_of(t, owner) {
        Some(b) => (t.kind(b) == SyntaxKind::RECORD_EXPR || t.kind(b) == SyntaxKind::ENUM_EXPR) && t.child(
            b,
            Class::Kind(SyntaxKind::GENERIC_PARAM_LIST),
        ) is Some,
        None => false,
    }
}

/// A `trait` declaration whose `requires` has a binder.
pub open spec fn owner_is_generic_trait(t: SyntaxTree, owner: usize) -> bool {
    match t.child(owner, Class::Kind(SyntaxKind::REQUIRES_DEF)) {
        Some(d) => t.child(d, Class::Kind(SyntaxKind::GENERIC_PARAM_LIST)) is Some,
        None => false,
    }
}

/// The member context of an impl element, by its home.
pub open spec fn impl_element_context(t: SyntaxTree, ie: usize) -> Option<MemberContext> {
    match impl_group(t, ie) {
        Some(g) => match t.parent(g) {
            Some(owner) => if t.kind(owner) == SyntaxKind::TYPE_ITEM {
                if is_self_head(t, ie) {
                    Some(MemberContext::Inherent)
                } else if bare_head(t, ie) is Some && !owner_is_generic_type(t, owner) {
                    Some(MemberContext::TraitImpl)
                } else {
                    None
                }
            } else if t.kind(owner) == SyntaxKind::TRAIT_ITEM && bare_head(t, ie) is Some
                && !owner_is_generic_trait(t, owner) {
                Some(MemberContext::TraitImpl)
            } else {
                None
            },
            None => None,
        },
        None => None,
    }
}

/// The semantic member context enclosing `node`: that of the nearest
/// impl element at or above it; `None` in reserved territory.
pub open spec fn member_context(t: SyntaxTree, node: usize) -> Option<MemberContext> {
    match ancestor_of_kind(t, node, SyntaxKind::IMPL_ELEMENT) {
        Some(ie) => impl_element_context(t, ie),
        None => None,
    }
}

/// The impl head when it is a bare name other than `Self`.
pub fn impl_element_bare_head(t: &SyntaxTree, ie: usize) -> (r: Option<usize>)
    requires
        t.wf(),
        ie < t.nodes@.len(),
    ensures
        r == bare_head(*t, ie),
        r matches Some(n) ==> n < t.nodes@.len(),
{
    let head = t.child_exec(ie, Class::Type)?;
    if !t.is_bare_path_type_exec(head) {
        return None;
    }
    let name = t.child_exec(head, Class::Kind(SyntaxKind::NAME_REF))?;
    if t.text_is(name, "Self") {
        None
    } else {
        Some(name)
    }
}

fn impl_group_exec(t: &SyntaxTree, ie: usize) -> (r: Option<usize>)
    requires
        t.wf(),
        ie < t.nodes@.len(),
    ensures
        r == impl_group(*t, ie),
        r matches Some(g) ==> g < t.nodes@.len(),
{
    let g = t.parent_exec(ie)?;
    if t.kind_exec(g) == SyntaxKind::WITH_GROUP && t.is_plain_group_exec(g) {
        Some(g)
    } else {
        None
    }
}

/// The semantic member context of an impl element.
fn impl_element_context_exec(t: &SyntaxTree, ie: usize) -> (r: Option<MemberContext>)
    requires
        t.wf(),
        ie < t.nodes@.len(),
    ensures
        r == impl_element_context(*t, ie),
{
    let g = impl_group_exec(t, ie)?;
    let owner = t.parent_exec(g)?;
    if t.kind_exec(owner) == SyntaxKind::TYPE_ITEM {
        if t.is_self_head_exec(ie) {
            return Some(MemberContext::Inherent);
        }
        if impl_element_bare_head(t, ie).is_some() {
            let generic = match t.value_exec(owner) {
                Some(b) => (t.kind_exec(b) == SyntaxKind::RECORD_EXPR || t.kind_exec(b) == SyntaxKind::ENUM_EXPR)
                    && t.child_exec(b, Class::Kind(SyntaxKind::GENERIC_PARAM_LIST)).is_some(),
                None => false,
            };
            return if !generic {
                Some(MemberContext::TraitImpl)
            } else {
                None
            };
        }
        return None;
    }
    if t.kind_exec(owner) == SyntaxKind::TRAIT_ITEM && impl_element_bare_head(t, ie).is_some() {
        let generic = match t.child_exec(owner, Class::Kind(SyntaxKind::REQUIRES_DEF)) {
            Some(d) => t.child_exec(d, Class::Kind(SyntaxKind::GENERIC_PARAM_LIST)).is_some(),
            None => false,
        };
        return if !generic {
            Some(MemberContext::TraitImpl)
        } else {
            None
        };
    }
    None
}

/// The semantic member context enclosing `node`, or `None` in reserved
/// territory (modifier heads, non-plain groups, generic-owner trait impls,
/// requirement bodies).
pub fn semantic_member_context(t: &SyntaxTree, node: usize) -> (r: Option<MemberContext>)
    requires
        t.wf(),
        node < t.nodes@.len(),
    ensures
        r == member_context(*t, node),
{
    let ie = t.ancestor_of_kind_exec(node, SyntaxKind::IMPL_ELEMENT)?;
    impl_element_context_exec(t, ie)
}

// ---- impl elements --------------------------------------------------------

/// Where an impl element's diagnostics are anchored: its head, else its
/// `impl` keyword, else the element.
pub open spec fn impl_anchor(t: SyntaxTree, ie: usize) -> TextRange {
    match impl_head(t, ie) {
        Some(h) => t.node_range(h),
        None => match t.token(ie, SyntaxKind::IMPL_KW) {
            Some(tk) => t.token_range(tk),
            None => t.node_range(ie),
        },
    }
}

/// The one diagnostic an impl element gets, if any.
pub open spec fn impl_element_message(t: SyntaxTree, ie: usize) -> Option<Seq<char>> {
    match impl_group(t, ie) {
        Some(g) => match t.parent(g) {
            Some(owner) => {
                let elided = t.token(ie, SyntaxKind::L_BRACE) is None;
                if t.kind(owner) == SyntaxKind::TRAIT_ITEM {
                    if is_self_head(t, ie) {
                        Some("an impl in a trait's `with`-chain names the IMPLEMENTING type, not `Self`"@)
                    } else if bare_head(t, ie) is None {
                        Some("an impl in a trait's `with`-chain must name its implementer with a bare type name"@)
                    } else if elided {
                        Some("marker impls (`impl name;`) are not supported yet"@)
                    } else if member_context(t, ie) != Some(MemberContext::TraitImpl) {
                        Some("impls in a generic trait's `with`-chain are not supported yet (generic traits are reserved)"@)
                    } else {
                        None
                    }
                } else if t.kind(owner) != SyntaxKind::TYPE_ITEM {
                    None
                } else if is_self_head(t, ie) {
                    if elided {
                        Some("`impl Self` requires a member body (`{ ... }`)"@)
                    } else {
                        None
                    }
                } else if bare_head(t, ie) is None {
                    Some("an impl head must be `Self` (inherent members) or a bare trait name"@)
                } else if elided {
                    Some("marker impls (`impl name;`) are not supported yet"@)
                } else if member_context(t, ie) != Some(MemberContext::TraitImpl) {
                    Some("trait impls on generic types are not supported yet"@)
                } else {
                    None
                }
            },
            None => None,
        },
        None => None,
    }
}

/// The liveness/reservation diagnostics for one impl element.
pub open spec fn impl_element_errors(t: SyntaxTree, ie: usize) -> Seq<ErrorView> {
    match impl_element_message(t, ie) {
        Some(m) => seq![plain(m, impl_anchor(t, ie))],
        None => Seq::empty(),
    }
}

/// Every impl element with a body, directly in a plain `with` group of a
/// `type` or `trait` declaration, is either live or reserved, never both:
/// it draws no diagnostic exactly when it opens a member context (inherent
/// or trait-impl), and otherwise exactly one.
pub proof fn an_impl_element_is_live_or_reserved(t: SyntaxTree, ie: usize)
    requires
        t.kind(ie) == SyntaxKind::IMPL_ELEMENT,
        t.token(ie, SyntaxKind::L_BRACE) is Some,
        impl_group(t, ie) matches Some(g) && t.parent(g) matches Some(owner) && (t.kind(owner)
            == SyntaxKind::TYPE_ITEM || t.kind(owner) == SyntaxKind::TRAIT_ITEM),
    ensures
        impl_element_errors(t, ie).len() == 0 <==> impl_element_context(t, ie) is Some,
        impl_element_errors(t, ie).len() <= 1,
{
    assert(member_context(t, ie) == impl_element_context(t, ie));
}

/// The liveness/reservation checks for one `impl` element.
pub fn validate_impl_element(t: &SyntaxTree, ie: usize, errors: &mut Vec<SyntaxError>)
    requires
        t.wf(),
        ie < t.nodes@.len(),
    ensures
        errors_view(final(errors)@) == errors_view(old(errors)@) + impl_element_errors(*t, ie),
{
    let anchor = match t.child_exec(ie, Class::Type) {
        Some(h) => t.range_exec(h),
        None => match t.token_exec(ie, SyntaxKind::IMPL_KW) {
            Some(tk) => t.token_range_exec(tk),
            None => t.range_exec(ie),
        },
    };
    let message = impl_element_message_exec(t, ie);
    if let Some(m) = message {
        push_plain(errors, m, anchor);
    }
    assert(errors_view(errors@) =~= errors_view(old(errors)@) + impl_element_errors(*t, ie));
}

fn impl_element_message_exec(t: &SyntaxTree, ie: usize) -> (r: Option<String>)
    requires
        t.wf(),
        ie < t.nodes@.len(),
    ensures
        match r {
            Some(s) => impl_element_message(*t, ie) == Some(s@),
            None => impl_element_message(*t, ie) is None,
        },
{
    let g = impl_group_exec(t, ie)?;
    let owner = t.parent_exec(g)?;
    let elided = t.token_exec(ie, SyntaxKind::L_BRACE).is_none();
    if t.kind_exec(owner) == SyntaxKind::TRAIT_ITEM {
        if t.is_self_head_exec(ie) {
            return Some(text("an impl in a trait's `with`-chain names the IMPLEMENTING type, not `Self`"));
        }
        if impl_element_bare_head(t, ie).is_none() {
            return Some(
                text("an impl in a trait's `with`-chain must name its implementer with a bare type name"),
            );
        }
        if elided {
            return Some(text("marker impls (`impl name;`) are not supported yet"));
        }
        if semantic_member_context(t, ie) != Some(MemberContext::TraitImpl) {
            return Some(
                text(
                    "impls in a generic trait's `with`-chain are not supported yet (generic traits are reserved)",
                ),
            );
        }
        return None;
    }
    if t.kind_exec(owner) != SyntaxKind::TYPE_ITEM {
        return None;
    }
    if t.is_self_head_exec(ie) {
        if elided {
            return Some(text("`impl Self` requires a member body (`{ ... }`)"));
        }
        return None;
    }
    if impl_element_bare_head(t, ie).is_none() {
        return Some(text("an impl head must be `Self` (inherent members) or a bare trait name"));
    }
    if elided {
        return Some(text("marker impls (`impl name;`) are not supported yet"));
    }
    if semantic_member_context(t, ie) != Some(MemberContext::TraitImpl) {
        return Some(text("trait impls on generic types are not supported yet"));
    }
    None
}

// ---- members ----------------------------------------------------------------

/// A member spelled with a reserved leading keyword (`type`, `const`).
pub open spec fn has_reserved_keyword(t: SyntaxTree, m: usize) -> bool {
    t.token(m, SyntaxKind::TYPE_KW) is Some || t.token(m, SyntaxKind::CONST_KW) is Some
}

/// The reservation of `type Item ...;` and `const N: ...;` members.
pub open spec fn reserved_keyword_errors(t: SyntaxTree, m: usize) -> Seq<ErrorView> {
    match t.token(m, SyntaxKind::TYPE_KW) {
        Some(tk) => seq![plain("associated types are not supported yet"@, t.token_range(tk))],
        None => match t.token(m, SyntaxKind::CONST_KW) {
            Some(tk) => seq![plain("associated consts are not supported yet"@, t.token_range(tk))],
            None => Seq::empty(),
        },
    }
}

/// The member rules for the reserved leading-keyword spellings; returns
/// whether one fired.
fn reject_reserved_member_keywords(t: &SyntaxTree, m: usize, errors: &mut Vec<SyntaxError>) -> (fired: bool)
    requires
        t.wf(),
        m < t.nodes@.len(),
    ensures
        fired == has_reserved_keyword(*t, m),
        errors_view(final(errors)@) == errors_view(old(errors)@) + reserved_keyword_errors(*t, m),
{
    if let Some(tk) = t.token_exec(m, SyntaxKind::TYPE_KW) {
        push_plain(errors, text("associated types are not supported yet"), t.token_range_exec(tk));
        assert(errors_view(errors@) =~= errors_view(old(errors)@) + reserved_keyword_errors(*t, m));
        return true;
    }
    if let Some(tk) = t.token_exec(m, SyntaxKind::CONST_KW) {
        push_plain(errors, text("associated consts are not supported yet"), t.token_range_exec(tk));
        assert(errors_view(errors@) =~= errors_view(old(errors)@) + reserved_keyword_errors(*t, m));
        return true;
    }
    assert(errors_view(errors@) =~= errors_view(old(errors)@) + reserved_keyword_errors(*t, m));
    false
}

/// The diagnostic for a requirement's parameter that is not a plain `name: Type`.
pub open spec fn requirement_param_error(t: SyntaxTree) -> spec_fn(usize) -> Seq<ErrorView> {
    |p: usize|
        match pat_of(t, p) {
            Some(pat) => if t.kind(pat) == SyntaxKind::BIND_PAT && t.token(p, SyntaxKind::MUT_KW) is None {
                Seq::empty()
            } else {
                let start = match t.token(p, SyntaxKind::MUT_KW) {
                    Some(m) => t.token_range(m).start,
                    None => t.node_range(pat).start,
                };
                seq![
                    plain(
                        "a requirement's parameter is a plain `name: Type`"@,
                        TextRange { start, end: t.node_range(pat).end },
                    ),
                ]
            },
            None => Seq::empty(),
        }
}

/// A requirement's parameters are plain `name: Type`: no `mut`, no
/// destructuring.
pub open spec fn requirement_param_errors(t: SyntaxTree, ft: usize) -> Seq<ErrorView> {
    match t.child(ft, Class::Kind(SyntaxKind::PARAM_LIST)) {
        Some(l) => each(t.nodes_of(l, Class::Kind(SyntaxKind::PARAM)), requirement_param_error(t)),
        None => Seq::empty(),
    }
}

/// A requirement declares a signature; its parameters are plain.
fn reject_requirement_param_patterns(t: &SyntaxTree, ft: usize, errors: &mut Vec<SyntaxError>)
    requires
        t.wf(),
        ft < t.nodes@.len(),
    ensures
        errors_view(final(errors)@) == errors_view(old(errors)@) + requirement_param_errors(*t, ft),
{
    let Some(list) = t.child_exec(ft, Class::Kind(SyntaxKind::PARAM_LIST)) else {
        assert(errors_view(errors@) =~= errors_view(old(errors)@) + requirement_param_errors(*t, ft));
        return;
    };
    let ids = t.nodes_of_exec(list, Class::Kind(SyntaxKind::PARAM));
    let ghost f = requirement_param_error(*t);
    proof {
        lemma_each_ends(ids@, f);
    }
    let mut j: usize = 0;
    while j < ids.len()
        invariant
            t.wf(),
            j <= ids@.len(),
            f == requirement_param_error(*t),
            forall|i: int| 0 <= i < ids@.len() ==> is_child(*t, list, #[trigger] ids@[i]),
            errors_view(errors@) + each(ids@.skip(j as int), f) == errors_view(old(errors)@) + each(ids@, f),
        decreases ids.len() - j,
    {
        proof {
            lemma_each_step(ids@, j as int, f);
        }
        let ghost e0 = errors_view(errors@);
        let param = ids[j];
        if let Some(pat) = t.pat_exec(param) {
            let mut_token = t.token_exec(param, SyntaxKind::MUT_KW);
            let plain_param = t.kind_exec(pat) == SyntaxKind::BIND_PAT && mut_token.is_none();
            if !plain_param {
                let pat_range = t.range_exec(pat);
                let start = match mut_token {
                    Some(m) => t.token_range_exec(m).start,
                    None => pat_range.start,
                };
                push_plain(
                    errors,
                    text("a requirement's parameter is a plain `name: Type`"),
                    TextRange::new(start, pat_range.end),
                );
            }
        }
        assert(errors_view(errors@) + each(ids@.skip(j + 1), f) =~= e0 + each(ids@.skip(j as int), f));
        j = j + 1;
    }
    assert(errors_view(errors@) =~= errors_view(old(errors)@) + requirement_param_errors(*t, ft));
}

/// The rules for one requirement member (a member of a trait's
/// `requires { ... }` body): the live form is `name: fn(...) -> R;`.
pub open spec fn requirement_member_errors(t: SyntaxTree, m: usize) -> Seq<ErrorView> {
    if has_reserved_keyword(t, m) {
        reserved_keyword_errors(t, m)
    } else {
        match t.token(m, SyntaxKind::EQ) {
            Some(eq) => {
                let end = match value_of(t, m) {
                    Some(v) => t.node_range(v).end,
                    None => t.token_range(eq).end,
                };
                seq![
                    plain(
                        "default members are not supported yet; a trait declares requirements (`name: fn(...) -> ...;`)"@,
                        TextRange { start: t.token_range(eq).start, end },
                    ),
                ]
            },
            None => if t.token(m, SyntaxKind::COLON) is None {
                seq![plain("a requirement declares its signature: `name: fn(...) -> ...;`"@, t.node_range(m))]
            } else {
                match annotation_of(t, m) {
                    Some(ty) => if t.kind(ty) == SyntaxKind::FN_TYPE {
                        (match t.token(ty, SyntaxKind::UNSAFE_KW) {
                            Some(tk) => seq![plain("`unsafe` trait members are not supported yet"@, t.token_range(tk))],
                            None => Seq::empty(),
                        }) + requirement_param_errors(t, ty)
                    } else {
                        seq![plain("a requirement's signature must be an `fn` signature"@, t.node_range(ty))]
                    },
                    None => Seq::empty(),
                }
            },
        }
    }
}

/// The rules for one requirement member.
fn validate_requirement_member(t: &SyntaxTree, m: usize, errors: &mut Vec<SyntaxError>)
    requires
        t.wf(),
        m < t.nodes@.len(),
    ensures
        errors_view(final(errors)@) == errors_view(old(errors)@) + requirement_member_errors(*t, m),
{
    if reject_reserved_member_keywords(t, m, errors) {
        return;
    }
    if let Some(eq) = t.token_exec(m, SyntaxKind::EQ) {
        let eq_range = t.token_range_exec(eq);
        let end = match t.value_exec(m) {
            Some(v) => t.range_exec(v).end,
            None => eq_range.end,
        };
        push_plain(
            errors,
            text(
                "default members are not supported yet; a trait declares requirements (`name: fn(...) -> ...;`)",
            ),
            TextRange::new(eq_range.start, end),
        );
        assert(errors_view(errors@) =~= errors_view(old(errors)@) + requirement_member_errors(*t, m));
        return;
    }
    if t.token_exec(m, SyntaxKind::COLON).is_none() {
        push_plain(errors, text("a requirement declares its signature: `name: fn(...) -> ...;`"), t.range_exec(m));
        assert(errors_view(errors@) =~= errors_view(old(errors)@) + requirement_member_errors(*t, m));
        return;
    }
    match t.annotation_exec(m) {
        Some(ty) => {
            if t.kind_exec(ty) == SyntaxKind::FN_TYPE {
                if let Some(tk) = t.token_exec(ty, SyntaxKind::UNSAFE_KW) {
                    push_plain(errors, text("`unsafe` trait members are not supported yet"), t.token_range_exec(tk));
                }
                reject_requirement_param_patterns(t, ty, errors);
            } else {
                push_plain(errors, text("a requirement's signature must be an `fn` signature"), t.range_exec(ty));
            }
        },
        None => {},
    }
    assert(errors_view(errors@) =~= errors_view(old(errors)@) + requirement_member_errors(*t, m));
}

/// A member's value must be an `fn` literal (`unsafe fn` literals carry
/// their own reservation).
pub open spec fn member_value_errors(t: SyntaxTree, m: usize) -> Seq<ErrorView> {
    match value_of(t, m) {
        Some(v) => if t.kind(v) == SyntaxKind::FN_LITERAL || (t.kind(v) == SyntaxKind::UNSAFE_BLOCK_EXPR && match t.child(
            v,
            Class::Expr,
        ) {
            Some(inner) => t.kind(inner) == SyntaxKind::FN_LITERAL,
            None => false,
        }) {
            Seq::empty()
        } else {
            seq![plain("a member must be defined as an `fn` literal"@, t.node_range(v))]
        },
        None => Seq::empty(),
    }
}

/// The message for a declare-only member in a live context.
pub open spec fn declare_only_message(ctx: MemberContext) -> Seq<char> {
    match ctx {
        MemberContext::Inherent => "a declare-only inherent member is an unimplementable promise; define it: `name = fn(...) -> ... { ... };`"@,
        MemberContext::TraitImpl => "an impl member is defined with `=`; the colon-declared requirement form belongs in the trait declaration"@,
    }
}

/// The member rules: requirement members answer to their own; elsewhere
/// the rules apply only in a supported context, where members are
/// `=`-defined `fn` literals.
pub open spec fn member_errors(t: SyntaxTree, m: usize) -> Seq<ErrorView> {
    if parent_kind(t, m) == Some(SyntaxKind::REQUIRES_DEF) {
        requirement_member_errors(t, m)
    } else {
        match member_context(t, m) {
            Some(ctx) => if has_reserved_keyword(t, m) {
                reserved_keyword_errors(t, m)
            } else {
                match (t.token(m, SyntaxKind::COLON), t.token(m, SyntaxKind::EQ)) {
                    (Some(_), None) => seq![plain(declare_only_message(ctx), t.node_range(m))],
                    (Some(colon), Some(_)) => {
                        let end = match annotation_of(t, m) {
                            Some(ty) => t.node_range(ty).end,
                            None => t.token_range(colon).end,
                        };
                        seq![
                            plain(
                                "member type ascriptions are not supported yet; the `fn` literal's own annotations are the signature"@,
                                TextRange { start: t.token_range(colon).start, end },
                            ),
                        ] + member_value_errors(t, m)
                    },
                    _ => member_value_errors(t, m),
                }
            },
            None => Seq::empty(),
        }
    }
}

/// A member value that defines a function: an `fn` literal, or `unsafe`
/// around one.
pub open spec fn is_fn_literal_value(t: SyntaxTree, v: usize) -> bool {
    t.kind(v) == SyntaxKind::FN_LITERAL || (t.kind(v) == SyntaxKind::UNSAFE_BLOCK_EXPR && match t.child(v, Class::Expr) {
        Some(inner) => t.kind(inner) == SyntaxKind::FN_LITERAL,
        None => false,
    })
}

/// The member rules in a live context (inherent or trait-impl, not a
/// requirement): a `type`/`const` member draws only its reservation; a
/// member with a `:` and no `=` draws exactly the declare-only diagnostic
/// for its context, over the whole member; a member with both draws the
/// ascription diagnostic from the `:` to the end of the type first; and a
/// value that is neither an `fn` literal nor `unsafe` around one draws
/// the must-be-an-`fn`-literal diagnostic at the value.
pub proof fn a_live_member_is_a_defined_fn_literal(t: SyntaxTree, m: usize)
    requires
        parent_kind(t, m) != Some(SyntaxKind::REQUIRES_DEF),
        member_context(t, m) is Some,
        !has_reserved_keyword(t, m),
    ensures
        (t.token(m, SyntaxKind::COLON) is Some && t.token(m, SyntaxKind::EQ) is None) ==> member_errors(t, m) == seq![
            plain(declare_only_message(member_context(t, m).unwrap()), t.node_range(m)),
        ],
        t.token(m, SyntaxKind::COLON) matches Some(colon) ==> (t.token(m, SyntaxKind::EQ) is Some ==> member_errors(
            t,
            m,
        )[0] == plain(
            "member type ascriptions are not supported yet; the `fn` literal's own annotations are the signature"@,
            TextRange {
                start: t.token_range(colon).start,
                end: match annotation_of(t, m) {
                    Some(ty) => t.node_range(ty).end,
                    None => t.token_range(colon).end,
                },
            },
        )),
        t.token(m, SyntaxKind::EQ) is Some ==> (value_of(t, m) matches Some(v) ==> (!is_fn_literal_value(t, v) ==> member_errors(t, m)[member_errors(t, m).len() - 1] == plain(
            "a member must be defined as an `fn` literal"@,
            t.node_range(v),
        ))),
        t.token(m, SyntaxKind::EQ) is Some ==> (value_of(t, m) matches Some(v) ==> (is_fn_literal_value(t, v) ==> member_errors(t, m).len() == (if t.token(m, SyntaxKind::COLON) is Some {
            1int
        } else {
            0int
        }))),
{
}

/// A requirement's reserved leading keyword is its only diagnostic: a
/// member of a trait's `requires` body with a `type` token draws exactly
/// "associated types are not supported yet" at that token, whatever else
/// it has (an `=`, no `:`); one with a `const` token and no `type` token
/// draws exactly "associated consts are not supported yet".
pub proof fn a_reserved_requirement_keyword_is_its_only_diagnostic(t: SyntaxTree, m: usize)
    requires
        parent_kind(t, m) == Some(SyntaxKind::REQUIRES_DEF),
    ensures
        t.token(m, SyntaxKind::TYPE_KW) matches Some(k) ==> member_errors(t, m) == seq![
            plain("associated types are not supported yet"@, t.token_range(k)),
        ],
        t.token(m, SyntaxKind::TYPE_KW) is None ==> (t.token(m, SyntaxKind::CONST_KW) matches Some(k)
            ==> member_errors(t, m) == seq![plain("associated consts are not supported yet"@, t.token_range(k))]),
{
}

/// Member-level checks stay quiet outside the supported contexts: a
/// member that is not a trait requirement and sits in no inherent or
/// trait-impl context draws no member diagnostic (the enclosing element
/// or group carries the one reservation).
pub proof fn members_outside_live_contexts_are_quiet(t: SyntaxTree, m: usize)
    requires
        parent_kind(t, m) != Some(SyntaxKind::REQUIRES_DEF),
        member_context(t, m) is None,
    ensures
        member_errors(t, m) == Seq::<ErrorView>::empty(),
{
}

/// The member rules, applied only in the supported contexts.
pub fn validate_member(t: &SyntaxTree, m: usize, errors: &mut Vec<SyntaxError>)
    requires
        t.wf(),
        m < t.nodes@.len(),
    ensures
        errors_view(final(errors)@) == errors_view(old(errors)@) + member_errors(*t, m),
{
    if t.parent_kind_exec(m) == Some(SyntaxKind::REQUIRES_DEF) {
        validate_requirement_member(t, m, errors);
        return;
    }
    let Some(context) = semantic_member_context(t, m) else {
        assert(errors_view(errors@) =~= errors_view(old(errors)@) + member_errors(*t, m));
        return;
    };
    if reject_reserved_member_keywords(t, m, errors) {
        return;
    }
    match (t.token_exec(m, SyntaxKind::COLON), t.token_exec(m, SyntaxKind::EQ)) {
        (Some(_), None) => {
            let message = match context {
                MemberContext::Inherent => text(
                    "a declare-only inherent member is an unimplementable promise; define it: `name = fn(...) -> ... { ... };`",
                ),
                MemberContext::TraitImpl => text(
                    "an impl member is defined with `=`; the colon-declared requirement form belongs in the trait declaration",
                ),
            };
            push_plain(errors, message, t.range_exec(m));
            assert(errors_view(errors@) =~= errors_view(old(errors)@) + member_errors(*t, m));
            return;
        },
        (Some(colon), Some(_)) => {
            let colon_range = t.token_range_exec(colon);
            let end = match t.annotation_exec(m) {
                Some(ty) => t.range_exec(ty).end,
                None => colon_range.end,
            };
            push_plain(
                errors,
                text(
                    "member type ascriptions are not supported yet; the `fn` literal's own annotations are the signature",
                ),
                TextRange::new(colon_range.start, end),
            );
        },
        _ => {},
    }
    let ghost e1 = errors_view(errors@);
    if let Some(value) = t.value_exec(m) {
        let is_fn = t.kind_exec(value) == SyntaxKind::FN_LITERAL || (t.kind_exec(value)
            == SyntaxKind::UNSAFE_BLOCK_EXPR && match t.child_exec(value, Class::Expr) {
            Some(inner) => t.kind_exec(inner) == SyntaxKind::FN_LITERAL,
            None => false,
        });
        if !is_fn {
            push_plain(errors, text("a member must be defined as an `fn` literal"), t.range_exec(value));
        }
    }
    assert(errors_view(errors@) =~= errors_view(old(errors)@) + member_errors(*t, m));
}

} // verus!
