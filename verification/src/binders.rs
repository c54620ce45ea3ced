//! The checks on generic binders: where a binder may stand, the order of
//! its parameters, and what a parameter's bounds may say.

use vstd::prelude::*;

use crate::ast::{is_child, parent_kind, variant_name_ref};
use crate::capability::{capability_named, spec_capability_named};
use crate::error::{each, errors_view, join, lemma_each_contains, lemma_each_ends, lemma_each_step, plain, push_plain, text, ErrorView, SyntaxError};
use crate::kind::{Class, SyntaxKind};
use crate::members::{member_context, semantic_member_context, MemberContext};
use crate::tree::SyntaxTree;

verus! {

// ---- bounds -----------------------------------------------------------------

/// A bound that names a capability rather than a trait: a bare path only.
pub open spec fn names_capability(t: SyntaxTree, bound: usize) -> bool {
    &&& t.kind(bound) == SyntaxKind::PATH_TYPE
    &&& variant_name_ref(t, bound) is None
    &&& t.child(bound, Class::Kind(SyntaxKind::GENERIC_ARG_LIST)) is None
    &&& match t.child(bound, Class::Kind(SyntaxKind::NAME_REF)) {
        Some(name) => spec_capability_named(t.node_text(name)) is Some,
        None => false,
    }
}

/// Whether a bound names a capability rather than a trait.
fn names_capability_exec(t: &SyntaxTree, bound: usize) -> (b: bool)
    requires
        t.wf(),
        bound < t.nodes@.len(),
    ensures
        b == names_capability(*t, bound),
{
    if t.kind_exec(bound) != SyntaxKind::PATH_TYPE || t.variant_name_ref_exec(bound).is_some()
        || t.child_exec(bound, Class::Kind(SyntaxKind::GENERIC_ARG_LIST)).is_some() {
        return false;
    }
    match t.child_exec(bound, Class::Kind(SyntaxKind::NAME_REF)) {
        Some(name) => {
            let s = t.text_exec(name);
            capability_named(s.as_str()).is_some()
        },
        None => false,
    }
}

/// The bounds of a type parameter.
pub open spec fn bounds_of(t: SyntaxTree, tp: usize) -> Seq<usize> {
    t.nodes_of(tp, Class::Type)
}

/// The shape rule for one bound: a bare trait name.
pub open spec fn bound_error(t: SyntaxTree) -> spec_fn(usize) -> Seq<ErrorView> {
    |b: usize|
        if t.kind(b) == SyntaxKind::PATH_TYPE && variant_name_ref(t, b) is None && t.child(
            b,
            Class::Kind(SyntaxKind::GENERIC_ARG_LIST),
        ) is None {
            Seq::empty()
        } else if t.kind(b) == SyntaxKind::PATH_TYPE && t.child(b, Class::Kind(SyntaxKind::GENERIC_ARG_LIST)) is Some {
            seq![plain("generic traits are not supported yet; a bound is a bare trait name"@, t.node_range(b))]
        } else {
            seq![plain("only a trait name can be a bound"@, t.node_range(b))]
        }
}

/// The bound-position rules on one generic type parameter: quiet inside
/// reserved binder homes, reserved on a `type` declaration's binder (and
/// never a capability there), and elsewhere each bound a bare trait name.
pub open spec fn type_param_bound_errors(t: SyntaxTree, tp: usize) -> Seq<ErrorView> {
    if t.token(tp, SyntaxKind::COLON) is None {
        Seq::empty()
    } else {
        let owner = match t.parent(tp) {
            Some(l) => t.parent(l),
            None => None,
        };
        match owner {
            Some(o) => if t.kind(o) == SyntaxKind::WITH_GROUP || t.kind(o) == SyntaxKind::REQUIRES_DEF {
                Seq::empty()
            } else if t.kind(o) == SyntaxKind::RECORD_EXPR || t.kind(o) == SyntaxKind::ENUM_EXPR {
                seq![
                    plain(
                        if exists|i: int|
                            0 <= i < bounds_of(t, tp).len() && names_capability(t, #[trigger] bounds_of(t, tp)[i]) {
                            "a `type` declaration's parameters carry no capability bounds: a container is linear when what it holds is"@
                        } else {
                            "bounds on a `type` declaration's binder are not supported yet"@
                        },
                        t.node_range(tp),
                    ),
                ]
            } else {
                each(bounds_of(t, tp), bound_error(t))
            },
            None => each(bounds_of(t, tp), bound_error(t)),
        }
    }
}

/// Bound-position rules on one generic type parameter.
pub fn validate_type_param_bounds(t: &SyntaxTree, tp: usize, errors: &mut Vec<SyntaxError>)
    requires
        t.wf(),
        tp < t.nodes@.len(),
    ensures
        errors_view(final(errors)@) == errors_view(old(errors)@) + type_param_bound_errors(*t, tp),
{
    if t.token_exec(tp, SyntaxKind::COLON).is_none() {
        assert(errors_view(errors@) =~= errors_view(old(errors)@) + type_param_bound_errors(*t, tp));
        return;
    }
    let owner = match t.parent_exec(tp) {
        Some(l) => t.parent_exec(l),
        None => None,
    };
    let bounds = t.nodes_of_exec(tp, Class::Type);
    if let Some(o) = owner {
        let k = t.kind_exec(o);
        if k == SyntaxKind::WITH_GROUP || k == SyntaxKind::REQUIRES_DEF {
            assert(errors_view(errors@) =~= errors_view(old(errors)@) + type_param_bound_errors(*t, tp));
            return;
        }
        if k == SyntaxKind::RECORD_EXPR || k == SyntaxKind::ENUM_EXPR {
            let mut any = false;
            let mut j: usize = 0;
            while j < bounds.len()
                invariant
                    t.wf(),
                    j <= bounds@.len(),
                    bounds@ == bounds_of(*t, tp),
                    forall|i: int| 0 <= i < bounds@.len() ==> is_child(*t, tp, #[trigger] bounds@[i]),
                    any == exists|i: int| 0 <= i < j && names_capability(*t, #[trigger] bounds@[i]),
                decreases bounds.len() - j,
            {
                if names_capability_exec(t, bounds[j]) {
                    any = true;
                }
                j = j + 1;
            }
            let message = if any {
                text(
                    "a `type` declaration's parameters carry no capability bounds: a container is linear when what it holds is",
                )
            } else {
                text("bounds on a `type` declaration's binder are not supported yet")
            };
            push_plain(errors, message, t.range_exec(tp));
            assert(errors_view(errors@) =~= errors_view(old(errors)@) + type_param_bound_errors(*t, tp));
            return;
        }
    }
    let ghost f = bound_error(*t);
    proof {
        lemma_each_ends(bounds@, f);
    }
    let mut j: usize = 0;
    while j < bounds.len()
        invariant
            t.wf(),
            j <= bounds@.len(),
            f == bound_error(*t),
            forall|i: int| 0 <= i < bounds@.len() ==> is_child(*t, tp, #[trigger] bounds@[i]),
            errors_view(errors@) + each(bounds@.skip(j as int), f) == errors_view(old(errors)@) + each(bounds@, f),
        decreases bounds.len() - j,
    {
        proof {
            lemma_each_step(bounds@, j as int, f);
        }
        let ghost e0 = errors_view(errors@);
        let b = bounds[j];
        let is_path = t.kind_exec(b) == SyntaxKind::PATH_TYPE;
        let has_args = t.child_exec(b, Class::Kind(SyntaxKind::GENERIC_ARG_LIST)).is_some();
        if is_path && t.variant_name_ref_exec(b).is_none() && !has_args {
        } else if is_path && has_args {
            push_plain(errors, text("generic traits are not supported yet; a bound is a bare trait name"), t.range_exec(b));
        } else {
            push_plain(errors, text("only a trait name can be a bound"), t.range_exec(b));
        }
        assert(errors_view(errors@) + each(bounds@.skip(j + 1), f) =~= e0 + each(bounds@.skip(j as int), f));
        j = j + 1;
    }
    assert(errors_view(errors@) =~= errors_view(old(errors)@) + type_param_bound_errors(*t, tp));
}

// ---- parameter order -------------------------------------------------------

/// The name of a type or const parameter, or a placeholder.
pub open spec fn param_name_or(t: SyntaxTree, p: usize, placeholder: Seq<char>) -> Seq<char> {
    match t.child(p, Class::Kind(SyntaxKind::NAME)) {
        Some(n) => t.node_text(n),
        None => placeholder,
    }
}

/// The name of a region parameter (its `@name`), or `@`.
pub open spec fn region_name(t: SyntaxTree, p: usize) -> Seq<char> {
    match t.token(p, SyntaxKind::REGION_IDENT) {
        Some(tk) => t.token_text(tk),
        None => "@"@,
    }
}

/// The message for region parameter `name` written after `earlier`.
pub open spec fn msg_region_after(name: Seq<char>, earlier: Seq<char>) -> Seq<char> {
    "region parameters come first in a binder; move `"@ + name + "` before `"@ + earlier + "`"@
}

/// The region parameters that come after a type or const parameter, each
/// reported against the first such parameter.
pub open spec fn regions_first_errors(t: SyntaxTree, ps: Seq<usize>, spellable: Option<Seq<char>>) -> Seq<ErrorView>
    decreases ps.len(),
{
    if ps.len() == 0 {
        Seq::empty()
    } else {
        let p = ps[0];
        let rest = ps.drop_first();
        if t.kind(p) == SyntaxKind::REGION_PARAM {
            (match spellable {
                Some(earlier) => seq![plain(msg_region_after(region_name(t, p), earlier), t.node_range(p))],
                None => Seq::empty(),
            }) + regions_first_errors(t, rest, spellable)
        } else if t.kind(p) == SyntaxKind::TYPE_PARAM {
            regions_first_errors(
                t,
                rest,
                if spellable is Some {
                    spellable
                } else {
                    Some(param_name_or(t, p, "T"@))
                },
            )
        } else {
            regions_first_errors(
                t,
                rest,
                if spellable is Some {
                    spellable
                } else {
                    Some(param_name_or(t, p, "N"@))
                },
            )
        }
    }
}

/// Every region parameter comes before every type and const parameter.
pub open spec fn regions_lead(t: SyntaxTree, ps: Seq<usize>) -> bool {
    forall|i: int, j: int|
        0 <= i < j < ps.len() && t.kind(#[trigger] ps[j]) == SyntaxKind::REGION_PARAM ==> t.kind(
            #[trigger] ps[i],
        ) == SyntaxKind::REGION_PARAM
}

/// Once a type or const parameter has been written, any region parameter
/// at all is reported.
proof fn lemma_regions_after_spellable(t: SyntaxTree, ps: Seq<usize>, earlier: Seq<char>)
    ensures
        regions_first_errors(t, ps, Some(earlier)).len() == 0 <==> forall|j: int|
            0 <= j < ps.len() ==> t.kind(#[trigger] ps[j]) != SyntaxKind::REGION_PARAM,
    decreases ps.len(),
{
    if ps.len() > 0 {
        let rest = ps.drop_first();
        lemma_regions_after_spellable(t, rest, earlier);
        assert forall|j: int| 0 < j < ps.len() implies ps[j] == rest[j - 1] by {}
        if forall|j: int| 0 <= j < rest.len() ==> t.kind(#[trigger] rest[j]) != SyntaxKind::REGION_PARAM {
            assert forall|j: int| 0 <= j < ps.len() && j > 0 implies t.kind(#[trigger] ps[j]) != SyntaxKind::REGION_PARAM by {
                assert(ps[j] == rest[j - 1]);
            }
        }
        if forall|j: int| 0 <= j < ps.len() ==> t.kind(#[trigger] ps[j]) != SyntaxKind::REGION_PARAM {
            assert forall|j: int| 0 <= j < rest.len() implies t.kind(#[trigger] rest[j]) != SyntaxKind::REGION_PARAM by {
                assert(rest[j] == ps[j + 1]);
            }
        }
    }
}

/// Region parameters come first: a binder list draws no diagnostic
/// exactly when every region parameter precedes every type and const
/// parameter.
pub proof fn regions_first_law(t: SyntaxTree, ps: Seq<usize>)
    ensures
        regions_first_errors(t, ps, None).len() == 0 <==> regions_lead(t, ps),
    decreases ps.len(),
{
    if ps.len() > 0 {
        let rest = ps.drop_first();
        assert forall|j: int| 0 < j < ps.len() implies ps[j] == rest[j - 1] by {}
        if t.kind(ps[0]) == SyntaxKind::REGION_PARAM {
            regions_first_law(t, rest);
            if regions_lead(t, rest) {
                assert forall|i: int, j: int|
                    0 <= i < j < ps.len() && t.kind(#[trigger] ps[j]) == SyntaxKind::REGION_PARAM implies t.kind(
                    #[trigger] ps[i],
                ) == SyntaxKind::REGION_PARAM by {
                    if i > 0 {
                        assert(ps[i] == rest[i - 1] && ps[j] == rest[j - 1]);
                    }
                }
            }
            if regions_lead(t, ps) {
                assert forall|i: int, j: int|
                    0 <= i < j < rest.len() && t.kind(#[trigger] rest[j]) == SyntaxKind::REGION_PARAM implies t.kind(
                    #[trigger] rest[i],
                ) == SyntaxKind::REGION_PARAM by {
                    assert(rest[i] == ps[i + 1] && rest[j] == ps[j + 1]);
                }
            }
        } else {
            let earlier = if t.kind(ps[0]) == SyntaxKind::TYPE_PARAM {
                param_name_or(t, ps[0], "T"@)
            } else {
                param_name_or(t, ps[0], "N"@)
            };
            lemma_regions_after_spellable(t, rest, earlier);
            if regions_lead(t, ps) {
                assert forall|j: int| 0 <= j < rest.len() implies t.kind(#[trigger] rest[j]) != SyntaxKind::REGION_PARAM by {
                    assert(rest[j] == ps[j + 1]);
                    if t.kind(ps[j + 1]) == SyntaxKind::REGION_PARAM {
                        assert(t.kind(ps[0]) == SyntaxKind::REGION_PARAM);
                    }
                }
            }
            if forall|j: int| 0 <= j < rest.len() ==> t.kind(#[trigger] rest[j]) != SyntaxKind::REGION_PARAM {
                assert forall|i: int, j: int|
                    0 <= i < j < ps.len() && t.kind(#[trigger] ps[j]) == SyntaxKind::REGION_PARAM implies t.kind(
                    #[trigger] ps[i],
                ) == SyntaxKind::REGION_PARAM by {
                    assert(ps[j] == rest[j - 1]);
                }
            }
        }
    }
}

/// The ordering rule of one binder list.
pub open spec fn binder_order_errors(t: SyntaxTree, list: usize) -> Seq<ErrorView> {
    regions_first_errors(t, t.nodes_of(list, Class::GenericParam), None)
}

/// The name a type or const parameter is spelled by in the ordering
/// message (`T` or `N` when it has none).
pub open spec fn spellable_name(t: SyntaxTree, p: usize) -> Seq<char> {
    if t.kind(p) == SyntaxKind::TYPE_PARAM {
        param_name_or(t, p, "T"@)
    } else {
        param_name_or(t, p, "N"@)
    }
}

/// The position of the first type or const parameter among the first `i`.
pub open spec fn first_spellable(t: SyntaxTree, ps: Seq<usize>, i: int) -> Option<int>
    decreases i,
{
    if i <= 0 {
        None
    } else {
        match first_spellable(t, ps, i - 1) {
            Some(j) => Some(j),
            None => if t.kind(ps[i - 1]) != SyntaxKind::REGION_PARAM {
                Some(i - 1)
            } else {
                None
            },
        }
    }
}

/// The ordering verdict of each parameter from position `i` on: a region
/// parameter after the first type or const parameter draws one error
/// naming both; every other parameter draws nothing.
pub open spec fn region_verdicts(t: SyntaxTree, ps: Seq<usize>, i: int) -> Seq<ErrorView>
    decreases ps.len() - i,
{
    if i < 0 || i >= ps.len() {
        Seq::empty()
    } else {
        (if t.kind(ps[i]) == SyntaxKind::REGION_PARAM {
            match first_spellable(t, ps, i) {
                Some(j) => seq![
                    plain(msg_region_after(region_name(t, ps[i]), spellable_name(t, ps[j])), t.node_range(ps[i])),
                ],
                None => Seq::empty(),
            }
        } else {
            Seq::empty()
        }) + region_verdicts(t, ps, i + 1)
    }
}

proof fn lemma_region_verdicts_from(t: SyntaxTree, ps: Seq<usize>, i: int)
    requires
        0 <= i <= ps.len(),
    ensures
        regions_first_errors(
            t,
            ps.skip(i),
            match first_spellable(t, ps, i) {
                Some(j) => Some(spellable_name(t, ps[j])),
                None => None,
            },
        ) == region_verdicts(t, ps, i),
    decreases ps.len() - i,
{
    if i == ps.len() {
        assert(ps.skip(i) =~= Seq::<usize>::empty());
    } else {
        lemma_region_verdicts_from(t, ps, i + 1);
        assert(ps.skip(i)[0] == ps[i]);
        assert(ps.skip(i).drop_first() =~= ps.skip(i + 1));
    }
}

/// Region parameters come first, one diagnostic per misplaced region: a
/// binder list draws, in order, one error for each region parameter after
/// its first type or const parameter, naming the region (or `@`) and that
/// parameter (or `T`/`N` when it has no name), at the region's range; it
/// draws nothing when no region follows a type or const parameter.
pub proof fn each_misplaced_region_is_reported(t: SyntaxTree, list: usize)
    ensures
        binder_order_errors(t, list) == region_verdicts(t, t.nodes_of(list, Class::GenericParam), 0),
{
    let ps = t.nodes_of(list, Class::GenericParam);
    lemma_region_verdicts_from(t, ps, 0);
    assert(ps.skip(0) =~= ps);
}


/// The view of an optional string.
pub open spec fn opt_view(o: Option<String>) -> Option<Seq<char>> {
    match o {
        Some(s) => Some(s@),
        None => None,
    }
}

/// Region parameters come first in every declared binder list.
pub fn require_regions_first(t: &SyntaxTree, list: usize, errors: &mut Vec<SyntaxError>)
    requires
        t.wf(),
        list < t.nodes@.len(),
    ensures
        errors_view(final(errors)@) == errors_view(old(errors)@) + binder_order_errors(*t, list),
{
    let ps = t.nodes_of_exec(list, Class::GenericParam);
    let mut spellable: Option<String> = None;
    proof {
        assert(ps@.skip(0) =~= ps@);
    }
    let mut j: usize = 0;
    while j < ps.len()
        invariant
            t.wf(),
            j <= ps@.len(),
            ps@ == t.nodes_of(list, Class::GenericParam),
            forall|i: int| 0 <= i < ps@.len() ==> is_child(*t, list, #[trigger] ps@[i]),
            errors_view(errors@) + regions_first_errors(*t, ps@.skip(j as int), opt_view(spellable))
                == errors_view(old(errors)@) + binder_order_errors(*t, list),
        decreases ps.len() - j,
    {
        let p = ps[j];
        let ghost e0 = errors_view(errors@);
        let ghost s0 = opt_view(spellable);
        proof {
            assert(ps@.skip(j as int)[0] == p);
            assert(ps@.skip(j as int).drop_first() =~= ps@.skip(j + 1));
        }
        let k = t.kind_exec(p);
        if k == SyntaxKind::REGION_PARAM {
            match &spellable {
                Some(earlier) => {
                    let name = match t.token_exec(p, SyntaxKind::REGION_IDENT) {
                        Some(tk) => t.tokens[tk].text.clone(),
                        None => text("@"),
                    };
                    let message = join(
                        join(
                            join(join(text("region parameters come first in a binder; move `"), name.as_str()), "` before `"),
                            earlier.as_str(),
                        ),
                        "`",
                    );
                    push_plain(errors, message, t.range_exec(p));
                },
                None => {},
            }
        } else if spellable.is_none() {
            let placeholder = if k == SyntaxKind::TYPE_PARAM {
                text("T")
            } else {
                text("N")
            };
            let name = match t.child_exec(p, Class::Kind(SyntaxKind::NAME)) {
                Some(n) => t.text_exec(n),
                None => placeholder,
            };
            spellable = Some(name);
        }
        assert(errors_view(errors@) + regions_first_errors(*t, ps@.skip(j + 1), opt_view(spellable)) =~= e0
            + regions_first_errors(*t, ps@.skip(j as int), s0));
        j = j + 1;
    }
    proof {
        assert(ps@.skip(ps@.len() as int) =~= Seq::<usize>::empty());
    }
    assert(errors_view(errors@) =~= errors_view(old(errors)@) + binder_order_errors(*t, list));
}

// ---- where a binder may stand -----------------------------------------------

/// The message for a type parameter on an inherent member's binder.
pub open spec fn msg_member_type_param() -> Seq<char> {
    "a member's own type parameters are not supported yet (the type's own binders are already in scope)"@
}

/// The diagnostic for a type or const parameter on an inherent member's
/// binder (region parameters are live there).
pub open spec fn member_param_error(t: SyntaxTree) -> spec_fn(usize) -> Seq<ErrorView> {
    |p: usize|
        if t.kind(p) == SyntaxKind::TYPE_PARAM {
            seq![plain(msg_member_type_param(), t.node_range(p))]
        } else if t.kind(p) == SyntaxKind::CONST_PARAM {
            seq![
                plain(
                    "a member's own const parameters are not supported yet (a const argument is part of an instance's identity, and a member's arguments are read off the receiver's own type)"@,
                    t.node_range(p),
                ),
            ]
        } else {
            Seq::empty()
        }
}

/// A fn literal's binder is live as an item initializer and on a trait-impl
/// member; an inherent member's binder reserves type and const parameters; anywhere
/// else the binder is refused.
pub open spec fn nested_binder_errors(t: SyntaxTree, fl: usize) -> Seq<ErrorView> {
    match t.child(fl, Class::Kind(SyntaxKind::GENERIC_PARAM_LIST)) {
        Some(gpl) => if parent_kind(t, fl) == Some(SyntaxKind::STATIC_ITEM) {
            Seq::empty()
        } else if parent_kind(t, fl) == Some(SyntaxKind::MEMBER) {
            if member_context(t, fl) == Some(MemberContext::TraitImpl) {
                Seq::empty()
            } else {
                each(t.nodes_of(gpl, Class::GenericParam), member_param_error(t))
            }
        } else {
            seq![plain("generic function literals are only supported as item initializers"@, t.node_range(gpl))]
        },
        None => Seq::empty(),
    }
}

/// Bound-position rules on a type parameter: without a `:` there is
/// nothing to judge, and inside a `with::<...>` or `requires::<...>`
/// binder the group's own reservation speaks. On a `type` declaration's
/// `struct`/`enum` binder the parameter draws exactly one diagnostic at
/// the parameter: the capability one when some bound is a bare path that
/// names a capability (`T: forget`), else the not-yet one. Elsewhere each
/// bound is judged alone: a bare trait name draws nothing, a turbofished
/// name draws the generic-traits diagnostic, and anything else the
/// only-a-trait-name one, each at the bound.
pub proof fn a_bound_is_a_bare_trait_name(t: SyntaxTree, tp: usize)
    ensures
        t.token(tp, SyntaxKind::COLON) is None ==> type_param_bound_errors(t, tp).len() == 0,
        t.token(tp, SyntaxKind::COLON) is Some ==> (t.parent(tp) matches Some(l) ==> (t.parent(l) matches Some(o) ==> {
            &&& (t.kind(o) == SyntaxKind::WITH_GROUP || t.kind(o) == SyntaxKind::REQUIRES_DEF)
                ==> type_param_bound_errors(t, tp).len() == 0
            &&& (t.kind(o) == SyntaxKind::RECORD_EXPR || t.kind(o) == SyntaxKind::ENUM_EXPR) ==> type_param_bound_errors(
                t,
                tp,
            ) == seq![
                plain(
                    if exists|i: int|
                        0 <= i < bounds_of(t, tp).len() && names_capability(t, #[trigger] bounds_of(t, tp)[i]) {
                        "a `type` declaration's parameters carry no capability bounds: a container is linear when what it holds is"@
                    } else {
                        "bounds on a `type` declaration's binder are not supported yet"@
                    },
                    t.node_range(tp),
                ),
            ]
        })),
        forall|b: usize| #[trigger]
            bound_error(t)(b) == if t.kind(b) == SyntaxKind::PATH_TYPE && t.child(
                b,
                Class::Kind(SyntaxKind::GENERIC_ARG_LIST),
            ) is Some {
                seq![plain("generic traits are not supported yet; a bound is a bare trait name"@, t.node_range(b))]
            } else if t.kind(b) == SyntaxKind::PATH_TYPE && variant_name_ref(t, b) is None {
                Seq::<ErrorView>::empty()
            } else {
                seq![plain("only a trait name can be a bound"@, t.node_range(b))]
            },
        t.token(tp, SyntaxKind::COLON) is Some && (match t.parent(tp) {
            Some(l) => match t.parent(l) {
                Some(o) => !(t.kind(o) == SyntaxKind::WITH_GROUP || t.kind(o) == SyntaxKind::REQUIRES_DEF || t.kind(o)
                    == SyntaxKind::RECORD_EXPR || t.kind(o) == SyntaxKind::ENUM_EXPR),
                None => true,
            },
            None => true,
        }) ==> type_param_bound_errors(t, tp) == each(bounds_of(t, tp), bound_error(t)),
{
}

/// What one parameter of a non-trait-impl member's binder draws: a type or
/// const parameter its own reservation at the parameter, a region
/// parameter nothing.
pub open spec fn member_binder_verdict(t: SyntaxTree, fl: usize, p: usize) -> bool {
    &&& t.kind(p) == SyntaxKind::TYPE_PARAM ==> nested_binder_errors(t, fl).contains(
        plain(msg_member_type_param(), t.node_range(p)),
    )
    &&& t.kind(p) == SyntaxKind::CONST_PARAM ==> nested_binder_errors(t, fl).contains(
        plain(
            "a member's own const parameters are not supported yet (a const argument is part of an instance's identity, and a member's arguments are read off the receiver's own type)"@,
            t.node_range(p),
        ),
    )
    &&& t.kind(p) == SyntaxKind::REGION_PARAM ==> member_param_error(t)(p).len() == 0
}

/// Where a fn literal's binder may stand: as a `static`'s initializer and
/// on a trait-impl member it is live and draws nothing; on another member
/// each type and const parameter draws its own reservation at the
/// parameter and a region parameter draws none; anywhere else the whole
/// binder draws exactly one diagnostic at the binder.
pub proof fn a_fn_literal_binder_stands_where_the_item_tree_reads_it(t: SyntaxTree, fl: usize)
    ensures
        t.child(fl, Class::Kind(SyntaxKind::GENERIC_PARAM_LIST)) is None ==> nested_binder_errors(t, fl).len() == 0,
        t.child(fl, Class::Kind(SyntaxKind::GENERIC_PARAM_LIST)) matches Some(gpl) ==> {
            &&& parent_kind(t, fl) == Some(SyntaxKind::STATIC_ITEM) ==> nested_binder_errors(t, fl).len() == 0
            &&& (parent_kind(t, fl) == Some(SyntaxKind::MEMBER) && member_context(t, fl) == Some(
                MemberContext::TraitImpl,
            )) ==> nested_binder_errors(t, fl).len() == 0
            &&& (parent_kind(t, fl) != Some(SyntaxKind::STATIC_ITEM) && parent_kind(t, fl) != Some(SyntaxKind::MEMBER))
                ==> nested_binder_errors(t, fl) == seq![
                plain("generic function literals are only supported as item initializers"@, t.node_range(gpl)),
            ]
            &&& (parent_kind(t, fl) == Some(SyntaxKind::MEMBER) && member_context(t, fl) != Some(
                MemberContext::TraitImpl,
            )) ==> forall|p: usize|
                #[trigger] t.nodes_of(gpl, Class::GenericParam).contains(p) ==> member_binder_verdict(t, fl, p)
        },
{
    if let Some(gpl) = t.child(fl, Class::Kind(SyntaxKind::GENERIC_PARAM_LIST)) {
        if parent_kind(t, fl) == Some(SyntaxKind::MEMBER) && member_context(t, fl) != Some(MemberContext::TraitImpl) {
            let ps = t.nodes_of(gpl, Class::GenericParam);
            assert forall|p: usize| #[trigger] ps.contains(p) implies member_binder_verdict(t, fl, p) by {
                let f = member_param_error(t);
                if t.kind(p) == SyntaxKind::TYPE_PARAM || t.kind(p) == SyntaxKind::CONST_PARAM {
                    assert(f(p).contains(f(p)[0]));
                    lemma_each_contains(ps, f, p, f(p)[0]);
                }
            }
        }
    }
}

/// A generic binder is only supported where the item tree can read it.
pub fn reject_nested_generic_binder(t: &SyntaxTree, fl: usize, errors: &mut Vec<SyntaxError>)
    requires
        t.wf(),
        fl < t.nodes@.len(),
    ensures
        errors_view(final(errors)@) == errors_view(old(errors)@) + nested_binder_errors(*t, fl),
{
    let Some(gpl) = t.child_exec(fl, Class::Kind(SyntaxKind::GENERIC_PARAM_LIST)) else {
        assert(errors_view(errors@) =~= errors_view(old(errors)@) + nested_binder_errors(*t, fl));
        return;
    };
    let pk = t.parent_kind_exec(fl);
    if pk == Some(SyntaxKind::STATIC_ITEM) {
        assert(errors_view(errors@) =~= errors_view(old(errors)@) + nested_binder_errors(*t, fl));
        return;
    }
    if pk == Some(SyntaxKind::MEMBER) {
        if semantic_member_context(t, fl) == Some(MemberContext::TraitImpl) {
            assert(errors_view(errors@) =~= errors_view(old(errors)@) + nested_binder_errors(*t, fl));
            return;
        }
        let ids = t.nodes_of_exec(gpl, Class::GenericParam);
        let ghost f = member_param_error(*t);
        proof {
            lemma_each_ends(ids@, f);
        }
        let mut j: usize = 0;
        while j < ids.len()
            invariant
                t.wf(),
                j <= ids@.len(),
                f == member_param_error(*t),
                forall|i: int| 0 <= i < ids@.len() ==> is_child(*t, gpl, #[trigger] ids@[i]),
                errors_view(errors@) + each(ids@.skip(j as int), f) == errors_view(old(errors)@) + each(ids@, f),
            decreases ids.len() - j,
        {
            proof {
                lemma_each_step(ids@, j as int, f);
            }
            let ghost e0 = errors_view(errors@);
            let p = ids[j];
            let k = t.kind_exec(p);
            if k == SyntaxKind::TYPE_PARAM {
                push_plain(
                    errors,
                    text("a member's own type parameters are not supported yet (the type's own binders are already in scope)"),
                    t.range_exec(p),
                );
            } else if k == SyntaxKind::CONST_PARAM {
                push_plain(
                    errors,
                    text(
                        "a member's own const parameters are not supported yet (a const argument is part of an instance's identity, and a member's arguments are read off the receiver's own type)",
                    ),
                    t.range_exec(p),
                );
            }
            assert(errors_view(errors@) + each(ids@.skip(j + 1), f) =~= e0 + each(ids@.skip(j as int), f));
            j = j + 1;
        }
        assert(errors_view(errors@) =~= errors_view(old(errors)@) + nested_binder_errors(*t, fl));
        return;
    }
    push_plain(errors, text("generic function literals are only supported as item initializers"), t.range_exec(gpl));
    assert(errors_view(errors@) =~= errors_view(old(errors)@) + nested_binder_errors(*t, fl));
}

/// A binder on a `struct`/`enum` literal is meaningful only where the
/// literal declares a type, directly as a `type` item's value.
pub open spec fn stray_binder_errors(t: SyntaxTree, list: Option<usize>, literal: usize) -> Seq<ErrorView> {
    match list {
        Some(l) => if parent_kind(t, literal) == Some(SyntaxKind::TYPE_ITEM) {
            Seq::empty()
        } else {
            seq![
                plain(
                    "a generic binder is only supported on a `type` declaration's `struct`/`enum`"@,
                    t.node_range(l),
                ),
            ]
        },
        None => Seq::empty(),
    }
}

/// A generic binder on a `struct`/`enum` literal outside a `type` item.
pub fn reject_stray_type_binder(t: &SyntaxTree, list: Option<usize>, literal: usize, errors: &mut Vec<SyntaxError>)
    requires
        t.wf(),
        literal < t.nodes@.len(),
        list matches Some(l) ==> l < t.nodes@.len(),
    ensures
        errors_view(final(errors)@) == errors_view(old(errors)@) + stray_binder_errors(*t, list, literal),
{
    let Some(l) = list else {
        assert(errors_view(errors@) =~= errors_view(old(errors)@) + stray_binder_errors(*t, list, literal));
        return;
    };
    if t.parent_kind_exec(literal) == Some(SyntaxKind::TYPE_ITEM) {
        assert(errors_view(errors@) =~= errors_view(old(errors)@) + stray_binder_errors(*t, list, literal));
        return;
    }
    push_plain(
        errors,
        text("a generic binder is only supported on a `type` declaration's `struct`/`enum`"),
        t.range_exec(l),
    );
    assert(errors_view(errors@) =~= errors_view(old(errors)@) + stray_binder_errors(*t, list, literal));
}

} // verus!
