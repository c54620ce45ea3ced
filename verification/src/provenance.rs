//! Where a diagnostic comes from: the rest-pattern reservation and the
//! typed-field diagnostic are given by their own rules and by no other, so
//! whenever the pass reports one of them, a node that the rule is about
//! stands behind it.

use vstd::prelude::*;

use crate::error::{each, fix1, plain, with_fix, ErrorView};
use crate::exprs::BRACE_RULE;
use crate::members::{
    impl_element_errors, member_errors, member_value_errors, requirement_param_error, requirement_param_errors,
};
use crate::validation::{
    children_errors, subtree_errors, validation_errors, fn_literal_errors, if_errors, keyword_errors, msg_typed_field_without_value, node_errors, unsafe_block_errors,
};
use crate::exprs::{
    bare_angle_errors, bare_variant_errors, block_errors, literal_pattern_errors, literal_pattern_word,
    mut_binding_errors, prefix_borrow_expr_errors, prefix_borrow_type_errors, target_errors,
};
use crate::binders::{
    bound_error, bounds_of, member_param_error, msg_region_after, nested_binder_errors, param_name_or, region_name,
    regions_first_errors, stray_binder_errors, type_param_bound_errors,
};
use crate::ast::{annotation_of, descendants_of_kind, if_else_branch, if_then_branch, parent_kind};
use crate::items::{
    annotation_errors, cap_entries, caps_of, extern_fn_errors, extern_fn_fix, extern_marker_errors,
    extern_static_errors, fn_type_errors, hole_errors, import_annotation_errors, import_name, initializer_errors,
    is_import_annotation, msg_already_opted_out, msg_capability_reserved, msg_unknown_capability, names_before,
    opt_out_errors, owning_static, requires_def_errors, retired_import_annotation, supertrait_errors,
    trait_item_errors, type_item_annotation_errors, untyped_param_errors, with_clause_errors, with_group_errors,
    without_clause_errors,
};
use crate::kind::{Class, SyntaxKind};
use crate::records::{
    duplicate_errors, duplicates_of, enum_expr_errors, enum_position_errors, msg_duplicate, name_entries,
    open_record_errors, pub_field_each, pub_field_errors, record_expr_field_errors, record_type_errors,
};
use crate::tree::{Element, SyntaxTree, TextRange};

verus! {

/// The message of the rest-pattern reservation.
pub open spec fn msg_rest_pattern() -> Seq<char> {
    "`..` in patterns is not supported yet"@
}

/// A message that is neither the rest-pattern reservation (which starts
/// with "`." and ends with "t") nor the typed-field diagnostic (which
/// starts with "this f").
spec fn foreign_msg(m: Seq<char>) -> bool {
    &&& (m.len() < 2 || m[0] != '`' || m[1] != '.' || m[m.len() - 1] != 't')
    &&& (m.len() < 6 || m[0] != 't' || m[1] != 'h' || m[2] != 'i' || m[3] != 's' || m[4] != ' ' || m[5] != 'f')
}

/// A start that no message of either of the two begins with.
spec fn foreign_prefix(p: Seq<char>) -> bool {
    &&& p.len() >= 6
    &&& (p[0] != '`' || p[1] != '.')
    &&& (p[0] != 't' || p[1] != 'h' || p[2] != 'i' || p[3] != 's' || p[4] != ' ' || p[5] != 'f')
}

/// Every diagnostic of `s` has a foreign message.
spec fn all_foreign(s: Seq<ErrorView>) -> bool {
    forall|i: int| 0 <= i < s.len() ==> foreign_msg(#[trigger] s[i].message)
}

proof fn lemma_prefix(p: Seq<char>, x: Seq<char>)
    requires
        foreign_prefix(p),
    ensures
        foreign_msg(p + x),
{
    assert((p + x)[0] == p[0] && (p + x)[1] == p[1] && (p + x)[2] == p[2]);
    assert((p + x)[3] == p[3] && (p + x)[4] == p[4] && (p + x)[5] == p[5]);
}

proof fn lemma_concat(a: Seq<ErrorView>, b: Seq<ErrorView>)
    requires
        all_foreign(a),
        all_foreign(b),
    ensures
        all_foreign(a + b),
{
    assert forall|i: int| 0 <= i < (a + b).len() implies foreign_msg(#[trigger] (a + b)[i].message) by {
        if i < a.len() {
            assert((a + b)[i] == a[i]);
        } else {
            assert((a + b)[i] == b[i - a.len()]);
        }
    }
}

proof fn lemma_each(ids: Seq<usize>, f: spec_fn(usize) -> Seq<ErrorView>)
    requires
        forall|id: usize| #[trigger] all_foreign(f(id)),
    ensures
        all_foreign(each(ids, f)),
    decreases ids.len(),
{
    if ids.len() > 0 {
        lemma_each(ids.drop_first(), f);
        assert(all_foreign(f(ids[0])));
        lemma_concat(f(ids[0]), each(ids.drop_first(), f));
    }
}

/// A single diagnostic whose message begins with a foreign start.
proof fn lemma_one(x: ErrorView, p: Seq<char>, rest: Seq<char>)
    requires
        foreign_prefix(p),
        x.message == p + rest,
    ensures
        all_foreign(seq![x]),
{
    lemma_prefix(p, rest);
}

/// A single diagnostic with a literal-free message of a foreign start.
proof fn lemma_lit(x: ErrorView)
    requires
        foreign_prefix(x.message),
    ensures
        all_foreign(seq![x]),
{
    assert(x.message =~= x.message + Seq::<char>::empty());
    lemma_prefix(x.message, Seq::empty());
}

proof fn lemma_block(t: SyntaxTree, e: usize, rule: Seq<char>)
    requires
        foreign_prefix(rule),
    ensures
        all_foreign(block_errors(t, e, rule)),
{
    if t.kind(e) != SyntaxKind::BLOCK_EXPR {
        lemma_one(block_errors(t, e, rule)[0], rule, "; wrap this expression in `{ }`"@);
        assert(block_errors(t, e, rule) =~= seq![block_errors(t, e, rule)[0]]);
    }
}

proof fn lemma_exprs(t: SyntaxTree, n: usize)
    ensures
        all_foreign(target_errors(t, n)),
        all_foreign(mut_binding_errors(t, n)),
        all_foreign(literal_pattern_errors(t, n)),
        all_foreign(bare_variant_errors(t, n)),
        all_foreign(bare_angle_errors(t, n)),
        all_foreign(prefix_borrow_expr_errors(t, n)),
        all_foreign(prefix_borrow_type_errors(t, n)),
{
    reveal_strlit("can only assign to a variable or its fields");
    reveal_strlit("`mut` has no effect on `_`: a hole can never be assigned");
    reveal_strlit("`mut` applies to individual bindings in a destructuring pattern");
    reveal_strlit("integer");
    reveal_strlit("string");
    reveal_strlit("boolean");
    reveal_strlit("write `::");
    reveal_strlit("generic arguments use the turbofish: write `");
    reveal_strlit("borrows are spelled postfix: `x.&` / `x.&mut`");
    reveal_strlit("borrow types are spelled postfix: `T.&` / `T.&mut`");
    let suffix = " literal patterns are not supported yet; only character literals (`'x'`) can be matched"@;
    if let Some(what) = literal_pattern_word(t, n) {
        lemma_one(literal_pattern_errors(t, n)[0], what, suffix);
    }
    match t.child(n, Class::Kind(SyntaxKind::NAME_REF)) {
        Some(nr) => {
            let m = "write `::"@ + t.node_text(nr) + "(...)` to match a variant, or remove `(...)` to bind"@;
            assert(m =~= "write `::"@ + (t.node_text(nr) + "(...)` to match a variant, or remove `(...)` to bind"@));
            let m2 = "generic arguments use the turbofish: write `"@ + t.node_text(nr) + "::<...>`"@;
            assert(m2 =~= "generic arguments use the turbofish: write `"@ + (t.node_text(nr) + "::<...>`"@));
            lemma_prefix("write `::"@, t.node_text(nr) + "(...)` to match a variant, or remove `(...)` to bind"@);
            lemma_prefix("generic arguments use the turbofish: write `"@, t.node_text(nr) + "::<...>`"@);
        },
        None => {},
    }
}

proof fn lemma_duplicates(es: Seq<(Seq<char>, TextRange)>, seen: Set<Seq<char>>, what: Seq<char>)
    ensures
        all_foreign(duplicate_errors(es, seen, what)),
    decreases es.len(),
{
    reveal_strlit("duplicate ");
    if es.len() > 0 {
        let (name, range) = es[0];
        let rest = es.drop_first();
        if name.len() == 0 {
            lemma_duplicates(rest, seen, what);
        } else if seen.contains(name) {
            lemma_duplicates(rest, seen, what);
            let m = msg_duplicate(what, name);
            assert(m =~= "duplicate "@ + (what + " `"@ + name + "`"@));
            lemma_one(plain(m, range), "duplicate "@, what + " `"@ + name + "`"@);
            lemma_concat(seq![plain(m, range)], duplicate_errors(rest, seen, what));
        } else {
            lemma_duplicates(rest, seen.insert(name), what);
        }
    }
}

proof fn lemma_records(t: SyntaxTree, n: usize)
    ensures
        all_foreign(record_type_errors(t, n)),
        all_foreign(enum_expr_errors(t, n)),
        all_foreign(duplicates_of(t, n, SyntaxKind::RECORD_PAT_FIELD, SyntaxKind::NAME, "field"@)),
        all_foreign(open_record_errors(t, n)),
        all_foreign(stray_binder_errors(t, t.child(n, Class::Kind(SyntaxKind::GENERIC_PARAM_LIST)), n)),
        all_foreign(
            duplicates_of(t, n, SyntaxKind::RECORD_EXPR_FIELD, SyntaxKind::NAME_REF, "field"@),
        ),
        forall|f: usize| #[trigger] all_foreign(pub_field_errors(t, f)),
{
    reveal_strlit("open record types are not supported yet");
    reveal_strlit("field visibility is not supported yet");
    reveal_strlit("an `enum` literal can only appear as a `type` declaration's value");
    reveal_strlit("a generic binder is only supported on a `type` declaration's `struct`/`enum`");
    lemma_duplicates(name_entries(t, t.nodes_of(n, Class::Kind(SyntaxKind::RECORD_TYPE_FIELD)), SyntaxKind::NAME), Set::empty(), "field"@);
    lemma_duplicates(name_entries(t, t.nodes_of(n, Class::Kind(SyntaxKind::RECORD_PAT_FIELD)), SyntaxKind::NAME), Set::empty(), "field"@);
    lemma_duplicates(name_entries(t, t.nodes_of(n, Class::Kind(SyntaxKind::RECORD_EXPR_FIELD)), SyntaxKind::NAME_REF), Set::empty(), "field"@);
    lemma_duplicates(name_entries(t, t.nodes_of(n, Class::Kind(SyntaxKind::ENUM_VARIANT)), SyntaxKind::NAME), Set::empty(), "variant"@);
    assert forall|f: usize| #[trigger] all_foreign(pub_field_errors(t, f)) by {}
    assert forall|f: usize| #[trigger] all_foreign(pub_field_each(t)(f)) by {
        assert(pub_field_each(t)(f) == pub_field_errors(t, f));
    }
    lemma_each(t.nodes_of(n, Class::Kind(SyntaxKind::RECORD_TYPE_FIELD)), pub_field_each(t));
    let d = duplicates_of(t, n, SyntaxKind::RECORD_TYPE_FIELD, SyntaxKind::NAME, "field"@);
    lemma_concat(d, open_record_errors(t, n));
    lemma_concat(d + open_record_errors(t, n), each(t.nodes_of(n, Class::Kind(SyntaxKind::RECORD_TYPE_FIELD)), pub_field_each(t)));
    let v = duplicates_of(t, n, SyntaxKind::ENUM_VARIANT, SyntaxKind::NAME, "variant"@);
    let st = stray_binder_errors(t, t.child(n, Class::Kind(SyntaxKind::GENERIC_PARAM_LIST)), n);
    lemma_concat(v, enum_position_errors(t, n));
    lemma_concat(v + enum_position_errors(t, n), st);
}

proof fn lemma_bounds(t: SyntaxTree, tp: usize)
    ensures
        all_foreign(type_param_bound_errors(t, tp)),
{
    reveal_strlit("generic traits are not supported yet; a bound is a bare trait name");
    reveal_strlit("only a trait name can be a bound");
    reveal_strlit("a `type` declaration's parameters carry no capability bounds: a container is linear when what it holds is");
    reveal_strlit("bounds on a `type` declaration's binder are not supported yet");
    assert forall|b: usize| #[trigger] all_foreign(bound_error(t)(b)) by {}
    lemma_each(bounds_of(t, tp), bound_error(t));
}

proof fn lemma_regions(t: SyntaxTree, ps: Seq<usize>, sp: Option<Seq<char>>)
    ensures
        all_foreign(regions_first_errors(t, ps, sp)),
    decreases ps.len(),
{
    reveal_strlit("region parameters come first in a binder; move `");
    if ps.len() > 0 {
        let p = ps[0];
        let rest = ps.drop_first();
        let next = if t.kind(p) == SyntaxKind::REGION_PARAM {
            sp
        } else if sp is Some {
            sp
        } else if t.kind(p) == SyntaxKind::TYPE_PARAM {
            Some(param_name_or(t, p, "T"@))
        } else {
            Some(param_name_or(t, p, "N"@))
        };
        lemma_regions(t, rest, next);
        if t.kind(p) == SyntaxKind::REGION_PARAM {
            if let Some(earlier) = sp {
                let tail = region_name(t, p) + "` before `"@ + earlier + "`"@;
                let m = msg_region_after(region_name(t, p), earlier);
                assert(m =~= "region parameters come first in a binder; move `"@ + tail);
                lemma_one(plain(m, t.node_range(p)), "region parameters come first in a binder; move `"@, tail);
                lemma_concat(seq![plain(m, t.node_range(p))], regions_first_errors(t, rest, sp));
            }
        }
    }
}

proof fn lemma_binders(t: SyntaxTree, fl: usize)
    ensures
        all_foreign(nested_binder_errors(t, fl)),
{
    reveal_strlit("a member's own type parameters are not supported yet (the type's own binders are already in scope)");
    reveal_strlit("a member's own const parameters are not supported yet (a const argument is part of an instance's identity, and a member's arguments are read off the receiver's own type)");
    reveal_strlit("generic function literals are only supported as item initializers");
    assert forall|p: usize| #[trigger] all_foreign(member_param_error(t)(p)) by {}
    if let Some(gpl) = t.child(fl, Class::Kind(SyntaxKind::GENERIC_PARAM_LIST)) {
        lemma_each(t.nodes_of(gpl, Class::GenericParam), member_param_error(t));
    }
}

proof fn lemma_opt_out(es: Seq<(Seq<char>, TextRange)>, seen: Set<Seq<char>>)
    ensures
        all_foreign(opt_out_errors(es, seen)),
    decreases es.len(),
{
    reveal_strlit("` is already opted out of here");
    reveal_strlit("the `");
    reveal_strlit("unknown capability `");
    if es.len() > 0 {
        let (name, range) = es[0];
        let rest = es.drop_first();
        lemma_opt_out(rest, seen);
        lemma_opt_out(rest, seen.insert(name));
        let a = msg_already_opted_out(name);
        let tail = "` is already opted out of here"@;
        reveal_strlit("`");
        let body = name + tail;
        assert(a =~= "`"@ + body);
        assert(body[body.len() - 1] == tail[tail.len() - 1]);
        assert(tail[tail.len() - 1] == 'e');
        assert(a[a.len() - 1] == 'e');
        assert(a[0] == '`');
        assert(foreign_msg(a));
        assert(all_foreign(seq![plain(a, range)]));
        let r = msg_capability_reserved(name);
        assert(r[0] == 't' && r[2] == 'e');
        assert(all_foreign(seq![plain(r, range)]));
        let u = msg_unknown_capability(name);
        assert(u =~= "unknown capability `"@ + (name + "`; `forget` is the only one that can be opted out of"@));
        lemma_one(plain(u, range), "unknown capability `"@, name + "`; `forget` is the only one that can be opted out of"@);
        lemma_concat(seq![plain(a, range)], opt_out_errors(rest, seen));
        lemma_concat(seq![plain(r, range)], opt_out_errors(rest, seen.insert(name)));
        lemma_concat(seq![plain(u, range)], opt_out_errors(rest, seen.insert(name)));
    }
}

proof fn lemma_groups(t: SyntaxTree, n: usize)
    ensures
        all_foreign(with_group_errors(t, n)),
        all_foreign(without_clause_errors(t, n)),
{
    reveal_strlit("`with` attachment groups do not belong on a `static` item");
    reveal_strlit("`with::<...>` binder groups are not supported yet");
    reveal_strlit("`with T = ...` pin groups are not supported yet");
    reveal_strlit("`with @a: ...` outlives groups are not supported yet");
    reveal_strlit("`with T: ...` constrained groups are not supported yet");
    reveal_strlit("a capability opt-out belongs on a `type` declaration; a `static` has whatever capabilities its type has");
    reveal_strlit("a capability opt-out belongs on a `type` declaration, not on a `trait`");
    reveal_strlit("a capability opt-out cannot go here");
    assert forall|c: usize| #[trigger] all_foreign(with_clause_errors(t)(c)) by {}
    lemma_each(t.nodes_of(n, Class::Kind(SyntaxKind::WITH_CLAUSE)), with_clause_errors(t));
    let lst = match t.child(n, Class::Kind(SyntaxKind::GENERIC_PARAM_LIST)) {
        Some(l) => seq![plain("`with::<...>` binder groups are not supported yet"@, t.node_range(l))],
        None => Seq::<ErrorView>::empty(),
    };
    lemma_concat(lst, each(t.nodes_of(n, Class::Kind(SyntaxKind::WITH_CLAUSE)), with_clause_errors(t)));
    lemma_opt_out(cap_entries(t, caps_of(t, n)), names_before(
        t,
        t.nodes_of(t.parent(n).unwrap(), Class::Kind(SyntaxKind::WITHOUT_CLAUSE)),
        n,
    ));
}

proof fn lemma_declarations(t: SyntaxTree, n: usize)
    ensures
        all_foreign(extern_marker_errors(t, n)),
        all_foreign(type_item_annotation_errors(t, n)),
        all_foreign(trait_item_errors(t, n)),
{
    reveal_strlit("only a `static` can be `extern`: an import declares one name with one type");
    reveal_strlit("a `type` declaration takes no type annotation");
    reveal_strlit("a `trait` declaration takes no type annotation");
    reveal_strlit("trait aliases are not supported yet; declare the trait with `requires { ... }`");
    reveal_strlit("`unsafe` traits are not supported yet");
    reveal_strlit("generic traits are not supported yet");
    reveal_strlit("supertrait clauses are not supported yet");
    let ann = annotation_errors(t, n, "a `trait` declaration takes no type annotation"@);
    let alias = match t.child(n, Class::Kind(SyntaxKind::TRAIT_ALIAS)) {
        Some(a) => seq![
            plain("trait aliases are not supported yet; declare the trait with `requires { ... }`"@, t.node_range(a)),
        ],
        None => Seq::<ErrorView>::empty(),
    };
    if let Some(req) = t.child(n, Class::Kind(SyntaxKind::REQUIRES_DEF)) {
        assert forall|c: usize| #[trigger] all_foreign(supertrait_errors(t)(c)) by {}
        lemma_each(t.nodes_of(req, Class::Kind(SyntaxKind::REQUIRES_CLAUSE)), supertrait_errors(t));
        let u = match t.token(req, SyntaxKind::UNSAFE_KW) {
            Some(tk) => seq![plain("`unsafe` traits are not supported yet"@, t.token_range(tk))],
            None => Seq::<ErrorView>::empty(),
        };
        let g = match t.child(req, Class::Kind(SyntaxKind::GENERIC_PARAM_LIST)) {
            Some(l) => seq![plain("generic traits are not supported yet"@, t.node_range(l))],
            None => Seq::<ErrorView>::empty(),
        };
        lemma_concat(u, g);
        lemma_concat(u + g, each(t.nodes_of(req, Class::Kind(SyntaxKind::REQUIRES_CLAUSE)), supertrait_errors(t)));
        lemma_concat(ann, alias);
        lemma_concat(ann + alias, requires_def_errors(t, req));
    } else {
        lemma_concat(ann, alias);
        lemma_concat(ann + alias, Seq::<ErrorView>::empty());
    }
}

proof fn lemma_import(t: SyntaxTree, ty: usize)
    ensures
        all_foreign(import_annotation_errors(t, ty)),
{
    reveal_strlit("an import's type must be written in full: the declaration is the whole contract, and there is no body for `_` to be inferred from");
    reveal_strlit("an import must be declared `unsafe fn` for now: a safe-to-call import needs the declaration-side `unsafe` marker, and that marker does not exist yet");
    reveal_strlit("an import cannot be generic: it has exactly one machine signature, and there is nothing to monomorphize it into");
    reveal_strlit("data imports are not supported yet \u{2014} an import must have a function type");
    assert forall|h: usize| #[trigger] all_foreign(hole_errors(t)(h)) by {}
    lemma_each(descendants_of_kind(t, ty, SyntaxKind::HOLE_TYPE), hole_errors(t));
    if t.kind(ty) == SyntaxKind::FN_TYPE {
        let holes = each(descendants_of_kind(t, ty, SyntaxKind::HOLE_TYPE), hole_errors(t));
        let r = t.node_range(ty);
        let u = if t.token(ty, SyntaxKind::UNSAFE_KW) is None {
            seq![
                with_fix(
                    "an import must be declared `unsafe fn` for now: a safe-to-call import needs the declaration-side `unsafe` marker, and that marker does not exist yet"@,
                    r,
                    fix1("Write `unsafe fn`"@, TextRange { start: r.start, end: r.start }, "unsafe "@),
                ),
            ]
        } else {
            Seq::<ErrorView>::empty()
        };
        let g = match t.child(ty, Class::Kind(SyntaxKind::GENERIC_PARAM_LIST)) {
            Some(b) => seq![
                plain(
                    "an import cannot be generic: it has exactly one machine signature, and there is nothing to monomorphize it into"@,
                    t.node_range(b),
                ),
            ],
            None => Seq::<ErrorView>::empty(),
        };
        lemma_concat(holes, u);
        lemma_concat(holes + u, g);
    }
}

proof fn lemma_statics(t: SyntaxTree, n: usize)
    ensures
        all_foreign(extern_fn_errors(t, n)),
        all_foreign(extern_static_errors(t, n)),
        all_foreign(fn_type_errors(t, n)),
{
    reveal_strlit("a host import is a DECLARATION, not an initializer: write `extern static ");
    reveal_strlit("an `extern static` has no initializer: the declaration is the whole contract, and an import sets nothing to anything");
    reveal_strlit("an import must declare its type: `extern static name: unsafe fn(...) -> T;`");
    reveal_strlit("only a `static` can be `extern`: an import declares one name with one type");
    reveal_strlit("a function type has no generic binder: a generic function is declared by an item, and a type names one of its instances");
    reveal_strlit("this parameter has no type: a function type's parameters are `name: Type` or `Type`");
    // the retired import spelling
    let annotation = retired_import_annotation(t, n);
    let twice = if annotation is Some {
        " \u{2014} the annotation is the contract, and this signature is dropped"@
    } else {
        Seq::empty()
    };
    let p = "a host import is a DECLARATION, not an initializer: write `extern static "@;
    let tail = import_name(t, owning_static(t, n)) + ": unsafe fn(...) -> T;`"@ + twice;
    let m = p + import_name(t, owning_static(t, n)) + ": unsafe fn(...) -> T;`"@ + twice;
    assert(m =~= p + tail);
    lemma_one(ErrorView { message: m, range: t.node_range(n), fix: extern_fn_fix(t, n) }, p, tail);
    match annotation {
        Some(ty) => {
            lemma_import(t, ty);
            lemma_concat(seq![ErrorView { message: m, range: t.node_range(n), fix: extern_fn_fix(t, n) }], import_annotation_errors(t, ty));
        },
        None => {
            lemma_concat(seq![ErrorView { message: m, range: t.node_range(n), fix: extern_fn_fix(t, n) }], Seq::<ErrorView>::empty());
        },
    }
    // the declaration
    if let Some(ty) = annotation_of(t, n) {
        lemma_import(t, ty);
        lemma_concat(initializer_errors(t, n), import_annotation_errors(t, ty));
    }
    let missing = seq![
        plain(
            "an import must declare its type: `extern static name: unsafe fn(...) -> T;`"@,
            match t.child(n, Class::Kind(SyntaxKind::NAME)) {
                Some(nm) => t.node_range(nm),
                None => match t.token(n, SyntaxKind::EXTERN_KW) {
                    Some(marker) => t.token_range(marker),
                    None => t.node_range(n),
                },
            },
        ),
    ];
    lemma_concat(initializer_errors(t, n), missing);
    lemma_concat(initializer_errors(t, n), Seq::<ErrorView>::empty());
    // fn types
    assert forall|q: usize| #[trigger] all_foreign(untyped_param_errors(t)(q)) by {}
    let b = match t.child(n, Class::Kind(SyntaxKind::GENERIC_PARAM_LIST)) {
        Some(b) => if !is_import_annotation(t, n) {
            seq![
                plain(
                    "a function type has no generic binder: a generic function is declared by an item, and a type names one of its instances"@,
                    t.node_range(b),
                ),
            ]
        } else {
            Seq::<ErrorView>::empty()
        },
        None => Seq::<ErrorView>::empty(),
    };
    if let Some(l) = t.child(n, Class::Kind(SyntaxKind::PARAM_LIST)) {
        lemma_each(t.nodes_of(l, Class::Kind(SyntaxKind::PARAM)), untyped_param_errors(t));
        lemma_concat(b, each(t.nodes_of(l, Class::Kind(SyntaxKind::PARAM)), untyped_param_errors(t)));
    } else {
        lemma_concat(b, Seq::<ErrorView>::empty());
    }
}

proof fn lemma_members(t: SyntaxTree, n: usize)
    ensures
        all_foreign(impl_element_errors(t, n)),
        all_foreign(member_errors(t, n)),
{
    reveal_strlit("an impl in a trait's `with`-chain names the IMPLEMENTING type, not `Self`");
    reveal_strlit("an impl in a trait's `with`-chain must name its implementer with a bare type name");
    reveal_strlit("marker impls (`impl name;`) are not supported yet");
    reveal_strlit("impls in a generic trait's `with`-chain are not supported yet (generic traits are reserved)");
    reveal_strlit("`impl Self` requires a member body (`{ ... }`)");
    reveal_strlit("an impl head must be `Self` (inherent members) or a bare trait name");
    reveal_strlit("trait impls on generic types are not supported yet");
    reveal_strlit("associated types are not supported yet");
    reveal_strlit("associated consts are not supported yet");
    reveal_strlit("a requirement's parameter is a plain `name: Type`");
    reveal_strlit("default members are not supported yet; a trait declares requirements (`name: fn(...) -> ...;`)");
    reveal_strlit("a requirement declares its signature: `name: fn(...) -> ...;`");
    reveal_strlit("`unsafe` trait members are not supported yet");
    reveal_strlit("a requirement's signature must be an `fn` signature");
    reveal_strlit("a member must be defined as an `fn` literal");
    reveal_strlit("a declare-only inherent member is an unimplementable promise; define it: `name = fn(...) -> ... { ... };`");
    reveal_strlit("an impl member is defined with `=`; the colon-declared requirement form belongs in the trait declaration");
    reveal_strlit("member type ascriptions are not supported yet; the `fn` literal's own annotations are the signature");
    assert forall|q: usize| #[trigger] all_foreign(requirement_param_error(t)(q)) by {}
    if let Some(ty) = annotation_of(t, n) {
        if let Some(l) = t.child(ty, Class::Kind(SyntaxKind::PARAM_LIST)) {
            lemma_each(t.nodes_of(l, Class::Kind(SyntaxKind::PARAM)), requirement_param_error(t));
        }
        let u = match t.token(ty, SyntaxKind::UNSAFE_KW) {
            Some(tk) => seq![plain("`unsafe` trait members are not supported yet"@, t.token_range(tk))],
            None => Seq::<ErrorView>::empty(),
        };
        lemma_concat(u, requirement_param_errors(t, ty));
        if let Some(colon) = t.token(n, SyntaxKind::COLON) {
            let a = seq![
                plain(
                    "member type ascriptions are not supported yet; the `fn` literal's own annotations are the signature"@,
                    TextRange { start: t.token_range(colon).start, end: t.node_range(ty).end },
                ),
            ];
            lemma_concat(a, member_value_errors(t, n));
        }
    } else if let Some(colon) = t.token(n, SyntaxKind::COLON) {
        let a = seq![
            plain(
                "member type ascriptions are not supported yet; the `fn` literal's own annotations are the signature"@,
                TextRange { start: t.token_range(colon).start, end: t.token_range(colon).end },
            ),
        ];
        lemma_concat(a, member_value_errors(t, n));
    }
}

proof fn lemma_validation_rules(t: SyntaxTree, n: usize)
    ensures
        all_foreign(fn_literal_errors(t, n)),
        all_foreign(if_errors(t, n)),
        all_foreign(unsafe_block_errors(t, n)),
        forall|k: SyntaxKind, m: Seq<char>| foreign_prefix(m) ==> #[trigger] all_foreign(keyword_errors(t, n, k, m)),
{
    reveal_strlit("function bodies are blocks");
    reveal_strlit("`if` branches are blocks");
    reveal_strlit("`else` branches are blocks");
    reveal_strlit("`unsafe` blocks");
    reveal_strlit("`unsafe fn` is not supported yet; use `unsafe { ... }` blocks inside a plain `fn`");
    lemma_binders(t, n);
    lemma_statics(t, n);
    if let Some(body) = t.child(n, Class::Expr) {
        lemma_block(t, body, BRACE_RULE@);
        lemma_block(t, body, "`unsafe` blocks"@);
        lemma_concat(block_errors(t, body, BRACE_RULE@), nested_binder_errors(t, n));
    } else {
        lemma_concat(Seq::<ErrorView>::empty(), nested_binder_errors(t, n));
    }
    lemma_concat(extern_fn_errors(t, n), nested_binder_errors(t, n));
    let th = match if_then_branch(t, n) {
        Some(b) => block_errors(t, b, "`if` branches are blocks"@),
        None => Seq::<ErrorView>::empty(),
    };
    if let Some(b) = if_then_branch(t, n) {
        lemma_block(t, b, "`if` branches are blocks"@);
    }
    if let Some(e) = if_else_branch(t, n) {
        lemma_block(t, e, "`else` branches are blocks"@);
        lemma_concat(th, block_errors(t, e, "`else` branches are blocks"@));
    }
    lemma_concat(th, Seq::<ErrorView>::empty());
    assert forall|k: SyntaxKind, m: Seq<char>| foreign_prefix(m) implies #[trigger] all_foreign(
        keyword_errors(t, n, k, m),
    ) by {
        if let Some(tk) = t.token(n, k) {
            lemma_lit(plain(m, t.token_range(tk)));
        }
    }
}

/// A field with a `:`, no `=` and no expression.
pub open spec fn typed_without_value(t: SyntaxTree, f: usize) -> bool {
    &&& t.token(f, SyntaxKind::COLON) is Some
    &&& t.token(f, SyntaxKind::EQ) is None
    &&& t.child(f, Class::Expr) is None
}

/// `x` is the typed-field diagnostic of a field of the construction
/// literal `r` (a record literal that is not a `type` declaration's value).
pub open spec fn field_diagnostic_of(t: SyntaxTree, r: usize, x: ErrorView) -> bool {
    &&& t.kind(r) == SyntaxKind::RECORD_EXPR
    &&& parent_kind(t, r) != Some(SyntaxKind::TYPE_ITEM)
    &&& exists|f: usize|
        #![trigger t.nodes_of(r, Class::Kind(SyntaxKind::RECORD_EXPR_FIELD)).contains(f)]
        t.nodes_of(r, Class::Kind(SyntaxKind::RECORD_EXPR_FIELD)).contains(f) && typed_without_value(t, f) && x
            == plain(msg_typed_field_without_value(), t.node_range(f))
}

/// What node `n` gives, for the two messages.
spec fn origin_ok(t: SyntaxTree, n: usize, x: ErrorView) -> bool {
    &&& x.message == msg_rest_pattern() ==> t.kind(n) == SyntaxKind::REST_PAT && parent_kind(t, n) != Some(
        SyntaxKind::RECORD_PAT,
    ) && x == plain(msg_rest_pattern(), t.node_range(n))
    &&& x.message == msg_typed_field_without_value() ==> field_diagnostic_of(t, n, x)
}

proof fn lemma_the_two_messages()
    ensures
        !foreign_msg(msg_rest_pattern()),
        !foreign_msg(msg_typed_field_without_value()),
        msg_rest_pattern() != msg_typed_field_without_value(),
{
    reveal_strlit("`..` in patterns is not supported yet");
    reveal_strlit("this field has a type but no value; write `name: Type = value` (or `name = value`)");
    assert(msg_rest_pattern()[0] != msg_typed_field_without_value()[0]);
}

proof fn lemma_foreign_origin(t: SyntaxTree, n: usize, s: Seq<ErrorView>)
    requires
        all_foreign(s),
    ensures
        forall|i: int| 0 <= i < s.len() ==> origin_ok(t, n, #[trigger] s[i]),
{
    lemma_the_two_messages();
    assert forall|i: int| 0 <= i < s.len() implies origin_ok(t, n, #[trigger] s[i]) by {
        assert(foreign_msg(s[i].message));
    }
}

/// An element of what `ids` give together is given by one of them.
proof fn lemma_each_origin(ids: Seq<usize>, f: spec_fn(usize) -> Seq<ErrorView>, k: int)
    requires
        0 <= k < each(ids, f).len(),
    ensures
        exists|id: usize| #[trigger] ids.contains(id) && f(id).contains(each(ids, f)[k]),
    decreases ids.len(),
{
    let first = f(ids[0]);
    if k < first.len() {
        assert(each(ids, f)[k] == first[k]);
        assert(ids.contains(ids[0]));
    } else {
        let rest = ids.drop_first();
        assert(each(ids, f)[k] == each(rest, f)[k - first.len()]);
        lemma_each_origin(rest, f, k - first.len());
        let id = choose|id: usize| #[trigger] rest.contains(id) && f(id).contains(each(rest, f)[k - first.len()]);
        let j = choose|j: int| 0 <= j < rest.len() && rest[j] == id;
        assert(ids[j + 1] == id);
        assert(ids.contains(id));
    }
}

proof fn lemma_record_expr_origin(t: SyntaxTree, n: usize)
    requires
        t.kind(n) == SyntaxKind::RECORD_EXPR,
    ensures
        forall|i: int| 0 <= i < node_errors(t, n).len() ==> origin_ok(t, n, #[trigger] node_errors(t, n)[i]),
{
    lemma_the_two_messages();
    lemma_records(t, n);
    reveal_strlit("this field has a type but no value; write `name: Type = value` (or `name = value`)");
    let fields = t.nodes_of(n, Class::Kind(SyntaxKind::RECORD_EXPR_FIELD));
    let decl = parent_kind(t, n) == Some(SyntaxKind::TYPE_ITEM);
    let g = record_expr_field_errors(t, decl);
    let head = duplicates_of(t, n, SyntaxKind::RECORD_EXPR_FIELD, SyntaxKind::NAME_REF, "field"@)
        + open_record_errors(t, n) + stray_binder_errors(t, t.child(n, Class::Kind(SyntaxKind::GENERIC_PARAM_LIST)), n);
    lemma_concat(
        duplicates_of(t, n, SyntaxKind::RECORD_EXPR_FIELD, SyntaxKind::NAME_REF, "field"@),
        open_record_errors(t, n),
    );
    lemma_concat(
        duplicates_of(t, n, SyntaxKind::RECORD_EXPR_FIELD, SyntaxKind::NAME_REF, "field"@) + open_record_errors(t, n),
        stray_binder_errors(t, t.child(n, Class::Kind(SyntaxKind::GENERIC_PARAM_LIST)), n),
    );
    let rest = each(fields, g);
    assert(node_errors(t, n) == head + rest);
    assert forall|i: int| 0 <= i < node_errors(t, n).len() implies origin_ok(t, n, #[trigger] node_errors(t, n)[i]) by {
        let x = node_errors(t, n)[i];
        if i < head.len() {
            assert(x == head[i]);
            assert(foreign_msg(x.message));
        } else {
            assert(x == rest[i - head.len()]);
            lemma_each_origin(fields, g, i - head.len());
            let f = choose|f: usize| #[trigger] fields.contains(f) && g(f).contains(x);
            let gf = g(f);
            let k = choose|k: int| 0 <= k < gf.len() && gf[k] == x;
            let p = pub_field_errors(t, f);
            if k < p.len() {
                assert(gf[k] == p[k]);
                assert(all_foreign(p));
                assert(foreign_msg(p[k].message));
            } else {
                assert(!decl && typed_without_value(t, f));
                assert(x == plain(msg_typed_field_without_value(), t.node_range(f)));
                assert(fields.contains(f) && typed_without_value(t, f) && x == plain(
                    msg_typed_field_without_value(),
                    t.node_range(f),
                ));
            }
        }
    }
}

proof fn lemma_node_origin(t: SyntaxTree, n: usize)
    ensures
        forall|i: int| 0 <= i < node_errors(t, n).len() ==> origin_ok(t, n, #[trigger] node_errors(t, n)[i]),
{
    lemma_the_two_messages();
    let k = t.kind(n);
    if k == SyntaxKind::RECORD_EXPR {
        lemma_record_expr_origin(t, n);
    } else if k == SyntaxKind::REST_PAT {
        reveal_strlit("`..` in patterns is not supported yet");
        assert forall|i: int| 0 <= i < node_errors(t, n).len() implies origin_ok(t, n, #[trigger] node_errors(t, n)[i]) by {
            assert(node_errors(t, n)[i] == plain(msg_rest_pattern(), t.node_range(n)));
        }
    } else {
        lemma_exprs(t, n);
        lemma_records(t, n);
        lemma_bounds(t, n);
        lemma_regions(t, t.nodes_of(n, Class::GenericParam), None);
        lemma_groups(t, n);
        lemma_declarations(t, n);
        lemma_statics(t, n);
        lemma_members(t, n);
        lemma_validation_rules(t, n);
        if let Some(lhs) = t.child(n, Class::Expr) {
            reveal_strlit("`loop` bodies are blocks");
            lemma_block(t, lhs, "`loop` bodies are blocks"@);
            lemma_exprs(t, lhs);
        }
        reveal_strlit("`unsafe` impl elements are not supported yet");
        reveal_strlit("`for` (covered) impl elements are not supported yet");
        assert(foreign_prefix("`unsafe` impl elements are not supported yet"@));
        assert(foreign_prefix("`for` (covered) impl elements are not supported yet"@));
        lemma_concat(extern_marker_errors(t, n), type_item_annotation_errors(t, n));
        lemma_concat(extern_marker_errors(t, n), trait_item_errors(t, n));
        lemma_concat(prefix_borrow_expr_errors(t, n), Seq::<ErrorView>::empty());
        assert(all_foreign(node_errors(t, n)));
        lemma_foreign_origin(t, n, node_errors(t, n));
    }
}

/// Every diagnostic of the subtree of `n` is given by some node.
proof fn lemma_subtree_origin(t: SyntaxTree, n: usize, x: ErrorView)
    requires
        n < t.n_nodes(),
        subtree_errors(t, n).contains(x),
    ensures
        exists|m: usize| m < t.n_nodes() && #[trigger] node_errors(t, m).contains(x),
    decreases t.n_nodes() - n, 1int, 0int,
{
    let own = node_errors(t, n);
    let k = choose|k: int| 0 <= k < subtree_errors(t, n).len() && subtree_errors(t, n)[k] == x;
    if k < own.len() {
        assert(own[k] == x);
        assert(own.contains(x));
    } else {
        assert(children_errors(t, n, 0)[k - own.len()] == x);
        lemma_children_origin(t, n, 0, x);
    }
}

proof fn lemma_children_origin(t: SyntaxTree, n: usize, j: int, x: ErrorView)
    requires
        n < t.n_nodes(),
        children_errors(t, n, j).contains(x),
    ensures
        exists|m: usize| m < t.n_nodes() && #[trigger] node_errors(t, m).contains(x),
    decreases t.n_nodes() - n, 0int, t.children(n).len() - j,
{
    if 0 <= j < t.children(n).len() {
        let here = match t.children(n)[j] {
            Element::Node(c) => if n < c < t.n_nodes() {
                subtree_errors(t, c)
            } else {
                Seq::empty()
            },
            Element::Token(_) => Seq::empty(),
        };
        let all = children_errors(t, n, j);
        assert(all == here + children_errors(t, n, j + 1));
        let k = choose|k: int| 0 <= k < all.len() && all[k] == x;
        if k < here.len() {
            assert(here[k] == x);
            match t.children(n)[j] {
                Element::Node(c) => {
                    lemma_subtree_origin(t, c, x);
                },
                Element::Token(_) => {},
            }
        } else {
            assert(children_errors(t, n, j + 1)[k - here.len()] == x);
            lemma_children_origin(t, n, j + 1, x);
        }
    }
}

/// No rest-pattern reservation comes from anywhere else: whenever the pass
/// reports "`..` in patterns is not supported yet", a rest pattern whose
/// parent is not a record pattern stands at exactly that range. So a tree
/// whose rest patterns all sit in record patterns (`S { x, .. }`) draws
/// none.
pub proof fn a_rest_pattern_diagnostic_has_a_rest_pattern_behind_it(t: SyntaxTree, x: ErrorView)
    requires
        t.wf(),
        validation_errors(t).contains(x),
        x.message == msg_rest_pattern(),
    ensures
        exists|r: usize|
            r < t.n_nodes() && t.kind(r) == SyntaxKind::REST_PAT && parent_kind(t, r) != Some(SyntaxKind::RECORD_PAT)
                && x == plain(msg_rest_pattern(), #[trigger] t.node_range(r)),
{
    lemma_subtree_origin(t, 0, x);
    let m = choose|m: usize| m < t.n_nodes() && #[trigger] node_errors(t, m).contains(x);
    lemma_node_origin(t, m);
    let k = choose|k: int| 0 <= k < node_errors(t, m).len() && node_errors(t, m)[k] == x;
    assert(origin_ok(t, m, node_errors(t, m)[k]));
    assert(t.node_range(m) == t.node_range(m));
}

/// No typed-field diagnostic comes from anywhere else: whenever the pass
/// reports "this field has a type but no value", a field with a `:`, no
/// `=` and no expression, of a record literal that is not a `type`
/// declaration's value, stands at exactly that range. So the fields of
/// `type Foo = struct { x: usize };` draw none.
pub proof fn a_typed_field_diagnostic_has_a_construction_field_behind_it(t: SyntaxTree, x: ErrorView)
    requires
        t.wf(),
        validation_errors(t).contains(x),
        x.message == msg_typed_field_without_value(),
    ensures
        exists|r: usize| r < t.n_nodes() && #[trigger] field_diagnostic_of(t, r, x),
{
    lemma_subtree_origin(t, 0, x);
    let m = choose|m: usize| m < t.n_nodes() && #[trigger] node_errors(t, m).contains(x);
    lemma_node_origin(t, m);
    let k = choose|k: int| 0 <= k < node_errors(t, m).len() && node_errors(t, m)[k] == x;
    assert(origin_ok(t, m, node_errors(t, m)[k]));
}

} // verus!
