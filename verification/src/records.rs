//! The checks on records, enums and their patterns: duplicate names,
//! open records, field visibility, construction literals, and where an
//! `enum` literal may stand.

use vstd::prelude::*;

use crate::ast::{is_child, parent_kind};
use crate::binders::{reject_stray_type_binder, stray_binder_errors};
use crate::error::{each, errors_view, join, lemma_each_ends, lemma_each_step, plain, push_plain, text, ErrorView, SyntaxError};
use crate::kind::{Class, SyntaxKind};
use crate::names::{holds, lemma_seen_empty, lemma_seen_push, seen_set};
use crate::tree::{SyntaxTree, TextRange};

verus! {

// ---- duplicate names --------------------------------------------------------

/// The named items among `items`, as the name's text and range; an item
/// with no name (broken code) is skipped.
pub open spec fn name_entries(t: SyntaxTree, items: Seq<usize>, name_kind: SyntaxKind) -> Seq<(Seq<char>, TextRange)>
    decreases items.len(),
{
    if items.len() == 0 {
        Seq::empty()
    } else {
        let rest = name_entries(t, items.drop_first(), name_kind);
        match t.child(items[0], Class::Kind(name_kind)) {
            Some(nm) => seq![(t.node_text(nm), t.node_range(nm))] + rest,
            None => rest,
        }
    }
}

/// The message for a repeated name.
pub open spec fn msg_duplicate(what: Seq<char>, name: Seq<char>) -> Seq<char> {
    "duplicate "@ + what + " `"@ + name + "`"@
}

/// Every repeat of a name after its first occurrence, given the names
/// seen before; empty names never collide.
pub open spec fn duplicate_errors(es: Seq<(Seq<char>, TextRange)>, seen: Set<Seq<char>>, what: Seq<char>) -> Seq<ErrorView>
    decreases es.len(),
{
    if es.len() == 0 {
        Seq::empty()
    } else {
        let (name, range) = es[0];
        let rest = es.drop_first();
        if name.len() == 0 {
            duplicate_errors(rest, seen, what)
        } else if seen.contains(name) {
            seq![plain(msg_duplicate(what, name), range)] + duplicate_errors(rest, seen, what)
        } else {
            duplicate_errors(rest, seen.insert(name), what)
        }
    }
}

/// The non-empty names of a sequence of entries.
pub open spec fn nonempty_names(es: Seq<(Seq<char>, TextRange)>) -> Set<Seq<char>> {
    Set::new(|x: Seq<char>| x.len() > 0 && exists|i: int| 0 <= i < es.len() && es[i].0 == x)
}

/// The duplicate names of `items`, by their `name_kind` children.
pub open spec fn duplicates_of(t: SyntaxTree, n: usize, item_kind: SyntaxKind, name_kind: SyntaxKind, what: Seq<char>) -> Seq<ErrorView> {
    duplicate_errors(name_entries(t, t.nodes_of(n, Class::Kind(item_kind)), name_kind), Set::empty(), what)
}

/// Names are judged in order against everything before them: the
/// diagnostics for `a` then `b` are those of `a`, then those of `b` with
/// `a`'s names already seen.
pub proof fn duplicates_split(
    a: Seq<(Seq<char>, TextRange)>,
    b: Seq<(Seq<char>, TextRange)>,
    seen: Set<Seq<char>>,
    what: Seq<char>,
)
    ensures
        duplicate_errors(a + b, seen, what) == duplicate_errors(a, seen, what) + duplicate_errors(
            b,
            seen.union(nonempty_names(a)),
            what,
        ),
    decreases a.len(),
{
    if a.len() == 0 {
        assert(a + b =~= b);
        assert(seen.union(nonempty_names(a)) =~= seen);
        assert(duplicate_errors(a + b, seen, what) =~= duplicate_errors(a, seen, what) + duplicate_errors(
            b,
            seen.union(nonempty_names(a)),
            what,
        ));
    } else {
        let (name, range) = a[0];
        let rest = a.drop_first();
        assert((a + b).drop_first() =~= rest + b);
        assert((a + b)[0] == a[0]);
        let next = if name.len() == 0 || seen.contains(name) {
            seen
        } else {
            seen.insert(name)
        };
        duplicates_split(rest, b, next, what);
        assert(next.union(nonempty_names(rest)) =~= seen.union(nonempty_names(a))) by {
            assert forall|x: Seq<char>| #[trigger] nonempty_names(a).contains(x) <==> ((x == name && x.len() > 0)
                || nonempty_names(rest).contains(x)) by {
                if nonempty_names(a).contains(x) {
                    let i = choose|i: int| 0 <= i < a.len() && a[i].0 == x;
                    if i > 0 {
                        assert(rest[i - 1].0 == x);
                    }
                }
                if nonempty_names(rest).contains(x) {
                    let i = choose|i: int| 0 <= i < rest.len() && rest[i].0 == x;
                    assert(a[i + 1].0 == x);
                }
                if x == name && x.len() > 0 {
                    assert(a[0].0 == x);
                }
            }
        }
        assert(duplicate_errors(a + b, seen, what) =~= duplicate_errors(a, seen, what) + duplicate_errors(
            b,
            seen.union(nonempty_names(a)),
            what,
        ));
    }
}

/// A name is reported exactly when it is not empty and was seen before:
/// appending one entry adds a diagnostic for it iff its name occurs
/// earlier (the first occurrence is never the one reported).
pub proof fn duplicate_reported_iff_seen_before(
    es: Seq<(Seq<char>, TextRange)>,
    name: Seq<char>,
    range: TextRange,
    what: Seq<char>,
)
    ensures
        duplicate_errors(es.push((name, range)), Set::empty(), what) == duplicate_errors(es, Set::empty(), what) + (
        if name.len() > 0 && nonempty_names(es).contains(name) {
            seq![plain(msg_duplicate(what, name), range)]
        } else {
            Seq::empty()
        }),
{
    let one = seq![(name, range)];
    assert(es.push((name, range)) =~= es + one);
    duplicates_split(es, one, Set::empty(), what);
    let s = Set::<Seq<char>>::empty().union(nonempty_names(es));
    assert(s =~= nonempty_names(es));
    assert(one.drop_first() =~= Seq::<(Seq<char>, TextRange)>::empty());
    assert(one[0] == (name, range));
    reveal_with_fuel(duplicate_errors, 2);
    assert(duplicate_errors(one, s, what) =~= (if name.len() > 0 && nonempty_names(es).contains(name) {
        seq![plain(msg_duplicate(what, name), range)]
    } else {
        Seq::empty()
    }));
}

/// One step of [`name_entries`] over a suffix.
proof fn lemma_entries_step(t: SyntaxTree, items: Seq<usize>, j: int, name_kind: SyntaxKind)
    requires
        0 <= j < items.len(),
    ensures
        name_entries(t, items.skip(j), name_kind) == match t.child(items[j], Class::Kind(name_kind)) {
            Some(nm) => seq![(t.node_text(nm), t.node_range(nm))] + name_entries(t, items.skip(j + 1), name_kind),
            None => name_entries(t, items.skip(j + 1), name_kind),
        },
{
    assert(items.skip(j).drop_first() =~= items.skip(j + 1));
    assert(items.skip(j)[0] == items[j]);
}

/// Report every repeat of a name after its first occurrence; record fields
/// and enum variants share the rule, and empty names never collide.
pub fn report_duplicates(
    t: &SyntaxTree,
    n: usize,
    item_kind: SyntaxKind,
    name_kind: SyntaxKind,
    what: &str,
    errors: &mut Vec<SyntaxError>,
)
    requires
        t.wf(),
        n < t.nodes@.len(),
    ensures
        errors_view(final(errors)@) == errors_view(old(errors)@) + duplicates_of(*t, n, item_kind, name_kind, what@),
{
    let items = t.nodes_of_exec(n, Class::Kind(item_kind));
    let mut seen: Vec<String> = Vec::new();
    proof {
        lemma_seen_empty(seen@);
        assert(items@.skip(0) =~= items@);
    }
    let mut j: usize = 0;
    while j < items.len()
        invariant
            t.wf(),
            j <= items@.len(),
            items@ == t.nodes_of(n, Class::Kind(item_kind)),
            forall|i: int| 0 <= i < items@.len() ==> is_child(*t, n, #[trigger] items@[i]),
            errors_view(errors@) + duplicate_errors(name_entries(*t, items@.skip(j as int), name_kind), seen_set(seen@), what@)
                == errors_view(old(errors)@) + duplicates_of(*t, n, item_kind, name_kind, what@),
        decreases items.len() - j,
    {
        let item = items[j];
        let ghost e0 = errors_view(errors@);
        let ghost s0 = seen_set(seen@);
        proof {
            lemma_entries_step(*t, items@, j as int, name_kind);
        }
        let ghost rest = name_entries(*t, items@.skip(j + 1), name_kind);
        if let Some(nm) = t.child_exec(item, Class::Kind(name_kind)) {
            let name = t.text_exec(nm);
            let range = t.range_exec(nm);
            let ghost es = seq![(name@, range)] + rest;
            assert(es[0] == (name@, range));
            assert(es.drop_first() =~= rest);
            if name.as_str().unicode_len() == 0 {
            } else if holds(&seen, &name) {
                let message = join(join(join(join(text("duplicate "), what), " `"), name.as_str()), "`");
                push_plain(errors, message, range);
            } else {
                proof {
                    lemma_seen_push(seen@, name);
                }
                seen.push(name);
            }
            assert(errors_view(errors@) + duplicate_errors(rest, seen_set(seen@), what@) =~= e0 + duplicate_errors(
                es,
                s0,
                what@,
            ));
        }
        j = j + 1;
    }
    proof {
        assert(items@.skip(items@.len() as int) =~= Seq::<usize>::empty());
    }
    assert(errors_view(errors@) =~= errors_view(old(errors)@) + duplicates_of(*t, n, item_kind, name_kind, what@));
}

/// Report every repeat of a field name after its first occurrence.
pub fn report_duplicate_fields(
    t: &SyntaxTree,
    n: usize,
    field_kind: SyntaxKind,
    name_kind: SyntaxKind,
    errors: &mut Vec<SyntaxError>,
)
    requires
        t.wf(),
        n < t.nodes@.len(),
    ensures
        errors_view(final(errors)@) == errors_view(old(errors)@) + duplicates_of(*t, n, field_kind, name_kind, "field"@),
{
    report_duplicates(t, n, field_kind, name_kind, "field", errors);
}

// ---- records and enums ------------------------------------------------------

/// `...` in a record type or literal: open records are reserved.
pub open spec fn open_record_errors(t: SyntaxTree, n: usize) -> Seq<ErrorView> {
    match t.token(n, SyntaxKind::DOT3) {
        Some(tk) => seq![plain("open record types are not supported yet"@, t.token_range(tk))],
        None => Seq::empty(),
    }
}

/// `...` in a record parses but is always rejected.
pub fn reject_open_record(t: &SyntaxTree, n: usize, errors: &mut Vec<SyntaxError>)
    requires
        t.wf(),
        n < t.nodes@.len(),
    ensures
        errors_view(final(errors)@) == errors_view(old(errors)@) + open_record_errors(*t, n),
{
    if let Some(tk) = t.token_exec(n, SyntaxKind::DOT3) {
        push_plain(errors, text("open record types are not supported yet"), t.token_range_exec(tk));
    }
    assert(errors_view(errors@) =~= errors_view(old(errors)@) + open_record_errors(*t, n));
}

/// `pub` on a field: field visibility is reserved.
pub open spec fn pub_field_errors(t: SyntaxTree, field: usize) -> Seq<ErrorView> {
    match t.token(field, SyntaxKind::PUB_KW) {
        Some(tk) => seq![plain("field visibility is not supported yet"@, t.token_range(tk))],
        None => Seq::empty(),
    }
}

/// `pub` on any record field is rejected.
pub fn reject_pub_field(t: &SyntaxTree, field: usize, errors: &mut Vec<SyntaxError>)
    requires
        t.wf(),
        field < t.nodes@.len(),
    ensures
        errors_view(final(errors)@) == errors_view(old(errors)@) + pub_field_errors(*t, field),
{
    if let Some(tk) = t.token_exec(field, SyntaxKind::PUB_KW) {
        push_plain(errors, text("field visibility is not supported yet"), t.token_range_exec(tk));
    }
    assert(errors_view(errors@) =~= errors_view(old(errors)@) + pub_field_errors(*t, field));
}

/// An `enum` literal only as a `type` item's value.
pub open spec fn enum_position_errors(t: SyntaxTree, e: usize) -> Seq<ErrorView> {
    if parent_kind(t, e) == Some(SyntaxKind::TYPE_ITEM) {
        Seq::empty()
    } else {
        seq![plain("an `enum` literal can only appear as a `type` declaration's value"@, t.node_range(e))]
    }
}

/// An `enum` literal declares a type and nothing else.
pub fn require_enum_declares_a_type(t: &SyntaxTree, e: usize, errors: &mut Vec<SyntaxError>)
    requires
        t.wf(),
        e < t.nodes@.len(),
    ensures
        errors_view(final(errors)@) == errors_view(old(errors)@) + enum_position_errors(*t, e),
{
    if t.parent_kind_exec(e) != Some(SyntaxKind::TYPE_ITEM) {
        push_plain(
            errors,
            text("an `enum` literal can only appear as a `type` declaration's value"),
            t.range_exec(e),
        );
    }
    assert(errors_view(errors@) =~= errors_view(old(errors)@) + enum_position_errors(*t, e));
}

/// The visibility diagnostic of each field.
pub open spec fn pub_field_each(t: SyntaxTree) -> spec_fn(usize) -> Seq<ErrorView> {
    |f: usize| pub_field_errors(t, f)
}

/// A record type: duplicate fields, `...`, and `pub` on each field.
pub open spec fn record_type_errors(t: SyntaxTree, n: usize) -> Seq<ErrorView> {
    duplicates_of(t, n, SyntaxKind::RECORD_TYPE_FIELD, SyntaxKind::NAME, "field"@) + open_record_errors(t, n) + each(
        t.nodes_of(n, Class::Kind(SyntaxKind::RECORD_TYPE_FIELD)),
        pub_field_each(t),
    )
}

/// The checks on a record type.
pub fn validate_record_type(t: &SyntaxTree, n: usize, errors: &mut Vec<SyntaxError>)
    requires
        t.wf(),
        n < t.nodes@.len(),
    ensures
        errors_view(final(errors)@) == errors_view(old(errors)@) + record_type_errors(*t, n),
{
    report_duplicate_fields(t, n, SyntaxKind::RECORD_TYPE_FIELD, SyntaxKind::NAME, errors);
    reject_open_record(t, n, errors);
    let ghost e1 = errors_view(errors@);
    let ids = t.nodes_of_exec(n, Class::Kind(SyntaxKind::RECORD_TYPE_FIELD));
    let ghost f = pub_field_each(*t);
    proof {
        lemma_each_ends(ids@, f);
    }
    let mut j: usize = 0;
    while j < ids.len()
        invariant
            t.wf(),
            j <= ids@.len(),
            f == pub_field_each(*t),
            forall|i: int| 0 <= i < ids@.len() ==> is_child(*t, n, #[trigger] ids@[i]),
            errors_view(errors@) + each(ids@.skip(j as int), f) == e1 + each(ids@, f),
        decreases ids.len() - j,
    {
        proof {
            lemma_each_step(ids@, j as int, f);
        }
        let ghost e0 = errors_view(errors@);
        reject_pub_field(t, ids[j], errors);
        assert(errors_view(errors@) + each(ids@.skip(j + 1), f) =~= e0 + each(ids@.skip(j as int), f));
        j = j + 1;
    }
    assert(errors_view(errors@) =~= errors_view(old(errors)@) + record_type_errors(*t, n));
}

/// One field of a record literal: `pub`, and, in a construction literal
/// (not a `type` declaration's value), a type with no value.
pub open spec fn record_expr_field_errors(t: SyntaxTree, is_type_decl_rhs: bool) -> spec_fn(usize) -> Seq<ErrorView> {
    |f: usize|
        pub_field_errors(t, f) + if !is_type_decl_rhs && t.token(f, SyntaxKind::COLON) is Some && t.token(
            f,
            SyntaxKind::EQ,
        ) is None && t.child(f, Class::Expr) is None {
            seq![
                plain(
                    "this field has a type but no value; write `name: Type = value` (or `name = value`)"@,
                    t.node_range(f),
                ),
            ]
        } else {
            Seq::empty()
        }
}

/// A record literal: duplicate fields, `...`, a stray binder, and its
/// fields.
pub open spec fn record_expr_errors(t: SyntaxTree, n: usize) -> Seq<ErrorView> {
    duplicates_of(t, n, SyntaxKind::RECORD_EXPR_FIELD, SyntaxKind::NAME_REF, "field"@) + open_record_errors(t, n)
        + stray_binder_errors(t, t.child(n, Class::Kind(SyntaxKind::GENERIC_PARAM_LIST)), n) + each(
        t.nodes_of(n, Class::Kind(SyntaxKind::RECORD_EXPR_FIELD)),
        record_expr_field_errors(t, parent_kind(t, n) == Some(SyntaxKind::TYPE_ITEM)),
    )
}

/// The checks on a record literal.
pub fn validate_record_expr(t: &SyntaxTree, n: usize, errors: &mut Vec<SyntaxError>)
    requires
        t.wf(),
        n < t.nodes@.len(),
    ensures
        errors_view(final(errors)@) == errors_view(old(errors)@) + record_expr_errors(*t, n),
{
    report_duplicate_fields(t, n, SyntaxKind::RECORD_EXPR_FIELD, SyntaxKind::NAME_REF, errors);
    reject_open_record(t, n, errors);
    let list = t.child_exec(n, Class::Kind(SyntaxKind::GENERIC_PARAM_LIST));
    reject_stray_type_binder(t, list, n, errors);
    let is_type_decl_rhs = t.parent_kind_exec(n) == Some(SyntaxKind::TYPE_ITEM);
    let ghost e1 = errors_view(errors@);
    let ids = t.nodes_of_exec(n, Class::Kind(SyntaxKind::RECORD_EXPR_FIELD));
    let ghost f = record_expr_field_errors(*t, is_type_decl_rhs);
    proof {
        lemma_each_ends(ids@, f);
    }
    let mut j: usize = 0;
    while j < ids.len()
        invariant
            t.wf(),
            j <= ids@.len(),
            f == record_expr_field_errors(*t, is_type_decl_rhs),
            forall|i: int| 0 <= i < ids@.len() ==> is_child(*t, n, #[trigger] ids@[i]),
            errors_view(errors@) + each(ids@.skip(j as int), f) == e1 + each(ids@, f),
        decreases ids.len() - j,
    {
        proof {
            lemma_each_step(ids@, j as int, f);
        }
        let ghost e0 = errors_view(errors@);
        let field = ids[j];
        reject_pub_field(t, field, errors);
        if !is_type_decl_rhs && t.token_exec(field, SyntaxKind::COLON).is_some() && t.token_exec(
            field,
            SyntaxKind::EQ,
        ).is_none() && t.child_exec(field, Class::Expr).is_none() {
            push_plain(
                errors,
                text("this field has a type but no value; write `name: Type = value` (or `name = value`)"),
                t.range_exec(field),
            );
        }
        assert(errors_view(errors@) + each(ids@.skip(j + 1), f) =~= e0 + each(ids@.skip(j as int), f));
        j = j + 1;
    }
    assert(errors_view(errors@) =~= errors_view(old(errors)@) + record_expr_errors(*t, n));
}

/// An `enum` literal: duplicate variants, its position, a stray binder.
pub open spec fn enum_expr_errors(t: SyntaxTree, n: usize) -> Seq<ErrorView> {
    duplicates_of(t, n, SyntaxKind::ENUM_VARIANT, SyntaxKind::NAME, "variant"@) + enum_position_errors(t, n)
        + stray_binder_errors(t, t.child(n, Class::Kind(SyntaxKind::GENERIC_PARAM_LIST)), n)
}

/// The checks on an `enum` literal.
pub fn validate_enum_expr(t: &SyntaxTree, n: usize, errors: &mut Vec<SyntaxError>)
    requires
        t.wf(),
        n < t.nodes@.len(),
    ensures
        errors_view(final(errors)@) == errors_view(old(errors)@) + enum_expr_errors(*t, n),
{
    report_duplicates(t, n, SyntaxKind::ENUM_VARIANT, SyntaxKind::NAME, "variant", errors);
    require_enum_declares_a_type(t, n, errors);
    let list = t.child_exec(n, Class::Kind(SyntaxKind::GENERIC_PARAM_LIST));
    reject_stray_type_binder(t, list, n, errors);
    assert(errors_view(errors@) =~= errors_view(old(errors)@) + enum_expr_errors(*t, n));
}

/// `..` is legal only in a record pattern.
pub open spec fn rest_pat_errors(t: SyntaxTree, n: usize) -> Seq<ErrorView> {
    if parent_kind(t, n) == Some(SyntaxKind::RECORD_PAT) {
        Seq::empty()
    } else {
        seq![plain("`..` in patterns is not supported yet"@, t.node_range(n))]
    }
}

/// `..` outside a record pattern stays reserved.
pub fn reject_rest_pat(t: &SyntaxTree, n: usize, errors: &mut Vec<SyntaxError>)
    requires
        t.wf(),
        n < t.nodes@.len(),
    ensures
        errors_view(final(errors)@) == errors_view(old(errors)@) + rest_pat_errors(*t, n),
{
    if t.parent_kind_exec(n) != Some(SyntaxKind::RECORD_PAT) {
        push_plain(errors, text("`..` in patterns is not supported yet"), t.range_exec(n));
    }
    assert(errors_view(errors@) =~= errors_view(old(errors)@) + rest_pat_errors(*t, n));
}

} // verus!
