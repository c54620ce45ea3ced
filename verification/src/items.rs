//! The checks on items and their attachments: capability opt-outs,
//! `with` groups, `type`/`trait` declarations, host imports and fn types.

use vstd::prelude::*;

use crate::ast::{
    annotation_of, declares_host_import, descendants_of_kind, is_child, is_child_token, parent_kind,
    value_of,
};
use crate::capability::{capability_named, spec_capability_named};
use crate::error::{
    EditView, each, errors_view, fix1, fix2, join, lemma_each_contains, lemma_each_ends, lemma_each_step, plain, push_error,
    push_plain, push_with_fix, text, with_fix, ErrorView, Fix, FixView, SyntaxError,
};
use crate::kind::{Class, SyntaxKind};
use crate::names::{holds, lemma_seen_empty, lemma_seen_push, seen_set};
use crate::tree::{SyntaxTree, TextRange};

verus! {

// ---- capability opt-outs ------------------------------------------------

/// The capability names of a `without` clause.
pub open spec fn caps_of(t: SyntaxTree, w: usize) -> Seq<usize> {
    t.nodes_of(w, Class::Kind(SyntaxKind::NAME_REF))
}

/// Each capability as its name and range.
pub open spec fn cap_entries(t: SyntaxTree, caps: Seq<usize>) -> Seq<(Seq<char>, TextRange)> {
    caps.map_values(|c: usize| (t.node_text(c), t.node_range(c)))
}

/// The names of a sequence of entries.
pub open spec fn entry_names(es: Seq<(Seq<char>, TextRange)>) -> Set<Seq<char>> {
    Set::new(|x: Seq<char>| exists|i: int| 0 <= i < es.len() && es[i].0 == x)
}

/// The names a `without` clause sheds.
pub open spec fn clause_names(t: SyntaxTree, c: usize) -> Set<Seq<char>> {
    entry_names(cap_entries(t, caps_of(t, c)))
}

/// The names shed by the clauses before `w`.
pub open spec fn names_before(t: SyntaxTree, clauses: Seq<usize>, w: usize) -> Set<Seq<char>>
    decreases clauses.len(),
{
    if clauses.len() == 0 || clauses[0] == w {
        Set::empty()
    } else {
        clause_names(t, clauses[0]).union(names_before(t, clauses.drop_first(), w))
    }
}

/// The message for a capability named twice.
pub open spec fn msg_already_opted_out(name: Seq<char>) -> Seq<char> {
    "`"@ + name + "` is already opted out of here"@
}

/// The message for a reserved capability.
pub open spec fn msg_capability_reserved(name: Seq<char>) -> Seq<char> {
    "the `"@ + name + "` capability does not exist yet; `forget` is the only one that can be opted out of"@
}

/// The message for a name that is no capability.
pub open spec fn msg_unknown_capability(name: Seq<char>) -> Seq<char> {
    "unknown capability `"@ + name + "`; `forget` is the only one that can be opted out of"@
}

/// The diagnostics for the names a clause sheds, given the names shed
/// before them: a name said twice is the same mistake wherever the first
/// one stood; only a live, clause-sheddable capability passes.
pub open spec fn opt_out_errors(es: Seq<(Seq<char>, TextRange)>, seen: Set<Seq<char>>) -> Seq<ErrorView>
    decreases es.len(),
{
    if es.len() == 0 {
        Seq::empty()
    } else {
        let (name, range) = es[0];
        let rest = es.drop_first();
        if seen.contains(name) {
            seq![plain(msg_already_opted_out(name), range)] + opt_out_errors(rest, seen)
        } else {
            match spec_capability_named(name) {
                Some(c) => if c.clause {
                    opt_out_errors(rest, seen.insert(name))
                } else {
                    seq![plain(msg_capability_reserved(name), range)] + opt_out_errors(rest, seen.insert(name))
                },
                None => seq![plain(msg_unknown_capability(name), range)] + opt_out_errors(
                    rest,
                    seen.insert(name),
                ),
            }
        }
    }
}

/// Where an opt-out is anchored: its `without` keyword, or the clause.
pub open spec fn without_anchor(t: SyntaxTree, w: usize) -> TextRange {
    match t.token(w, SyntaxKind::WITHOUT_KW) {
        Some(tk) => t.token_range(tk),
        None => t.node_range(w),
    }
}

/// The diagnostics for one `without` clause: misplaced (only a `type`
/// declaration can shed a capability), or the per-name rules, where the
/// names shed by the declaration's earlier clauses count as already said.
pub open spec fn without_clause_errors(t: SyntaxTree, w: usize) -> Seq<ErrorView> {
    match parent_kind(t, w) {
        Some(SyntaxKind::TYPE_ITEM) => {
            let clauses = t.nodes_of(t.parent(w).unwrap(), Class::Kind(SyntaxKind::WITHOUT_CLAUSE));
            if clauses.contains(w) {
                opt_out_errors(cap_entries(t, caps_of(t, w)), names_before(t, clauses, w))
            } else {
                Seq::empty()
            }
        },
        Some(SyntaxKind::STATIC_ITEM) => seq![
            plain(
                "a capability opt-out belongs on a `type` declaration; a `static` has whatever capabilities its type has"@,
                without_anchor(t, w),
            ),
        ],
        Some(SyntaxKind::TRAIT_ITEM) => seq![
            plain(
                "a capability opt-out belongs on a `type` declaration, not on a `trait`"@,
                without_anchor(t, w),
            ),
        ],
        _ => seq![plain("a capability opt-out cannot go here"@, without_anchor(t, w))],
    }
}

/// Saying a name in a later clause is the same as saying it later in the
/// same clause: the diagnostics of `a` then `b` are those of `a`, then
/// those of `b` with `a`'s names already said.
pub proof fn opt_out_split(
    a: Seq<(Seq<char>, TextRange)>,
    b: Seq<(Seq<char>, TextRange)>,
    seen: Set<Seq<char>>,
)
    ensures
        opt_out_errors(a + b, seen) == opt_out_errors(a, seen) + opt_out_errors(
            b,
            seen.union(entry_names(a)),
        ),
    decreases a.len(),
{
    if a.len() == 0 {
        assert(a + b =~= b);
        assert(seen.union(entry_names(a)) =~= seen);
        assert(opt_out_errors(a, seen) =~= Seq::<ErrorView>::empty());
        assert(opt_out_errors(a + b, seen) =~= opt_out_errors(a, seen) + opt_out_errors(b, seen.union(entry_names(a))));
    } else {
        let (name, range) = a[0];
        let rest = a.drop_first();
        assert((a + b).drop_first() =~= rest + b);
        assert((a + b)[0] == a[0]);
        let next = if seen.contains(name) {
            seen
        } else {
            seen.insert(name)
        };
        opt_out_split(rest, b, next);
        assert(next.union(entry_names(rest)) =~= seen.union(entry_names(a))) by {
            assert forall|x: Seq<char>| #[trigger] entry_names(a).contains(x) <==> (x == name
                || entry_names(rest).contains(x)) by {
                if entry_names(a).contains(x) {
                    let i = choose|i: int| 0 <= i < a.len() && a[i].0 == x;
                    if i > 0 {
                        assert(rest[i - 1].0 == x);
                    }
                }
                if entry_names(rest).contains(x) {
                    let i = choose|i: int| 0 <= i < rest.len() && rest[i].0 == x;
                    assert(a[i + 1].0 == x);
                }
                if x == name {
                    assert(a[0].0 == x);
                }
            }
        }
        if seen.contains(name) {
            assert(opt_out_errors(a + b, seen) =~= seq![plain(msg_already_opted_out(name), range)]
                + opt_out_errors(rest + b, seen));
        }
        assert(opt_out_errors(a + b, seen) =~= opt_out_errors(a, seen) + opt_out_errors(
            b,
            seen.union(entry_names(a)),
        ));
    }
}

/// The capability entries of a run of `without` clauses, one clause after
/// the other.
pub open spec fn clauses_entries(t: SyntaxTree, cs: Seq<usize>) -> Seq<(Seq<char>, TextRange)>
    decreases cs.len(),
{
    if cs.len() == 0 {
        Seq::empty()
    } else {
        cap_entries(t, caps_of(t, cs[0])) + clauses_entries(t, cs.drop_first())
    }
}

/// The opt-out diagnostics of each clause.
pub open spec fn without_each(t: SyntaxTree) -> spec_fn(usize) -> Seq<ErrorView> {
    |c: usize| without_clause_errors(t, c)
}

proof fn lemma_entry_names_concat(a: Seq<(Seq<char>, TextRange)>, b: Seq<(Seq<char>, TextRange)>)
    ensures
        entry_names(a + b) == entry_names(a).union(entry_names(b)),
{
    assert forall|x: Seq<char>| #[trigger] entry_names(a + b).contains(x) <==> entry_names(a).union(
        entry_names(b),
    ).contains(x) by {
        if entry_names(a + b).contains(x) {
            let i = choose|i: int| 0 <= i < (a + b).len() && (a + b)[i].0 == x;
            if i >= a.len() {
                assert(b[i - a.len()].0 == x);
            }
        }
        if entry_names(a).contains(x) {
            let i = choose|i: int| 0 <= i < a.len() && a[i].0 == x;
            assert((a + b)[i].0 == x);
        }
        if entry_names(b).contains(x) {
            let i = choose|i: int| 0 <= i < b.len() && b[i].0 == x;
            assert((a + b)[a.len() + i].0 == x);
        }
    }
    assert(entry_names(a + b) =~= entry_names(a).union(entry_names(b)));
}

proof fn lemma_clauses_entries_push(t: SyntaxTree, cs: Seq<usize>, c: usize)
    ensures
        clauses_entries(t, cs.push(c)) == clauses_entries(t, cs) + cap_entries(t, caps_of(t, c)),
    decreases cs.len(),
{
    if cs.len() == 0 {
        let one = cs.push(c);
        assert(one.drop_first() =~= Seq::<usize>::empty());
        assert(one[0] == c);
        assert(clauses_entries(t, one.drop_first()) == Seq::<(Seq<char>, TextRange)>::empty());
        assert(clauses_entries(t, one) =~= clauses_entries(t, cs) + cap_entries(t, caps_of(t, c)));
    } else {
        assert(cs.push(c).drop_first() =~= cs.drop_first().push(c));
        assert(cs.push(c)[0] == cs[0]);
        lemma_clauses_entries_push(t, cs.drop_first(), c);
        let head = cap_entries(t, caps_of(t, cs[0]));
        let mid = clauses_entries(t, cs.drop_first());
        let tail = cap_entries(t, caps_of(t, c));
        assert(clauses_entries(t, cs.push(c)) == head + (mid + tail));
        assert(head + (mid + tail) =~= (head + mid) + tail);
    }
}

/// The names before clause `k` are the names of the clauses before it.
proof fn lemma_names_before(t: SyntaxTree, cs: Seq<usize>, k: int)
    requires
        cs.no_duplicates(),
        0 <= k < cs.len(),
    ensures
        names_before(t, cs, cs[k]) == entry_names(clauses_entries(t, cs.take(k))),
    decreases k,
{
    if k == 0 {
        assert(cs.take(0) =~= Seq::<usize>::empty());
        assert(entry_names(Seq::<(Seq<char>, TextRange)>::empty()) =~= Set::<Seq<char>>::empty());
    } else {
        let rest = cs.drop_first();
        assert(rest[k - 1] == cs[k]);
        assert(cs[0] != cs[k]);
        assert forall|i: int, j: int| 0 <= i < rest.len() && 0 <= j < rest.len() && i != j implies rest[i]
            != rest[j] by {
            assert(rest[i] == cs[i + 1] && rest[j] == cs[j + 1]);
        }
        lemma_names_before(t, rest, k - 1);
        assert(cs.take(k).drop_first() =~= rest.take(k - 1));
        assert(cs.take(k)[0] == cs[0]);
        lemma_entry_names_concat(cap_entries(t, caps_of(t, cs[0])), clauses_entries(t, rest.take(k - 1)));
    }
}

/// The clauses of `n` of class `c` are its children.
proof fn lemma_nodes_upto_children(t: SyntaxTree, n: usize, upto: int, c: Class)
    requires
        t.wf(),
        n < t.nodes@.len(),
        0 <= upto <= t.children(n).len(),
    ensures
        forall|i: int| 0 <= i < t.nodes_upto(n, upto, c).len() ==> t.parent(#[trigger] t.nodes_upto(n, upto, c)[i])
            == Some(n),
    decreases upto,
{
    if upto > 0 {
        lemma_nodes_upto_children(t, n, upto - 1, c);
        t.lemma_elem_ok(n, upto - 1);
    }
}

proof fn lemma_opt_outs_from(t: SyntaxTree, item: usize, cs: Seq<usize>, j: int)
    requires
        t.wf(),
        item < t.nodes@.len(),
        t.kind(item) == SyntaxKind::TYPE_ITEM,
        cs == t.nodes_of(item, Class::Kind(SyntaxKind::WITHOUT_CLAUSE)),
        cs.no_duplicates(),
        forall|i: int| 0 <= i < cs.len() ==> t.parent(#[trigger] cs[i]) == Some(item),
        0 <= j <= cs.len(),
    ensures
        each(cs.skip(j), without_each(t)) == opt_out_errors(
            clauses_entries(t, cs.skip(j)),
            entry_names(clauses_entries(t, cs.take(j))),
        ),
    decreases cs.len() - j,
{
    if j == cs.len() {
        assert(cs.skip(j) =~= Seq::<usize>::empty());
    } else {
        lemma_opt_outs_from(t, item, cs, j + 1);
        let c = cs[j];
        lemma_each_step(cs, j, without_each(t));
        assert(cs.contains(c));
        lemma_names_before(t, cs, j);
        let e = cap_entries(t, caps_of(t, c));
        let s = entry_names(clauses_entries(t, cs.take(j)));
        assert(without_clause_errors(t, c) == opt_out_errors(e, s));
        assert(cs.skip(j).drop_first() =~= cs.skip(j + 1));
        assert(cs.skip(j)[0] == c);
        assert(clauses_entries(t, cs.skip(j)) == e + clauses_entries(t, cs.skip(j + 1)));
        assert(cs.take(j + 1) =~= cs.take(j).push(c));
        lemma_clauses_entries_push(t, cs.take(j), c);
        lemma_entry_names_concat(clauses_entries(t, cs.take(j)), e);
        opt_out_split(e, clauses_entries(t, cs.skip(j + 1)), s);
    }
}

/// A declaration's opt-outs read as one list: whether a name is repeated
/// within one `without` clause or across two (`without forget + forget`,
/// `without forget without forget`), the clauses together give exactly
/// the diagnostics of a single clause listing all their capabilities in
/// order — the same mistake gets the same answer.
pub proof fn opt_outs_read_as_one_list(t: SyntaxTree, item: usize)
    requires
        t.wf(),
        item < t.nodes@.len(),
        t.kind(item) == SyntaxKind::TYPE_ITEM,
        t.nodes_of(item, Class::Kind(SyntaxKind::WITHOUT_CLAUSE)).no_duplicates(),
    ensures
        each(t.nodes_of(item, Class::Kind(SyntaxKind::WITHOUT_CLAUSE)), without_each(t)) == opt_out_errors(
            clauses_entries(t, t.nodes_of(item, Class::Kind(SyntaxKind::WITHOUT_CLAUSE))),
            Set::empty(),
        ),
{
    let cs = t.nodes_of(item, Class::Kind(SyntaxKind::WITHOUT_CLAUSE));
    lemma_nodes_upto_children(t, item, t.children(item).len() as int, Class::Kind(SyntaxKind::WITHOUT_CLAUSE));
    lemma_opt_outs_from(t, item, cs, 0);
    assert(cs.skip(0) =~= cs);
    assert(cs.take(0) =~= Seq::<usize>::empty());
    assert(entry_names(Seq::<(Seq<char>, TextRange)>::empty()) =~= Set::<Seq<char>>::empty());
}

/// What one capability named `name`, written at `range`, draws, given the
/// names the declaration has shed before it: "already opted out" for a
/// repeat; otherwise nothing for a live capability, the reserved message
/// for a reserved one and the unknown message for any other name.
pub open spec fn opt_out_verdict(name: Seq<char>, range: TextRange, earlier: Set<Seq<char>>) -> Seq<ErrorView> {
    if earlier.contains(name) {
        seq![plain(msg_already_opted_out(name), range)]
    } else {
        match spec_capability_named(name) {
            Some(c) => if c.clause {
                Seq::empty()
            } else {
                seq![plain(msg_capability_reserved(name), range)]
            },
            None => seq![plain(msg_unknown_capability(name), range)],
        }
    }
}

/// The verdict of each entry from position `i` on, each given the names
/// shed before the list (`seen`) and those of the entries before it.
pub open spec fn opt_out_verdicts(es: Seq<(Seq<char>, TextRange)>, seen: Set<Seq<char>>, i: int) -> Seq<ErrorView>
    decreases es.len() - i,
{
    if i < 0 || i >= es.len() {
        Seq::empty()
    } else {
        opt_out_verdict(es[i].0, es[i].1, seen.union(entry_names(es.take(i)))) + opt_out_verdicts(es, seen, i + 1)
    }
}

proof fn lemma_verdicts_from(es: Seq<(Seq<char>, TextRange)>, seen: Set<Seq<char>>, i: int)
    requires
        0 <= i <= es.len(),
    ensures
        opt_out_errors(es.skip(i), seen.union(entry_names(es.take(i)))) == opt_out_verdicts(es, seen, i),
    decreases es.len() - i,
{
    if i == es.len() {
        assert(es.skip(i) =~= Seq::<(Seq<char>, TextRange)>::empty());
    } else {
        lemma_verdicts_from(es, seen, i + 1);
        let s = seen.union(entry_names(es.take(i)));
        let (name, range) = es[i];
        assert(es.skip(i)[0] == es[i]);
        assert(es.skip(i).drop_first() =~= es.skip(i + 1));
        assert(es.take(i + 1) =~= es.take(i) + seq![es[i]]);
        lemma_entry_names_concat(es.take(i), seq![es[i]]);
        assert(entry_names(seq![es[i]]) =~= set![name]) by {
            assert(seq![es[i]][0].0 == name);
        }
        assert(seen.union(entry_names(es.take(i + 1))) =~= s.insert(name));
        if s.contains(name) {
            assert(s.insert(name) =~= s);
        }
    }
}

/// Each capability of a `type` declaration's `without` clause gets its own
/// verdict, in order: "already opted out" exactly when its name was written
/// earlier in the clause or in an earlier clause of the declaration (so
/// `without forget + forget` and `without forget without forget` each draw
/// it at the second `forget` only); otherwise nothing for `forget`, the
/// reserved message for `send`, `sync` and `destruct`, and the unknown
/// message for any other name (see [`crate::capability::capability_classes`]).
pub proof fn each_capability_gets_its_verdict(t: SyntaxTree, w: usize, k: int)
    requires
        t.wf(),
        w < t.nodes@.len(),
        parent_kind(t, w) == Some(SyntaxKind::TYPE_ITEM),
        0 <= k < t.nodes_of(t.parent(w).unwrap(), Class::Kind(SyntaxKind::WITHOUT_CLAUSE)).len(),
        t.nodes_of(t.parent(w).unwrap(), Class::Kind(SyntaxKind::WITHOUT_CLAUSE))[k] == w,
        t.nodes_of(t.parent(w).unwrap(), Class::Kind(SyntaxKind::WITHOUT_CLAUSE)).no_duplicates(),
    ensures
        without_clause_errors(t, w) == opt_out_verdicts(
            cap_entries(t, caps_of(t, w)),
            entry_names(
                clauses_entries(
                    t,
                    t.nodes_of(t.parent(w).unwrap(), Class::Kind(SyntaxKind::WITHOUT_CLAUSE)).take(k),
                ),
            ),
            0,
        ),
{
    let cs = t.nodes_of(t.parent(w).unwrap(), Class::Kind(SyntaxKind::WITHOUT_CLAUSE));
    let es = cap_entries(t, caps_of(t, w));
    let seen = entry_names(clauses_entries(t, cs.take(k)));
    assert(cs.contains(w));
    lemma_names_before(t, cs, k);
    lemma_verdicts_from(es, seen, 0);
    assert(es.skip(0) =~= es);
    assert(es.take(0) =~= Seq::<(Seq<char>, TextRange)>::empty());
    assert(entry_names(Seq::<(Seq<char>, TextRange)>::empty()) =~= Set::<Seq<char>>::empty());
    assert(seen.union(Set::<Seq<char>>::empty()) =~= seen);
}

/// The capability entries from index `j` on, as the exec scan reads them.
proof fn lemma_entries_step(t: SyntaxTree, caps: Seq<usize>, j: int)
    requires
        0 <= j < caps.len(),
    ensures
        cap_entries(t, caps).skip(j)[0] == (t.node_text(caps[j]), t.node_range(caps[j])),
        cap_entries(t, caps).skip(j).drop_first() == cap_entries(t, caps).skip(j + 1),
        cap_entries(t, caps).skip(j).len() > 0,
{
    assert(cap_entries(t, caps).skip(j).drop_first() =~= cap_entries(t, caps).skip(j + 1));
}

/// The names of a clause's first `j` capabilities.
pub open spec fn cap_prefix_names(t: SyntaxTree, caps: Seq<usize>, j: int) -> Set<Seq<char>> {
    Set::new(|x: Seq<char>| exists|i: int| 0 <= i < j && t.node_text(caps[i]) == x)
}

/// The capability opt-out rules for one `without` clause.
pub fn validate_without_clause(t: &SyntaxTree, w: usize, errors: &mut Vec<SyntaxError>)
    requires
        t.wf(),
        w < t.nodes@.len(),
    ensures
        errors_view(final(errors)@) == errors_view(old(errors)@) + without_clause_errors(*t, w),
{
    let anchor = match t.token_exec(w, SyntaxKind::WITHOUT_KW) {
        Some(tk) => t.token_range_exec(tk),
        None => t.range_exec(w),
    };
    let parent = t.parent_exec(w);
    let message = match parent {
        Some(p) => match t.kind_exec(p) {
            SyntaxKind::TYPE_ITEM => None,
            SyntaxKind::STATIC_ITEM => Some(
                text(
                    "a capability opt-out belongs on a `type` declaration; a `static` has whatever capabilities its type has",
                ),
            ),
            SyntaxKind::TRAIT_ITEM => Some(
                text("a capability opt-out belongs on a `type` declaration, not on a `trait`"),
            ),
            _ => Some(text("a capability opt-out cannot go here")),
        },
        None => Some(text("a capability opt-out cannot go here")),
    };
    if let Some(message) = message {
        push_plain(errors, message, anchor);
        return;
    }
    let owner = parent.unwrap();
    let clauses = t.nodes_of_exec(owner, Class::Kind(SyntaxKind::WITHOUT_CLAUSE));
    let ghost all = clauses@;
    let mut seen: Vec<String> = Vec::new();
    proof {
        lemma_seen_empty(seen@);
        assert(all.skip(0) =~= all);
        assert(names_before(*t, all, w) =~= seen_set(seen@).union(names_before(*t, all.skip(0), w)));
    }
    let mut k: usize = 0;
    while k < clauses.len()
        invariant
            t.wf(),
            w < t.nodes@.len(),
            clauses@ == all,
            k <= all.len(),
            parent_kind(*t, w) == Some(SyntaxKind::TYPE_ITEM),
            all == t.nodes_of(t.parent(w).unwrap(), Class::Kind(SyntaxKind::WITHOUT_CLAUSE)),
            forall|i: int| 0 <= i < all.len() ==> #[trigger] all[i] < t.nodes@.len(),
            forall|i: int| 0 <= i < k ==> all[i] != w,
            names_before(*t, all, w) == seen_set(seen@).union(names_before(*t, all.skip(k as int), w)),
            errors_view(errors@) == errors_view(old(errors)@),
        decreases all.len() - k,
    {
        let c = clauses[k];
        proof {
            assert(all.skip(k as int)[0] == c);
            assert(all.skip(k as int).drop_first() =~= all.skip(k + 1));
        }
        if c == w {
            // This clause: judge its names against everything said before.
            let caps = t.nodes_of_exec(w, Class::Kind(SyntaxKind::NAME_REF));
            let ghost es = cap_entries(*t, caps@);
            let ghost before = seen_set(seen@);
            proof {
                assert(all.contains(w)) by {
                    assert(all[k as int] == w);
                }
                assert(names_before(*t, all.skip(k as int), w) =~= Set::<Seq<char>>::empty());
                assert(names_before(*t, all, w) =~= before);
                assert(es.skip(0) =~= es);
            }
            let mut j: usize = 0;
            while j < caps.len()
                invariant
                    t.wf(),
                    caps@ == caps_of(*t, w),
                    es == cap_entries(*t, caps@),
                    forall|i: int| 0 <= i < caps@.len() ==> is_child(*t, w, #[trigger] caps@[i]),
                    j <= caps@.len(),
                    errors_view(errors@) + opt_out_errors(es.skip(j as int), seen_set(seen@))
                        == errors_view(old(errors)@) + opt_out_errors(es, before),
                decreases caps.len() - j,
            {
                let cap = caps[j];
                let name = t.text_exec(cap);
                let range = t.range_exec(cap);
                let ghost s0 = seen_set(seen@);
                let ghost e0 = errors_view(errors@);
                proof {
                    lemma_entries_step(*t, caps@, j as int);
                }
                let ghost rest = es.skip(j + 1);
                if holds(&seen, &name) {
                    let m = join(join(text("`"), name.as_str()), "` is already opted out of here");
                    push_plain(errors, m, range);
                    assert(errors_view(errors@) + opt_out_errors(rest, seen_set(seen@)) =~= e0
                        + opt_out_errors(es.skip(j as int), s0));
                } else {
                    let known = capability_named(name.as_str());
                    let ghost fresh = name@;
                    match known {
                        Some(c) => {
                            if !c.clause {
                                let m = join(
                                    join(text("the `"), name.as_str()),
                                    "` capability does not exist yet; `forget` is the only one that can be opted out of",
                                );
                                push_plain(errors, m, range);
                            }
                        },
                        None => {
                            let m = join(
                                join(text("unknown capability `"), name.as_str()),
                                "`; `forget` is the only one that can be opted out of",
                            );
                            push_plain(errors, m, range);
                        },
                    }
                    proof {
                        lemma_seen_push(seen@, name);
                    }
                    seen.push(name);
                    assert(seen_set(seen@) == s0.insert(fresh));
                    assert(errors_view(errors@) + opt_out_errors(rest, seen_set(seen@)) =~= e0
                        + opt_out_errors(es.skip(j as int), s0));
                }
                j = j + 1;
            }
            proof {
                assert(es.skip(caps@.len() as int) =~= Seq::<(Seq<char>, TextRange)>::empty());
                assert(errors_view(errors@) =~= errors_view(old(errors)@) + without_clause_errors(*t, w));
            }
            return;
        }
        // An earlier clause: everything it names counts as said.
        let caps = t.nodes_of_exec(c, Class::Kind(SyntaxKind::NAME_REF));
        let ghost s_before = seen_set(seen@);
        let mut j: usize = 0;
        while j < caps.len()
            invariant
                t.wf(),
                c < t.nodes@.len(),
                caps@ == caps_of(*t, c),
                forall|i: int| 0 <= i < caps@.len() ==> is_child(*t, c, #[trigger] caps@[i]),
                j <= caps@.len(),
                seen_set(seen@) == s_before.union(cap_prefix_names(*t, caps@, j as int)),
            decreases caps.len() - j,
        {
            let name = t.text_exec(caps[j]);
            proof {
                lemma_seen_push(seen@, name);
                assert(s_before.union(cap_prefix_names(*t, caps@, j + 1)) =~= s_before.union(
                    cap_prefix_names(*t, caps@, j as int),
                ).insert(name@)) by {
                    assert forall|x: Seq<char>| #[trigger] cap_prefix_names(*t, caps@, j + 1).contains(x)
                        <==> (cap_prefix_names(*t, caps@, j as int).contains(x) || x == name@) by {
                        if x == name@ {
                            assert(t.node_text(caps@[j as int]) == x);
                        }
                        if cap_prefix_names(*t, caps@, j as int).contains(x) {
                            let i = choose|i: int| 0 <= i < j && t.node_text(caps@[i]) == x;
                            assert(0 <= i < j + 1 && t.node_text(caps@[i]) == x);
                        }
                    }
                }
            }
            seen.push(name);
            j = j + 1;
        }
        proof {
            assert(cap_prefix_names(*t, caps@, caps@.len() as int) =~= clause_names(*t, c)) by {
                assert forall|x: Seq<char>| #[trigger] clause_names(*t, c).contains(x) <==> cap_prefix_names(
                    *t,
                    caps@,
                    caps@.len() as int,
                ).contains(x) by {
                    if clause_names(*t, c).contains(x) {
                        let i = choose|i: int|
                            0 <= i < cap_entries(*t, caps@).len() && cap_entries(*t, caps@)[i].0 == x;
                        assert(t.node_text(caps@[i]) == x);
                    }
                    if cap_prefix_names(*t, caps@, caps@.len() as int).contains(x) {
                        let i = choose|i: int| 0 <= i < caps@.len() && t.node_text(caps@[i]) == x;
                        assert(cap_entries(*t, caps@)[i].0 == x);
                    }
                }
            }
            assert(names_before(*t, all.skip(k as int), w) == clause_names(*t, c).union(
                names_before(*t, all.skip(k + 1), w),
            ));
            assert(names_before(*t, all, w) =~= seen_set(seen@).union(names_before(*t, all.skip(k + 1), w)));
        }
        k = k + 1;
    }
    proof {
        assert(!all.contains(w));
        assert(errors_view(errors@) =~= errors_view(old(errors)@) + without_clause_errors(*t, w));
    }
}


// ---- `with` groups --------------------------------------------------------

/// Where a group is anchored: its `with` keyword, or the group.
pub open spec fn with_anchor(t: SyntaxTree, g: usize) -> TextRange {
    match t.token(g, SyntaxKind::WITH_KW) {
        Some(tk) => t.token_range(tk),
        None => t.node_range(g),
    }
}

/// What a group clause reserves: a pin, an outlives or a constraint.
pub open spec fn with_clause_message(t: SyntaxTree, c: usize) -> Seq<char> {
    if t.token(c, SyntaxKind::EQ) is Some {
        "`with T = ...` pin groups are not supported yet"@
    } else if t.token(c, SyntaxKind::REGION_IDENT) is Some {
        "`with @a: ...` outlives groups are not supported yet"@
    } else {
        "`with T: ...` constrained groups are not supported yet"@
    }
}

/// The diagnostic for each clause of a `with` group.
pub open spec fn with_clause_errors(t: SyntaxTree) -> spec_fn(usize) -> Seq<ErrorView> {
    |c: usize| seq![plain(with_clause_message(t, c), t.node_range(c))]
}

/// The diagnostics for one attachment group: not on a `static`, and only
/// the plain form (no binder, no clauses).
pub open spec fn with_group_errors(t: SyntaxTree, g: usize) -> Seq<ErrorView> {
    if parent_kind(t, g) == Some(SyntaxKind::STATIC_ITEM) {
        seq![plain("`with` attachment groups do not belong on a `static` item"@, with_anchor(t, g))]
    } else {
        (match t.child(g, Class::Kind(SyntaxKind::GENERIC_PARAM_LIST)) {
            Some(l) => seq![plain("`with::<...>` binder groups are not supported yet"@, t.node_range(l))],
            None => Seq::empty(),
        }) + each(t.nodes_of(g, Class::Kind(SyntaxKind::WITH_CLAUSE)), with_clause_errors(t))
    }
}

/// The reservation checks for one attachment group.
pub fn validate_with_group(t: &SyntaxTree, g: usize, errors: &mut Vec<SyntaxError>)
    requires
        t.wf(),
        g < t.nodes@.len(),
    ensures
        errors_view(final(errors)@) == errors_view(old(errors)@) + with_group_errors(*t, g),
{
    let anchor = match t.token_exec(g, SyntaxKind::WITH_KW) {
        Some(tk) => t.token_range_exec(tk),
        None => t.range_exec(g),
    };
    if t.parent_kind_exec(g) == Some(SyntaxKind::STATIC_ITEM) {
        push_plain(errors, text("`with` attachment groups do not belong on a `static` item"), anchor);
        assert(errors_view(errors@) =~= errors_view(old(errors)@) + with_group_errors(*t, g));
        return;
    }
    if let Some(l) = t.child_exec(g, Class::Kind(SyntaxKind::GENERIC_PARAM_LIST)) {
        push_plain(errors, text("`with::<...>` binder groups are not supported yet"), t.range_exec(l));
    }
    let ghost e1 = errors_view(errors@);
    let ids = t.nodes_of_exec(g, Class::Kind(SyntaxKind::WITH_CLAUSE));
    let ghost f = with_clause_errors(*t);
    proof {
        lemma_each_ends(ids@, f);
    }
    let mut j: usize = 0;
    while j < ids.len()
        invariant
            t.wf(),
            j <= ids@.len(),
            f == with_clause_errors(*t),
            forall|i: int| 0 <= i < ids@.len() ==> is_child(*t, g, #[trigger] ids@[i]),
            errors_view(errors@) + each(ids@.skip(j as int), f) == e1 + each(ids@, f),
        decreases ids.len() - j,
    {
        let c = ids[j];
        proof {
            lemma_each_step(ids@, j as int, f);
        }
        let ghost e0 = errors_view(errors@);
        let message = if t.token_exec(c, SyntaxKind::EQ).is_some() {
            text("`with T = ...` pin groups are not supported yet")
        } else if t.token_exec(c, SyntaxKind::REGION_IDENT).is_some() {
            text("`with @a: ...` outlives groups are not supported yet")
        } else {
            text("`with T: ...` constrained groups are not supported yet")
        };
        push_plain(errors, message, t.range_exec(c));
        assert(errors_view(errors@) + each(ids@.skip(j + 1), f) =~= e0 + each(ids@.skip(j as int), f));
        j = j + 1;
    }
    assert(errors_view(errors@) =~= errors_view(old(errors)@) + with_group_errors(*t, g));
}

// ---- `type` and `trait` declarations ----------------------------------------

/// The one sentence every misplaced `extern` marker gets.
pub open spec fn extern_only_on_static() -> Seq<char> {
    "only a `static` can be `extern`: an import declares one name with one type"@
}

/// A superset-parsed `: Type` annotation on a declaration, with a fix
/// that drops it: from the colon to the end of the type (or of the colon).
pub open spec fn annotation_errors(t: SyntaxTree, n: usize, message: Seq<char>) -> Seq<ErrorView> {
    match t.token(n, SyntaxKind::COLON) {
        Some(colon) => {
            let end = match annotation_of(t, n) {
                Some(ty) => t.node_range(ty).end,
                None => t.token_range(colon).end,
            };
            let range = TextRange { start: t.token_range(colon).start, end };
            seq![with_fix(message, range, fix1("Remove the annotation"@, range, Seq::empty()))]
        },
        None => Seq::empty(),
    }
}

fn reject_annotation(t: &SyntaxTree, n: usize, message: String, errors: &mut Vec<SyntaxError>)
    requires
        t.wf(),
        n < t.nodes@.len(),
    ensures
        errors_view(final(errors)@) == errors_view(old(errors)@) + annotation_errors(*t, n, message@),
{
    let Some(colon) = t.token_exec(n, SyntaxKind::COLON) else {
        assert(errors_view(errors@) =~= errors_view(old(errors)@) + annotation_errors(*t, n, message@));
        return;
    };
    let colon_range = t.token_range_exec(colon);
    let end = match t.annotation_exec(n) {
        Some(ty) => t.range_exec(ty).end,
        None => colon_range.end,
    };
    let range = TextRange::new(colon_range.start, end);
    let fix = Fix::one(text("Remove the annotation"), range, String::new());
    push_with_fix(errors, message, range, fix);
    assert(errors_view(errors@) =~= errors_view(old(errors)@) + annotation_errors(*t, n, message@));
}

/// The annotation of a `type` declaration, with its fix.
pub open spec fn type_item_annotation_errors(t: SyntaxTree, n: usize) -> Seq<ErrorView> {
    annotation_errors(t, n, "a `type` declaration takes no type annotation"@)
}

/// A `type` declaration is the type; it takes no annotation.
pub fn reject_type_item_annotation(t: &SyntaxTree, n: usize, errors: &mut Vec<SyntaxError>)
    requires
        t.wf(),
        n < t.nodes@.len(),
    ensures
        errors_view(final(errors)@) == errors_view(old(errors)@) + type_item_annotation_errors(*t, n),
{
    reject_annotation(t, n, text("a `type` declaration takes no type annotation"), errors);
}

/// The diagnostic for each supertrait clause.
pub open spec fn supertrait_errors(t: SyntaxTree) -> spec_fn(usize) -> Seq<ErrorView> {
    |c: usize| seq![plain("supertrait clauses are not supported yet"@, t.node_range(c))]
}

/// The reservations of a `requires { ... }` constructor.
pub open spec fn requires_def_errors(t: SyntaxTree, req: usize) -> Seq<ErrorView> {
    (match t.token(req, SyntaxKind::UNSAFE_KW) {
        Some(tk) => seq![plain("`unsafe` traits are not supported yet"@, t.token_range(tk))],
        None => Seq::empty(),
    }) + (match t.child(req, Class::Kind(SyntaxKind::GENERIC_PARAM_LIST)) {
        Some(l) => seq![plain("generic traits are not supported yet"@, t.node_range(l))],
        None => Seq::empty(),
    }) + each(t.nodes_of(req, Class::Kind(SyntaxKind::REQUIRES_CLAUSE)), supertrait_errors(t))
}

/// The diagnostics for one `trait` declaration: the live form is the
/// plain non-generic `requires { ... }`.
pub open spec fn trait_item_errors(t: SyntaxTree, n: usize) -> Seq<ErrorView> {
    annotation_errors(t, n, "a `trait` declaration takes no type annotation"@) + (match t.child(
        n,
        Class::Kind(SyntaxKind::TRAIT_ALIAS),
    ) {
        Some(a) => seq![
            plain(
                "trait aliases are not supported yet; declare the trait with `requires { ... }`"@,
                t.node_range(a),
            ),
        ],
        None => Seq::empty(),
    }) + match t.child(n, Class::Kind(SyntaxKind::REQUIRES_DEF)) {
        Some(req) => requires_def_errors(t, req),
        None => Seq::empty(),
    }
}

/// The reservation checks for one `trait` declaration.
pub fn validate_trait_item(t: &SyntaxTree, n: usize, errors: &mut Vec<SyntaxError>)
    requires
        t.wf(),
        n < t.nodes@.len(),
    ensures
        errors_view(final(errors)@) == errors_view(old(errors)@) + trait_item_errors(*t, n),
{
    reject_annotation(t, n, text("a `trait` declaration takes no type annotation"), errors);
    let ghost e1 = errors_view(errors@);
    if let Some(a) = t.child_exec(n, Class::Kind(SyntaxKind::TRAIT_ALIAS)) {
        push_plain(
            errors,
            text("trait aliases are not supported yet; declare the trait with `requires { ... }`"),
            t.range_exec(a),
        );
    }
    let ghost e2 = errors_view(errors@);
    let Some(req) = t.child_exec(n, Class::Kind(SyntaxKind::REQUIRES_DEF)) else {
        assert(errors_view(errors@) =~= errors_view(old(errors)@) + trait_item_errors(*t, n));
        return;
    };
    if let Some(tk) = t.token_exec(req, SyntaxKind::UNSAFE_KW) {
        push_plain(errors, text("`unsafe` traits are not supported yet"), t.token_range_exec(tk));
    }
    if let Some(l) = t.child_exec(req, Class::Kind(SyntaxKind::GENERIC_PARAM_LIST)) {
        push_plain(errors, text("generic traits are not supported yet"), t.range_exec(l));
    }
    let ghost e3 = errors_view(errors@);
    let ids = t.nodes_of_exec(req, Class::Kind(SyntaxKind::REQUIRES_CLAUSE));
    let ghost f = supertrait_errors(*t);
    proof {
        lemma_each_ends(ids@, f);
    }
    let mut j: usize = 0;
    while j < ids.len()
        invariant
            t.wf(),
            j <= ids@.len(),
            f == supertrait_errors(*t),
            forall|i: int| 0 <= i < ids@.len() ==> is_child(*t, req, #[trigger] ids@[i]),
            errors_view(errors@) + each(ids@.skip(j as int), f) == e3 + each(ids@, f),
        decreases ids.len() - j,
    {
        proof {
            lemma_each_step(ids@, j as int, f);
        }
        let ghost e0 = errors_view(errors@);
        push_plain(errors, text("supertrait clauses are not supported yet"), t.range_exec(ids[j]));
        assert(errors_view(errors@) + each(ids@.skip(j + 1), f) =~= e0 + each(ids@.skip(j as int), f));
        j = j + 1;
    }
    assert(errors_view(errors@) =~= errors_view(old(errors)@) + trait_item_errors(*t, n));
}

/// A stray `extern` marker on a node (one that is not a `static`).
pub open spec fn extern_marker_errors(t: SyntaxTree, n: usize) -> Seq<ErrorView> {
    match t.token(n, SyntaxKind::EXTERN_KW) {
        Some(tk) => seq![plain(extern_only_on_static(), t.token_range(tk))],
        None => Seq::empty(),
    }
}

/// A stray `extern` marker on a `type`/`trait` item.
pub fn reject_extern_marker(t: &SyntaxTree, n: usize, errors: &mut Vec<SyntaxError>)
    requires
        t.wf(),
        n < t.nodes@.len(),
    ensures
        errors_view(final(errors)@) == errors_view(old(errors)@) + extern_marker_errors(*t, n),
{
    if let Some(tk) = t.token_exec(n, SyntaxKind::EXTERN_KW) {
        push_plain(
            errors,
            text("only a `static` can be `extern`: an import declares one name with one type"),
            t.token_range_exec(tk),
        );
    }
    assert(errors_view(errors@) =~= errors_view(old(errors)@) + extern_marker_errors(*t, n));
}


// ---- host imports -----------------------------------------------------------

/// The message for a `_` in an import's type.
pub open spec fn msg_import_hole() -> Seq<char> {
    "an import's type must be written in full: the declaration is the whole contract, and there is no body for `_` to be inferred from"@
}

/// The diagnostic for each `_` in an import's type.
pub open spec fn hole_errors(t: SyntaxTree) -> spec_fn(usize) -> Seq<ErrorView> {
    |h: usize| seq![plain(msg_import_hole(), t.node_range(h))]
}

/// The rules an import's annotation answers to: a fn type written in
/// full (no `_` anywhere in it), declared `unsafe fn`, not generic; data
/// imports are reserved.
pub open spec fn import_annotation_errors(t: SyntaxTree, ty: usize) -> Seq<ErrorView> {
    if t.kind(ty) == SyntaxKind::FN_TYPE {
        each(descendants_of_kind(t, ty, SyntaxKind::HOLE_TYPE), hole_errors(t)) + (if t.token(
            ty,
            SyntaxKind::UNSAFE_KW,
        ) is None {
            let r = t.node_range(ty);
            seq![
                with_fix(
                    "an import must be declared `unsafe fn` for now: a safe-to-call import needs the declaration-side `unsafe` marker, and that marker does not exist yet"@,
                    r,
                    fix1("Write `unsafe fn`"@, TextRange { start: r.start, end: r.start }, "unsafe "@),
                ),
            ]
        } else {
            Seq::empty()
        }) + match t.child(ty, Class::Kind(SyntaxKind::GENERIC_PARAM_LIST)) {
            Some(b) => seq![
                plain(
                    "an import cannot be generic: it has exactly one machine signature, and there is nothing to monomorphize it into"@,
                    t.node_range(b),
                ),
            ],
            None => Seq::empty(),
        }
    } else {
        seq![
            plain(
                "data imports are not supported yet \u{2014} an import must have a function type"@,
                t.node_range(ty),
            ),
        ]
    }
}

/// The rules an import's annotation answers to.
pub fn validate_import_annotation(t: &SyntaxTree, ty: usize, errors: &mut Vec<SyntaxError>)
    requires
        t.wf(),
        ty < t.nodes@.len(),
    ensures
        errors_view(final(errors)@) == errors_view(old(errors)@) + import_annotation_errors(*t, ty),
{
    if t.kind_exec(ty) != SyntaxKind::FN_TYPE {
        push_plain(
            errors,
            text("data imports are not supported yet \u{2014} an import must have a function type"),
            t.range_exec(ty),
        );
        assert(errors_view(errors@) =~= errors_view(old(errors)@) + import_annotation_errors(*t, ty));
        return;
    }
    let ids = t.descendants_of_kind_exec(ty, SyntaxKind::HOLE_TYPE);
    let ghost f = hole_errors(*t);
    proof {
        lemma_each_ends(ids@, f);
    }
    let mut j: usize = 0;
    while j < ids.len()
        invariant
            t.wf(),
            j <= ids@.len(),
            f == hole_errors(*t),
            forall|i: int| 0 <= i < ids@.len() ==> #[trigger] ids@[i] < t.nodes@.len(),
            errors_view(errors@) + each(ids@.skip(j as int), f) == errors_view(old(errors)@) + each(ids@, f),
        decreases ids.len() - j,
    {
        proof {
            lemma_each_step(ids@, j as int, f);
        }
        let ghost e0 = errors_view(errors@);
        push_plain(
            errors,
            text(
                "an import's type must be written in full: the declaration is the whole contract, and there is no body for `_` to be inferred from",
            ),
            t.range_exec(ids[j]),
        );
        assert(errors_view(errors@) + each(ids@.skip(j + 1), f) =~= e0 + each(ids@.skip(j as int), f));
        j = j + 1;
    }
    let ghost e1 = errors_view(errors@);
    if t.token_exec(ty, SyntaxKind::UNSAFE_KW).is_none() {
        let range = t.range_exec(ty);
        let fix = Fix::one(text("Write `unsafe fn`"), TextRange::empty(range.start), text("unsafe "));
        push_with_fix(
            errors,
            text(
                "an import must be declared `unsafe fn` for now: a safe-to-call import needs the declaration-side `unsafe` marker, and that marker does not exist yet",
            ),
            range,
            fix,
        );
    }
    if let Some(b) = t.child_exec(ty, Class::Kind(SyntaxKind::GENERIC_PARAM_LIST)) {
        push_plain(
            errors,
            text(
                "an import cannot be generic: it has exactly one machine signature, and there is nothing to monomorphize it into",
            ),
            t.range_exec(b),
        );
    }
    assert(errors_view(errors@) =~= errors_view(old(errors)@) + import_annotation_errors(*t, ty));
}

/// The `static` item a fn literal initializes, if it initializes one.
pub open spec fn owning_static(t: SyntaxTree, fl: usize) -> Option<usize> {
    match t.parent(fl) {
        Some(p) => if t.kind(p) == SyntaxKind::STATIC_ITEM {
            Some(p)
        } else {
            None
        },
        None => None,
    }
}

/// The name a retired import is respelled with: the item's, or `name`.
pub open spec fn import_name(t: SyntaxTree, item: Option<usize>) -> Seq<char> {
    match item {
        Some(it) => match t.child(it, Class::Kind(SyntaxKind::NAME)) {
            Some(nm) => if t.node_text(nm).len() > 0 {
                t.node_text(nm)
            } else {
                "name"@
            },
            None => "name"@,
        },
        None => "name"@,
    }
}

/// The rewrite of a retired import into an `extern static` declaration,
/// offered only for the shape it rewrites correctly: a bodyless,
/// non-`const`, non-generic literal initializing a plain, unannotated
/// `static` whose name comes before the literal's `extern`.
pub open spec fn extern_fn_fix(t: SyntaxTree, fl: usize) -> Option<FixView> {
    match owning_static(t, fl) {
        Some(it) => if t.token(it, SyntaxKind::CONST_KW) is None && t.token(it, SyntaxKind::EXTERN_KW) is None
            && annotation_of(t, it) is None && t.child(fl, Class::Expr) is None && t.token(
            fl,
            SyntaxKind::CONST_KW,
        ) is None && t.child(fl, Class::Kind(SyntaxKind::GENERIC_PARAM_LIST)) is None {
            match (t.child(it, Class::Kind(SyntaxKind::NAME)), t.token(fl, SyntaxKind::EXTERN_KW)) {
                (Some(nm), Some(ek)) => if t.node_range(nm).end <= t.token_range(ek).end {
                    Some(
                        fix2(
                            "Rewrite as an `extern static` declaration"@,
                            TextRange { start: t.node_range(it).start, end: t.node_range(it).start },
                            "extern "@,
                            TextRange { start: t.node_range(nm).end, end: t.token_range(ek).end },
                            ": unsafe"@,
                        ),
                    )
                } else {
                    None
                },
                _ => None,
            }
        } else {
            None
        },
        None => None,
    }
}

/// The annotation a retired import writes, when its item declares an
/// import: the contract the respelling keeps.
pub open spec fn retired_import_annotation(t: SyntaxTree, fl: usize) -> Option<usize> {
    match owning_static(t, fl) {
        Some(it) => if declares_host_import(t, it) {
            annotation_of(t, it)
        } else {
            None
        },
        None => None,
    }
}

/// The diagnostics for the retired initializer form of a host import
/// (`static name = extern fn(...) -> T;`): one error naming the
/// declaration spelling, then the import-annotation rules on the item's
/// annotation, if it has one.
pub open spec fn extern_fn_errors(t: SyntaxTree, fl: usize) -> Seq<ErrorView> {
    let annotation = retired_import_annotation(t, fl);
    let twice = if annotation is Some {
        " \u{2014} the annotation is the contract, and this signature is dropped"@
    } else {
        Seq::empty()
    };
    let message = "a host import is a DECLARATION, not an initializer: write `extern static "@
        + import_name(t, owning_static(t, fl)) + ": unsafe fn(...) -> T;`"@ + twice;
    seq![ErrorView { message, range: t.node_range(fl), fix: extern_fn_fix(t, fl) }] + match annotation {
        Some(ty) => import_annotation_errors(t, ty),
        None => Seq::empty(),
    }
}

/// The retired import spelling, `static name = extern fn(...) -> T;`, is
/// refused with the declaration spelling and, on the shape it rewrites
/// correctly (a bodyless, non-`const`, non-generic literal initializing a
/// plain unannotated `static` named before the literal's `extern`), the
/// rewrite: insert `extern ` at the item's start and replace everything
/// from the end of the name to the end of `extern` by `: unsafe`.
pub proof fn the_retired_import_is_rewritten(t: SyntaxTree, fl: usize, item: usize, nm: usize, ek: usize)
    requires
        t.kind(item) == SyntaxKind::STATIC_ITEM,
        t.parent(fl) == Some(item),
        t.token(fl, SyntaxKind::EXTERN_KW) == Some(ek),
        t.child(item, Class::Kind(SyntaxKind::NAME)) == Some(nm),
        t.node_text(nm).len() > 0,
        t.token(item, SyntaxKind::CONST_KW) is None,
        t.token(item, SyntaxKind::EXTERN_KW) is None,
        annotation_of(t, item) is None,
        t.child(fl, Class::Expr) is None,
        t.token(fl, SyntaxKind::CONST_KW) is None,
        t.child(fl, Class::Kind(SyntaxKind::GENERIC_PARAM_LIST)) is None,
        t.node_range(nm).end <= t.token_range(ek).end,
    ensures
        extern_fn_errors(t, fl) == seq![
            ErrorView {
                message: "a host import is a DECLARATION, not an initializer: write `extern static "@ + t.node_text(nm)
                    + ": unsafe fn(...) -> T;`"@,
                range: t.node_range(fl),
                fix: Some(
                    fix2(
                        "Rewrite as an `extern static` declaration"@,
                        TextRange { start: t.node_range(item).start, end: t.node_range(item).start },
                        "extern "@,
                        TextRange { start: t.node_range(nm).end, end: t.token_range(ek).end },
                        ": unsafe"@,
                    ),
                ),
            },
        ],
{
    let m = "a host import is a DECLARATION, not an initializer: write `extern static "@ + t.node_text(nm)
        + ": unsafe fn(...) -> T;`"@;
    assert(m + Seq::<char>::empty() =~= m);
    assert(extern_fn_errors(t, fl) =~= seq![extern_fn_errors(t, fl)[0]]);
}

/// The retired initializer form of a host import.
pub fn validate_extern_fn(t: &SyntaxTree, fl: usize, errors: &mut Vec<SyntaxError>)
    requires
        t.wf(),
        fl < t.nodes@.len(),
    ensures
        errors_view(final(errors)@) == errors_view(old(errors)@) + extern_fn_errors(*t, fl),
{
    let item = match t.parent_exec(fl) {
        Some(p) => if t.kind_exec(p) == SyntaxKind::STATIC_ITEM {
            Some(p)
        } else {
            None
        },
        None => None,
    };
    let name = match item {
        Some(it) => match t.child_exec(it, Class::Kind(SyntaxKind::NAME)) {
            Some(nm) => {
                let s = t.text_exec(nm);
                if s.as_str().unicode_len() > 0 {
                    s
                } else {
                    text("name")
                }
            },
            None => text("name"),
        },
        None => text("name"),
    };
    let fix = match item {
        Some(it) => if t.token_exec(it, SyntaxKind::CONST_KW).is_none() && t.token_exec(
            it,
            SyntaxKind::EXTERN_KW,
        ).is_none() && t.annotation_exec(it).is_none() && t.child_exec(fl, Class::Expr).is_none()
            && t.token_exec(fl, SyntaxKind::CONST_KW).is_none() && t.child_exec(
            fl,
            Class::Kind(SyntaxKind::GENERIC_PARAM_LIST),
        ).is_none() {
            match (t.child_exec(it, Class::Kind(SyntaxKind::NAME)), t.token_exec(fl, SyntaxKind::EXTERN_KW)) {
                (Some(nm), Some(ek)) => {
                    let name_end = t.range_exec(nm).end;
                    let extern_end = t.token_range_exec(ek).end;
                    if name_end <= extern_end {
                        let start = t.range_exec(it).start;
                        Some(
                            Fix::two(
                                text("Rewrite as an `extern static` declaration"),
                                TextRange::empty(start),
                                text("extern "),
                                TextRange::new(name_end, extern_end),
                                text(": unsafe"),
                            ),
                        )
                    } else {
                        None
                    }
                },
                _ => None,
            }
        } else {
            None
        },
        None => None,
    };
    let annotation = match item {
        Some(it) => if t.declares_host_import_exec(it) {
            t.annotation_exec(it)
        } else {
            None
        },
        None => None,
    };
    let twice = if annotation.is_some() {
        text(" \u{2014} the annotation is the contract, and this signature is dropped")
    } else {
        String::new()
    };
    let message = join(
        join(
            join(text("a host import is a DECLARATION, not an initializer: write `extern static "), name.as_str()),
            ": unsafe fn(...) -> T;`",
        ),
        twice.as_str(),
    );
    let ghost fix_view = match &fix {
        Some(f) => Some(f@),
        None => None::<FixView>,
    };
    assert(fix_view == extern_fn_fix(*t, fl));
    push_error(errors, SyntaxError { message, range: t.range_exec(fl), fix });
    if let Some(ty) = annotation {
        validate_import_annotation(t, ty, errors);
    }
    assert(errors_view(errors@) =~= errors_view(old(errors)@) + extern_fn_errors(*t, fl));
}

/// The removal of an `extern static`'s initializer: from the end of the
/// declaration (its annotation, else its name, else the `=`) to the end
/// of the value; offered when that end comes no earlier.
pub open spec fn initializer_fix(t: SyntaxTree, item: usize, range: TextRange) -> Option<FixView> {
    let cut = match annotation_of(t, item) {
        Some(ty) => t.node_range(ty).end,
        None => match t.child(item, Class::Kind(SyntaxKind::NAME)) {
            Some(nm) => t.node_range(nm).end,
            None => range.start,
        },
    };
    if cut <= range.end {
        Some(fix1("Remove the initializer"@, TextRange { start: cut, end: range.end }, Seq::empty()))
    } else {
        None
    }
}

/// An `extern static` has no initializer.
pub open spec fn initializer_errors(t: SyntaxTree, item: usize) -> Seq<ErrorView> {
    match t.token(item, SyntaxKind::EQ) {
        Some(eq) => {
            let end = match value_of(t, item) {
                Some(v) => t.node_range(v).end,
                None => t.token_range(eq).end,
            };
            let range = TextRange { start: t.token_range(eq).start, end };
            seq![
                ErrorView {
                    message: "an `extern static` has no initializer: the declaration is the whole contract, and an import sets nothing to anything"@,
                    range,
                    fix: initializer_fix(t, item, range),
                },
            ]
        },
        None => Seq::empty(),
    }
}

/// The diagnostics for an `extern static` declaration (a host import):
/// an unreadable item and a `const` one are judged by their marker alone;
/// otherwise no initializer, and, when the item declares an import, an
/// annotation that answers to the import rules.
pub open spec fn extern_static_errors(t: SyntaxTree, item: usize) -> Seq<ErrorView> {
    match t.token(item, SyntaxKind::EXTERN_KW) {
        Some(marker) => if t.child(item, Class::Kind(SyntaxKind::ERROR)) is Some {
            Seq::empty()
        } else if t.token(item, SyntaxKind::CONST_KW) is Some {
            seq![plain(extern_only_on_static(), t.token_range(marker))]
        } else {
            initializer_errors(t, item) + if !declares_host_import(t, item) {
                Seq::empty()
            } else {
                match annotation_of(t, item) {
                    Some(ty) => import_annotation_errors(t, ty),
                    None => seq![
                        plain(
                            "an import must declare its type: `extern static name: unsafe fn(...) -> T;`"@,
                            match t.child(item, Class::Kind(SyntaxKind::NAME)) {
                                Some(nm) => t.node_range(nm),
                                None => t.token_range(marker),
                            },
                        ),
                    ],
                }
            }
        },
        None => Seq::empty(),
    }
}

/// An `extern static` has no initializer, and removing it keeps the whole
/// declaration: on a readable, non-`const` `extern` item with an `=`, the
/// first diagnostic runs from the `=` to the end of the value (or of the
/// `=`), and its fix, when given, is a single deletion that ends there and
/// starts exactly at the end of the declaration: the annotation's end,
/// else the name's end (so `extern static x = 1;` becomes
/// `extern static x;`), so nothing of the name or of the annotation is
/// deleted; and it is given whenever the declaration ends no later than
/// the initializer.
pub proof fn removing_an_initializer_keeps_the_declaration(t: SyntaxTree, item: usize)
    requires
        t.token(item, SyntaxKind::EXTERN_KW) is Some,
        t.child(item, Class::Kind(SyntaxKind::ERROR)) is None,
        t.token(item, SyntaxKind::CONST_KW) is None,
        t.token(item, SyntaxKind::EQ) is Some,
    ensures
        ({
            let x = extern_static_errors(t, item)[0];
            let eq = t.token(item, SyntaxKind::EQ).unwrap();
            let end = match value_of(t, item) {
                Some(v) => t.node_range(v).end,
                None => t.token_range(eq).end,
            };
            &&& extern_static_errors(t, item).len() >= 1
            &&& x.message
                == "an `extern static` has no initializer: the declaration is the whole contract, and an import sets nothing to anything"@
            &&& x.range == (TextRange { start: t.token_range(eq).start, end })
            &&& (x.fix matches Some(f) ==> {
                &&& f.label == "Remove the initializer"@
                &&& f.edits.len() == 1
                &&& f.edits[0].insert == Seq::<char>::empty()
                &&& f.edits[0].range.end == end
                &&& (annotation_of(t, item) matches Some(ty) ==> f.edits[0].range.start == t.node_range(ty).end)
                &&& (annotation_of(t, item) is None ==> (t.child(item, Class::Kind(SyntaxKind::NAME)) matches Some(nm)
                    ==> f.edits[0].range.start == t.node_range(nm).end))
            })
            &&& (annotation_of(t, item) matches Some(ty) ==> (t.node_range(ty).end <= end ==> x.fix is Some))
            &&& (annotation_of(t, item) is None ==> (t.child(item, Class::Kind(SyntaxKind::NAME)) matches Some(nm)
                ==> (t.node_range(nm).end <= end ==> x.fix is Some)))
        }),
{
}

/// An import's annotation: anything but a fn type draws exactly the
/// data-import reservation at the type. A fn type draws one diagnostic at
/// each `_` inside it; the `unsafe` diagnostic at the whole type exactly
/// when it has no `unsafe`, with the fix that writes `unsafe ` at its
/// start; and the no-generics diagnostic at its binder exactly when it has
/// one; and nothing else.
pub proof fn an_import_annotation_is_a_full_unsafe_fn_type(t: SyntaxTree, ty: usize)
    ensures
        t.kind(ty) != SyntaxKind::FN_TYPE ==> import_annotation_errors(t, ty) == seq![
            plain("data imports are not supported yet \u{2014} an import must have a function type"@, t.node_range(ty)),
        ],
        t.kind(ty) == SyntaxKind::FN_TYPE ==> {
            let holes = descendants_of_kind(t, ty, SyntaxKind::HOLE_TYPE);
            let errs = import_annotation_errors(t, ty);
            &&& errs.len() == holes.len() + (if t.token(ty, SyntaxKind::UNSAFE_KW) is None {
                1int
            } else {
                0int
            }) + (if t.child(ty, Class::Kind(SyntaxKind::GENERIC_PARAM_LIST)) is Some {
                1int
            } else {
                0int
            })
            &&& forall|i: int|
                0 <= i < holes.len() ==> #[trigger] errs[i] == plain(msg_import_hole(), t.node_range(holes[i]))
            &&& t.token(ty, SyntaxKind::UNSAFE_KW) is None ==> errs[holes.len() as int] == with_fix(
                "an import must be declared `unsafe fn` for now: a safe-to-call import needs the declaration-side `unsafe` marker, and that marker does not exist yet"@,
                t.node_range(ty),
                fix1(
                    "Write `unsafe fn`"@,
                    TextRange { start: t.node_range(ty).start, end: t.node_range(ty).start },
                    "unsafe "@,
                ),
            )
            &&& t.child(ty, Class::Kind(SyntaxKind::GENERIC_PARAM_LIST)) matches Some(b) ==> errs[errs.len() - 1]
                == plain(
                "an import cannot be generic: it has exactly one machine signature, and there is nothing to monomorphize it into"@,
                t.node_range(b),
            )
        },
{
    if t.kind(ty) == SyntaxKind::FN_TYPE {
        let holes = descendants_of_kind(t, ty, SyntaxKind::HOLE_TYPE);
        lemma_each_of_singles(holes, hole_errors(t), |h: usize| plain(msg_import_hole(), t.node_range(h)));
    }
}

/// `each` over a rule that gives exactly one diagnostic per id.
proof fn lemma_each_of_singles(ids: Seq<usize>, f: spec_fn(usize) -> Seq<ErrorView>, g: spec_fn(usize) -> ErrorView)
    requires
        forall|id: usize| #[trigger] f(id) == seq![g(id)],
    ensures
        each(ids, f).len() == ids.len(),
        forall|i: int| 0 <= i < ids.len() ==> #[trigger] each(ids, f)[i] == g(ids[i]),
    decreases ids.len(),
{
    if ids.len() > 0 {
        lemma_each_of_singles(ids.drop_first(), f, g);
        assert(f(ids[0]) == seq![g(ids[0])]);
        assert forall|i: int| 0 <= i < ids.len() implies #[trigger] each(ids, f)[i] == g(ids[i]) by {
            if i > 0 {
                assert(each(ids, f)[i] == each(ids.drop_first(), f)[i - 1]);
                assert(ids.drop_first()[i - 1] == ids[i]);
            }
        }
    }
}

/// A `with` group on a `static` draws exactly one diagnostic at its
/// `with`. Elsewhere it draws the binder reservation at its binder, if it
/// has one, then exactly one diagnostic per clause, at the clause, chosen
/// by the clause's shape: a pin group when it has an `=`, else an
/// outlives group when it names a region, else a constrained group.
pub proof fn each_with_clause_is_reserved_by_its_shape(t: SyntaxTree, g: usize)
    ensures
        parent_kind(t, g) == Some(SyntaxKind::STATIC_ITEM) ==> with_group_errors(t, g).len() == 1,
        parent_kind(t, g) != Some(SyntaxKind::STATIC_ITEM) ==> {
            let clauses = t.nodes_of(g, Class::Kind(SyntaxKind::WITH_CLAUSE));
            let b = if t.child(g, Class::Kind(SyntaxKind::GENERIC_PARAM_LIST)) is Some {
                1int
            } else {
                0int
            };
            let errs = with_group_errors(t, g);
            &&& errs.len() == b + clauses.len()
            &&& forall|i: int|
                0 <= i < clauses.len() ==> #[trigger] errs[b + i] == plain(
                    if t.token(clauses[i], SyntaxKind::EQ) is Some {
                        "`with T = ...` pin groups are not supported yet"@
                    } else if t.token(clauses[i], SyntaxKind::REGION_IDENT) is Some {
                        "`with @a: ...` outlives groups are not supported yet"@
                    } else {
                        "`with T: ...` constrained groups are not supported yet"@
                    },
                    t.node_range(clauses[i]),
                )
        },
{
    let clauses = t.nodes_of(g, Class::Kind(SyntaxKind::WITH_CLAUSE));
    lemma_each_of_singles(
        clauses,
        with_clause_errors(t),
        |c: usize| plain(with_clause_message(t, c), t.node_range(c)),
    );
}

/// A `type` or `trait` declaration takes no annotation: without a `:`
/// there is nothing to say; with one, exactly one diagnostic runs from the
/// `:` to the end of the annotation (or of the `:` when no type follows),
/// and its fix deletes exactly that span.
pub proof fn a_declaration_annotation_is_removed(t: SyntaxTree, n: usize, message: Seq<char>)
    ensures
        t.token(n, SyntaxKind::COLON) is None ==> annotation_errors(t, n, message).len() == 0,
        t.token(n, SyntaxKind::COLON) matches Some(colon) ==> {
            let end = match annotation_of(t, n) {
                Some(ty) => t.node_range(ty).end,
                None => t.token_range(colon).end,
            };
            let span = TextRange { start: t.token_range(colon).start, end };
            annotation_errors(t, n, message) == seq![
                ErrorView {
                    message,
                    range: span,
                    fix: Some(FixView { label: "Remove the annotation"@, edits: seq![EditView { range: span, insert: Seq::empty() }] }),
                },
            ]
        },
        type_item_annotation_errors(t, n) == annotation_errors(t, n, "a `type` declaration takes no type annotation"@),
{
}

/// An import must declare its type, and only a `static` can be `extern`:
/// a readable `extern const` draws exactly the marker diagnostic at its
/// `extern`; a readable `extern static` that declares an import (no
/// value) and has no annotation draws exactly the missing-type diagnostic
/// at its name (at its `extern` when it has no name); an unreadable item
/// (one holding an error node) draws nothing.
pub proof fn an_import_declares_its_type(t: SyntaxTree, item: usize)
    ensures
        t.token(item, SyntaxKind::EXTERN_KW) is None ==> extern_static_errors(t, item).len() == 0,
        t.token(item, SyntaxKind::EXTERN_KW) is Some && t.child(item, Class::Kind(SyntaxKind::ERROR)) is Some
            ==> extern_static_errors(t, item).len() == 0,
        t.token(item, SyntaxKind::EXTERN_KW) matches Some(marker) ==> (t.child(item, Class::Kind(SyntaxKind::ERROR))
            is None ==> (t.token(item, SyntaxKind::CONST_KW) is Some ==> extern_static_errors(t, item) == seq![
            plain("only a `static` can be `extern`: an import declares one name with one type"@, t.token_range(marker)),
        ])),
        t.token(item, SyntaxKind::EXTERN_KW) matches Some(marker) ==> (t.child(item, Class::Kind(SyntaxKind::ERROR))
            is None ==> (t.token(item, SyntaxKind::CONST_KW) is None ==> (t.token(item, SyntaxKind::EQ) is None ==> (
        annotation_of(t, item) is None ==> extern_static_errors(t, item) == seq![
            plain(
                "an import must declare its type: `extern static name: unsafe fn(...) -> T;`"@,
                match t.child(item, Class::Kind(SyntaxKind::NAME)) {
                    Some(nm) => t.node_range(nm),
                    None => t.token_range(marker),
                },
            ),
        ])))),
{
    if t.token(item, SyntaxKind::EXTERN_KW) is Some && t.child(item, Class::Kind(SyntaxKind::ERROR)) is None
        && t.token(item, SyntaxKind::CONST_KW) is None && t.token(item, SyntaxKind::EQ) is None {
        assert(value_of(t, item) is None) by {
            t.lemma_find_token(item, 0, SyntaxKind::EQ);
        }
    }
}

/// A host import declaration, `extern static read: unsafe fn(...) -> T;`.
pub fn validate_extern_static(t: &SyntaxTree, item: usize, errors: &mut Vec<SyntaxError>)
    requires
        t.wf(),
        item < t.nodes@.len(),
    ensures
        errors_view(final(errors)@) == errors_view(old(errors)@) + extern_static_errors(*t, item),
{
    let Some(marker) = t.token_exec(item, SyntaxKind::EXTERN_KW) else {
        assert(errors_view(errors@) =~= errors_view(old(errors)@) + extern_static_errors(*t, item));
        return;
    };
    if t.child_exec(item, Class::Kind(SyntaxKind::ERROR)).is_some() {
        assert(errors_view(errors@) =~= errors_view(old(errors)@) + extern_static_errors(*t, item));
        return;
    }
    if t.token_exec(item, SyntaxKind::CONST_KW).is_some() {
        push_plain(
            errors,
            text("only a `static` can be `extern`: an import declares one name with one type"),
            t.token_range_exec(marker),
        );
        assert(errors_view(errors@) =~= errors_view(old(errors)@) + extern_static_errors(*t, item));
        return;
    }
    if let Some(eq) = t.token_exec(item, SyntaxKind::EQ) {
        let eq_range = t.token_range_exec(eq);
        let end = match t.value_exec(item) {
            Some(v) => t.range_exec(v).end,
            None => eq_range.end,
        };
        let range = TextRange::new(eq_range.start, end);
        let cut = match t.annotation_exec(item) {
            Some(ty) => t.range_exec(ty).end,
            None => match t.child_exec(item, Class::Kind(SyntaxKind::NAME)) {
                Some(nm) => t.range_exec(nm).end,
                None => range.start,
            },
        };
        let fix = if cut <= end {
            Some(Fix::one(text("Remove the initializer"), TextRange::new(cut, end), String::new()))
        } else {
            None
        };
        let ghost fix_view = match &fix {
            Some(f) => Some(f@),
            None => None::<FixView>,
        };
        assert(fix_view == initializer_fix(*t, item, range));
        push_error(
            errors,
            SyntaxError {
                message: text(
                    "an `extern static` has no initializer: the declaration is the whole contract, and an import sets nothing to anything",
                ),
                range,
                fix,
            },
        );
    }
    let ghost e1 = errors_view(errors@);
    assert(e1 == errors_view(old(errors)@) + initializer_errors(*t, item));
    if !t.declares_host_import_exec(item) {
        assert(errors_view(errors@) =~= errors_view(old(errors)@) + extern_static_errors(*t, item));
        return;
    }
    match t.annotation_exec(item) {
        Some(ty) => validate_import_annotation(t, ty, errors),
        None => {
            let range = match t.child_exec(item, Class::Kind(SyntaxKind::NAME)) {
                Some(nm) => t.range_exec(nm),
                None => t.token_range_exec(marker),
            };
            push_plain(
                errors,
                text("an import must declare its type: `extern static name: unsafe fn(...) -> T;`"),
                range,
            );
        },
    }
    assert(errors_view(errors@) =~= errors_view(old(errors)@) + extern_static_errors(*t, item));
}

// ---- fn types -------------------------------------------------------------

/// The diagnostic for a fn type's parameter with a name and no type.
pub open spec fn untyped_param_errors(t: SyntaxTree) -> spec_fn(usize) -> Seq<ErrorView> {
    |p: usize|
        if t.child(p, Class::Type) is None {
            seq![
                plain(
                    "this parameter has no type: a function type's parameters are `name: Type` or `Type`"@,
                    t.node_range(p),
                ),
            ]
        } else {
            Seq::empty()
        }
}

/// Whether a fn type is the annotation of an `extern` item.
pub open spec fn is_import_annotation(t: SyntaxTree, ft: usize) -> bool {
    match t.parent(ft) {
        Some(p) => t.kind(p) == SyntaxKind::STATIC_ITEM && t.token(p, SyntaxKind::EXTERN_KW) is Some,
        None => false,
    }
}

/// The rules that hold of every fn type except a member's signature: no
/// generic binder (an import's own refusal fires instead), and every
/// parameter has a type.
pub open spec fn fn_type_errors(t: SyntaxTree, ft: usize) -> Seq<ErrorView> {
    if parent_kind(t, ft) == Some(SyntaxKind::MEMBER) {
        Seq::empty()
    } else {
        (match t.child(ft, Class::Kind(SyntaxKind::GENERIC_PARAM_LIST)) {
            Some(b) => if !is_import_annotation(t, ft) {
                seq![
                    plain(
                        "a function type has no generic binder: a generic function is declared by an item, and a type names one of its instances"@,
                        t.node_range(b),
                    ),
                ]
            } else {
                Seq::empty()
            },
            None => Seq::empty(),
        }) + match t.child(ft, Class::Kind(SyntaxKind::PARAM_LIST)) {
            Some(l) => each(t.nodes_of(l, Class::Kind(SyntaxKind::PARAM)), untyped_param_errors(t)),
            None => Seq::empty(),
        }
    }
}

/// Every parameter of a fn type (other than a member's signature) that has
/// no type is reported, at the parameter, whatever tokens it holds (`x`,
/// `x:`, `mut x`); and a parameter that has a type draws no such report
/// from its own fn type.
pub proof fn every_untyped_fn_type_parameter_is_reported(t: SyntaxTree, ft: usize, l: usize, p: usize)
    requires
        parent_kind(t, ft) != Some(SyntaxKind::MEMBER),
        t.child(ft, Class::Kind(SyntaxKind::PARAM_LIST)) == Some(l),
        t.nodes_of(l, Class::Kind(SyntaxKind::PARAM)).contains(p),
    ensures
        t.child(p, Class::Type) is None ==> fn_type_errors(t, ft).contains(
            plain(
                "this parameter has no type: a function type's parameters are `name: Type` or `Type`"@,
                t.node_range(p),
            ),
        ),
        t.child(p, Class::Type) is Some ==> untyped_param_errors(t)(p).len() == 0,
{
    let x = plain(
        "this parameter has no type: a function type's parameters are `name: Type` or `Type`"@,
        t.node_range(p),
    );
    if t.child(p, Class::Type) is None {
        let ps = t.nodes_of(l, Class::Kind(SyntaxKind::PARAM));
        assert(untyped_param_errors(t)(p)[0] == x);
        lemma_each_contains(ps, untyped_param_errors(t), p, x);
        let binder = match t.child(ft, Class::Kind(SyntaxKind::GENERIC_PARAM_LIST)) {
            Some(b) => if !is_import_annotation(t, ft) {
                seq![
                    plain(
                        "a function type has no generic binder: a generic function is declared by an item, and a type names one of its instances"@,
                        t.node_range(b),
                    ),
                ]
            } else {
                Seq::<ErrorView>::empty()
            },
            None => Seq::<ErrorView>::empty(),
        };
        let rest = each(ps, untyped_param_errors(t));
        assert(fn_type_errors(t, ft) == binder + rest);
        let k = choose|k: int| 0 <= k < rest.len() && rest[k] == x;
        assert(fn_type_errors(t, ft)[binder.len() + k] == x);
    }
}

/// Rules that hold of every fn type, wherever it is written.
pub fn validate_fn_type(t: &SyntaxTree, ft: usize, errors: &mut Vec<SyntaxError>)
    requires
        t.wf(),
        ft < t.nodes@.len(),
    ensures
        errors_view(final(errors)@) == errors_view(old(errors)@) + fn_type_errors(*t, ft),
{
    if t.parent_kind_exec(ft) == Some(SyntaxKind::MEMBER) {
        assert(errors_view(errors@) =~= errors_view(old(errors)@) + fn_type_errors(*t, ft));
        return;
    }
    let is_import = match t.parent_exec(ft) {
        Some(p) => t.kind_exec(p) == SyntaxKind::STATIC_ITEM && t.token_exec(p, SyntaxKind::EXTERN_KW).is_some(),
        None => false,
    };
    if let Some(b) = t.child_exec(ft, Class::Kind(SyntaxKind::GENERIC_PARAM_LIST)) {
        if !is_import {
            push_plain(
                errors,
                text(
                    "a function type has no generic binder: a generic function is declared by an item, and a type names one of its instances",
                ),
                t.range_exec(b),
            );
        }
    }
    let ghost e1 = errors_view(errors@);
    let Some(list) = t.child_exec(ft, Class::Kind(SyntaxKind::PARAM_LIST)) else {
        assert(errors_view(errors@) =~= errors_view(old(errors)@) + fn_type_errors(*t, ft));
        return;
    };
    let ids = t.nodes_of_exec(list, Class::Kind(SyntaxKind::PARAM));
    let ghost f = untyped_param_errors(*t);
    proof {
        lemma_each_ends(ids@, f);
    }
    let mut j: usize = 0;
    while j < ids.len()
        invariant
            t.wf(),
            j <= ids@.len(),
            f == untyped_param_errors(*t),
            forall|i: int| 0 <= i < ids@.len() ==> is_child(*t, list, #[trigger] ids@[i]),
            errors_view(errors@) + each(ids@.skip(j as int), f) == e1 + each(ids@, f),
        decreases ids.len() - j,
    {
        proof {
            lemma_each_step(ids@, j as int, f);
        }
        let ghost e0 = errors_view(errors@);
        let p = ids[j];
        if t.child_exec(p, Class::Type).is_none() {
            push_plain(
                errors,
                text("this parameter has no type: a function type's parameters are `name: Type` or `Type`"),
                t.range_exec(p),
            );
        }
        assert(errors_view(errors@) + each(ids@.skip(j + 1), f) =~= e0 + each(ids@.skip(j as int), f));
        j = j + 1;
    }
    assert(errors_view(errors@) =~= errors_view(old(errors)@) + fn_type_errors(*t, ft));
}

} // verus!
