//! The checks on expressions, patterns and paths: blocks where a block
//! is required, assignment places, `mut` on patterns, literal and variant
//! patterns, the bare-angle typo, and the retired prefix borrows.

use vstd::prelude::*;

use crate::ast::{first_token_kind, is_child, pat_of, prev_non_trivia};
use crate::error::{
    EditView, errors_view, fix1, fix2, join, plain, push_error, push_plain, push_with_fix, text, with_fix, ErrorView, Fix,
    FixView, SyntaxError,
};
use crate::kind::{Class, SyntaxKind};
use crate::tree::{Element, SyntaxTree, TextRange};

verus! {

/// The empty range at `offset`.
pub open spec fn empty_at(offset: u32) -> TextRange {
    TextRange { start: offset, end: offset }
}

// ---- blocks -----------------------------------------------------------------

/// The rule for the fn literal's body.
pub const BRACE_RULE: &'static str = "function bodies are blocks";

/// Where the language requires a block, anything else gets the rule and a
/// wrap-in-braces fix.
pub open spec fn block_errors(t: SyntaxTree, e: usize, rule: Seq<char>) -> Seq<ErrorView> {
    if t.kind(e) == SyntaxKind::BLOCK_EXPR {
        Seq::empty()
    } else {
        let r = t.node_range(e);
        seq![
            with_fix(
                rule + "; wrap this expression in `{ }`"@,
                r,
                fix2("Wrap in `{ }`"@, empty_at(r.start), "{ "@, empty_at(r.end), " }"@),
            ),
        ]
    }
}

/// The grammar parses any expression where the language requires a block;
/// reject the superset with a wrap-in-braces fix.
pub fn require_block(t: &SyntaxTree, e: usize, rule: &str, errors: &mut Vec<SyntaxError>)
    requires
        t.wf(),
        e < t.nodes@.len(),
    ensures
        errors_view(final(errors)@) == errors_view(old(errors)@) + block_errors(*t, e, rule@),
{
    if t.kind_exec(e) == SyntaxKind::BLOCK_EXPR {
        assert(errors_view(errors@) =~= errors_view(old(errors)@) + block_errors(*t, e, rule@));
        return;
    }
    let range = t.range_exec(e);
    let fix = Fix::two(
        text("Wrap in `{ }`"),
        TextRange::empty(range.start),
        text("{ "),
        TextRange::empty(range.end),
        text(" }"),
    );
    push_with_fix(errors, join(text(rule), "; wrap this expression in `{ }`"), range, fix);
    assert(errors_view(errors@) =~= errors_view(old(errors)@) + block_errors(*t, e, rule@));
}

// ---- assignment targets -------------------------------------------------------

/// The message for a non-place assignment target.
pub const CAN_ONLY_ASSIGN_TO_A_VARIABLE: &'static str = "can only assign to a variable or its fields";

/// A place: a plain variable, or a chain of field accesses, derefs and
/// indexes rooted at one (a segment with no receiver is broken source and
/// passes).
pub open spec fn is_place(t: SyntaxTree, e: usize) -> bool
    decreases t.n_nodes() - e,
{
    if t.kind(e) == SyntaxKind::PATH_EXPR {
        true
    } else if t.kind(e) == SyntaxKind::FIELD_EXPR || t.kind(e) == SyntaxKind::DEREF_EXPR || t.kind(e)
        == SyntaxKind::INDEX_EXPR {
        match t.child(e, Class::Expr) {
            Some(r) => if e < r < t.n_nodes() {
                is_place(t, r)
            } else {
                true
            },
            None => true,
        }
    } else {
        false
    }
}

/// An assignment target that is not a place.
pub open spec fn target_errors(t: SyntaxTree, e: usize) -> Seq<ErrorView> {
    if is_place(t, e) {
        Seq::empty()
    } else {
        seq![plain(CAN_ONLY_ASSIGN_TO_A_VARIABLE@, t.node_range(e))]
    }
}

/// Accept a place as an assignment's target and reject everything else.
pub fn require_variable_target(t: &SyntaxTree, e: usize, errors: &mut Vec<SyntaxError>)
    requires
        t.wf(),
        e < t.nodes@.len(),
    ensures
        errors_view(final(errors)@) == errors_view(old(errors)@) + target_errors(*t, e),
{
    let mut place = e;
    loop
        invariant
            t.wf(),
            place < t.nodes@.len(),
            is_place(*t, place) == is_place(*t, e),
            errors_view(errors@) == errors_view(old(errors)@),
        ensures
            !is_place(*t, e),
            errors_view(errors@) == errors_view(old(errors)@),
        decreases t.nodes@.len() - place,
    {
        let k = t.kind_exec(place);
        if k == SyntaxKind::PATH_EXPR {
            assert(errors_view(errors@) =~= errors_view(old(errors)@) + target_errors(*t, e));
            return;
        }
        if k == SyntaxKind::FIELD_EXPR || k == SyntaxKind::DEREF_EXPR || k == SyntaxKind::INDEX_EXPR {
            match t.child_exec(place, Class::Expr) {
                Some(receiver) => {
                    place = receiver;
                },
                None => {
                    assert(errors_view(errors@) =~= errors_view(old(errors)@) + target_errors(*t, e));
                    return;
                },
            }
        } else {
            break;
        }
    }
    push_plain(errors, text(CAN_ONLY_ASSIGN_TO_A_VARIABLE), t.range_exec(e));
    assert(errors_view(errors@) =~= errors_view(old(errors)@) + target_errors(*t, e));
}

/// A child found by class is a child node: after its parent in the
/// numbering.
proof fn lemma_child_is_later(t: SyntaxTree, n: usize, c: Class)
    requires
        t.wf(),
        n < t.nodes@.len(),
    ensures
        t.child(n, c) matches Some(r) ==> n < r < t.nodes@.len(),
{
    t.lemma_find_node(n, 0, c);
    if let Some(p) = t.find_node(n, 0, c) {
        t.lemma_elem_ok(n, p);
    }
}

/// Only a place can be assigned. A path is a place; a field access, a
/// deref or an index is a place exactly when what it reads from (its
/// receiver or base, whatever kind of place that is) is one, and a
/// segment with nothing to read from is broken source that passes;
/// nothing else is a place. A target draws at most one diagnostic,
/// always "can only assign to a variable or its fields" at the whole
/// target, so `s.items[0] = 1` and `p.buf[i].x = v` draw none.
pub proof fn only_a_place_can_be_assigned(t: SyntaxTree, e: usize)
    requires
        t.wf(),
        e < t.nodes@.len(),
    ensures
        target_errors(t, e).len() <= 1,
        target_errors(t, e).len() == 1 ==> target_errors(t, e)[0] == plain(
            "can only assign to a variable or its fields"@,
            t.node_range(e),
        ),
        t.kind(e) == SyntaxKind::PATH_EXPR ==> target_errors(t, e).len() == 0,
        (t.kind(e) == SyntaxKind::FIELD_EXPR || t.kind(e) == SyntaxKind::DEREF_EXPR || t.kind(e)
            == SyntaxKind::INDEX_EXPR) ==> match t.child(e, Class::Expr) {
            Some(r) => target_errors(t, e).len() == target_errors(t, r).len(),
            None => target_errors(t, e).len() == 0,
        },
        !(t.kind(e) == SyntaxKind::PATH_EXPR || t.kind(e) == SyntaxKind::FIELD_EXPR || t.kind(e)
            == SyntaxKind::DEREF_EXPR || t.kind(e) == SyntaxKind::INDEX_EXPR) ==> target_errors(t, e).len() == 1,
{
    lemma_child_is_later(t, e, Class::Expr);
    reveal_strlit("can only assign to a variable or its fields");
}

// ---- `mut` on patterns ---------------------------------------------------------

/// `mut` on a `let` or parameter pattern that names no binding: on a hole
/// (with a fix that drops the `mut`), or on a destructuring pattern.
pub open spec fn mut_binding_errors(t: SyntaxTree, n: usize) -> Seq<ErrorView> {
    match t.token(n, SyntaxKind::MUT_KW) {
        Some(m) => match pat_of(t, n) {
            Some(p) => if t.kind(p) == SyntaxKind::BIND_PAT {
                match t.child(p, Class::Kind(SyntaxKind::NAME)) {
                    Some(nm) => if t.node_text(nm) == "_"@ {
                        seq![
                            with_fix(
                                "`mut` has no effect on `_`: a hole can never be assigned"@,
                                t.token_range(m).spec_cover(t.node_range(nm)),
                                fix1(
                                    "Remove `mut`"@,
                                    TextRange { start: t.token_range(m).start, end: t.node_range(nm).start },
                                    Seq::empty(),
                                ),
                            ),
                        ]
                    } else {
                        Seq::empty()
                    },
                    None => Seq::empty(),
                }
            } else {
                seq![
                    plain(
                        "`mut` applies to individual bindings in a destructuring pattern"@,
                        t.token_range(m).spec_cover(t.node_range(p)),
                    ),
                ]
            },
            None => Seq::empty(),
        },
        None => Seq::empty(),
    }
}

/// `mut` must name a binding, on a `let` and a parameter alike (the rule
/// never looks at which of the two `n` is): with no `mut` or no pattern
/// there is nothing to say; `mut` on a plain named binding is fine; `mut`
/// on `_` draws the hole diagnostic over `mut _` with the fix that deletes
/// from `mut` up to `_`; and `mut` on any other pattern draws the
/// destructuring diagnostic over `mut` and the whole pattern, with no fix.
pub proof fn mut_must_name_a_binding(t: SyntaxTree, n: usize)
    ensures
        mut_binding_errors(t, n).len() <= 1,
        (t.token(n, SyntaxKind::MUT_KW) is None || pat_of(t, n) is None) ==> mut_binding_errors(t, n).len() == 0,
        t.token(n, SyntaxKind::MUT_KW) matches Some(m) ==> (pat_of(t, n) matches Some(p) ==> (t.kind(p)
            != SyntaxKind::BIND_PAT ==> mut_binding_errors(t, n) == seq![
            plain(
                "`mut` applies to individual bindings in a destructuring pattern"@,
                TextRange {
                    start: if t.token_range(m).start <= t.node_range(p).start {
                        t.token_range(m).start
                    } else {
                        t.node_range(p).start
                    },
                    end: if t.token_range(m).end >= t.node_range(p).end {
                        t.token_range(m).end
                    } else {
                        t.node_range(p).end
                    },
                },
            ),
        ])),
        t.token(n, SyntaxKind::MUT_KW) matches Some(m) ==> (pat_of(t, n) matches Some(p) ==> (t.kind(p)
            == SyntaxKind::BIND_PAT ==> (t.child(p, Class::Kind(SyntaxKind::NAME)) matches Some(nm) ==> (
        t.node_text(nm) == "_"@ ==> mut_binding_errors(t, n).len() == 1 && mut_binding_errors(t, n)[0].message
            == "`mut` has no effect on `_`: a hole can never be assigned"@ && mut_binding_errors(t, n)[0].range
            == t.token_range(m).spec_cover(t.node_range(nm)) && mut_binding_errors(t, n)[0].fix
            == Some(
            fix1(
                "Remove `mut`"@,
                TextRange { start: t.token_range(m).start, end: t.node_range(nm).start },
                Seq::empty(),
            ),
        ))))),
        t.token(n, SyntaxKind::MUT_KW) is Some ==> (pat_of(t, n) matches Some(p) ==> (t.kind(p) == SyntaxKind::BIND_PAT
            ==> (t.child(p, Class::Kind(SyntaxKind::NAME)) matches Some(nm) ==> (t.node_text(nm) != "_"@
            ==> mut_binding_errors(t, n).len() == 0)))),
{
}

/// `mut` must name a binding.
pub fn require_mut_names_a_binding(t: &SyntaxTree, n: usize, errors: &mut Vec<SyntaxError>)
    requires
        t.wf(),
        n < t.nodes@.len(),
    ensures
        errors_view(final(errors)@) == errors_view(old(errors)@) + mut_binding_errors(*t, n),
{
    let Some(m) = t.token_exec(n, SyntaxKind::MUT_KW) else {
        assert(errors_view(errors@) =~= errors_view(old(errors)@) + mut_binding_errors(*t, n));
        return;
    };
    let mut_range = t.token_range_exec(m);
    match t.pat_exec(n) {
        Some(p) => {
            if t.kind_exec(p) == SyntaxKind::BIND_PAT {
                if let Some(nm) = t.child_exec(p, Class::Kind(SyntaxKind::NAME)) {
                    if t.text_is(nm, "_") {
                        let name_range = t.range_exec(nm);
                        let fix = Fix::one(
                            text("Remove `mut`"),
                            TextRange::new(mut_range.start, name_range.start),
                            String::new(),
                        );
                        push_with_fix(
                            errors,
                            text("`mut` has no effect on `_`: a hole can never be assigned"),
                            mut_range.cover(name_range),
                            fix,
                        );
                    }
                }
            } else {
                push_plain(
                    errors,
                    text("`mut` applies to individual bindings in a destructuring pattern"),
                    mut_range.cover(t.range_exec(p)),
                );
            }
        },
        None => {},
    }
    assert(errors_view(errors@) =~= errors_view(old(errors)@) + mut_binding_errors(*t, n));
}

// ---- literal and variant patterns ---------------------------------------------

/// The word for a literal pattern that is not yet supported: every
/// literal kind but a character.
pub open spec fn literal_pattern_word(t: SyntaxTree, lp: usize) -> Option<Seq<char>> {
    match t.child(lp, Class::Kind(SyntaxKind::LITERAL)) {
        Some(l) => match first_token_kind(t, l) {
            Some(SyntaxKind::INT_NUMBER) => Some("integer"@),
            Some(SyntaxKind::STRING) => Some("string"@),
            Some(SyntaxKind::TRUE_KW) => Some("boolean"@),
            Some(SyntaxKind::FALSE_KW) => Some("boolean"@),
            _ => None,
        },
        None => None,
    }
}

/// Only character literals are patterns so far.
pub open spec fn literal_pattern_errors(t: SyntaxTree, lp: usize) -> Seq<ErrorView> {
    match literal_pattern_word(t, lp) {
        Some(what) => seq![
            plain(
                what + " literal patterns are not supported yet; only character literals (`'x'`) can be matched"@,
                t.node_range(lp),
            ),
        ],
        None => Seq::empty(),
    }
}

/// Only character literals are patterns so far.
pub fn reject_non_char_literal_pat(t: &SyntaxTree, lp: usize, errors: &mut Vec<SyntaxError>)
    requires
        t.wf(),
        lp < t.nodes@.len(),
    ensures
        errors_view(final(errors)@) == errors_view(old(errors)@) + literal_pattern_errors(*t, lp),
{
    let what = match t.child_exec(lp, Class::Kind(SyntaxKind::LITERAL)) {
        Some(l) => match t.first_token_kind_exec(l) {
            Some(SyntaxKind::INT_NUMBER) => Some(text("integer")),
            Some(SyntaxKind::STRING) => Some(text("string")),
            Some(SyntaxKind::TRUE_KW) => Some(text("boolean")),
            Some(SyntaxKind::FALSE_KW) => Some(text("boolean")),
            _ => None,
        },
        None => None,
    };
    if let Some(what) = what {
        push_plain(
            errors,
            join(what, " literal patterns are not supported yet; only character literals (`'x'`) can be matched"),
            t.range_exec(lp),
        );
    }
    assert(errors_view(errors@) =~= errors_view(old(errors)@) + literal_pattern_errors(*t, lp));
}

/// An unmarked `Name(...)` pattern, with a fix that inserts the `::`.
pub open spec fn bare_variant_errors(t: SyntaxTree, vp: usize) -> Seq<ErrorView> {
    if t.token(vp, SyntaxKind::COLON2) is Some {
        Seq::empty()
    } else {
        match t.child(vp, Class::Kind(SyntaxKind::NAME_REF)) {
            Some(nr) => seq![
                with_fix(
                    "write `::"@ + t.node_text(nr) + "(...)` to match a variant, or remove `(...)` to bind"@,
                    t.node_range(vp),
                    fix1("Insert `::`"@, empty_at(t.node_range(nr).start), "::"@),
                ),
            ],
            None => Seq::empty(),
        }
    }
}

/// `Circle(r)` with no `::` is no longer a variant pattern.
pub fn reject_unqualified_bare_variant_pat(t: &SyntaxTree, vp: usize, errors: &mut Vec<SyntaxError>)
    requires
        t.wf(),
        vp < t.nodes@.len(),
    ensures
        errors_view(final(errors)@) == errors_view(old(errors)@) + bare_variant_errors(*t, vp),
{
    if t.token_exec(vp, SyntaxKind::COLON2).is_some() {
        assert(errors_view(errors@) =~= errors_view(old(errors)@) + bare_variant_errors(*t, vp));
        return;
    }
    let Some(nr) = t.child_exec(vp, Class::Kind(SyntaxKind::NAME_REF)) else {
        assert(errors_view(errors@) =~= errors_view(old(errors)@) + bare_variant_errors(*t, vp));
        return;
    };
    let name = t.text_exec(nr);
    let message = join(join(text("write `::"), name.as_str()), "(...)` to match a variant, or remove `(...)` to bind");
    let fix = Fix::one(text("Insert `::`"), TextRange::empty(t.range_exec(nr).start), text("::"));
    push_with_fix(errors, message, t.range_exec(vp), fix);
    assert(errors_view(errors@) =~= errors_view(old(errors)@) + bare_variant_errors(*t, vp));
}

// ---- the bare-angle typo -----------------------------------------------------------

/// `Boxed<usize>` / `f<usize>(3)`: a path's own argument list not preceded
/// (past trivia) by `::` is the bare-angle typo for the turbofish; the
/// diagnostic covers the name and its arguments and inserts the `::`.
pub open spec fn bare_angle_errors(t: SyntaxTree, path: usize) -> Seq<ErrorView> {
    match (t.child(path, Class::Kind(SyntaxKind::NAME_REF)), t.find_node(
        path,
        0,
        Class::Kind(SyntaxKind::GENERIC_ARG_LIST),
    )) {
        (Some(nr), Some(pos)) => {
            let list = t.node_at(path, pos);
            if (match prev_non_trivia(t, path, pos) {
                Some(q) => t.elem_kind(t.children(path)[q]) == SyntaxKind::COLON2,
                None => false,
            }) {
                Seq::empty()
            } else {
                seq![
                    with_fix(
                        "generic arguments use the turbofish: write `"@ + t.node_text(nr) + "::<...>`"@,
                        t.node_range(nr).spec_cover(t.node_range(list)),
                        fix1("Insert `::`"@, empty_at(t.node_range(nr).end), "::"@),
                    ),
                ]
            }
        },
        _ => Seq::empty(),
    }
}

/// The bare-angle typo for `::<...>`, on either side of the grammar.
pub fn reject_bare_angle_generic_args(t: &SyntaxTree, path: usize, errors: &mut Vec<SyntaxError>)
    requires
        t.wf(),
        path < t.nodes@.len(),
    ensures
        errors_view(final(errors)@) == errors_view(old(errors)@) + bare_angle_errors(*t, path),
{
    let (Some(nr), Some(pos)) = (
        t.child_exec(path, Class::Kind(SyntaxKind::NAME_REF)),
        t.find_node_exec(path, 0, Class::Kind(SyntaxKind::GENERIC_ARG_LIST)),
    ) else {
        assert(errors_view(errors@) =~= errors_view(old(errors)@) + bare_angle_errors(*t, path));
        return;
    };
    proof {
        t.lemma_find_node(path, 0, Class::Kind(SyntaxKind::GENERIC_ARG_LIST));
        t.lemma_elem_ok(path, pos as int);
    }
    let list = match t.nodes[path].children[pos] {
        Element::Node(id) => id,
        Element::Token(_) => 0,
    };
    let mut q = pos;
    let mut after_colon2 = false;
    while q > 0
        invariant_except_break
            prev_non_trivia(*t, path, pos as int) == prev_non_trivia(*t, path, q as int),
            !after_colon2,
        invariant
            t.wf(),
            path < t.nodes@.len(),
            q <= pos < t.children(path).len(),
        ensures
            after_colon2 == (match prev_non_trivia(*t, path, pos as int) {
                Some(k) => t.elem_kind(t.children(path)[k]) == SyntaxKind::COLON2,
                None => false,
            }),
        decreases q,
    {
        proof {
            t.lemma_elem_ok(path, q - 1);
        }
        let kind = match t.nodes[path].children[q - 1] {
            Element::Node(id) => t.nodes[id].kind,
            Element::Token(tk) => t.tokens[tk].kind,
        };
        if kind.is_trivia() {
            q = q - 1;
        } else {
            after_colon2 = kind == SyntaxKind::COLON2;
            break;
        }
    }
    if after_colon2 {
        assert(errors_view(errors@) =~= errors_view(old(errors)@) + bare_angle_errors(*t, path));
        return;
    }
    let name = t.text_exec(nr);
    let name_range = t.range_exec(nr);
    let message = join(join(text("generic arguments use the turbofish: write `"), name.as_str()), "::<...>`");
    let fix = Fix::one(text("Insert `::`"), TextRange::empty(name_range.end), text("::"));
    push_with_fix(errors, message, name_range.cover(t.range_exec(list)), fix);
    assert(errors_view(errors@) =~= errors_view(old(errors)@) + bare_angle_errors(*t, path));
}

// ---- retired prefix borrows ---------------------------------------------------------

/// A borrow node in the retired prefix spelling: no `.` of its own.
pub open spec fn is_prefix_spelling(t: SyntaxTree, n: usize) -> bool {
    t.find_token(n, 0, SyntaxKind::DOT) is None
}

/// Whether a borrow node is the retired prefix spelling.
fn is_prefix_spelling_exec(t: &SyntaxTree, n: usize) -> (b: bool)
    requires
        t.wf(),
        n < t.nodes@.len(),
    ensures
        b == is_prefix_spelling(*t, n),
{
    t.find_token_exec(n, 0, SyntaxKind::DOT).is_none()
}

/// The rewrite of a prefix borrow: delete what comes before the operand,
/// append the postfix spelling after it.
pub open spec fn postfix_fix(node: TextRange, operand: TextRange, suffix: Seq<char>) -> FixView {
    fix2(
        "Rewrite as postfix"@,
        TextRange { start: node.start, end: operand.start },
        Seq::empty(),
        empty_at(operand.end),
        suffix,
    )
}

/// The rewrite a retired prefix borrow needs.
fn rewrite_to_postfix_fix(node: TextRange, operand: TextRange, suffix: &str) -> (f: Fix)
    requires
        node.start <= operand.start,
    ensures
        f@ == postfix_fix(node, operand, suffix@),
{
    Fix::two(
        text("Rewrite as postfix"),
        TextRange::new(node.start, operand.start),
        String::new(),
        TextRange::empty(operand.end),
        text(suffix),
    )
}

/// The postfix operator a borrow is rewritten with.
pub open spec fn borrow_suffix(t: SyntaxTree, b: usize) -> Seq<char> {
    if t.token(b, SyntaxKind::MUT_KW) is Some {
        ".&mut"@
    } else {
        ".&"@
    }
}

/// `&x` / `&mut x`: the retired prefix borrow, with the rewrite when the
/// operand is there.
pub open spec fn prefix_borrow_expr_errors(t: SyntaxTree, b: usize) -> Seq<ErrorView> {
    if !is_prefix_spelling(t, b) {
        Seq::empty()
    } else {
        let r = t.node_range(b);
        seq![
            ErrorView {
                message: "borrows are spelled postfix: `x.&` / `x.&mut`"@,
                range: r,
                fix: match t.child(b, Class::Expr) {
                    Some(operand) => Some(postfix_fix(r, t.node_range(operand), borrow_suffix(t, b))),
                    None => None,
                },
            },
        ]
    }
}

fn suffix_exec(t: &SyntaxTree, b: usize) -> (s: &'static str)
    requires
        t.wf(),
        b < t.nodes@.len(),
    ensures
        s@ == borrow_suffix(*t, b),
{
    if t.token_exec(b, SyntaxKind::MUT_KW).is_some() {
        ".&mut"
    } else {
        ".&"
    }
}

/// `&x` / `&mut x`, the retired prefix safe borrow.
pub fn reject_prefix_borrow_expr(t: &SyntaxTree, b: usize, errors: &mut Vec<SyntaxError>)
    requires
        t.wf(),
        b < t.nodes@.len(),
    ensures
        errors_view(final(errors)@) == errors_view(old(errors)@) + prefix_borrow_expr_errors(*t, b),
{
    if !is_prefix_spelling_exec(t, b) {
        assert(errors_view(errors@) =~= errors_view(old(errors)@) + prefix_borrow_expr_errors(*t, b));
        return;
    }
    let range = t.range_exec(b);
    let suffix = suffix_exec(t, b);
    let fix = match t.child_exec(b, Class::Expr) {
        Some(operand) => Some(rewrite_to_postfix_fix(range, t.range_exec(operand), suffix)),
        None => None,
    };
    let ghost fix_view = match &fix {
        Some(f) => Some(f@),
        None => None::<FixView>,
    };
    push_error(errors, SyntaxError { message: text("borrows are spelled postfix: `x.&` / `x.&mut`"), range, fix });
    assert(errors_view(errors@) =~= errors_view(old(errors)@) + prefix_borrow_expr_errors(*t, b));
}

/// Whether a postfix `.&` appended to this type's text binds to the whole
/// type: not when the type ends in a nested type of its own (a fn type
/// with a return type, a prefix raw pointer, a prefix borrow).
pub open spec fn postfix_binds_to_whole_type(t: SyntaxTree, ty: usize) -> bool {
    match t.kind(ty) {
        SyntaxKind::FN_TYPE => t.child(ty, Class::Kind(SyntaxKind::RET_TYPE)) is None,
        SyntaxKind::RAW_PTR_TYPE => !is_prefix_spelling(t, ty),
        SyntaxKind::BORROW_TYPE => !is_prefix_spelling(t, ty),
        _ => true,
    }
}

fn postfix_binds_to_whole_type_exec(t: &SyntaxTree, ty: usize) -> (b: bool)
    requires
        t.wf(),
        ty < t.nodes@.len(),
    ensures
        b == postfix_binds_to_whole_type(*t, ty),
{
    match t.kind_exec(ty) {
        SyntaxKind::FN_TYPE => t.child_exec(ty, Class::Kind(SyntaxKind::RET_TYPE)).is_none(),
        SyntaxKind::RAW_PTR_TYPE => !is_prefix_spelling_exec(t, ty),
        SyntaxKind::BORROW_TYPE => !is_prefix_spelling_exec(t, ty),
        _ => true,
    }
}

/// `&T` / `&mut T`: the retired prefix borrow type, with the rewrite only
/// where postfix can express the same type.
pub open spec fn prefix_borrow_type_errors(t: SyntaxTree, b: usize) -> Seq<ErrorView> {
    if !is_prefix_spelling(t, b) {
        Seq::empty()
    } else {
        let r = t.node_range(b);
        seq![
            ErrorView {
                message: "borrow types are spelled postfix: `T.&` / `T.&mut`"@,
                range: r,
                fix: match t.child(b, Class::Type) {
                    Some(ty) => if postfix_binds_to_whole_type(t, ty) {
                        Some(postfix_fix(r, t.node_range(ty), borrow_suffix(t, b)))
                    } else {
                        None
                    },
                    None => None,
                },
            },
        ]
    }
}

/// `&T` / `&mut T`, the retired prefix safe borrow type.
pub fn reject_prefix_borrow_type(t: &SyntaxTree, b: usize, errors: &mut Vec<SyntaxError>)
    requires
        t.wf(),
        b < t.nodes@.len(),
    ensures
        errors_view(final(errors)@) == errors_view(old(errors)@) + prefix_borrow_type_errors(*t, b),
{
    if !is_prefix_spelling_exec(t, b) {
        assert(errors_view(errors@) =~= errors_view(old(errors)@) + prefix_borrow_type_errors(*t, b));
        return;
    }
    let range = t.range_exec(b);
    let suffix = suffix_exec(t, b);
    let fix = match t.child_exec(b, Class::Type) {
        Some(ty) => if postfix_binds_to_whole_type_exec(t, ty) {
            Some(rewrite_to_postfix_fix(range, t.range_exec(ty), suffix))
        } else {
            None
        },
        None => None,
    };
    let ghost fix_view = match &fix {
        Some(f) => Some(f@),
        None => None::<FixView>,
    };
    push_error(errors, SyntaxError { message: text("borrow types are spelled postfix: `T.&` / `T.&mut`"), range, fix });
    assert(errors_view(errors@) =~= errors_view(old(errors)@) + prefix_borrow_type_errors(*t, b));
}

// ---- region arguments at a borrow ----------------------------------------------------

/// The message for a region argument on an expression-position borrow;
/// its example follows the operator.
pub open spec fn region_arg_message(mutable: bool) -> Seq<char> {
    let op = if mutable {
        ".&mut"@
    } else {
        ".&"@
    };
    "regions are inferred at a borrow, never written: drop this argument \u{2014} a region belongs in a type position, so assert it with an annotation (`let r: _"@
        + op + "::<@a> = x"@ + op + ";`)"@
}

/// A type that ends in a nested type of its own, which an appended `.&`
/// would bind to instead of the whole: a fn type with a result, or a
/// retired prefix raw pointer or borrow (one with no `.` token).
pub open spec fn ends_in_a_nested_type(t: SyntaxTree, ty: usize) -> bool {
    ||| t.kind(ty) == SyntaxKind::FN_TYPE && t.child(ty, Class::Kind(SyntaxKind::RET_TYPE)) is Some
    ||| (t.kind(ty) == SyntaxKind::RAW_PTR_TYPE || t.kind(ty) == SyntaxKind::BORROW_TYPE) && t.find_token(
        ty,
        0,
        SyntaxKind::DOT,
    ) is None
}

/// A borrow type written postfix (with its `.`) draws nothing. One written
/// prefix draws exactly one diagnostic over the whole type; it carries the
/// rewrite exactly when there is an operand that does not end in a nested
/// type (so `&fn()` and `&T` get it, `&fn() -> T` and `&&mut T` do not),
/// and the rewrite deletes everything before the operand and appends
/// `.&` (`.&mut` for a `mut` borrow) right after it.
pub proof fn a_prefix_borrow_type_is_rewritten_where_postfix_says_the_same(t: SyntaxTree, b: usize)
    ensures
        t.find_token(b, 0, SyntaxKind::DOT) is Some ==> prefix_borrow_type_errors(t, b).len() == 0,
        t.find_token(b, 0, SyntaxKind::DOT) is None ==> {
            &&& prefix_borrow_type_errors(t, b).len() == 1
            &&& prefix_borrow_type_errors(t, b)[0].message == "borrow types are spelled postfix: `T.&` / `T.&mut`"@
            &&& prefix_borrow_type_errors(t, b)[0].range == t.node_range(b)
            &&& (prefix_borrow_type_errors(t, b)[0].fix is None <==> match t.child(b, Class::Type) {
                Some(ty) => ends_in_a_nested_type(t, ty),
                None => true,
            })
            &&& (t.child(b, Class::Type) matches Some(ty) ==> (!ends_in_a_nested_type(t, ty)
                ==> prefix_borrow_type_errors(t, b)[0].fix == Some(
                FixView {
                    label: "Rewrite as postfix"@,
                    edits: seq![
                        EditView {
                            range: TextRange { start: t.node_range(b).start, end: t.node_range(ty).start },
                            insert: Seq::empty(),
                        },
                        EditView {
                            range: TextRange { start: t.node_range(ty).end, end: t.node_range(ty).end },
                            insert: if t.token(b, SyntaxKind::MUT_KW) is Some {
                                ".&mut"@
                            } else {
                                ".&"@
                            },
                        },
                    ],
                },
            )))
        },
{
}

/// Where a block is required, a block draws nothing and anything else
/// draws exactly one diagnostic: the rule followed by the wrap advice, at
/// the expression, with the fix that inserts `{ ` before it and ` }`
/// after it (two empty-range insertions, in that order).
pub proof fn a_required_block_is_wrapped(t: SyntaxTree, e: usize, rule: Seq<char>)
    ensures
        t.kind(e) == SyntaxKind::BLOCK_EXPR ==> block_errors(t, e, rule).len() == 0,
        t.kind(e) != SyntaxKind::BLOCK_EXPR ==> block_errors(t, e, rule) == seq![
            ErrorView {
                message: rule + "; wrap this expression in `{ }`"@,
                range: t.node_range(e),
                fix: Some(
                    FixView {
                        label: "Wrap in `{ }`"@,
                        edits: seq![
                            EditView {
                                range: TextRange { start: t.node_range(e).start, end: t.node_range(e).start },
                                insert: "{ "@,
                            },
                            EditView {
                                range: TextRange { start: t.node_range(e).end, end: t.node_range(e).end },
                                insert: " }"@,
                            },
                        ],
                    },
                ),
            },
        ],
{
}

/// Only character literals are patterns: a literal pattern whose literal
/// starts with an integer, a string or `true`/`false` draws exactly one
/// diagnostic at the pattern naming that kind; a character literal (and
/// anything else) draws none.
pub proof fn only_character_literals_are_patterns(t: SyntaxTree, lp: usize)
    ensures
        literal_pattern_errors(t, lp).len() <= 1,
        t.child(lp, Class::Kind(SyntaxKind::LITERAL)) matches Some(l) ==> {
            let tail = " literal patterns are not supported yet; only character literals (`'x'`) can be matched"@;
            &&& first_token_kind(t, l) == Some(SyntaxKind::INT_NUMBER) ==> literal_pattern_errors(t, lp) == seq![
                plain("integer"@ + tail, t.node_range(lp)),
            ]
            &&& first_token_kind(t, l) == Some(SyntaxKind::STRING) ==> literal_pattern_errors(t, lp) == seq![
                plain("string"@ + tail, t.node_range(lp)),
            ]
            &&& (first_token_kind(t, l) == Some(SyntaxKind::TRUE_KW) || first_token_kind(t, l) == Some(
                SyntaxKind::FALSE_KW,
            )) ==> literal_pattern_errors(t, lp) == seq![plain("boolean"@ + tail, t.node_range(lp))]
            &&& first_token_kind(t, l) == Some(SyntaxKind::CHAR) ==> literal_pattern_errors(t, lp).len() == 0
        },
        t.child(lp, Class::Kind(SyntaxKind::LITERAL)) is None ==> literal_pattern_errors(t, lp).len() == 0,
{
}

/// A variant pattern with its `::` draws nothing; a bare `Name(...)` draws
/// exactly one diagnostic over the whole pattern, naming the variant, with
/// the fix that inserts `::` right before the name.
pub proof fn a_bare_variant_pattern_gets_its_colons(t: SyntaxTree, vp: usize)
    ensures
        t.token(vp, SyntaxKind::COLON2) is Some ==> bare_variant_errors(t, vp).len() == 0,
        t.token(vp, SyntaxKind::COLON2) is None ==> (t.child(vp, Class::Kind(SyntaxKind::NAME_REF)) matches Some(nr)
            ==> bare_variant_errors(t, vp) == seq![
            ErrorView {
                message: "write `::"@ + t.node_text(nr) + "(...)` to match a variant, or remove `(...)` to bind"@,
                range: t.node_range(vp),
                fix: Some(
                    FixView {
                        label: "Insert `::`"@,
                        edits: seq![
                            EditView {
                                range: TextRange { start: t.node_range(nr).start, end: t.node_range(nr).start },
                                insert: "::"@,
                            },
                        ],
                    },
                ),
            },
        ]),
{
}

/// The turbofish typo: a path with a name and an argument list draws
/// nothing when the nearest non-trivia element before the list is `::`
/// (so `Option::<usize>` and `f ::< usize >` draw none), and otherwise
/// exactly one diagnostic covering the name and the list (not a trailing
/// segment), with the fix that inserts `::` right after the name.
pub proof fn the_turbofish_typo_is_corrected(t: SyntaxTree, path: usize)
    ensures
        bare_angle_errors(t, path).len() <= 1,
        (t.child(path, Class::Kind(SyntaxKind::NAME_REF)) is None || t.find_node(
            path,
            0,
            Class::Kind(SyntaxKind::GENERIC_ARG_LIST),
        ) is None) ==> bare_angle_errors(t, path).len() == 0,
        t.child(path, Class::Kind(SyntaxKind::NAME_REF)) matches Some(nr) ==> (t.find_node(
            path,
            0,
            Class::Kind(SyntaxKind::GENERIC_ARG_LIST),
        ) matches Some(pos) ==> {
            let list = t.node_at(path, pos);
            let after_colons = match prev_non_trivia(t, path, pos) {
                Some(q) => t.elem_kind(t.children(path)[q]) == SyntaxKind::COLON2,
                None => false,
            };
            &&& after_colons ==> bare_angle_errors(t, path).len() == 0
            &&& !after_colons ==> bare_angle_errors(t, path) == seq![
                ErrorView {
                    message: "generic arguments use the turbofish: write `"@ + t.node_text(nr) + "::<...>`"@,
                    range: t.node_range(nr).spec_cover(t.node_range(list)),
                    fix: Some(
                        FixView {
                            label: "Insert `::`"@,
                            edits: seq![
                                EditView {
                                    range: TextRange { start: t.node_range(nr).end, end: t.node_range(nr).end },
                                    insert: "::"@,
                                },
                            ],
                        },
                    ),
                },
            ]
        }),
{
}

/// A borrow written postfix (with its `.`) draws nothing. One written
/// prefix draws exactly one diagnostic over the whole borrow; its fix is
/// given exactly when there is an operand, and it deletes everything
/// before the operand and appends `.&` (`.&mut` for a `mut` borrow) right
/// after it.
pub proof fn a_prefix_borrow_is_rewritten_postfix(t: SyntaxTree, b: usize)
    ensures
        t.find_token(b, 0, SyntaxKind::DOT) is Some ==> prefix_borrow_expr_errors(t, b).len() == 0,
        t.find_token(b, 0, SyntaxKind::DOT) is None ==> {
            &&& prefix_borrow_expr_errors(t, b).len() == 1
            &&& prefix_borrow_expr_errors(t, b)[0].message == "borrows are spelled postfix: `x.&` / `x.&mut`"@
            &&& prefix_borrow_expr_errors(t, b)[0].range == t.node_range(b)
            &&& (prefix_borrow_expr_errors(t, b)[0].fix is None <==> t.child(b, Class::Expr) is None)
            &&& (t.child(b, Class::Expr) matches Some(op) ==> prefix_borrow_expr_errors(t, b)[0].fix == Some(
                FixView {
                    label: "Rewrite as postfix"@,
                    edits: seq![
                        EditView {
                            range: TextRange { start: t.node_range(b).start, end: t.node_range(op).start },
                            insert: Seq::empty(),
                        },
                        EditView {
                            range: TextRange { start: t.node_range(op).end, end: t.node_range(op).end },
                            insert: if t.token(b, SyntaxKind::MUT_KW) is Some {
                                ".&mut"@
                            } else {
                                ".&"@
                            },
                        },
                    ],
                },
            ))
        },
{
}

/// The message for a region argument on an expression-position borrow.
pub fn region_arg_at_borrow(mutable: bool) -> (s: String)
    ensures
        s@ == region_arg_message(mutable),
{
    let op = if mutable {
        ".&mut"
    } else {
        ".&"
    };
    join(
        join(
            join(
                join(
                    text(
                        "regions are inferred at a borrow, never written: drop this argument \u{2014} a region belongs in a type position, so assert it with an annotation (`let r: _",
                    ),
                    op,
                ),
                "::<@a> = x",
            ),
            op,
        ),
        ";`)",
    )
}

/// A turbofish on an expression-position borrow, with the fix that drops it.
pub open spec fn region_arg_errors(t: SyntaxTree, b: usize) -> Seq<ErrorView> {
    match (
        t.token(b, SyntaxKind::COLON2),
        t.child_after(b, SyntaxKind::COLON2, Class::Kind(SyntaxKind::GENERIC_ARG_LIST)),
    ) {
        (Some(c), Some(args)) => {
            let r = TextRange { start: t.token_range(c).start, end: t.node_range(args).end };
            seq![
                with_fix(
                    region_arg_message(t.token(b, SyntaxKind::MUT_KW) is Some),
                    r,
                    fix1("Drop the region argument"@, r, Seq::empty()),
                ),
            ]
        },
        _ => Seq::empty(),
    }
}

/// Regions are inferred at a borrow, never written: the refusal of a
/// region turbofish on an expression-position borrow, for callers that
/// want it. The whole-tree pass does not run it: there a borrow's own
/// turbofish is where the borrow's region rides, and it is left alone.
pub fn reject_region_arg_on_borrow_expr(t: &SyntaxTree, b: usize, errors: &mut Vec<SyntaxError>)
    requires
        t.wf(),
        b < t.nodes@.len(),
    ensures
        errors_view(final(errors)@) == errors_view(old(errors)@) + region_arg_errors(*t, b),
{
    let (Some(c), Some(args)) = (
        t.token_exec(b, SyntaxKind::COLON2),
        t.child_after_exec(b, SyntaxKind::COLON2, Class::Kind(SyntaxKind::GENERIC_ARG_LIST)),
    ) else {
        assert(errors_view(errors@) =~= errors_view(old(errors)@) + region_arg_errors(*t, b));
        return;
    };
    let range = TextRange::new(t.token_range_exec(c).start, t.range_exec(args).end);
    let message = region_arg_at_borrow(t.token_exec(b, SyntaxKind::MUT_KW).is_some());
    let fix = Fix::one(text("Drop the region argument"), range, String::new());
    push_with_fix(errors, message, range, fix);
    assert(errors_view(errors@) =~= errors_view(old(errors)@) + region_arg_errors(*t, b));
}

} // verus!
