//! Diagnostics: a message, the range it is anchored at, and an optional
//! quick fix made of text edits. Each type has a view over plain sequences
//! that the contracts speak of.

use vstd::prelude::*;

use crate::tree::TextRange;

verus! {

/// The view of a [`TextEdit`].
pub struct EditView {
    pub range: TextRange,
    pub insert: Seq<char>,
}

/// The view of a [`Fix`].
pub struct FixView {
    pub label: Seq<char>,
    pub edits: Seq<EditView>,
}

/// The view of a [`SyntaxError`].
pub struct ErrorView {
    pub message: Seq<char>,
    pub range: TextRange,
    pub fix: Option<FixView>,
}

/// Replace the text in `range` by `insert`.
#[derive(Clone, Debug, PartialEq, Eq)]
pub struct TextEdit {
    pub range: TextRange,
    pub insert: String,
}

impl View for TextEdit {
    type V = EditView;

    open spec fn view(&self) -> EditView {
        EditView { range: self.range, insert: self.insert@ }
    }
}

/// A quick fix: a label and the edits that make it.
#[derive(Clone, Debug, PartialEq, Eq)]
pub struct Fix {
    pub label: String,
    pub edits: Vec<TextEdit>,
}

impl View for Fix {
    type V = FixView;

    open spec fn view(&self) -> FixView {
        FixView { label: self.label@, edits: self.edits@.map_values(|e: TextEdit| e@) }
    }
}

/// One diagnostic.
#[derive(Clone, Debug, PartialEq, Eq)]
pub struct SyntaxError {
    pub message: String,
    pub range: TextRange,
    pub fix: Option<Fix>,
}

impl View for SyntaxError {
    type V = ErrorView;

    open spec fn view(&self) -> ErrorView {
        ErrorView {
            message: self.message@,
            range: self.range,
            fix: match self.fix {
                Some(f) => Some(f@),
                None => None,
            },
        }
    }
}

/// The views of a sequence of diagnostics.
pub open spec fn errors_view(s: Seq<SyntaxError>) -> Seq<ErrorView> {
    s.map_values(|e: SyntaxError| e@)
}

/// The diagnostics `f` gives for each of `ids`, in order.
pub open spec fn each(ids: Seq<usize>, f: spec_fn(usize) -> Seq<ErrorView>) -> Seq<ErrorView>
    decreases ids.len(),
{
    if ids.len() == 0 {
        Seq::empty()
    } else {
        f(ids[0]) + each(ids.drop_first(), f)
    }
}

/// One step of [`each`] over a suffix.
pub proof fn lemma_each_step(ids: Seq<usize>, j: int, f: spec_fn(usize) -> Seq<ErrorView>)
    requires
        0 <= j < ids.len(),
    ensures
        each(ids.skip(j), f) == f(ids[j]) + each(ids.skip(j + 1), f),
{
    assert(ids.skip(j).drop_first() =~= ids.skip(j + 1));
    assert(ids.skip(j)[0] == ids[j]);
}

/// [`each`] over the whole sequence and over nothing.
pub proof fn lemma_each_ends(ids: Seq<usize>, f: spec_fn(usize) -> Seq<ErrorView>)
    ensures
        each(ids.skip(0), f) == each(ids, f),
        each(ids.skip(ids.len() as int), f) == Seq::<ErrorView>::empty(),
{
    assert(ids.skip(0) =~= ids);
    assert(ids.skip(ids.len() as int) =~= Seq::<usize>::empty());
}

/// What one of `ids` gives stands in what they give together.
pub proof fn lemma_each_contains(ids: Seq<usize>, f: spec_fn(usize) -> Seq<ErrorView>, id: usize, x: ErrorView)
    requires
        ids.contains(id),
        f(id).contains(x),
    ensures
        each(ids, f).contains(x),
    decreases ids.len(),
{
    if ids[0] == id {
        let fx = f(id);
        let k = choose|k: int| 0 <= k < fx.len() && fx[k] == x;
        assert(each(ids, f)[k] == x);
    } else {
        let k = choose|k: int| 0 <= k < ids.len() && ids[k] == id;
        assert(ids.drop_first()[k - 1] == id);
        lemma_each_contains(ids.drop_first(), f, id, x);
        let rest = each(ids.drop_first(), f);
        let m = choose|m: int| 0 <= m < rest.len() && rest[m] == x;
        assert(each(ids, f)[f(ids[0]).len() + m] == x);
    }
}

/// A diagnostic without a fix.
pub open spec fn plain(message: Seq<char>, range: TextRange) -> ErrorView {
    ErrorView { message, range, fix: None }
}

/// A diagnostic with a fix.
pub open spec fn with_fix(message: Seq<char>, range: TextRange, fix: FixView) -> ErrorView {
    ErrorView { message, range, fix: Some(fix) }
}

/// A fix of one edit.
pub open spec fn fix1(label: Seq<char>, range: TextRange, insert: Seq<char>) -> FixView {
    FixView { label, edits: seq![EditView { range, insert }] }
}

/// A fix of two edits.
pub open spec fn fix2(
    label: Seq<char>,
    range1: TextRange,
    insert1: Seq<char>,
    range2: TextRange,
    insert2: Seq<char>,
) -> FixView {
    FixView {
        label,
        edits: seq![EditView { range: range1, insert: insert1 }, EditView { range: range2, insert: insert2 }],
    }
}

/// Appends `e` to `errors`.
pub fn push_error(errors: &mut Vec<SyntaxError>, e: SyntaxError)
    ensures
        errors_view(final(errors)@) == errors_view(old(errors)@).push(e@),
{
    errors.push(e);
    assert(errors_view(errors@) =~= errors_view(old(errors)@).push(e@));
}

/// Appends a diagnostic without a fix.
pub fn push_plain(errors: &mut Vec<SyntaxError>, message: String, range: TextRange)
    ensures
        errors_view(final(errors)@) == errors_view(old(errors)@).push(plain(message@, range)),
{
    push_error(errors, SyntaxError { message, range, fix: None });
}

/// Appends a diagnostic with a fix.
pub fn push_with_fix(errors: &mut Vec<SyntaxError>, message: String, range: TextRange, fix: Fix)
    ensures
        errors_view(final(errors)@) == errors_view(old(errors)@).push(with_fix(message@, range, fix@)),
{
    push_error(errors, SyntaxError { message, range, fix: Some(fix) });
}

impl Fix {
    /// A fix of one edit.
    pub fn one(label: String, range: TextRange, insert: String) -> (f: Fix)
        ensures
            f@ == fix1(label@, range, insert@),
    {
        let edits = vec![TextEdit { range, insert }];
        let f = Fix { label, edits };
        assert(f@.edits =~= fix1(label@, range, insert@).edits);
        f
    }

    /// A fix of two edits.
    pub fn two(label: String, range1: TextRange, insert1: String, range2: TextRange, insert2: String) -> (f: Fix)
        ensures
            f@ == fix2(label@, range1, insert1@, range2, insert2@),
    {
        let edits = vec![TextEdit { range: range1, insert: insert1 }, TextEdit { range: range2, insert: insert2 }];
        let f = Fix { label, edits };
        assert(f@.edits =~= fix2(label@, range1, insert1@, range2, insert2@).edits);
        f
    }
}

/// Owned text from a literal.
pub fn text(s: &str) -> (r: String)
    ensures
        r@ == s@,
{
    String::from_str(s)
}

/// `a` followed by `b`.
pub fn join(a: String, b: &str) -> (r: String)
    ensures
        r@ == a@ + b@,
{
    a.concat(b)
}

} // verus!
