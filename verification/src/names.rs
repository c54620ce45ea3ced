//! Sets of names kept as vectors of strings: what a scan has seen so far.

use vstd::prelude::*;

verus! {

/// The names held by `v`.
pub open spec fn seen_set(v: Seq<String>) -> Set<Seq<char>> {
    Set::new(|x: Seq<char>| exists|i: int| 0 <= i < v.len() && v[i]@ == x)
}

/// Pushing a name adds it to the set.
pub proof fn lemma_seen_push(v: Seq<String>, s: String)
    ensures
        seen_set(v.push(s)) == seen_set(v).insert(s@),
{
    let w = v.push(s);
    assert forall|x: Seq<char>| seen_set(w).contains(x) == seen_set(v).insert(s@).contains(x) by {
        if seen_set(v).contains(x) {
            let i = choose|i: int| 0 <= i < v.len() && v[i]@ == x;
            assert(w[i]@ == x);
        }
        if x == s@ {
            assert(w[v.len() as int]@ == x);
        }
        if seen_set(w).contains(x) {
            let i = choose|i: int| 0 <= i < w.len() && w[i]@ == x;
            if i < v.len() {
                assert(v[i]@ == x);
            }
        }
    }
    assert(seen_set(w) =~= seen_set(v).insert(s@));
}

/// The empty vector holds no name.
pub proof fn lemma_seen_empty(v: Seq<String>)
    requires
        v.len() == 0,
    ensures
        seen_set(v) == Set::<Seq<char>>::empty(),
{
    assert(seen_set(v) =~= Set::<Seq<char>>::empty());
}

/// Whether `v` holds `name`.
pub fn holds(v: &Vec<String>, name: &String) -> (b: bool)
    ensures
        b == seen_set(v@).contains(name@),
{
    let mut i: usize = 0;
    while i < v.len()
        invariant
            i <= v@.len(),
            forall|j: int| 0 <= j < i ==> v@[j]@ != name@,
        decreases v.len() - i,
    {
        if v[i] == *name {
            assert(v@[i as int]@ == name@);
            return true;
        }
        i = i + 1;
    }
    assert(!seen_set(v@).contains(name@));
    false
}

} // verus!
