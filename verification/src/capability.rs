//! The capability vocabulary: the things you can DO with a value, live or
//! reserved, and where each name may be written. One list, asked rather
//! than enumerated.

use vstd::prelude::*;

verus! {

/// One capability: a thing you can do with a value, and where its name
/// may be written. A table of facts; every layer that asks phrases its own
/// refusal.
#[derive(Clone, Copy, Debug)]
pub struct Capability {
    pub name: &'static str,
    /// Whether a `type` declaration may name it in its capability clause.
    pub clause: bool,
    /// Whether a generic body may require it of a parameter (`T: forget`).
    pub bound: bool,
}

/// The view of a [`Capability`].
pub struct CapabilityView {
    pub name: Seq<char>,
    pub clause: bool,
    pub bound: bool,
}

impl View for Capability {
    type V = CapabilityView;

    open spec fn view(&self) -> CapabilityView {
        CapabilityView { name: self.name@, clause: self.clause, bound: self.bound }
    }
}

/// The capability vocabulary, in order. `forget` is the only capability
/// that exists; the others are reserved names that mean nothing yet.
pub open spec fn capability_table() -> Seq<CapabilityView> {
    seq![
        CapabilityView { name: "forget"@, clause: true, bound: true },
        CapabilityView { name: "send"@, clause: false, bound: false },
        CapabilityView { name: "sync"@, clause: false, bound: false },
        CapabilityView { name: "destruct"@, clause: false, bound: false },
    ]
}

/// The first entry of the vocabulary, from index `i` on, named `name`.
pub open spec fn find_capability(name: Seq<char>, i: int) -> Option<CapabilityView>
    decreases capability_table().len() - i,
{
    if i < 0 || i >= capability_table().len() {
        None
    } else if capability_table()[i].name == name {
        Some(capability_table()[i])
    } else {
        find_capability(name, i + 1)
    }
}

/// The capability `name` spells, if it spells one.
pub open spec fn spec_capability_named(name: Seq<char>) -> Option<CapabilityView> {
    find_capability(name, 0)
}

/// The capability vocabulary as values.
pub fn capabilities() -> (v: Vec<Capability>)
    ensures
        v@.map_values(|c: Capability| c@) == capability_table(),
{
    let v = vec![
        Capability { name: "forget", clause: true, bound: true },
        Capability { name: "send", clause: false, bound: false },
        Capability { name: "sync", clause: false, bound: false },
        Capability { name: "destruct", clause: false, bound: false },
    ];
    assert(v@.map_values(|c: Capability| c@) =~= capability_table());
    v
}

/// The capability `name` spells, if it spells one. Deliberately
/// scope-free: the vocabulary is the language's, so no file can declare its
/// way into or out of one.
pub fn capability_named(name: &str) -> (r: Option<Capability>)
    ensures
        match r {
            Some(c) => spec_capability_named(name@) == Some(c@),
            None => spec_capability_named(name@) is None,
        },
{
    let table = capabilities();
    let wanted = String::from_str(name);
    let mut i: usize = 0;
    while i < table.len()
        invariant
            i <= table@.len(),
            table@.map_values(|c: Capability| c@) == capability_table(),
            wanted@ == name@,
            spec_capability_named(name@) == find_capability(name@, i as int),
        decreases table.len() - i,
    {
        let candidate = String::from_str(table[i].name);
        assert(table@.map_values(|c: Capability| c@)[i as int] == table@[i as int]@);
        if candidate == wanted {
            return Some(table[i]);
        }
        i = i + 1;
    }
    None
}

/// `forget` is the only capability a `type` declaration can shed, and the
/// only one a bound can ask for: every other name is reserved.
pub proof fn forget_is_the_only_live_capability(name: Seq<char>)
    ensures
        spec_capability_named(name) matches Some(c) ==> (c.clause <==> name == "forget"@),
        spec_capability_named(name) matches Some(c) ==> (c.bound <==> name == "forget"@),
{
    capability_classes(name);
}

/// The three classes of names: `forget` is a live capability; `send`,
/// `sync` and `destruct` are reserved ones; every other name is no
/// capability at all.
pub proof fn capability_classes(name: Seq<char>)
    ensures
        (spec_capability_named(name) matches Some(c) && c.clause && c.bound) <==> name == "forget"@,
        (spec_capability_named(name) matches Some(c) && !c.clause && !c.bound) <==> (name == "send"@ || name
            == "sync"@ || name == "destruct"@),
        spec_capability_named(name) is None <==> !(name == "forget"@ || name == "send"@ || name == "sync"@ || name
            == "destruct"@),
{
    reveal_with_fuel(find_capability, 5);
    reveal_strlit("forget");
    reveal_strlit("send");
    reveal_strlit("sync");
    reveal_strlit("destruct");
    assert("forget"@ != "send"@) by {
        assert("forget"@.len() != "send"@.len());
    }
    assert("forget"@ != "sync"@) by {
        assert("forget"@.len() != "sync"@.len());
    }
    assert("forget"@ != "destruct"@) by {
        assert("forget"@.len() != "destruct"@.len());
    }
    assert("send"@ != "sync"@) by {
        assert("send"@[1] != "sync"@[1]);
    }
    assert("send"@ != "destruct"@) by {
        assert("send"@.len() != "destruct"@.len());
    }
    assert("sync"@ != "destruct"@) by {
        assert("sync"@.len() != "destruct"@.len());
    }
}

/// A name spells a capability exactly when the vocabulary lists it, and
/// then it spells the first entry so named.
pub proof fn capability_named_reads_the_table(name: Seq<char>)
    ensures
        spec_capability_named(name) is Some <==> exists|i: int|
            0 <= i < capability_table().len() && #[trigger] capability_table()[i].name == name,
        spec_capability_named(name) matches Some(c) ==> c.name == name,
{
    reveal_with_fuel(find_capability, 5);
    if spec_capability_named(name) is None {
        assert forall|i: int| 0 <= i < capability_table().len() implies #[trigger] capability_table()[i].name != name by {
        }
    } else {
    }
}

} // verus!
