//! The registry: the set of tracked logical pane names and their bindings.

use vstd::prelude::*;

use crate::model::{PaneState, PaneStateV};

verus! {

/// Logical names are unique: no two entries share a name.
pub open spec fn wf_registry(reg: Seq<PaneStateV>) -> bool {
    forall|i: int, j: int| 0 <= i < j < reg.len() ==> reg[i].name != reg[j].name
}

/// `reg` has an entry named `name`.
pub open spec fn has_name(reg: Seq<PaneStateV>, name: Seq<char>) -> bool {
    exists|i: int| 0 <= i < reg.len() && reg[i].name == name
}

/// The index of the entry named `name`; meaningful only when `has_name`
/// holds, and then unique under `wf_registry`.
pub open spec fn name_index(reg: Seq<PaneStateV>, name: Seq<char>) -> int {
    choose|i: int| 0 <= i < reg.len() && reg[i].name == name
}

/// Under name uniqueness, an entry's position is exactly `name_index`.
pub proof fn lemma_name_index_unique(reg: Seq<PaneStateV>, name: Seq<char>, i: int)
    requires
        wf_registry(reg),
        0 <= i < reg.len(),
        reg[i].name == name,
    ensures
        has_name(reg, name),
        name_index(reg, name) == i,
{
    assert(has_name(reg, name));
    let j = name_index(reg, name);
    assert(0 <= j < reg.len() && reg[j].name == name);
    if i < j {
        assert(reg[i].name != reg[j].name);
    } else if j < i {
        assert(reg[j].name != reg[i].name);
    }
}

/// The in-memory map from logical name to pane state. Entries are kept in
/// creation order; an entry is never deleted, only unbound.
#[derive(Debug)]
pub struct Registry {
    pub entries: Vec<PaneState>,
}

impl View for Registry {
    type V = Seq<PaneStateV>;

    open spec fn view(&self) -> Seq<PaneStateV> {
        self.entries.deep_view()
    }
}

impl Registry {
    /// Invariant I1: at most one entry per logical name.
    pub open spec fn wf(&self) -> bool {
        wf_registry(self@)
    }

    /// An empty registry, tracking no names yet.
    pub fn new() -> (r: Registry)
        ensures
            r@ == Seq::<PaneStateV>::empty(),
            r.wf(),
    {
        let r = Registry { entries: Vec::new() };
        assert(r@ =~= Seq::<PaneStateV>::empty());
        r
    }

    /// Finds the position of the entry named `name`, if one exists.
    pub fn find_index(&self, name: &String) -> (r: Option<usize>)
        ensures
            match r {
                Some(i) => i < self@.len() && self@[i as int].name == name@,
                None => !has_name(self@, name@),
            },
    {
        let n = self.entries.len();
        let mut i: usize = 0;
        while i < n
            invariant
                n == self@.len(),
                i <= n,
                forall|k: int| 0 <= k < i ==> self@[k].name != name@,
            decreases n - i,
        {
            if self.entries[i].name == *name {
                return Some(i);
            }
            i += 1;
        }
        None
    }
}

} // verus!
