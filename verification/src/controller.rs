//! The visibility controller: open, toggle and close for a logical pane
//! name, driven by the registry and the latest inventory snapshot.

use vstd::prelude::*;

use crate::default_coordinates;
use crate::model::{
    clone_opt_string, opt_view, InstanceV, Intent, IntentV, PaneState, PaneStateV, Snapshot,
};
use crate::reconcile::{flatten_snapshot, reconcile_rename_intents, spec_reconcile};
use crate::registry::{has_name, lemma_name_index_unique, name_index, wf_registry, Registry};

verus! {

/// Mathematical model of the whole plugin state.
pub struct StateV {
    pub panes: Seq<PaneStateV>,
    pub manifest: Option<Seq<Seq<InstanceV>>>,
}

/// The process-wide state: the registry plus the last snapshot seen. It is
/// constructed once and threaded through every event-handling call.
#[derive(Debug)]
pub struct State {
    pub panes: Registry,
    pub manifest: Option<Snapshot>,
}

impl View for State {
    type V = StateV;

    open spec fn view(&self) -> StateV {
        StateV {
            panes: self.panes@,
            manifest: match self.manifest {
                Some(ref m) => Some(m@),
                None => None,
            },
        }
    }
}

/// A registry entry created or reset by `open`: spawn pending, with the
/// requested command and the default geometry remembered.
pub open spec fn fresh_entry(name: Seq<char>, command: Seq<char>) -> PaneStateV {
    PaneStateV {
        name: name,
        pane_id: None,
        command: command,
        coordinates: Some(default_coordinates()),
    }
}

/// The close intents `open` issues first: one per bound entry whose name is
/// not the target's, in registry order (the single-overlay policy).
pub open spec fn other_close_intents(reg: Seq<PaneStateV>, name: Seq<char>) -> Seq<IntentV>
    decreases reg.len(),
{
    if reg.len() == 0 {
        Seq::empty()
    } else {
        let head: Seq<IntentV> = match reg[0].pane_id {
            Some(id) => if reg[0].name != name {
                seq![IntentV::Close { id }]
            } else {
                Seq::empty()
            },
            None => Seq::empty(),
        };
        head + other_close_intents(reg.drop_first(), name)
    }
}

pub proof fn lemma_other_close_intents_snoc(reg: Seq<PaneStateV>, e: PaneStateV, name: Seq<char>)
    ensures
        other_close_intents(reg.push(e), name) == other_close_intents(reg, name)
            + other_close_intents(seq![e], name),
    decreases reg.len(),
{
    let pe = reg.push(e);
    assert(seq![e].drop_first() =~= Seq::<PaneStateV>::empty());
    if reg.len() == 0 {
        assert(pe[0] == e);
        assert(pe.drop_first() =~= Seq::<PaneStateV>::empty());
        assert(other_close_intents(pe, name) =~= other_close_intents(reg, name)
            + other_close_intents(seq![e], name));
    } else {
        assert(pe.drop_first() =~= reg.drop_first().push(e));
        assert(pe[0] == reg[0]);
        lemma_other_close_intents_snoc(reg.drop_first(), e, name);
        assert(other_close_intents(pe, name) =~= other_close_intents(reg, name)
            + other_close_intents(seq![e], name));
    }
}

/// The instance id the entry named `name` is bound to, if such an entry
/// exists and is bound.
pub open spec fn bound_id(reg: Seq<PaneStateV>, name: Seq<char>) -> Option<u32> {
    if has_name(reg, name) {
        reg[name_index(reg, name)].pane_id
    } else {
        None
    }
}

/// The registry after `open`: an already bound target is left alone;
/// otherwise the target entry is created or reset to a fresh pending entry.
pub open spec fn spec_open_registry(
    reg: Seq<PaneStateV>,
    name: Seq<char>,
    command: Seq<char>,
) -> Seq<PaneStateV> {
    if has_name(reg, name) {
        if reg[name_index(reg, name)].pane_id is Some {
            reg
        } else {
            reg.update(name_index(reg, name), fresh_entry(name, command))
        }
    } else {
        reg.push(fresh_entry(name, command))
    }
}

/// The intents `open` issues: close intents for every other bound entry,
/// then either a focus of the already bound target or a spawn with the
/// default geometry, tagged with the target's name.
pub open spec fn spec_open_intents(
    reg: Seq<PaneStateV>,
    name: Seq<char>,
    command: Seq<char>,
    cwd: Option<Seq<char>>,
) -> Seq<IntentV> {
    other_close_intents(reg, name) + match bound_id(reg, name) {
        Some(id) => seq![IntentV::Focus { id }],
        None => seq![
            IntentV::Spawn {
                command: command,
                cwd: cwd,
                coordinates: default_coordinates(),
                context_name: name,
            },
        ],
    }
}

/// The first instance in the flattened snapshot carrying `id`, regardless of
/// kind or visibility.
pub open spec fn find_by_id(insts: Seq<InstanceV>, id: u32) -> Option<InstanceV>
    decreases insts.len(),
{
    if insts.len() == 0 {
        None
    } else if insts[0].id == id {
        Some(insts[0])
    } else {
        find_by_id(insts.drop_first(), id)
    }
}

/// The intents that show a hidden pane again: show it, then restore its
/// remembered geometry when one is stored.
pub open spec fn show_intents(id: u32, coordinates: Option<crate::model::Coordinates>) -> Seq<
    IntentV,
> {
    match coordinates {
        Some(c) => seq![IntentV::Show { id }, IntentV::Reposition { id, coordinates: c }],
        None => seq![IntentV::Show { id }],
    }
}

/// The state and intents after `toggle`: a bound entry whose instance the
/// last snapshot reports is shown (with positional restore) when hidden and
/// hidden when visible; in every other case toggle opens.
pub open spec fn spec_toggle(
    s: StateV,
    name: Seq<char>,
    command: Seq<char>,
    cwd: Option<Seq<char>>,
) -> (StateV, Seq<IntentV>) {
    match bound_id(s.panes, name) {
        Some(id) => match s.manifest {
            Some(m) => match find_by_id(m.flatten(), id) {
                Some(inst) => (
                    s,
                    if inst.is_hidden {
                        show_intents(id, s.panes[name_index(s.panes, name)].coordinates)
                    } else {
                        seq![IntentV::Hide { id }]
                    },
                ),
                None => spec_open(s, name, command, cwd),
            },
            None => spec_open(s, name, command, cwd),
        },
        None => spec_open(s, name, command, cwd),
    }
}

/// The state and intents after `open`.
pub open spec fn spec_open(
    s: StateV,
    name: Seq<char>,
    command: Seq<char>,
    cwd: Option<Seq<char>>,
) -> (StateV, Seq<IntentV>) {
    (
        StateV { panes: spec_open_registry(s.panes, name, command), manifest: s.manifest },
        spec_open_intents(s.panes, name, command, cwd),
    )
}

/// The state and intents after `close`: a bound target is closed at the host
/// and optimistically unbound locally; otherwise nothing happens.
pub open spec fn spec_close(s: StateV, name: Seq<char>) -> (StateV, Seq<IntentV>) {
    match bound_id(s.panes, name) {
        Some(id) => (
            StateV {
                panes: s.panes.update(
                    name_index(s.panes, name),
                    PaneStateV {
                        pane_id: None,
                        ..s.panes[name_index(s.panes, name)]
                    },
                ),
                manifest: s.manifest,
            },
            seq![IntentV::Close { id }],
        ),
        None => (s, Seq::empty()),
    }
}

impl State {
    /// Well-formed state: the registry keeps names unique.
    pub open spec fn wf(&self) -> bool {
        self.panes.wf()
    }

    /// A fresh state: empty registry, no snapshot seen yet.
    pub fn new() -> (s: State)
        ensures
            s@.panes == Seq::<PaneStateV>::empty(),
            s@.manifest is None,
            s.wf(),
    {
        State { panes: Registry::new(), manifest: None }
    }

    /// Feeds one inventory snapshot to the reconciliation engine and
    /// remembers it as the latest host truth.
    pub fn on_pane_update(&mut self, snapshot: Snapshot) -> (intents: Vec<Intent>)
        ensures
            final(self)@.panes == spec_reconcile(old(self)@.panes, snapshot@.flatten()),
            final(self)@.manifest == Some(snapshot@),
            intents.deep_view() == reconcile_rename_intents(old(self)@.panes, snapshot@.flatten()),
            old(self).wf() ==> final(self).wf(),
    {
        let intents = self.panes.reconcile(&snapshot);
        self.manifest = Some(snapshot);
        intents
    }

    /// Opens the overlay `name`: closes every other tracked overlay first
    /// (single-overlay policy), then focuses the target when it is already
    /// bound, or spawns it with the default geometry and records a pending
    /// entry to be bound by the next reconciliation.
    pub fn open_pane(&mut self, name: &str, command: &str, cwd: &Option<String>) -> (intents: Vec<
        Intent,
    >)
        requires
            old(self).wf(),
        ensures
            final(self).wf(),
            (final(self)@, intents.deep_view()) == spec_open(
                old(self)@,
                name@,
                command@,
                opt_view(*cwd),
            ),
    {
        let name_owned: String = name.to_owned();
        let mut intents: Vec<Intent> = Vec::new();
        let n = self.panes.entries.len();
        assert(self@.panes.take(0) =~= Seq::<PaneStateV>::empty());
        let mut i: usize = 0;
        while i < n
            invariant
                n == self@.panes.len(),
                i <= n,
                name_owned@ == name@,
                intents.deep_view() == other_close_intents(self@.panes.take(i as int), name@),
            decreases n - i,
        {
            let e = &self.panes.entries[i];
            let ghost ev = self@.panes[i as int];
            proof {
                assert(e@ == ev);
            }
            let ghost pre = intents.deep_view();
            if !(e.name == name_owned) {
                if let Some(id) = e.pane_id {
                    intents.push(Intent::Close { id });
                }
            }
            proof {
                assert(seq![ev].len() == 1 && seq![ev][0] == ev);
                assert(seq![ev].drop_first() =~= Seq::<PaneStateV>::empty());
                assert(other_close_intents(seq![ev].drop_first(), name@)
                    == Seq::<IntentV>::empty());
                assert(intents.deep_view() =~= pre + other_close_intents(seq![ev], name@));
                lemma_other_close_intents_snoc(self@.panes.take(i as int), ev, name@);
                assert(self@.panes.take(i as int).push(ev) =~= self@.panes.take(i as int + 1));
                assert(intents.deep_view() == other_close_intents(
                    self@.panes.take(i as int + 1),
                    name@,
                ));
            }
            i += 1;
        }
        proof {
            assert(self@.panes.take(n as int) =~= self@.panes);
        }
        let target = self.panes.find_index(&name_owned);
        if let Some(ti) = target {
            proof {
                lemma_name_index_unique(self@.panes, name@, ti as int);
            }
            if let Some(id) = self.panes.entries[ti].pane_id {
                intents.push(Intent::Focus { id });
                proof {
                    assert(intents.deep_view() =~= spec_open_intents(
                        self@.panes,
                        name@,
                        command@,
                        opt_view(*cwd),
                    ));
                }
                return intents;
            }
        }
        let coordinates = crate::model::Coordinates { x: 10, y: 10, width: 80, height: 80 };
        assert(coordinates == default_coordinates());
        intents.push(
            Intent::Spawn {
                command: command.to_owned(),
                cwd: clone_opt_string(cwd),
                coordinates,
                context_name: name_owned.clone(),
            },
        );
        let entry = PaneState {
            name: name_owned,
            pane_id: None,
            command: command.to_owned(),
            coordinates: Some(coordinates),
        };
        let ghost pre_reg = self@.panes;
        match target {
            Some(ti) => {
                self.panes.entries[ti] = entry;
                proof {
                    assert(self@.panes =~= pre_reg.update(ti as int, fresh_entry(name@, command@)));
                }
            },
            None => {
                self.panes.entries.push(entry);
                proof {
                    assert(self@.panes =~= pre_reg.push(fresh_entry(name@, command@)));
                }
            },
        }
        proof {
            assert(wf_registry(self@.panes));
            assert(intents.deep_view() =~= spec_open_intents(pre_reg, name@, command@, opt_view(
                *cwd,
            )));
        }
        intents
    }

    /// Toggles the overlay `name`: hides it when visible, shows it (and
    /// restores its remembered geometry) when hidden, and falls back to
    /// `open_pane` when it is unbound, untracked, or missing from the last
    /// snapshot.
    pub fn toggle_pane(&mut self, name: &str, command: &str, cwd: &Option<String>) -> (intents:
        Vec<Intent>)
        requires
            old(self).wf(),
        ensures
            final(self).wf(),
            (final(self)@, intents.deep_view()) == spec_toggle(
                old(self)@,
                name@,
                command@,
                opt_view(*cwd),
            ),
    {
        let name_owned: String = name.to_owned();
        if let Some(ti) = self.panes.find_index(&name_owned) {
            proof {
                lemma_name_index_unique(self@.panes, name@, ti as int);
            }
            let entry = &self.panes.entries[ti];
            if let Some(id) = entry.pane_id {
                let coordinates = entry.coordinates;
                let mut hidden: Option<bool> = None;
                if let Some(m) = &self.manifest {
                    let flat = flatten_snapshot(m);
                    hidden = lookup_hidden(&flat, id);
                }
                match hidden {
                    Some(true) => {
                        let mut intents: Vec<Intent> = Vec::new();
                        intents.push(Intent::Show { id });
                        if let Some(c) = coordinates {
                            intents.push(Intent::Reposition { id, coordinates: c });
                        }
                        proof {
                            assert(intents.deep_view() =~= show_intents(id, coordinates));
                        }
                        return intents;
                    },
                    Some(false) => {
                        let mut intents: Vec<Intent> = Vec::new();
                        intents.push(Intent::Hide { id });
                        proof {
                            assert(intents.deep_view() =~= seq![IntentV::Hide { id }]);
                        }
                        return intents;
                    },
                    None => {},
                }
            }
        }
        self.open_pane(name, command, cwd)
    }

    /// Closes the overlay `name`: when bound, asks the host to close the
    /// instance and clears the binding immediately (the next snapshot's
    /// prune then confirms it). Unbound or untracked names are a no-op.
    pub fn close_pane(&mut self, name: &str) -> (intents: Vec<Intent>)
        requires
            old(self).wf(),
        ensures
            final(self).wf(),
            (final(self)@, intents.deep_view()) == spec_close(old(self)@, name@),
    {
        let name_owned: String = name.to_owned();
        let mut intents: Vec<Intent> = Vec::new();
        if let Some(ti) = self.panes.find_index(&name_owned) {
            proof {
                lemma_name_index_unique(self@.panes, name@, ti as int);
            }
            if let Some(id) = self.panes.entries[ti].pane_id {
                intents.push(Intent::Close { id });
                let ghost pre_reg = self@.panes;
                let e = &self.panes.entries[ti];
                let cleared = PaneState {
                    name: e.name.clone(),
                    pane_id: None,
                    command: e.command.clone(),
                    coordinates: e.coordinates,
                };
                self.panes.entries[ti] = cleared;
                proof {
                    assert(self@.panes =~= pre_reg.update(
                        ti as int,
                        PaneStateV { pane_id: None, ..pre_reg[ti as int] },
                    ));
                    assert(wf_registry(self@.panes));
                    assert(intents.deep_view() =~= seq![
                        IntentV::Close { id: bound_id(pre_reg, name@).unwrap() },
                    ]);
                }
                return intents;
            }
        }
        proof {
            assert(intents.deep_view() =~= Seq::<IntentV>::empty());
        }
        intents
    }
}

/// Whether the first instance in `flat` carrying `id` is hidden, when one
/// exists at all.
fn lookup_hidden(flat: &Vec<crate::model::InstanceInfo>, id: u32) -> (r: Option<bool>)
    ensures
        match find_by_id(flat.deep_view(), id) {
            Some(inst) => r == Some(inst.is_hidden),
            None => r is None,
        },
{
    let v = Ghost(flat.deep_view());
    let n = flat.len();
    assert(v@.skip(0) =~= v@);
    let mut k: usize = 0;
    while k < n
        invariant
            v@ == flat.deep_view(),
            n == v@.len(),
            k <= n,
            find_by_id(v@, id) == find_by_id(v@.skip(k as int), id),
        decreases n - k,
    {
        let inst = &flat[k];
        proof {
            assert(v@.skip(k as int)[0] == v@[k as int]);
            assert(inst@ == v@[k as int]);
        }
        if inst.id == id {
            return Some(inst.is_hidden);
        }
        proof {
            assert(v@.skip(k as int).drop_first() =~= v@.skip(k as int + 1));
        }
        k += 1;
    }
    proof {
        assert(v@.skip(n as int) =~= Seq::<InstanceV>::empty());
    }
    None
}

} // verus!
