//! The reconciliation engine: deriving correct bindings from a host
//! inventory snapshot given prior, possibly stale, registry state.
//!
//! Each snapshot is treated as the full current truth. Reconciliation runs
//! two phases over every entry: prune a binding whose instance is gone, then
//! bind a pending entry to the first matching instance, preferring an exact
//! title match over a spawn-command substring match. A substring bind also
//! issues a rename intent so later passes take the exact-title path.

use vstd::prelude::*;

use crate::model::{InstanceInfo, InstanceV, Intent, IntentV, PaneState, PaneStateV, Snapshot};
use crate::registry::Registry;
use crate::text::{contains_sub, is_substr};

verus! {

/// A non-plugin instance with this id is present somewhere in the snapshot.
pub open spec fn is_live(insts: Seq<InstanceV>, id: u32) -> bool {
    exists|k: int| 0 <= k < insts.len() && !insts[k].is_plugin && insts[k].id == id
}

/// Phase 1, per entry: a binding to an instance that no non-plugin instance
/// id confirms is cleared; everything else is untouched.
pub open spec fn prune_entry(e: PaneStateV, insts: Seq<InstanceV>) -> PaneStateV {
    match e.pane_id {
        Some(id) => if is_live(insts, id) {
            e
        } else {
            PaneStateV { pane_id: None, ..e }
        },
        None => e,
    }
}

/// The instance's title equals the entry's logical name exactly.
pub open spec fn title_matches(inst: InstanceV, name: Seq<char>) -> bool {
    !inst.is_plugin && inst.title == name
}

/// The entry's spawn command occurs in the command the instance reports.
/// The rule applies only when a command is reported at all: an instance
/// without one is never matched by it.
pub open spec fn command_matches(inst: InstanceV, command: Seq<char>) -> bool {
    &&& !inst.is_plugin
    &&& match inst.terminal_command {
        Some(t) => is_substr(command, t),
        None => false,
    }
}

/// How an entry was correlated to an instance.
pub struct MatchV {
    pub id: u32,
    /// True for an exact title match, false for a command-substring match.
    pub by_title: bool,
}

/// The first instance, in snapshot order, that matches the entry either by
/// title or by command substring; per instance the title rule is tried first.
pub open spec fn first_match(name: Seq<char>, command: Seq<char>, insts: Seq<InstanceV>) -> Option<
    MatchV,
>
    decreases insts.len(),
{
    if insts.len() == 0 {
        None
    } else if title_matches(insts[0], name) {
        Some(MatchV { id: insts[0].id, by_title: true })
    } else if command_matches(insts[0], command) {
        Some(MatchV { id: insts[0].id, by_title: false })
    } else {
        first_match(name, command, insts.drop_first())
    }
}

/// Phase 2, per entry: a pending entry is bound to its first match, if any;
/// a bound entry is never reconsidered.
pub open spec fn bind_entry(e: PaneStateV, insts: Seq<InstanceV>) -> PaneStateV {
    match e.pane_id {
        Some(_) => e,
        None => match first_match(e.name, e.command, insts) {
            Some(m) => PaneStateV { pane_id: Some(m.id), ..e },
            None => e,
        },
    }
}

/// Both phases applied to one entry.
pub open spec fn reconcile_entry(e: PaneStateV, insts: Seq<InstanceV>) -> PaneStateV {
    bind_entry(prune_entry(e, insts), insts)
}

/// The registry after reconciling against the flattened snapshot `insts`:
/// entries are reconciled independently, in place.
pub open spec fn spec_reconcile(reg: Seq<PaneStateV>, insts: Seq<InstanceV>) -> Seq<PaneStateV> {
    reg.map_values(|e: PaneStateV| reconcile_entry(e, insts))
}

/// The rename intents one entry contributes: exactly one, when the entry is
/// bound in this pass by a command-substring match.
pub open spec fn entry_rename_intents(e: PaneStateV, insts: Seq<InstanceV>) -> Seq<IntentV> {
    let p = prune_entry(e, insts);
    match p.pane_id {
        Some(_) => Seq::empty(),
        None => match first_match(e.name, e.command, insts) {
            Some(m) => if m.by_title {
                Seq::empty()
            } else {
                seq![IntentV::Rename { id: m.id, title: e.name }]
            },
            None => Seq::empty(),
        },
    }
}

/// All rename intents of one reconciliation pass, in registry order.
pub open spec fn reconcile_rename_intents(reg: Seq<PaneStateV>, insts: Seq<InstanceV>) -> Seq<
    IntentV,
>
    decreases reg.len(),
{
    if reg.len() == 0 {
        Seq::empty()
    } else {
        entry_rename_intents(reg[0], insts) + reconcile_rename_intents(reg.drop_first(), insts)
    }
}

pub proof fn lemma_rename_intents_snoc(reg: Seq<PaneStateV>, e: PaneStateV, insts: Seq<InstanceV>)
    ensures
        reconcile_rename_intents(reg.push(e), insts) == reconcile_rename_intents(reg, insts)
            + entry_rename_intents(e, insts),
    decreases reg.len(),
{
    let pe = reg.push(e);
    assert(pe.len() == reg.len() + 1);
    if reg.len() == 0 {
        assert(pe[0] == e);
        assert(pe.drop_first() =~= Seq::<PaneStateV>::empty());
        assert(reconcile_rename_intents(pe.drop_first(), insts) == Seq::<IntentV>::empty());
        assert(reconcile_rename_intents(pe, insts) == entry_rename_intents(e, insts)
            + Seq::<IntentV>::empty());
        assert(reconcile_rename_intents(reg, insts) == Seq::<IntentV>::empty());
        assert(reconcile_rename_intents(pe, insts) =~= reconcile_rename_intents(reg, insts)
            + entry_rename_intents(e, insts));
    } else {
        assert(pe.drop_first() =~= reg.drop_first().push(e));
        assert(pe[0] == reg[0]);
        lemma_rename_intents_snoc(reg.drop_first(), e, insts);
        assert(reconcile_rename_intents(pe, insts) == entry_rename_intents(reg[0], insts) + (
        reconcile_rename_intents(reg.drop_first(), insts) + entry_rename_intents(e, insts)));
        assert(reconcile_rename_intents(pe, insts) =~= reconcile_rename_intents(reg, insts)
            + entry_rename_intents(e, insts));
    }
}

/// Flattens a snapshot into one instance list, preserving group order and
/// in-group order.
pub fn flatten_snapshot(s: &Snapshot) -> (flat: Vec<InstanceInfo>)
    ensures
        flat.deep_view() == s@.flatten(),
{
    broadcast use vstd::seq_lib::group_seq_lib_default;

    let mut flat: Vec<InstanceInfo> = Vec::new();
    assert(flat.deep_view() =~= s@.take(0).flatten());
    let ng = s.groups.len();
    let mut gi: usize = 0;
    while gi < ng
        invariant
            ng == s@.len(),
            gi <= ng,
            flat.deep_view() =~= s@.take(gi as int).flatten(),
        decreases ng - gi,
    {
        let group = &s.groups[gi];
        let nk = group.instances.len();
        let mut k: usize = 0;
        while k < nk
            invariant
                ng == s@.len(),
                gi < ng,
                nk == s@[gi as int].len(),
                k <= nk,
                group == &s.groups[gi as int],
                flat.deep_view() =~= s@.take(gi as int).flatten() + s@[gi as int].take(k as int),
            decreases nk - k,
        {
            let inst = &group.instances[k];
            let ghost pre = flat.deep_view();
            let copy = InstanceInfo {
                id: inst.id,
                title: inst.title.clone(),
                terminal_command: crate::model::clone_opt_string(&inst.terminal_command),
                is_plugin: inst.is_plugin,
                is_hidden: inst.is_hidden,
            };
            proof {
                assert(copy@ == inst@);
                assert(inst@ == group@[k as int]);
                assert(group@ == s@[gi as int]);
            }
            flat.push(copy);
            proof {
                assert(flat.deep_view() =~= pre.push(s@[gi as int][k as int]));
                assert(s@[gi as int].take(k as int + 1) =~= s@[gi as int].take(k as int).push(
                    s@[gi as int][k as int],
                ));
                assert(flat.deep_view() =~= s@.take(gi as int).flatten() + s@[gi as int].take(
                    k as int + 1,
                ));
            }
            k += 1;
        }
        proof {
            assert(s@[gi as int].take(nk as int) =~= s@[gi as int]);
            assert(s@.take(gi as int).push(s@[gi as int]) =~= s@.take(gi as int + 1));
            Seq::lemma_flatten_push(s@.take(gi as int), s@[gi as int]);
            assert(flat.deep_view() =~= s@.take(gi as int + 1).flatten());
        }
        gi += 1;
    }
    proof {
        assert(s@.take(ng as int) =~= s@);
    }
    flat
}

/// Whether any non-plugin instance in `flat` carries `id`.
fn contains_live_id(flat: &Vec<InstanceInfo>, id: u32) -> (b: bool)
    ensures
        b == is_live(flat.deep_view(), id),
{
    let n = flat.len();
    let mut k: usize = 0;
    while k < n
        invariant
            n == flat.deep_view().len(),
            k <= n,
            forall|k2: int| 0 <= k2 < k ==> !(!flat.deep_view()[k2].is_plugin
                && flat.deep_view()[k2].id == id),
        decreases n - k,
    {
        if !flat[k].is_plugin && flat[k].id == id {
            proof {
                assert(!flat.deep_view()[k as int].is_plugin && flat.deep_view()[k as int].id
                    == id);
                assert(is_live(flat.deep_view(), id));
            }
            return true;
        }
        k += 1;
    }
    false
}

/// Scans `flat` in order for the first instance matching the entry, by exact
/// title or by command substring; returns its id and whether the title rule
/// applied.
fn find_first_match(name: &String, command: &String, flat: &Vec<InstanceInfo>) -> (r: Option<
    (u32, bool),
>)
    ensures
        match first_match(name@, command@, flat.deep_view()) {
            Some(m) => r == Some((m.id, m.by_title)),
            None => r is None,
        },
{
    let v = Ghost(flat.deep_view());
    let n = flat.len();
    assert(v@.skip(0) =~= v@);
    let mut k: usize = 0;
    while k < n
        invariant
            v@ == flat.deep_view(),
            n == v@.len(),
            k <= n,
            first_match(name@, command@, v@) == first_match(name@, command@, v@.skip(k as int)),
        decreases n - k,
    {
        let inst = &flat[k];
        proof {
            assert(v@.skip(k as int)[0] == v@[k as int]);
            assert(inst@ == v@[k as int]);
        }
        if !inst.is_plugin {
            if inst.title == *name {
                return Some((inst.id, true));
            }
            let cmd_match = match &inst.terminal_command {
                Some(tc) => contains_sub(command.as_str(), tc.as_str()),
                None => false,
            };
            if cmd_match {
                return Some((inst.id, false));
            }
        }
        proof {
            assert(v@.skip(k as int).drop_first() =~= v@.skip(k as int + 1));
        }
        k += 1;
    }
    proof {
        assert(v@.skip(n as int) =~= Seq::<InstanceV>::empty());
    }
    None
}

impl Registry {
    /// Reconciles the registry against a snapshot: prunes bindings to
    /// vanished instances, binds pending entries to the first matching
    /// instance, and returns the rename intents the bind phase issued, in
    /// registry order. Logical names are never added, removed or reordered.
    pub fn reconcile(&mut self, snapshot: &Snapshot) -> (intents: Vec<Intent>)
        ensures
            final(self)@ == spec_reconcile(old(self)@, snapshot@.flatten()),
            intents.deep_view() == reconcile_rename_intents(old(self)@, snapshot@.flatten()),
            old(self).wf() ==> final(self).wf(),
    {
        let flat = flatten_snapshot(snapshot);
        let v = Ghost(snapshot@.flatten());
        let n = self.entries.len();
        let mut new_entries: Vec<PaneState> = Vec::new();
        let mut intents: Vec<Intent> = Vec::new();
        assert(intents.deep_view() =~= reconcile_rename_intents(self@.take(0), v@));
        let mut i: usize = 0;
        while i < n
            invariant
                v@ == flat.deep_view(),
                n == self@.len(),
                i <= n,
                new_entries.deep_view().len() == i,
                forall|j: int| 0 <= j < i ==> new_entries.deep_view()[j] == reconcile_entry(
                    self@[j],
                    v@,
                ),
                intents.deep_view() == reconcile_rename_intents(self@.take(i as int), v@),
            decreases n - i,
        {
            let e = &self.entries[i];
            let ghost ev = self@[i as int];
            proof {
                assert(e@ == ev);
            }
            let pruned_id: Option<u32> = match e.pane_id {
                Some(id) => if contains_live_id(&flat, id) {
                    Some(id)
                } else {
                    None
                },
                None => None,
            };
            proof {
                assert(prune_entry(ev, v@) == PaneStateV { pane_id: pruned_id, ..ev });
            }
            let mut bound_id: Option<u32> = pruned_id;
            let ghost pre_intents = intents.deep_view();
            if pruned_id.is_none() {
                match find_first_match(&e.name, &e.command, &flat) {
                    Some((id, by_title)) => {
                        bound_id = Some(id);
                        if !by_title {
                            intents.push(Intent::Rename { id, title: e.name.clone() });
                        }
                    },
                    None => {},
                }
            }
            proof {
                assert(reconcile_entry(ev, v@) == PaneStateV { pane_id: bound_id, ..ev });
                assert(intents.deep_view() =~= pre_intents + entry_rename_intents(ev, v@));
            }
            let ghost pre_entries = new_entries.deep_view();
            new_entries.push(
                PaneState {
                    name: e.name.clone(),
                    pane_id: bound_id,
                    command: e.command.clone(),
                    coordinates: e.coordinates,
                },
            );
            proof {
                assert(new_entries.deep_view() =~= pre_entries.push(reconcile_entry(ev, v@)));
                lemma_rename_intents_snoc(self@.take(i as int), ev, v@);
                assert(self@.take(i as int).push(ev) =~= self@.take(i as int + 1));
                assert(intents.deep_view() == reconcile_rename_intents(
                    self@.take(i as int + 1),
                    v@,
                ));
            }
            i += 1;
        }
        proof {
            assert(self@.take(n as int) =~= self@);
            assert(new_entries.deep_view() =~= spec_reconcile(self@, v@));
        }
        self.entries = new_entries;
        intents
    }
}

} // verus!
