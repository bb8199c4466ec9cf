//! Laws of the library, proved once and for all inputs: idempotent
//! reconciliation, pruning, the single-overlay policy, the toggle round
//! trip, and rebinding after an out-of-band close.

use vstd::prelude::*;

use crate::controller::{
    bound_id, find_by_id, other_close_intents, show_intents, spec_open_intents, spec_toggle,
    StateV,
};
use crate::model::{InstanceV, IntentV, PaneStateV};
use crate::reconcile::{
    bind_entry, entry_rename_intents, first_match, is_live, prune_entry, reconcile_entry,
    reconcile_rename_intents, spec_reconcile, MatchV,
};
use crate::registry::{lemma_name_index_unique, wf_registry};

verus! {

/// An instance returned by the matching scan is always live: both rules skip
/// plugin instances, so the returned id belongs to a non-plugin instance of
/// the very snapshot that was scanned.
pub proof fn lemma_first_match_live(
    name: Seq<char>,
    command: Seq<char>,
    insts: Seq<InstanceV>,
    m: MatchV,
)
    requires
        first_match(name, command, insts) == Some(m),
    ensures
        is_live(insts, m.id),
    decreases insts.len(),
{
    if insts.len() == 0 {
    } else if crate::reconcile::title_matches(insts[0], name) || crate::reconcile::command_matches(
        insts[0],
        command,
    ) {
        assert(!insts[0].is_plugin && insts[0].id == m.id);
        assert(is_live(insts, m.id));
    } else {
        lemma_first_match_live(name, command, insts.drop_first(), m);
        let k = choose|k: int|
            0 <= k < insts.drop_first().len() && !insts.drop_first()[k].is_plugin
                && insts.drop_first()[k].id == m.id;
        assert(insts[k + 1] == insts.drop_first()[k]);
        assert(is_live(insts, m.id));
    }
}

/// Reconciling one entry twice against the same snapshot equals reconciling
/// it once.
pub proof fn lemma_reconcile_entry_idempotent(e: PaneStateV, insts: Seq<InstanceV>)
    ensures
        reconcile_entry(reconcile_entry(e, insts), insts) == reconcile_entry(e, insts),
{
    let e1 = reconcile_entry(e, insts);
    let p = prune_entry(e, insts);
    match e1.pane_id {
        Some(id) => {
            if p.pane_id is Some {
                // The old binding survived the prune, so the instance is live
                // and the second pass keeps the entry untouched.
                assert(is_live(insts, id));
            } else {
                // The entry was bound by this pass, so its instance was
                // matched in this snapshot and is live.
                let m = first_match(e.name, e.command, insts);
                lemma_first_match_live(e.name, e.command, insts, m.unwrap());
                assert(is_live(insts, id));
            }
            assert(prune_entry(e1, insts) == e1);
            assert(bind_entry(e1, insts) == e1);
        },
        None => {
            // The entry stayed pending: no instance matched, and the same
            // snapshot still offers no match.
            assert(e1 == p);
            assert(first_match(e1.name, e1.command, insts) is None);
            assert(prune_entry(e1, insts) == e1);
            assert(bind_entry(e1, insts) == e1);
        },
    }
}

/// A registry whose entries all contribute no rename emits no rename at all.
proof fn lemma_rename_intents_all_empty(reg: Seq<PaneStateV>, insts: Seq<InstanceV>)
    requires
        forall|i: int| 0 <= i < reg.len() ==> entry_rename_intents(reg[i], insts)
            == Seq::<IntentV>::empty(),
    ensures
        reconcile_rename_intents(reg, insts) == Seq::<IntentV>::empty(),
    decreases reg.len(),
{
    if reg.len() > 0 {
        assert(entry_rename_intents(reg[0], insts) == Seq::<IntentV>::empty());
        assert(forall|i: int| 0 <= i < reg.drop_first().len() ==> entry_rename_intents(
            reg.drop_first()[i],
            insts,
        ) == Seq::<IntentV>::empty());
        lemma_rename_intents_all_empty(reg.drop_first(), insts);
        assert(reconcile_rename_intents(reg, insts) =~= Seq::<IntentV>::empty());
    }
}

/// Idempotence: reconciling against the same snapshot twice yields the same
/// registry as reconciling once, and the second pass issues no intent.
pub proof fn lemma_reconcile_idempotent(reg: Seq<PaneStateV>, insts: Seq<InstanceV>)
    ensures
        spec_reconcile(spec_reconcile(reg, insts), insts) == spec_reconcile(reg, insts),
        reconcile_rename_intents(spec_reconcile(reg, insts), insts) == Seq::<IntentV>::empty(),
{
    let once = spec_reconcile(reg, insts);
    let twice = spec_reconcile(once, insts);
    assert forall|i: int| 0 <= i < reg.len() implies twice[i] == once[i] by {
        lemma_reconcile_entry_idempotent(reg[i], insts);
    }
    assert(twice =~= once);
    assert forall|i: int| 0 <= i < once.len() implies entry_rename_intents(once[i], insts)
        == Seq::<IntentV>::empty() by {
        let e = reg[i];
        lemma_reconcile_entry_idempotent(e, insts);
        match once[i].pane_id {
            Some(id) => {
                // A reconciled binding is live, so the second prune keeps it
                // and the entry is not rescanned.
                if prune_entry(e, insts).pane_id is Some {
                    assert(is_live(insts, id));
                } else {
                    let m = first_match(e.name, e.command, insts);
                    lemma_first_match_live(e.name, e.command, insts, m.unwrap());
                }
                assert(prune_entry(once[i], insts).pane_id is Some);
            },
            None => {
                // A still-pending entry found no match, so no rename either.
                assert(first_match(once[i].name, once[i].command, insts) is None);
            },
        }
    }
    lemma_rename_intents_all_empty(once, insts);
}

/// The scan's verdict when the first instance matching either rule matches
/// by exact title: that instance is returned, as a title match.
proof fn lemma_first_match_title_at(
    name: Seq<char>,
    command: Seq<char>,
    insts: Seq<InstanceV>,
    k: int,
)
    requires
        0 <= k < insts.len(),
        crate::reconcile::title_matches(insts[k], name),
        forall|k2: int| 0 <= k2 < k ==> !crate::reconcile::title_matches(insts[k2], name)
            && !crate::reconcile::command_matches(insts[k2], command),
    ensures
        first_match(name, command, insts) == Some(MatchV { id: insts[k].id, by_title: true }),
    decreases k,
{
    if k > 0 {
        let rest = insts.drop_first();
        assert forall|k2: int| 0 <= k2 < k - 1 implies !crate::reconcile::title_matches(
            rest[k2],
            name,
        ) && !crate::reconcile::command_matches(rest[k2], command) by {
            assert(rest[k2] == insts[k2 + 1]);
        }
        assert(rest[k - 1] == insts[k]);
        lemma_first_match_title_at(name, command, rest, k - 1);
    }
}

/// Title priority: a pending entry whose first matching instance, in scan
/// order, matches by exact title is bound to that instance, and no rename
/// intent is issued for it.
pub proof fn lemma_title_priority(
    reg: Seq<PaneStateV>,
    insts: Seq<InstanceV>,
    i: int,
    k: int,
)
    requires
        0 <= i < reg.len(),
        reg[i].pane_id is None,
        0 <= k < insts.len(),
        crate::reconcile::title_matches(insts[k], reg[i].name),
        forall|k2: int| 0 <= k2 < k ==> !crate::reconcile::title_matches(insts[k2], reg[i].name)
            && !crate::reconcile::command_matches(insts[k2], reg[i].command),
    ensures
        spec_reconcile(reg, insts)[i].pane_id == Some(insts[k].id),
        entry_rename_intents(reg[i], insts) == Seq::<IntentV>::empty(),
{
    lemma_first_match_title_at(reg[i].name, reg[i].command, insts, k);
    assert(prune_entry(reg[i], insts) == reg[i]);
}

/// Pruning: a binding to an instance the snapshot no longer contains is
/// cleared by the prune phase; when no instance matches the entry either,
/// the whole pass leaves it unbound. In every case the stale id is never
/// kept, no entry is removed, and the entry's name, command and remembered
/// geometry are untouched.
pub proof fn lemma_prune_clears_stale_binding(
    reg: Seq<PaneStateV>,
    insts: Seq<InstanceV>,
    i: int,
    id: u32,
)
    requires
        0 <= i < reg.len(),
        reg[i].pane_id == Some(id),
        !is_live(insts, id),
    ensures
        prune_entry(reg[i], insts).pane_id is None,
        spec_reconcile(reg, insts)[i].pane_id != Some(id),
        first_match(reg[i].name, reg[i].command, insts) is None ==> spec_reconcile(
            reg,
            insts,
        )[i].pane_id is None,
        spec_reconcile(reg, insts).len() == reg.len(),
        spec_reconcile(reg, insts)[i].name == reg[i].name,
        spec_reconcile(reg, insts)[i].command == reg[i].command,
        spec_reconcile(reg, insts)[i].coordinates == reg[i].coordinates,
{
    let p = prune_entry(reg[i], insts);
    if first_match(reg[i].name, reg[i].command, insts) is Some {
        let m = first_match(reg[i].name, reg[i].command, insts).unwrap();
        lemma_first_match_live(reg[i].name, reg[i].command, insts, m);
    }
}

/// Every bound entry other than the target contributes its close intent to
/// the single-overlay sweep.
pub proof fn lemma_other_close_contains(
    reg: Seq<PaneStateV>,
    name: Seq<char>,
    a: int,
    id: u32,
)
    requires
        0 <= a < reg.len(),
        reg[a].name != name,
        reg[a].pane_id == Some(id),
    ensures
        other_close_intents(reg, name).contains(IntentV::Close { id }),
    decreases reg.len(),
{
    let closes = other_close_intents(reg, name);
    if a == 0 {
        assert(closes[0] == IntentV::Close { id });
    } else {
        lemma_other_close_contains(reg.drop_first(), name, a - 1, id);
        let rest = other_close_intents(reg.drop_first(), name);
        let k = choose|k: int| 0 <= k < rest.len() && rest[k] == IntentV::Close { id };
        assert(closes[closes.len() - rest.len() + k] == IntentV::Close { id });
    }
}

/// Single-overlay policy: when `open` targets an entry that is not bound,
/// its intents end with the one spawn, and a close intent for every other
/// bound entry's instance comes strictly before that spawn.
pub proof fn lemma_open_single_overlay(
    reg: Seq<PaneStateV>,
    name: Seq<char>,
    command: Seq<char>,
    cwd: Option<Seq<char>>,
    a: int,
    id: u32,
)
    requires
        0 <= a < reg.len(),
        reg[a].name != name,
        reg[a].pane_id == Some(id),
        bound_id(reg, name) is None,
    ensures
        ({
            let intents = spec_open_intents(reg, name, command, cwd);
            &&& intents.len() >= 2
            &&& intents.last() == IntentV::Spawn {
                command,
                cwd,
                coordinates: crate::default_coordinates(),
                context_name: name,
            }
            &&& exists|k: int|
                0 <= k < intents.len() - 1 && intents[k] == IntentV::Close { id }
        }),
{
    let intents = spec_open_intents(reg, name, command, cwd);
    let closes = other_close_intents(reg, name);
    lemma_other_close_contains(reg, name, a, id);
    let k = choose|k: int| 0 <= k < closes.len() && closes[k] == IntentV::Close { id };
    assert(intents[k] == IntentV::Close { id });
    assert(intents.last() == IntentV::Spawn {
        command,
        cwd,
        coordinates: crate::default_coordinates(),
        context_name: name,
    });
}

/// Toggle round trip: a bound entry whose instance the snapshot shows
/// visible is hidden, the registry untouched; once a snapshot confirms it
/// hidden, the next toggle shows it and restores the exact stored geometry.
pub proof fn lemma_toggle_round_trip(
    s_visible: StateV,
    s_hidden: StateV,
    name: Seq<char>,
    command: Seq<char>,
    cwd: Option<Seq<char>>,
    i: int,
    id: u32,
    c: crate::model::Coordinates,
    m1: Seq<Seq<InstanceV>>,
    m2: Seq<Seq<InstanceV>>,
    inst1: InstanceV,
    inst2: InstanceV,
)
    requires
        wf_registry(s_visible.panes),
        0 <= i < s_visible.panes.len(),
        s_visible.panes[i].name == name,
        s_visible.panes[i].pane_id == Some(id),
        s_visible.panes[i].coordinates == Some(c),
        s_visible.manifest == Some(m1),
        find_by_id(m1.flatten(), id) == Some(inst1),
        !inst1.is_hidden,
        s_hidden == (StateV { manifest: Some(m2), ..s_visible }),
        find_by_id(m2.flatten(), id) == Some(inst2),
        inst2.is_hidden,
    ensures
        (spec_toggle(s_visible, name, command, cwd) == (s_visible, seq![IntentV::Hide { id }])),
        (spec_toggle(s_hidden, name, command, cwd) == (
            s_hidden,
            seq![IntentV::Show { id }, IntentV::Reposition { id, coordinates: c }],
        )),
{
    lemma_name_index_unique(s_visible.panes, name, i);
    assert(bound_id(s_visible.panes, name) == Some(id));
    assert(show_intents(id, Some(c)) == seq![
        IntentV::Show { id },
        IntentV::Reposition { id, coordinates: c },
    ]);
}

/// The rename intent one entry contributes appears among the pass's intents.
pub proof fn lemma_rename_intent_emitted(
    reg: Seq<PaneStateV>,
    insts: Seq<InstanceV>,
    i: int,
    intent: IntentV,
)
    requires
        0 <= i < reg.len(),
        entry_rename_intents(reg[i], insts) == seq![intent],
    ensures
        reconcile_rename_intents(reg, insts).contains(intent),
    decreases reg.len(),
{
    let all = reconcile_rename_intents(reg, insts);
    if i == 0 {
        assert(all[0] == intent);
    } else {
        lemma_rename_intent_emitted(reg.drop_first(), insts, i - 1, intent);
        let rest = reconcile_rename_intents(reg.drop_first(), insts);
        let k = choose|k: int| 0 <= k < rest.len() && rest[k] == intent;
        assert(all[all.len() - rest.len() + k] == intent);
    }
}

/// Rebind after an external close: a binding whose instance disappears is
/// cleared by the next snapshot, and a later snapshot whose first match for
/// the entry is a command-substring match on instance `j` binds the entry to
/// `j` and issues the rename intent that retitles `j` to the logical name.
pub proof fn lemma_rebind_after_external_close(
    reg: Seq<PaneStateV>,
    insts1: Seq<InstanceV>,
    insts2: Seq<InstanceV>,
    i: int,
    id: u32,
    j: u32,
)
    requires
        0 <= i < reg.len(),
        reg[i].pane_id == Some(id),
        !is_live(insts1, id),
        first_match(reg[i].name, reg[i].command, insts1) is None,
        first_match(reg[i].name, reg[i].command, insts2) == Some(
            MatchV { id: j, by_title: false },
        ),
    ensures
        spec_reconcile(reg, insts1)[i].pane_id is None,
        spec_reconcile(spec_reconcile(reg, insts1), insts2)[i].pane_id == Some(j),
        reconcile_rename_intents(spec_reconcile(reg, insts1), insts2).contains(
            IntentV::Rename { id: j, title: reg[i].name },
        ),
{
    let r1 = spec_reconcile(reg, insts1);
    assert(r1[i] == reconcile_entry(reg[i], insts1));
    assert(r1[i] == PaneStateV { pane_id: None, ..reg[i] });
    assert(spec_reconcile(r1, insts2)[i] == reconcile_entry(r1[i], insts2));
    assert(entry_rename_intents(r1[i], insts2) == seq![
        IntentV::Rename { id: j, title: reg[i].name },
    ]);
    lemma_rename_intent_emitted(r1, insts2, i, IntentV::Rename { id: j, title: reg[i].name });
}

} // verus!
