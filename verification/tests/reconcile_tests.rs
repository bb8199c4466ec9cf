use overlay_panes::model::{Coordinates, InstanceInfo, Intent, PaneGroup, PaneState, Snapshot};
use overlay_panes::registry::Registry;

fn entry(name: &str, pane_id: Option<u32>, command: &str) -> PaneState {
    PaneState {
        name: name.to_string(),
        pane_id,
        command: command.to_string(),
        coordinates: Some(Coordinates { x: 10, y: 10, width: 80, height: 80 }),
    }
}

fn instance(id: u32, title: &str, command: Option<&str>, is_plugin: bool, is_hidden: bool) -> InstanceInfo {
    InstanceInfo {
        id,
        title: title.to_string(),
        terminal_command: command.map(|c| c.to_string()),
        is_plugin,
        is_hidden,
    }
}

fn snapshot(groups: Vec<Vec<InstanceInfo>>) -> Snapshot {
    Snapshot { groups: groups.into_iter().map(|instances| PaneGroup { instances }).collect() }
}

fn registry(entries: Vec<PaneState>) -> Registry {
    Registry { entries }
}

#[test]
fn binds_by_exact_title_first() {
    // Title priority: instance A carries the logical name as its title and is
    // scanned before B, whose command merely contains the spawn command.
    let mut reg = registry(vec![entry("X", None, "foo")]);
    let snap = snapshot(vec![vec![
        instance(1, "X", Some("foo"), false, false),
        instance(2, "other", Some("run foo now"), false, false),
    ]]);
    let intents = reg.reconcile(&snap);
    assert_eq!(reg.entries[0].pane_id, Some(1));
    assert!(intents.is_empty());
}

#[test]
fn reconcile_is_idempotent() {
    let mut reg = registry(vec![
        entry("git", Some(3), "git status"),
        entry("logs", None, "tail -f app.log"),
        entry("gone", Some(9), "htop"),
    ]);
    let snap = snapshot(vec![
        vec![instance(3, "git", Some("git status"), false, false)],
        vec![instance(11, "sh", Some("zsh -i -c tail -f app.log"), false, true)],
    ]);
    reg.reconcile(&snap);
    let first: Vec<(String, Option<u32>)> =
        reg.entries.iter().map(|e| (e.name.clone(), e.pane_id)).collect();
    let intents = reg.reconcile(&snap);
    let second: Vec<(String, Option<u32>)> =
        reg.entries.iter().map(|e| (e.name.clone(), e.pane_id)).collect();
    assert_eq!(first, second);
    assert!(intents.is_empty());
}

#[test]
fn prunes_binding_to_missing_instance() {
    let mut reg = registry(vec![entry("git", Some(7), "git status")]);
    let snap = snapshot(vec![vec![instance(2, "other", Some("vim"), false, false)]]);
    reg.reconcile(&snap);
    assert_eq!(reg.entries[0].pane_id, None);
}

#[test]
fn plugin_instance_ids_do_not_keep_bindings_alive() {
    // The live-id set is built from non-plugin instances only.
    let mut reg = registry(vec![entry("git", Some(7), "git status")]);
    let snap = snapshot(vec![vec![instance(7, "git", Some("git status"), true, false)]]);
    reg.reconcile(&snap);
    assert_eq!(reg.entries[0].pane_id, None);
}

#[test]
fn rebinds_after_external_close_and_renames() {
    // Entry bound to 7; the host closes 7 out of band; the next snapshot
    // unbinds; a later snapshot offers instance 9 whose command contains the
    // spawn command, so the entry rebinds and a rename intent is issued.
    let mut reg = registry(vec![entry("logs", Some(7), "tail -f app.log")]);
    let empty = snapshot(vec![vec![]]);
    reg.reconcile(&empty);
    assert_eq!(reg.entries[0].pane_id, None);

    let later = snapshot(vec![vec![
        instance(9, "zsh", Some("zsh -i -c tail -f app.log"), false, false),
    ]]);
    let intents = reg.reconcile(&later);
    assert_eq!(reg.entries[0].pane_id, Some(9));
    assert_eq!(intents, vec![Intent::Rename { id: 9, title: "logs".to_string() }]);
}

#[test]
fn substring_match_binds_and_renames() {
    let mut reg = registry(vec![entry("logs", None, "tail -f app.log")]);
    let snap = snapshot(vec![vec![
        instance(4, "pane", Some("zsh -i -c tail -f app.log"), false, false),
    ]]);
    let intents = reg.reconcile(&snap);
    assert_eq!(reg.entries[0].pane_id, Some(4));
    assert_eq!(intents, vec![Intent::Rename { id: 4, title: "logs".to_string() }]);
}

#[test]
fn title_match_on_same_instance_issues_no_rename() {
    // The title rule is tried before the command rule on each instance, so an
    // instance matching both binds by title and needs no rename.
    let mut reg = registry(vec![entry("logs", None, "tail")]);
    let snap = snapshot(vec![vec![instance(4, "logs", Some("tail -f app.log"), false, false)]]);
    let intents = reg.reconcile(&snap);
    assert_eq!(reg.entries[0].pane_id, Some(4));
    assert!(intents.is_empty());
}

#[test]
fn plugin_instances_are_never_matched() {
    let mut reg = registry(vec![entry("logs", None, "tail -f app.log")]);
    let snap = snapshot(vec![vec![
        instance(4, "logs", Some("tail -f app.log"), true, false),
    ]]);
    let intents = reg.reconcile(&snap);
    assert_eq!(reg.entries[0].pane_id, None);
    assert!(intents.is_empty());
}

#[test]
fn unreported_command_never_matches() {
    // The substring rule applies only when the instance reports a command:
    // one that reports none is never matched, not even by an empty spawn
    // command.
    let mut reg = registry(vec![
        entry("a", None, "tail -f app.log"),
        entry("b", None, ""),
    ]);
    let snap = snapshot(vec![vec![instance(6, "pane", None, false, false)]]);
    let intents = reg.reconcile(&snap);
    assert_eq!(reg.entries[0].pane_id, None);
    assert_eq!(reg.entries[1].pane_id, None);
    assert!(intents.is_empty());
}

#[test]
fn empty_spawn_command_matches_any_reported_command() {
    // An empty spawn command is a substring of every reported command, so a
    // pending entry with one binds to the first non-plugin instance that
    // reports any command at all.
    let mut reg = registry(vec![entry("b", None, "")]);
    let snap = snapshot(vec![vec![instance(6, "pane", Some("vim"), false, false)]]);
    let intents = reg.reconcile(&snap);
    assert_eq!(reg.entries[0].pane_id, Some(6));
    assert_eq!(intents, vec![Intent::Rename { id: 6, title: "b".to_string() }]);
}

#[test]
fn title_match_is_not_exclusivity_checked() {
    // An instance already claimed by an earlier entry's substring match may
    // still be claimed by a later entry's title match: an accepted heuristic
    // limitation, not a collision-free guarantee.
    let mut reg = registry(vec![
        entry("first", None, "shared command"),
        entry("the-title", None, "unrelated"),
    ]);
    let snap = snapshot(vec![vec![
        instance(5, "the-title", Some("runs shared command"), false, false),
    ]]);
    reg.reconcile(&snap);
    assert_eq!(reg.entries[0].pane_id, Some(5));
    assert_eq!(reg.entries[1].pane_id, Some(5));
}

#[test]
fn scan_order_is_group_order_then_instance_order() {
    let mut reg = registry(vec![entry("logs", None, "tail")]);
    let snap = snapshot(vec![
        vec![instance(1, "a", Some("grep"), false, false)],
        vec![
            instance(2, "b", Some("tail -f x"), false, false),
            instance(3, "c", Some("tail -f y"), false, false),
        ],
    ]);
    reg.reconcile(&snap);
    assert_eq!(reg.entries[0].pane_id, Some(2));
}

#[test]
fn reconcile_keeps_names_commands_and_coordinates() {
    let mut reg = registry(vec![entry("logs", Some(7), "tail -f app.log")]);
    let snap = snapshot(vec![vec![]]);
    reg.reconcile(&snap);
    assert_eq!(reg.entries.len(), 1);
    assert_eq!(reg.entries[0].name, "logs");
    assert_eq!(reg.entries[0].command, "tail -f app.log");
    assert_eq!(
        reg.entries[0].coordinates,
        Some(Coordinates { x: 10, y: 10, width: 80, height: 80 })
    );
}
