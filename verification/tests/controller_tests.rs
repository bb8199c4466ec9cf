use overlay_panes::controller::State;
use overlay_panes::model::{Coordinates, InstanceInfo, Intent, PaneGroup, PaneState, Snapshot};

const DEFAULT: Coordinates = Coordinates { x: 10, y: 10, width: 80, height: 80 };

fn entry(name: &str, pane_id: Option<u32>, command: &str) -> PaneState {
    PaneState {
        name: name.to_string(),
        pane_id,
        command: command.to_string(),
        coordinates: Some(DEFAULT),
    }
}

fn instance(id: u32, title: &str, command: Option<&str>, is_hidden: bool) -> InstanceInfo {
    InstanceInfo {
        id,
        title: title.to_string(),
        terminal_command: command.map(|c| c.to_string()),
        is_plugin: false,
        is_hidden,
    }
}

fn snapshot(groups: Vec<Vec<InstanceInfo>>) -> Snapshot {
    Snapshot { groups: groups.into_iter().map(|instances| PaneGroup { instances }).collect() }
}

#[test]
fn open_on_empty_registry_spawns_with_default_geometry() {
    // Scenario: open("logs", "tail -f app.log", cwd=/var/log) on an empty
    // registry issues no close intents, one spawn with the default geometry
    // and the name as context, and records a pending entry.
    let mut state = State::new();
    let intents = state.open_pane("logs", "tail -f app.log", &Some("/var/log".to_string()));
    assert_eq!(
        intents,
        vec![Intent::Spawn {
            command: "tail -f app.log".to_string(),
            cwd: Some("/var/log".to_string()),
            coordinates: DEFAULT,
            context_name: "logs".to_string(),
        }]
    );
    assert_eq!(state.panes.entries.len(), 1);
    assert_eq!(state.panes.entries[0].name, "logs");
    assert_eq!(state.panes.entries[0].pane_id, None);
    assert_eq!(state.panes.entries[0].command, "tail -f app.log");
    assert_eq!(state.panes.entries[0].coordinates, Some(DEFAULT));
}

#[test]
fn open_closes_other_bound_instances_before_spawning() {
    // Single-overlay policy: A is bound, B is unbound; open("B") issues the
    // close intent for A's instance before B's spawn intent.
    let mut state = State::new();
    state.panes.entries.push(entry("A", Some(5), "vim"));
    let intents = state.open_pane("B", "htop", &None);
    assert_eq!(intents.len(), 2);
    assert_eq!(intents[0], Intent::Close { id: 5 });
    assert_eq!(
        intents[1],
        Intent::Spawn {
            command: "htop".to_string(),
            cwd: None,
            coordinates: DEFAULT,
            context_name: "B".to_string(),
        }
    );
}

#[test]
fn open_focuses_an_already_bound_target() {
    let mut state = State::new();
    state.panes.entries.push(entry("A", Some(5), "vim"));
    state.panes.entries.push(entry("B", Some(8), "htop"));
    let intents = state.open_pane("B", "htop", &None);
    assert_eq!(intents, vec![Intent::Close { id: 5 }, Intent::Focus { id: 8 }]);
    assert_eq!(state.panes.entries[1].pane_id, Some(8));
}

#[test]
fn open_resets_an_unbound_entry_with_new_command() {
    let mut state = State::new();
    state.panes.entries.push(entry("B", None, "old command"));
    let intents = state.open_pane("B", "new command", &None);
    assert_eq!(
        intents,
        vec![Intent::Spawn {
            command: "new command".to_string(),
            cwd: None,
            coordinates: DEFAULT,
            context_name: "B".to_string(),
        }]
    );
    assert_eq!(state.panes.entries.len(), 1);
    assert_eq!(state.panes.entries[0].command, "new command");
    assert_eq!(state.panes.entries[0].pane_id, None);
}

#[test]
fn toggle_hides_a_visible_pane() {
    let mut state = State::new();
    state.panes.entries.push(entry("E", Some(4), "vim"));
    state.manifest = Some(snapshot(vec![vec![instance(4, "E", Some("vim"), false)]]));
    let intents = state.toggle_pane("E", "vim", &None);
    assert_eq!(intents, vec![Intent::Hide { id: 4 }]);
    assert_eq!(state.panes.entries[0].pane_id, Some(4));
}

#[test]
fn toggle_round_trip_restores_stored_coordinates() {
    // Toggle on a visible pane hides it; once a snapshot confirms it hidden,
    // the next toggle shows it and restores the exact stored geometry.
    let mut state = State::new();
    state.panes.entries.push(entry("E", Some(4), "vim"));
    state.manifest = Some(snapshot(vec![vec![instance(4, "E", Some("vim"), false)]]));
    let first = state.toggle_pane("E", "vim", &None);
    assert_eq!(first, vec![Intent::Hide { id: 4 }]);

    state.manifest = Some(snapshot(vec![vec![instance(4, "E", Some("vim"), true)]]));
    let second = state.toggle_pane("E", "vim", &None);
    assert_eq!(
        second,
        vec![Intent::Show { id: 4 }, Intent::Reposition { id: 4, coordinates: DEFAULT }]
    );
}

#[test]
fn toggle_show_without_stored_coordinates_skips_reposition() {
    let mut state = State::new();
    state.panes.entries.push(PaneState {
        name: "E".to_string(),
        pane_id: Some(4),
        command: "vim".to_string(),
        coordinates: None,
    });
    state.manifest = Some(snapshot(vec![vec![instance(4, "E", Some("vim"), true)]]));
    let intents = state.toggle_pane("E", "vim", &None);
    assert_eq!(intents, vec![Intent::Show { id: 4 }]);
}

#[test]
fn toggle_opens_when_name_is_untracked() {
    let mut state = State::new();
    let intents = state.toggle_pane("E", "vim", &None);
    assert_eq!(
        intents,
        vec![Intent::Spawn {
            command: "vim".to_string(),
            cwd: None,
            coordinates: DEFAULT,
            context_name: "E".to_string(),
        }]
    );
    assert_eq!(state.panes.entries.len(), 1);
}

#[test]
fn toggle_falls_back_to_open_when_instance_left_the_snapshot() {
    // The pane was closed manually: its id is bound but absent from the
    // latest snapshot, so toggle takes the open path, which focuses the
    // still-bound target.
    let mut state = State::new();
    state.panes.entries.push(entry("E", Some(4), "vim"));
    state.manifest = Some(snapshot(vec![vec![instance(9, "other", None, false)]]));
    let intents = state.toggle_pane("E", "vim", &None);
    assert_eq!(intents, vec![Intent::Focus { id: 4 }]);
}

#[test]
fn toggle_falls_back_to_open_without_any_snapshot() {
    let mut state = State::new();
    state.panes.entries.push(entry("E", Some(4), "vim"));
    let intents = state.toggle_pane("E", "vim", &None);
    assert_eq!(intents, vec![Intent::Focus { id: 4 }]);
}

#[test]
fn close_issues_close_and_clears_binding() {
    let mut state = State::new();
    state.panes.entries.push(entry("E", Some(4), "vim"));
    let intents = state.close_pane("E");
    assert_eq!(intents, vec![Intent::Close { id: 4 }]);
    assert_eq!(state.panes.entries[0].pane_id, None);
    assert_eq!(state.panes.entries[0].command, "vim");
    assert_eq!(state.panes.entries[0].coordinates, Some(DEFAULT));
}

#[test]
fn close_of_an_unbound_entry_is_a_no_op() {
    let mut state = State::new();
    state.panes.entries.push(entry("E", None, "vim"));
    let intents = state.close_pane("E");
    assert!(intents.is_empty());
    assert_eq!(state.panes.entries.len(), 1);
}

#[test]
fn close_of_an_unknown_name_is_a_no_op() {
    let mut state = State::new();
    let intents = state.close_pane("nope");
    assert!(intents.is_empty());
    assert!(state.panes.entries.is_empty());
}

#[test]
fn on_pane_update_reconciles_and_stores_the_snapshot() {
    let mut state = State::new();
    state.open_pane("logs", "tail -f app.log", &None);
    let snap = snapshot(vec![vec![
        instance(9, "zsh", Some("zsh -i -c tail -f app.log"), false),
    ]]);
    let intents = state.on_pane_update(snap);
    assert_eq!(intents, vec![Intent::Rename { id: 9, title: "logs".to_string() }]);
    assert_eq!(state.panes.entries[0].pane_id, Some(9));
    assert!(state.manifest.is_some());
}

#[test]
fn open_then_bind_then_toggle_full_flow() {
    let mut state = State::new();
    state.open_pane("logs", "tail -f app.log", &None);
    state.on_pane_update(snapshot(vec![vec![
        instance(9, "zsh", Some("zsh -i -c tail -f app.log"), false),
    ]]));
    // The instance is visible, so the first toggle hides it.
    let intents = state.toggle_pane("logs", "tail -f app.log", &None);
    assert_eq!(intents, vec![Intent::Hide { id: 9 }]);
    // A snapshot now reports it hidden (and retitled); toggle shows it and
    // restores the geometry remembered from the spawn.
    state.on_pane_update(snapshot(vec![vec![
        instance(9, "logs", Some("zsh -i -c tail -f app.log"), true),
    ]]));
    let intents = state.toggle_pane("logs", "tail -f app.log", &None);
    assert_eq!(
        intents,
        vec![Intent::Show { id: 9 }, Intent::Reposition { id: 9, coordinates: DEFAULT }]
    );
}
