use overlay_panes::controller::State;
use overlay_panes::model::{Coordinates, Intent};
use overlay_panes::router::{decode_command, Command, Field, Payload};

fn payload(name: Field, command: Field, cwd: Field) -> Payload {
    Payload { name, command, cwd }
}

fn text(s: &str) -> Field {
    Field::Text(s.to_string())
}

#[test]
fn decodes_open_with_cwd() {
    let r = decode_command("open", payload(text("logs"), text("tail -f app.log"), text("/var/log")));
    match r {
        Some(Command::Open { name, command, cwd }) => {
            assert_eq!(name, "logs");
            assert_eq!(command, "tail -f app.log");
            assert_eq!(cwd, Some("/var/log".to_string()));
        }
        other => panic!("decoded to {:?}", other),
    }
}

#[test]
fn decodes_toggle_without_cwd() {
    let r = decode_command("toggle", payload(text("git"), text("git status"), Field::Absent));
    match r {
        Some(Command::Toggle { name, command, cwd }) => {
            assert_eq!(name, "git");
            assert_eq!(command, "git status");
            assert_eq!(cwd, None);
        }
        other => panic!("decoded to {:?}", other),
    }
}

#[test]
fn decodes_close_ignoring_extra_fields() {
    let r = decode_command("close", payload(text("git"), text("irrelevant"), Field::Invalid));
    match r {
        Some(Command::Close { name }) => assert_eq!(name, "git"),
        other => panic!("decoded to {:?}", other),
    }
}

#[test]
fn drops_open_missing_required_command() {
    let r = decode_command("open", payload(text("logs"), Field::Absent, Field::Absent));
    assert!(r.is_none());
}

#[test]
fn drops_toggle_missing_required_name() {
    let r = decode_command("toggle", payload(Field::Absent, text("git status"), Field::Absent));
    assert!(r.is_none());
}

#[test]
fn drops_payload_with_wrong_shaped_field() {
    let r = decode_command("open", payload(text("logs"), Field::Invalid, Field::Absent));
    assert!(r.is_none());
    let r = decode_command("open", payload(text("logs"), text("tail"), Field::Invalid));
    assert!(r.is_none());
    let r = decode_command("close", payload(Field::Invalid, Field::Absent, Field::Absent));
    assert!(r.is_none());
}

#[test]
fn ignores_unknown_action_names() {
    let r = decode_command("resize", payload(text("logs"), text("tail"), Field::Absent));
    assert!(r.is_none());
    let r = decode_command("", payload(text("logs"), text("tail"), Field::Absent));
    assert!(r.is_none());
}

#[test]
fn handle_command_dispatches_open() {
    let mut state = State::new();
    let cmd = decode_command("open", payload(text("logs"), text("tail -f app.log"), Field::Absent))
        .expect("valid open payload");
    let intents = state.handle_command(&cmd);
    assert_eq!(
        intents,
        vec![Intent::Spawn {
            command: "tail -f app.log".to_string(),
            cwd: None,
            coordinates: Coordinates { x: 10, y: 10, width: 80, height: 80 },
            context_name: "logs".to_string(),
        }]
    );
    assert_eq!(state.panes.entries.len(), 1);
}

#[test]
fn handle_command_dispatches_close() {
    let mut state = State::new();
    state.open_pane("logs", "tail -f app.log", &None);
    state.panes.entries[0].pane_id = Some(12);
    let cmd = decode_command("close", payload(text("logs"), Field::Absent, Field::Absent))
        .expect("valid close payload");
    let intents = state.handle_command(&cmd);
    assert_eq!(intents, vec![Intent::Close { id: 12 }]);
    assert_eq!(state.panes.entries[0].pane_id, None);
}
