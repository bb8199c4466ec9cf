//! The command router: turning inbound named command messages into registry
//! operations. A message whose payload is malformed — a required field
//! missing or of the wrong shape — is dropped silently; unknown action names
//! are ignored.

use vstd::prelude::*;

use crate::controller::{spec_close, spec_open, spec_toggle, State, StateV};
use crate::model::{opt_view, Intent, IntentV};

verus! {

/// One field of a decoded command payload, as the transport delivered it.
#[derive(Debug)]
pub enum Field {
    /// The field is absent.
    Absent,
    /// The field is present and is a string.
    Text(String),
    /// The field is present but is not a string: the payload is malformed.
    Invalid,
}

/// Mathematical model of a payload field.
pub enum FieldV {
    Absent,
    Text(Seq<char>),
    Invalid,
}

impl View for Field {
    type V = FieldV;

    open spec fn view(&self) -> FieldV {
        match self {
            Field::Absent => FieldV::Absent,
            Field::Text(s) => FieldV::Text(s@),
            Field::Invalid => FieldV::Invalid,
        }
    }
}

/// The fields a command payload may carry, extracted from the transport's
/// structured record.
#[derive(Debug)]
pub struct Payload {
    pub name: Field,
    pub command: Field,
    pub cwd: Field,
}

/// Mathematical model of a payload.
pub struct PayloadV {
    pub name: FieldV,
    pub command: FieldV,
    pub cwd: FieldV,
}

impl View for Payload {
    type V = PayloadV;

    open spec fn view(&self) -> PayloadV {
        PayloadV { name: self.name@, command: self.command@, cwd: self.cwd@ }
    }
}

/// A recognized command: the closed set of operations a caller may request.
#[derive(Debug)]
pub enum Command {
    Open { name: String, command: String, cwd: Option<String> },
    Toggle { name: String, command: String, cwd: Option<String> },
    Close { name: String },
}

/// Mathematical model of a command.
pub enum CommandV {
    Open { name: Seq<char>, command: Seq<char>, cwd: Option<Seq<char>> },
    Toggle { name: Seq<char>, command: Seq<char>, cwd: Option<Seq<char>> },
    Close { name: Seq<char> },
}

impl View for Command {
    type V = CommandV;

    open spec fn view(&self) -> CommandV {
        match self {
            Command::Open { name, command, cwd } => CommandV::Open {
                name: name@,
                command: command@,
                cwd: opt_view(*cwd),
            },
            Command::Toggle { name, command, cwd } => CommandV::Toggle {
                name: name@,
                command: command@,
                cwd: opt_view(*cwd),
            },
            Command::Close { name } => CommandV::Close { name: name@ },
        }
    }
}

/// A valid optional string field: absent or text, never the wrong shape.
pub open spec fn valid_opt_field(f: FieldV) -> bool {
    f is Absent || f is Text
}

/// The text of an optional field; meaningful when `valid_opt_field` holds.
pub open spec fn opt_field_view(f: FieldV) -> Option<Seq<char>> {
    match f {
        FieldV::Text(s) => Some(s),
        _ => None,
    }
}

/// What a message decodes to: `open` and `toggle` require the string fields
/// `name` and `command` and allow an optional string `cwd`; `close` requires
/// only `name`. Everything else — unknown actions, missing required fields,
/// fields of the wrong shape — decodes to nothing and is dropped.
pub open spec fn spec_decode(action: Seq<char>, p: PayloadV) -> Option<CommandV> {
    if action == "open"@ {
        match (p.name, p.command) {
            (FieldV::Text(n), FieldV::Text(c)) => if valid_opt_field(p.cwd) {
                Some(CommandV::Open { name: n, command: c, cwd: opt_field_view(p.cwd) })
            } else {
                None
            },
            _ => None,
        }
    } else if action == "toggle"@ {
        match (p.name, p.command) {
            (FieldV::Text(n), FieldV::Text(c)) => if valid_opt_field(p.cwd) {
                Some(CommandV::Toggle { name: n, command: c, cwd: opt_field_view(p.cwd) })
            } else {
                None
            },
            _ => None,
        }
    } else if action == "close"@ {
        match p.name {
            FieldV::Text(n) => Some(CommandV::Close { name: n }),
            _ => None,
        }
    } else {
        None
    }
}

/// The view of a decoded command, if any.
pub open spec fn decoded_view(r: Option<Command>) -> Option<CommandV> {
    match r {
        Some(c) => Some(c@),
        None => None,
    }
}

fn take_opt_field(f: Field) -> (r: Option<Option<String>>)
    ensures
        match r {
            Some(o) => valid_opt_field(f@) && opt_view(o) == opt_field_view(f@),
            None => !valid_opt_field(f@),
        },
{
    match f {
        Field::Absent => Some(None),
        Field::Text(s) => Some(Some(s)),
        Field::Invalid => None,
    }
}

/// Decodes one inbound message into a command, or nothing when the message
/// is to be dropped.
pub fn decode_command(action: &str, payload: Payload) -> (r: Option<Command>)
    ensures
        decoded_view(r) == spec_decode(action@, payload@),
{
    let action_owned: String = action.to_owned();
    let is_open = action_owned == "open".to_owned();
    let is_toggle = action_owned == "toggle".to_owned();
    if is_open || is_toggle {
        let Payload { name, command, cwd } = payload;
        if let Field::Text(n) = name {
            if let Field::Text(c) = command {
                if let Some(w) = take_opt_field(cwd) {
                    if is_open {
                        return Some(Command::Open { name: n, command: c, cwd: w });
                    } else {
                        return Some(Command::Toggle { name: n, command: c, cwd: w });
                    }
                }
            }
        }
        None
    } else if action_owned == "close".to_owned() {
        if let Field::Text(n) = payload.name {
            Some(Command::Close { name: n })
        } else {
            None
        }
    } else {
        None
    }
}

/// What one dispatched command does to the state, and the intents it issues.
pub open spec fn spec_handle(s: StateV, c: CommandV) -> (StateV, Seq<IntentV>) {
    match c {
        CommandV::Open { name, command, cwd } => spec_open(s, name, command, cwd),
        CommandV::Toggle { name, command, cwd } => spec_toggle(s, name, command, cwd),
        CommandV::Close { name } => spec_close(s, name),
    }
}

impl State {
    /// The router's dispatch: a total match over the closed command set,
    /// delegating to the visibility controller.
    pub fn handle_command(&mut self, cmd: &Command) -> (intents: Vec<Intent>)
        requires
            old(self).wf(),
        ensures
            final(self).wf(),
            (final(self)@, intents.deep_view()) == spec_handle(old(self)@, cmd@),
    {
        match cmd {
            Command::Open { name, command, cwd } => self.open_pane(
                name.as_str(),
                command.as_str(),
                cwd,
            ),
            Command::Toggle { name, command, cwd } => self.toggle_pane(
                name.as_str(),
                command.as_str(),
                cwd,
            ),
            Command::Close { name } => self.close_pane(name.as_str()),
        }
    }
}

} // verus!
