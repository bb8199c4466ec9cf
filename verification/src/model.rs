//! Data model: pane registry entries, host inventory snapshots, and the
//! intents this library asks the host to carry out.

use vstd::prelude::*;

verus! {

/// Positional geometry of a floating pane, as percentages of the host
/// viewport on each axis.
#[derive(Clone, Copy, PartialEq, Eq, Structural, Debug)]
pub struct Coordinates {
    pub x: u32,
    pub y: u32,
    pub width: u32,
    pub height: u32,
}

/// One registry entry: the state tracked for a single logical pane name.
#[derive(Debug)]
pub struct PaneState {
    /// The stable, caller-chosen logical name; unique within the registry.
    pub name: String,
    /// The host instance currently bound to this name, if any. `None` means
    /// not bound: never spawned, spawn pending, or binding lost.
    pub pane_id: Option<u32>,
    /// The shell command used to spawn the instance; the fallback key for
    /// matching during reconciliation.
    pub command: String,
    /// Last-known geometry, restored when the pane is shown again.
    pub coordinates: Option<Coordinates>,
}

/// Mathematical model of a registry entry.
pub struct PaneStateV {
    pub name: Seq<char>,
    pub pane_id: Option<u32>,
    pub command: Seq<char>,
    pub coordinates: Option<Coordinates>,
}

impl View for PaneState {
    type V = PaneStateV;

    open spec fn view(&self) -> PaneStateV {
        PaneStateV {
            name: self.name@,
            pane_id: self.pane_id,
            command: self.command@,
            coordinates: self.coordinates,
        }
    }
}

impl DeepView for PaneState {
    type V = PaneStateV;

    open spec fn deep_view(&self) -> PaneStateV {
        self.view()
    }
}

/// One host instance as reported by an inventory snapshot.
#[derive(Debug)]
pub struct InstanceInfo {
    /// Opaque identifier the host assigned to the instance.
    pub id: u32,
    /// Current title of the instance.
    pub title: String,
    /// The command line the instance runs, when the host reports one.
    pub terminal_command: Option<String>,
    /// Whether the instance is a plugin rather than a terminal; plugin
    /// instances are never matched to registry entries.
    pub is_plugin: bool,
    /// Whether the host currently hides the instance.
    pub is_hidden: bool,
}

/// Mathematical model of a reported instance.
pub struct InstanceV {
    pub id: u32,
    pub title: Seq<char>,
    pub terminal_command: Option<Seq<char>>,
    pub is_plugin: bool,
    pub is_hidden: bool,
}

impl View for InstanceInfo {
    type V = InstanceV;

    open spec fn view(&self) -> InstanceV {
        InstanceV {
            id: self.id,
            title: self.title@,
            terminal_command: opt_view(self.terminal_command),
            is_plugin: self.is_plugin,
            is_hidden: self.is_hidden,
        }
    }
}

impl DeepView for InstanceInfo {
    type V = InstanceV;

    open spec fn deep_view(&self) -> InstanceV {
        self.view()
    }
}

/// One group of instances in a snapshot (for example all panes of one tab),
/// in the order the host reports them.
#[derive(Debug)]
pub struct PaneGroup {
    pub instances: Vec<InstanceInfo>,
}

impl View for PaneGroup {
    type V = Seq<InstanceV>;

    open spec fn view(&self) -> Seq<InstanceV> {
        self.instances.deep_view()
    }
}

impl DeepView for PaneGroup {
    type V = Seq<InstanceV>;

    open spec fn deep_view(&self) -> Seq<InstanceV> {
        self.view()
    }
}

/// A full host inventory snapshot: ordered groups of ordered instances.
/// Each arrival is the complete current truth; it is never diffed.
#[derive(Debug)]
pub struct Snapshot {
    pub groups: Vec<PaneGroup>,
}

impl View for Snapshot {
    type V = Seq<Seq<InstanceV>>;

    open spec fn view(&self) -> Seq<Seq<InstanceV>> {
        self.groups.deep_view()
    }
}

/// An action this library asks the host to perform. All intents are
/// fire-and-forget: the host acknowledges nothing, and an intent naming an
/// instance the host no longer knows is expected to be ignored.
#[derive(Debug, PartialEq, Eq)]
pub enum Intent {
    /// Spawn a new floating terminal running `command`, at `coordinates`,
    /// tagged with `context_name` so the spawn can be traced to its entry.
    Spawn { command: String, cwd: Option<String>, coordinates: Coordinates, context_name: String },
    /// Close the instance with this id.
    Close { id: u32 },
    /// Focus the instance with this id.
    Focus { id: u32 },
    /// Make the instance with this id visible.
    Show { id: u32 },
    /// Hide the instance with this id.
    Hide { id: u32 },
    /// Move the instance with this id to the given geometry.
    Reposition { id: u32, coordinates: Coordinates },
    /// Retitle the instance with this id.
    Rename { id: u32, title: String },
}

/// Mathematical model of an intent.
pub enum IntentV {
    Spawn {
        command: Seq<char>,
        cwd: Option<Seq<char>>,
        coordinates: Coordinates,
        context_name: Seq<char>,
    },
    Close { id: u32 },
    Focus { id: u32 },
    Show { id: u32 },
    Hide { id: u32 },
    Reposition { id: u32, coordinates: Coordinates },
    Rename { id: u32, title: Seq<char> },
}

impl View for Intent {
    type V = IntentV;

    open spec fn view(&self) -> IntentV {
        match self {
            Intent::Spawn { command, cwd, coordinates, context_name } => IntentV::Spawn {
                command: command@,
                cwd: match cwd {
                    Some(c) => Some(c@),
                    None => None,
                },
                coordinates: *coordinates,
                context_name: context_name@,
            },
            Intent::Close { id } => IntentV::Close { id: *id },
            Intent::Focus { id } => IntentV::Focus { id: *id },
            Intent::Show { id } => IntentV::Show { id: *id },
            Intent::Hide { id } => IntentV::Hide { id: *id },
            Intent::Reposition { id, coordinates } => IntentV::Reposition {
                id: *id,
                coordinates: *coordinates,
            },
            Intent::Rename { id, title } => IntentV::Rename { id: *id, title: title@ },
        }
    }
}

impl DeepView for Intent {
    type V = IntentV;

    open spec fn deep_view(&self) -> IntentV {
        self.view()
    }
}

/// The view of an optional owned string.
pub open spec fn opt_view(o: Option<String>) -> Option<Seq<char>> {
    match o {
        Some(s) => Some(s@),
        None => None,
    }
}

/// Copies an optional owned string.
pub fn clone_opt_string(o: &Option<String>) -> (r: Option<String>)
    ensures
        opt_view(r) == opt_view(*o),
{
    match o {
        Some(s) => Some(s.clone()),
        None => None,
    }
}

} // verus!
