//! Named, on-demand overlay terminal sessions layered on a host
//! terminal-multiplexing environment.
//!
//! The library keeps a registry of logical pane names, reconciles it against
//! periodic host inventory snapshots, and turns open / toggle / close
//! commands into intents for the host to execute. All host interaction is
//! expressed as returned [`Intent`](model::Intent) values; the library itself
//! performs no I/O.

use vstd::prelude::*;

pub mod controller;
pub mod laws;
pub mod model;
pub mod reconcile;
pub mod registry;
pub mod router;
pub mod text;

verus! {

/// The fixed default geometry for a newly spawned overlay pane:
/// origin at 10% of each axis, extent 80% of each axis.
pub open spec fn default_coordinates() -> crate::model::Coordinates {
    crate::model::Coordinates { x: 10, y: 10, width: 80, height: 80 }
}

} // verus!
