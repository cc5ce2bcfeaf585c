//! Values recorded in audit events.

use vstd::prelude::*;

verus! {

/// The isolation mode an event records.
#[derive(Debug, Clone, Copy, PartialEq, Eq, Structural)]
pub enum IsolationMode {
    AirGap,
    Whitelist,
    Disabled,
}

/// Where an imported model came from.
#[derive(Debug, Clone)]
pub enum ImportSource {
    /// Downloaded from a URL.
    Remote { url: String },
    /// Copied from a local file.
    Local { path: String },
}

} // verus!
