//! Events that a device reports to its host.

use vstd::prelude::*;

verus! {

/// An event that occurred on a device.
#[derive(Clone, Copy, Debug, PartialEq, Eq, Structural)]
pub enum Event {
    /// The status of the receiver was updated.
    StatusUpdated,
}

} // verus!
