//! Constants for all known application identifiers.

use vstd::prelude::*;

use crate::back::protocol::ApplicationId;

verus! {

/// The YouTube app
pub fn youtube() -> (id: ApplicationId)
    ensures
        id@ == "YouTube"@,
{
    ApplicationId("YouTube".to_owned())
}

/// The 'Chrome mirroring' functionality
pub fn mirroring() -> (id: ApplicationId)
    ensures
        id@ == "0F5096E8"@,
{
    ApplicationId("0F5096E8".to_owned())
}

} // verus!
