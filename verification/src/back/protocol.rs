//! The CASTV2 protocol: envelopes, payloads and the messages they carry.

use vstd::prelude::*;

pub use self::message::{EndpointName, Message, MessageKind, Namespace};
pub use self::status::{Application, Status, Volume, VolumeLevel};

pub mod document;
pub mod message;
pub mod namespace;
pub mod status;
pub mod uuids;
pub mod varint;
pub mod wire;

verus! {

/// An identifier for an application.
#[derive(Clone, Debug, PartialEq, Eq)]
pub struct ApplicationId(pub String);

/// A session ID of a running application: a UUID, as a 128-bit number.
#[derive(Copy, Clone, Debug, PartialEq, Eq, Structural)]
pub struct SessionId(pub u128);

impl View for ApplicationId {
    type V = Seq<char>;

    open spec fn view(&self) -> Seq<char> {
        self.0@
    }
}

} // verus!
