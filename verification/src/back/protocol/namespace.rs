//! The well-known namespaces.

use vstd::prelude::*;

use super::message::Namespace;

verus! {

/// Gets the 'connection' namespace.
pub fn connection() -> (namespace: Namespace)
    ensures
        namespace@ == "urn:x-cast:com.google.cast.tp.connection"@,
{
    Namespace("urn:x-cast:com.google.cast.tp.connection".to_owned())
}

/// Gets the 'heartbeat' namespace.
///
/// This is used for sending `PING` and `PONG`.
pub fn heartbeat() -> (namespace: Namespace)
    ensures
        namespace@ == "urn:x-cast:com.google.cast.tp.heartbeat"@,
{
    Namespace("urn:x-cast:com.google.cast.tp.heartbeat".to_owned())
}

/// Gets the 'receiver' namespace.
pub fn receiver() -> (namespace: Namespace)
    ensures
        namespace@ == "urn:x-cast:com.google.cast.receiver"@,
{
    Namespace("urn:x-cast:com.google.cast.receiver".to_owned())
}

/// Gets the 'deviceauth' namespace.
pub fn device_auth() -> (namespace: Namespace)
    ensures
        namespace@ == "cast:com.google.cast.tp.deviceauth"@,
{
    Namespace("cast:com.google.cast.tp.deviceauth".to_owned())
}

} // verus!
