//! A client library for Google Cast devices.
//!
//! The crate holds the CASTV2 session engine: the framing of the byte stream,
//! the envelope and payload codecs, and the `Device` state machine. Nothing in
//! it touches a socket: the host owns the connection, hands over the bytes it
//! read and carries out the actions it is given.

pub mod apps;
pub mod back;
pub mod device;
pub mod discovery;
pub mod errors;
pub mod event;
pub mod text;

pub use self::back::protocol::{ApplicationId, SessionId, Status, Volume, VolumeLevel};
pub use self::device::Device;
pub use self::discovery::DeviceInfo;
pub use self::errors::{Error, ErrorKind};
pub use self::event::Event;
