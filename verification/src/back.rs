//! The networking and protocol layers below the device.

pub use self::connection::Connection;

pub mod connection;
pub mod net;
pub mod protocol;
