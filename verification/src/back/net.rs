//! The transport below the protocol: frames on a byte stream.

pub use self::io::{Io, Token};
pub use self::transport::{Action, Readiness, Reader, Transport};

pub mod framing;
pub mod io;
pub mod transport;
