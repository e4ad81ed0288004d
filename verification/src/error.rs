//! Error kinds of the server core.

use vstd::prelude::*;

verus! {

/// Everything that can go wrong in the server core.
#[derive(Clone, Copy, Debug, PartialEq, Eq, Structural)]
pub enum WsError {
    /// `listen` was called while the server was already listening.
    AlreadyRunning,
    /// The listening socket could not be bound.
    BindFailed,
    /// The listening socket could not be made non-blocking.
    SetNonBlockingFailed,
    /// No connection with the given identifier is registered.
    NotFound,
    /// The connection is registered but already marked closed.
    ConnectionClosed,
    /// Writing to the connection's socket failed.
    WriteFailed,
    /// Reading from the connection's socket failed, or a frame was cut short.
    ReadFailed,
    /// A frame declared a payload longer than the accepted maximum.
    PayloadTooLarge,
    /// A frame carried an opcode other than text, close, ping or pong.
    UnsupportedOpcode,
    /// An upgrade request carried no `Sec-WebSocket-Key` header.
    MissingKey,
    /// An upgrade request's key header was not terminated by a line break.
    InvalidUpgradeRequest,
}

impl WsError {
    /// The human-readable text of each error kind.
    pub open spec fn spec_message(self) -> Seq<char> {
        match self {
            WsError::AlreadyRunning => "Server already running"@,
            WsError::BindFailed => "Failed to bind"@,
            WsError::SetNonBlockingFailed => "Failed to set nonblocking"@,
            WsError::NotFound => "Client not found"@,
            WsError::ConnectionClosed => "Connection closed"@,
            WsError::WriteFailed => "Write error"@,
            WsError::ReadFailed => "Read error"@,
            WsError::PayloadTooLarge => "Payload too large"@,
            WsError::UnsupportedOpcode => "Unsupported opcode"@,
            WsError::MissingKey => "No Sec-WebSocket-Key found"@,
            WsError::InvalidUpgradeRequest => "Invalid key format"@,
        }
    }

    /// Returns the human-readable text of this error kind.
    pub fn message(&self) -> (text: &'static str)
        ensures
            text@ == self.spec_message(),
    {
        match self {
            WsError::AlreadyRunning => "Server already running",
            WsError::BindFailed => "Failed to bind",
            WsError::SetNonBlockingFailed => "Failed to set nonblocking",
            WsError::NotFound => "Client not found",
            WsError::ConnectionClosed => "Connection closed",
            WsError::WriteFailed => "Write error",
            WsError::ReadFailed => "Read error",
            WsError::PayloadTooLarge => "Payload too large",
            WsError::UnsupportedOpcode => "Unsupported opcode",
            WsError::MissingKey => "No Sec-WebSocket-Key found",
            WsError::InvalidUpgradeRequest => "Invalid key format",
        }
    }
}

} // verus!
