use vstd::prelude::*;

verus! {

/// Errors of the wire codec: the input ended too early, or its bytes parse to
/// no value of the requested type.
#[derive(Debug)]
pub enum SerdeError {
    NotEnoughData,
    InvalidUTF8,
    ParsingError { ty_name: &'static str, error: String },
    InvalidChar,
}

/// Errors of the signaling service. Every one of them is terminal for the
/// connection it arises on: the peer must reconnect.
#[derive(Debug)]
pub enum ServieError {
    /// The transport closed or failed under the session.
    SocketClosed,
    /// A frame did not decode to the expected message.
    SerializationError(SerdeError),
    /// A frame of an unexpected type or in an unexpected state.
    NonCompliance(&'static str),
    /// The username is unknown or the signed challenge did not verify.
    AuthFailure,
    /// A session under this username is already registered.
    AlreadyOnline,
}

} // verus!
