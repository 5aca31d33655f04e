//! Error codes and the library's error value.

use vstd::prelude::*;

verus! {

/// Classification of a [`FlareError`].
#[derive(Debug, Clone, Copy, PartialEq, Eq, Structural)]
pub enum ErrorCode {
    /// Malformed input or an unknown connection.
    ProtocolError,
    /// An internal failure that fits no other class.
    GeneralError,
    /// A credential or session was rejected.
    AuthenticationFailed,
    /// A credential or pending connection is no longer valid.
    AuthenticationExpired,
    /// A connection could not be admitted.
    ConnectionFailed,
    /// The server configuration is inconsistent.
    ConfigurationError,
    /// A connection is closed and takes no more writes.
    ConnectionClosed,
    /// A connection did not keep up with its writes.
    ConnectionTimeout,
}

/// An error with its class and a human-readable message.
#[derive(Debug, Clone)]
pub struct FlareError {
    pub code: ErrorCode,
    pub message: String,
}

impl FlareError {
    /// Builds an error of the given class.
    pub fn new(code: ErrorCode, message: String) -> (e: FlareError)
        ensures
            e.code == code,
            e.message@ == message@,
    {
        FlareError { code, message }
    }

    /// A [`ErrorCode::ProtocolError`] with the given message.
    pub fn protocol_error(message: String) -> (e: FlareError)
        ensures
            e.code == ErrorCode::ProtocolError,
            e.message@ == message@,
    {
        FlareError { code: ErrorCode::ProtocolError, message }
    }

    /// A [`ErrorCode::GeneralError`] with the given message.
    pub fn general_error(message: String) -> (e: FlareError)
        ensures
            e.code == ErrorCode::GeneralError,
            e.message@ == message@,
    {
        FlareError { code: ErrorCode::GeneralError, message }
    }

    /// A [`ErrorCode::AuthenticationFailed`] with the given message.
    pub fn authentication_failed(message: String) -> (e: FlareError)
        ensures
            e.code == ErrorCode::AuthenticationFailed,
            e.message@ == message@,
    {
        FlareError { code: ErrorCode::AuthenticationFailed, message }
    }

    /// A [`ErrorCode::AuthenticationExpired`] with the given message.
    pub fn authentication_expired(message: String) -> (e: FlareError)
        ensures
            e.code == ErrorCode::AuthenticationExpired,
            e.message@ == message@,
    {
        FlareError { code: ErrorCode::AuthenticationExpired, message }
    }

    /// A [`ErrorCode::ConnectionFailed`] with the given message.
    pub fn connection_failed(message: String) -> (e: FlareError)
        ensures
            e.code == ErrorCode::ConnectionFailed,
            e.message@ == message@,
    {
        FlareError { code: ErrorCode::ConnectionFailed, message }
    }

    /// A [`ErrorCode::ConnectionClosed`] with the given message.
    pub fn connection_closed(message: String) -> (e: FlareError)
        ensures
            e.code == ErrorCode::ConnectionClosed,
            e.message@ == message@,
    {
        FlareError { code: ErrorCode::ConnectionClosed, message }
    }

    /// A [`ErrorCode::ConnectionTimeout`] with the given message.
    pub fn connection_timeout(message: String) -> (e: FlareError)
        ensures
            e.code == ErrorCode::ConnectionTimeout,
            e.message@ == message@,
    {
        FlareError { code: ErrorCode::ConnectionTimeout, message }
    }

    /// The error's class.
    pub fn code(&self) -> (c: ErrorCode)
        ensures
            c == self.code,
    {
        self.code
    }
}

} // verus!
