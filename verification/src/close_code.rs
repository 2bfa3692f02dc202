//! WebSocket close codes and their partition into classes.

use vstd::prelude::*;

verus! {

/// A WebSocket close code.
///
/// Indicates why an endpoint is closing the WebSocket connection.
#[derive(Debug, Copy, Clone, PartialEq, Eq, Structural, Hash)]
pub enum CloseCode {
    /// Normal closure: the purpose of the connection has been fulfilled.
    Normal,
    /// The endpoint is going away.
    Away,
    /// The endpoint is terminating the connection due to a protocol error.
    Protocol,
    /// The endpoint received a type of data it cannot accept.
    Unsupported,
    /// No status code was present in the close frame (code 1005; never sent).
    Status,
    /// Abnormal closure without a close frame (code 1006; never sent).
    Abnormal,
    /// Data within a message was not consistent with its type.
    Invalid,
    /// A received message violates the endpoint's policy.
    Policy,
    /// A received message is too big to process.
    Size,
    /// The server did not negotiate a required extension.
    Extension,
    /// The server encountered an unexpected condition.
    Error,
    /// The server is restarting.
    Restart,
    /// The server is overloaded; the client should try another address.
    Again,
    /// Closure due to a TLS failure (code 1015; never sent).
    Tls,
    /// A reserved code in 1016..=2999, not usable by endpoints.
    Reserved(u16),
    /// A code in 3000..=3999, registered with IANA.
    Iana(u16),
    /// A code in 4000..=4999, for private use between applications.
    Library(u16),
    /// Any other code, not attached to a defined meaning.
    Bad(u16),
}

/// The close code a wire value stands for.
pub open spec fn close_code_of(code: u16) -> CloseCode {
    if code == 1000 {
        CloseCode::Normal
    } else if code == 1001 {
        CloseCode::Away
    } else if code == 1002 {
        CloseCode::Protocol
    } else if code == 1003 {
        CloseCode::Unsupported
    } else if code == 1005 {
        CloseCode::Status
    } else if code == 1006 {
        CloseCode::Abnormal
    } else if code == 1007 {
        CloseCode::Invalid
    } else if code == 1008 {
        CloseCode::Policy
    } else if code == 1009 {
        CloseCode::Size
    } else if code == 1010 {
        CloseCode::Extension
    } else if code == 1011 {
        CloseCode::Error
    } else if code == 1012 {
        CloseCode::Restart
    } else if code == 1013 {
        CloseCode::Again
    } else if code == 1015 {
        CloseCode::Tls
    } else if 1016 <= code && code <= 2999 {
        CloseCode::Reserved(code)
    } else if 3000 <= code && code <= 3999 {
        CloseCode::Iana(code)
    } else if 4000 <= code && code <= 4999 {
        CloseCode::Library(code)
    } else {
        CloseCode::Bad(code)
    }
}

/// The wire value of a close code.
pub open spec fn close_code_value(code: CloseCode) -> u16 {
    match code {
        CloseCode::Normal => 1000,
        CloseCode::Away => 1001,
        CloseCode::Protocol => 1002,
        CloseCode::Unsupported => 1003,
        CloseCode::Status => 1005,
        CloseCode::Abnormal => 1006,
        CloseCode::Invalid => 1007,
        CloseCode::Policy => 1008,
        CloseCode::Size => 1009,
        CloseCode::Extension => 1010,
        CloseCode::Error => 1011,
        CloseCode::Restart => 1012,
        CloseCode::Again => 1013,
        CloseCode::Tls => 1015,
        CloseCode::Reserved(c) => c,
        CloseCode::Iana(c) => c,
        CloseCode::Library(c) => c,
        CloseCode::Bad(c) => c,
    }
}

/// True of the close codes an endpoint is allowed to send: the defined
/// codes except 1005, 1006 and 1015, the IANA range and the library range.
pub open spec fn close_code_allowed(code: CloseCode) -> bool {
    !(code matches CloseCode::Bad(_) || code matches CloseCode::Reserved(_)
        || code == CloseCode::Status || code == CloseCode::Abnormal || code == CloseCode::Tls)
}

impl CloseCode {
    /// Whether an endpoint may send this close code.
    pub fn is_allowed(self) -> (r: bool)
        ensures
            r == close_code_allowed(self),
    {
        !matches!(
            self,
            CloseCode::Bad(_)
                | CloseCode::Reserved(_)
                | CloseCode::Status
                | CloseCode::Abnormal
                | CloseCode::Tls
        )
    }

    /// Classifies a wire value.
    pub fn from_u16(code: u16) -> (r: Self)
        ensures
            r == close_code_of(code),
    {
        match code {
            1000 => Self::Normal,
            1001 => Self::Away,
            1002 => Self::Protocol,
            1003 => Self::Unsupported,
            1005 => Self::Status,
            1006 => Self::Abnormal,
            1007 => Self::Invalid,
            1008 => Self::Policy,
            1009 => Self::Size,
            1010 => Self::Extension,
            1011 => Self::Error,
            1012 => Self::Restart,
            1013 => Self::Again,
            1015 => Self::Tls,
            1016..=2999 => Self::Reserved(code),
            3000..=3999 => Self::Iana(code),
            4000..=4999 => Self::Library(code),
            _ => Self::Bad(code),
        }
    }

    /// The wire value of this close code.
    pub fn into_u16(self) -> (r: u16)
        ensures
            r == close_code_value(self),
    {
        match self {
            Self::Normal => 1000,
            Self::Away => 1001,
            Self::Protocol => 1002,
            Self::Unsupported => 1003,
            Self::Status => 1005,
            Self::Abnormal => 1006,
            Self::Invalid => 1007,
            Self::Policy => 1008,
            Self::Size => 1009,
            Self::Extension => 1010,
            Self::Error => 1011,
            Self::Restart => 1012,
            Self::Again => 1013,
            Self::Tls => 1015,
            Self::Reserved(code) => code,
            Self::Iana(code) => code,
            Self::Library(code) => code,
            Self::Bad(code) => code,
        }
    }
}

/// Classifying a wire value and reading it back yields the same value:
/// every class carries its wire value.
pub proof fn lemma_close_code_value_round_trip(code: u16)
    ensures
        close_code_value(close_code_of(code)) == code,
{
}

} // verus!
