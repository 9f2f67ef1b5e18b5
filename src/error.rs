//! Why a sign-in attempt failed.
use vstd::prelude::*;

verus! {

/// The failures of a device-code sign-in attempt and of the credential file.
#[derive(Clone, Debug, PartialEq, Eq)]
pub enum LoginError {
    /// The provider could not be reached; the text says why.
    Network(String),
    /// The provider answered with something that is not the expected JSON.
    Protocol(String),
    /// The device code expired before the user approved it.
    Expired,
    /// The user refused the authorization.
    Denied,
    /// The provider answered with an error code that has no rule of its own.
    Provider(String),
    /// The provider gave no final answer within the poll limit.
    TimedOut,
    /// The credential file could not be read or written; the text says why.
    Io(String),
}

/// The text shown to the user for `e`.
pub open spec fn message_of(e: LoginError) -> Seq<char> {
    match e {
        LoginError::Network(m) => m@,
        LoginError::Protocol(m) => m@,
        LoginError::Expired => "Device code expired. Please try again."@,
        LoginError::Denied => "Access denied. Please try again."@,
        LoginError::Provider(code) => "OAuth error: "@ + code@,
        LoginError::TimedOut => "Login timed out. Please try again."@,
        LoginError::Io(m) => m@,
    }
}

impl LoginError {
    /// The text shown to the user for this failure.
    pub fn message(&self) -> (r: String)
        ensures
            r@ == message_of(*self),
    {
        match self {
            LoginError::Network(m) => m.clone(),
            LoginError::Protocol(m) => m.clone(),
            LoginError::Expired => String::from_str("Device code expired. Please try again."),
            LoginError::Denied => String::from_str("Access denied. Please try again."),
            LoginError::Provider(code) => String::from_str("OAuth error: ").concat(code.as_str()),
            LoginError::TimedOut => String::from_str("Login timed out. Please try again."),
            LoginError::Io(m) => m.clone(),
        }
    }
}

} // verus!
