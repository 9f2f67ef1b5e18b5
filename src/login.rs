//! How a finished login attempt is reported to the surrounding application.
use vstd::prelude::*;
use crate::error::{message_of, LoginError};

verus! {

/// The name of the event that carries the end of a login attempt.
pub const LOGIN_EVENT: &'static str = "github-login-complete";

/// The one notification of a login attempt: `status` is `ok` or `error`.
#[derive(Clone, Debug, PartialEq, Eq)]
pub struct LoginEvent {
    pub status: String,
    pub message: String,
}

/// The notification for an attempt that ended with `outcome`: `Ok` once the
/// token was obtained and saved, else the failure of polling or of saving.
pub fn login_event(outcome: &Result<(), LoginError>) -> (r: LoginEvent)
    ensures
        *outcome is Ok ==> r.status@ == "ok"@ && r.message@ == "GitHub token saved to ~/.env"@,
        *outcome matches Err(e) ==> r.status@ == "error"@ && r.message@ == message_of(e),
{
    match outcome {
        Ok(()) => LoginEvent {
            status: String::from_str("ok"),
            message: String::from_str("GitHub token saved to ~/.env"),
        },
        Err(e) => LoginEvent { status: String::from_str("error"), message: e.message() },
    }
}

} // verus!
