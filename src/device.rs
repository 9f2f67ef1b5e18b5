//! The first half of the device authorization grant: the device code the
//! provider hands out, and what the user is shown of it.
use vstd::prelude::*;
use crate::error::LoginError;
use crate::json::{
    json_count, json_count_at, json_error, json_error_text, json_parses, json_present,
    json_present_at, json_text, json_text_at, opt_text,
};

verus! {

/// What the provider's device-code endpoint answers.
#[derive(Clone, Debug, PartialEq, Eq)]
pub struct DeviceAuthorization {
    /// Secret code that the poller exchanges for a token.
    pub device_code: String,
    /// Short code that the user types on the verification page.
    pub user_code: String,
    /// The verification page.
    pub verification_uri: String,
    /// The verification page with the user code filled in, if offered.
    pub verification_uri_complete: Option<String>,
    /// How long the device code stays valid, in seconds.
    pub expires_in: u64,
    /// The shortest wait between two token requests, in seconds.
    pub interval: u64,
}

/// What `start_login` hands back at once.
#[derive(Clone, Debug, PartialEq, Eq)]
pub struct DeviceLoginStart {
    /// The page the user opens.
    pub auth_url: String,
    /// The code the user types there.
    pub user_code: String,
    pub expires_in: u64,
    pub interval: u64,
}

/// What starts the text of every failure to read a device-code answer.
pub const DEVICE_PARSE_PREFIX: &'static str = "Failed to parse device code response: ";

/// Why a device-code answer cannot be used, checked in the order of the
/// fields: serde_json's reason for a body that is not JSON, else the first
/// required field that is missing or of the wrong type, or a complete URL that
/// is there but is not a string. None when the answer is usable.
pub open spec fn device_problem(body: Seq<u8>) -> Option<Seq<char>> {
    if !json_parses(body) {
        Some(json_error_text(body))
    } else if json_text_at(body, "device_code"@) is None {
        Some("missing or invalid field `device_code`"@)
    } else if json_text_at(body, "user_code"@) is None {
        Some("missing or invalid field `user_code`"@)
    } else if json_text_at(body, "verification_uri"@) is None {
        Some("missing or invalid field `verification_uri`"@)
    } else if json_present_at(body, "verification_uri_complete"@) && json_text_at(
        body,
        "verification_uri_complete"@,
    ) is None {
        Some("invalid field `verification_uri_complete`"@)
    } else if json_count_at(body, "expires_in"@) is None {
        Some("missing or invalid field `expires_in`"@)
    } else if json_count_at(body, "interval"@) is None {
        Some("missing or invalid field `interval`"@)
    } else {
        None
    }
}

/// The protocol error for a device-code answer that cannot be used for `reason`.
fn device_parse_error(reason: &str) -> (e: LoginError)
    ensures
        e matches LoginError::Protocol(m) && m@ == DEVICE_PARSE_PREFIX@ + reason@,
{
    LoginError::Protocol(String::from_str(DEVICE_PARSE_PREFIX).concat(reason))
}

/// Reads the device-code endpoint's answer. It is accepted exactly when the
/// JSON object holds the three strings and the two integers, and the complete
/// URL, if it is there and not `null`, is a string; otherwise the protocol
/// error says why.
pub fn parse_device_authorization(body: &[u8]) -> (r: Result<DeviceAuthorization, LoginError>)
    ensures
        r is Ok <==> device_problem(body@) is None,
        r matches Ok(d) ==> {
            &&& json_text_at(body@, "device_code"@) == Some(d.device_code@)
            &&& json_text_at(body@, "user_code"@) == Some(d.user_code@)
            &&& json_text_at(body@, "verification_uri"@) == Some(d.verification_uri@)
            &&& json_text_at(body@, "verification_uri_complete"@) == opt_text(
                d.verification_uri_complete,
            )
            &&& json_count_at(body@, "expires_in"@) == Some(d.expires_in)
            &&& json_count_at(body@, "interval"@) == Some(d.interval)
        },
        r matches Err(e) ==> e matches LoginError::Protocol(m) && device_problem(body@) matches Some(
            reason,
        ) && m@ == DEVICE_PARSE_PREFIX@ + reason,
{
    if let Some(reason) = json_error(body) {
        return Err(device_parse_error(reason.as_str()));
    }
    let device_code = match json_text(body, "device_code") {
        Some(v) => v,
        None => return Err(device_parse_error("missing or invalid field `device_code`")),
    };
    let user_code = match json_text(body, "user_code") {
        Some(v) => v,
        None => return Err(device_parse_error("missing or invalid field `user_code`")),
    };
    let verification_uri = match json_text(body, "verification_uri") {
        Some(v) => v,
        None => return Err(device_parse_error("missing or invalid field `verification_uri`")),
    };
    let verification_uri_complete = json_text(body, "verification_uri_complete");
    if verification_uri_complete.is_none() && json_present(body, "verification_uri_complete") {
        return Err(device_parse_error("invalid field `verification_uri_complete`"));
    }
    let expires_in = match json_count(body, "expires_in") {
        Some(v) => v,
        None => return Err(device_parse_error("missing or invalid field `expires_in`")),
    };
    let interval = match json_count(body, "interval") {
        Some(v) => v,
        None => return Err(device_parse_error("missing or invalid field `interval`")),
    };
    Ok(
        DeviceAuthorization {
            device_code,
            user_code,
            verification_uri,
            verification_uri_complete,
            expires_in,
            interval,
        },
    )
}

/// What the user is shown when a login starts: the complete URL when the
/// provider offered one, else the verification page, with the user code and
/// the provider's timings.
pub fn login_start(device: &DeviceAuthorization) -> (r: DeviceLoginStart)
    ensures
        r.auth_url@ == match device.verification_uri_complete {
            Some(u) => u@,
            None => device.verification_uri@,
        },
        r.user_code@ == device.user_code@,
        r.expires_in == device.expires_in,
        r.interval == device.interval,
{
    let auth_url = match &device.verification_uri_complete {
        Some(u) => u.clone(),
        None => device.verification_uri.clone(),
    };
    DeviceLoginStart {
        auth_url,
        user_code: device.user_code.clone(),
        expires_in: device.expires_in,
        interval: device.interval,
    }
}

} // verus!
