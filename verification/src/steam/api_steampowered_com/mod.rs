//! Requests to the Steam Web API and how their replies are read.

pub mod i_steam_apps;
pub mod i_steam_user_stats;

use vstd::prelude::*;

verus! {

/// A request to the Steam Web API, known by the address it is sent to.
pub trait Request {
    fn uri(&self) -> String;
}

/// Why a request to the Steam Web API failed.
#[derive(Debug)]
pub enum SteamClientError {
    BadRequest,
    Forbidden,
    TooManyRequests,
    Unknown(u16, String),
}

/// Whether the reply's status is one that this client does not know, so that the
/// reply's body is read as text to report it.
pub open spec fn is_unexpected_status(status: u16) -> bool {
    status != 200 && status != 400 && status != 403 && status != 429
}

/// The statuses this client knows are exactly 200, 400, 403 and 429: every other
/// status is unexpected.
pub proof fn law_unexpected_statuses(status: u16)
    ensures
        is_unexpected_status(status) <==> !(status == 200 || status == 400 || status == 403
            || status == 429),
        !is_unexpected_status(200),
        !is_unexpected_status(400),
        !is_unexpected_status(403),
        !is_unexpected_status(429),
{
}

/// Whether a reply with this status has its body read as text for the report.
pub fn reads_body_text(status: u16) -> (r: bool)
    ensures
        r == is_unexpected_status(status),
        r <==> !(status == 200 || status == 400 || status == 403 || status == 429),
{
    status != 200 && status != 400 && status != 403 && status != 429
}

/// What a request gives, from the reply's status, the reply's body decoded as JSON
/// (`None` where it could not be), and the reply's body as text (read only for an
/// unexpected status, see `reads_body_text`).
pub fn request_outcome<T>(status: u16, parsed: Option<T>, body_text: String) -> (r: Result<
    T,
    SteamClientError,
>)
    ensures
        status == 200 && parsed is Some ==> r == Ok::<T, SteamClientError>(parsed->0),
        status == 200 && parsed is None ==> r == Err::<T, SteamClientError>(
            SteamClientError::BadRequest,
        ),
        status == 400 ==> r == Err::<T, SteamClientError>(SteamClientError::BadRequest),
        status == 403 ==> r == Err::<T, SteamClientError>(SteamClientError::Forbidden),
        status == 429 ==> r == Err::<T, SteamClientError>(SteamClientError::TooManyRequests),
        is_unexpected_status(status) ==> r == Err::<T, SteamClientError>(
            SteamClientError::Unknown(status, body_text),
        ),
        !(status == 200 || status == 400 || status == 403 || status == 429) ==> r == Err::<
            T,
            SteamClientError,
        >(SteamClientError::Unknown(status, body_text)),
        r is Ok ==> status == 200,
{
    if status == 200 {
        match parsed {
            Some(value) => Ok(value),
            None => Err(SteamClientError::BadRequest),
        }
    } else if status == 400 {
        Err(SteamClientError::BadRequest)
    } else if status == 403 {
        Err(SteamClientError::Forbidden)
    } else if status == 429 {
        Err(SteamClientError::TooManyRequests)
    } else {
        Err(SteamClientError::Unknown(status, body_text))
    }
}

} // verus!
