//! The response composer: maps an admission decision to the user-facing
//! content of the notification. Pure — the embedding process does the actual
//! sending — except for rendering a timestamp as local calendar time, which
//! is delegated to the chrono crate.

use vstd::prelude::*;
use vstd::string::StringExecFns;

use crate::admission::Decision;

verus! {

/// The user-facing answer to an admission attempt, carrying the expiry
/// moment (seconds since the epoch) where one is to be shown.
#[derive(Clone, Copy, Debug, PartialEq, Eq, Structural)]
pub enum GuestResponse {
    AlreadyOver(u64),
    AlreadyGuest(u64),
    AlreadyHasMember,
    InternalError,
    Sucess(u64),
}

/// The response for a requester whose grant record already exists: by expiry
/// moment, the grant has either already lapsed or still stands.
pub open spec fn presented_response(expires_at: u64, now: u64) -> GuestResponse {
    if expires_at <= now {
        GuestResponse::AlreadyOver(expires_at)
    } else {
        GuestResponse::AlreadyGuest(expires_at)
    }
}

/// The response each decision maps to.
pub open spec fn response_of(d: Decision) -> GuestResponse {
    match d {
        Decision::AlreadyMember => GuestResponse::AlreadyHasMember,
        Decision::AlreadyGranted { expires_at, expired } => if expired {
            GuestResponse::AlreadyOver(expires_at)
        } else {
            GuestResponse::AlreadyGuest(expires_at)
        },
        Decision::Granted { expires_at } => GuestResponse::Sucess(expires_at),
        Decision::InternalError => GuestResponse::InternalError,
    }
}

impl GuestResponse {
    /// Classify an existing grant's expiry against the present moment: a
    /// moment already reached means the guest period is over, a later one
    /// means the requester is still a guest.
    pub fn present(expires_at: u64, now: u64) -> (r: Self)
        ensures
            r == presented_response(expires_at, now),
    {
        if expires_at <= now {
            GuestResponse::AlreadyOver(expires_at)
        } else {
            GuestResponse::AlreadyGuest(expires_at)
        }
    }

    /// The response for a decision.
    pub fn from_decision(d: Decision) -> (r: Self)
        ensures
            r == response_of(d),
    {
        match d {
            Decision::AlreadyMember => GuestResponse::AlreadyHasMember,
            Decision::AlreadyGranted { expires_at, expired } => {
                if expired {
                    GuestResponse::AlreadyOver(expires_at)
                } else {
                    GuestResponse::AlreadyGuest(expires_at)
                }
            },
            Decision::Granted { expires_at } => GuestResponse::Sucess(expires_at),
            Decision::InternalError => GuestResponse::InternalError,
        }
    }
}

/// Composed notification content: a fixed title, whether the attempt
/// succeeded (which drives the accent colour), and the message body.
#[derive(Debug)]
pub struct Rendered {
    pub title: String,
    pub success: bool,
    pub body: String,
}

/// The message body for a response, given the rendered text of its expiry
/// moment (unused by the variants that show none).
pub open spec fn response_body(resp: GuestResponse, date_text: Seq<char>) -> Seq<char> {
    match resp {
        GuestResponse::AlreadyOver(_) => "Error! Your guest role has expired on "@ + date_text
            + "."@,
        GuestResponse::AlreadyGuest(_) => "Error! You already have the guest role. It will expire on "@
            + date_text + "."@,
        GuestResponse::AlreadyHasMember => "Error! You are already a member."@,
        GuestResponse::InternalError => "An internal error occured while processing the request. Your guest role ha snot been added."@,
        GuestResponse::Sucess(_) => "Success! You have been given the guest role. It will expire on "@
            + date_text + "."@,
    }
}

/// Compose the notification for a response whose expiry moment has already
/// been rendered as text. The title is always "Guest"; only a successful
/// grant composes as a success.
pub fn compose_with_date(resp: &GuestResponse, date_text: &str) -> (r: Rendered)
    ensures
        r.title@ == "Guest"@,
        r.success == (resp is Sucess),
        r.body@ == response_body(*resp, date_text@),
{
    let title = String::from_str("Guest");
    match resp {
        GuestResponse::AlreadyOver(_) => Rendered {
            title,
            success: false,
            body: String::from_str("Error! Your guest role has expired on ").concat(
                date_text,
            ).concat("."),
        },
        GuestResponse::AlreadyGuest(_) => Rendered {
            title,
            success: false,
            body: String::from_str(
                "Error! You already have the guest role. It will expire on ",
            ).concat(date_text).concat("."),
        },
        GuestResponse::AlreadyHasMember => Rendered {
            title,
            success: false,
            body: String::from_str("Error! You are already a member."),
        },
        GuestResponse::InternalError => Rendered {
            title,
            success: false,
            body: String::from_str(
                "An internal error occured while processing the request. Your guest role ha snot been added.",
            ),
        },
        GuestResponse::Sucess(_) => Rendered {
            title,
            success: true,
            body: String::from_str(
                "Success! You have been given the guest role. It will expire on ",
            ).concat(date_text).concat("."),
        },
    }
}

/// Render an epoch-seconds timestamp as local calendar time. Relies on
/// chrono's `TimeZone::timestamp_opt` on the `Local` zone, which maps a
/// timestamp to exactly one local moment or reports it unrepresentable; the
/// rendering depends on the machine's time zone, so nothing is claimed of
/// the text.
#[verifier::external_body]
fn local_timestamp_text(epoch_seconds: u64) -> (r: String) {
    match chrono::TimeZone::timestamp_opt(&chrono::Local, epoch_seconds as i64, 0).earliest() {
        Some(moment) => moment.to_string(),
        None => String::new(),
    }
}

/// Compose the notification for a response, rendering its expiry moment —
/// if it shows one — as local calendar time.
pub fn compose(resp: &GuestResponse) -> (r: Rendered)
    ensures
        r.title@ == "Guest"@,
        r.success == (resp is Sucess),
        exists|date_text: Seq<char>| r.body@ == response_body(*resp, date_text),
{
    let date_text: String = match resp {
        GuestResponse::AlreadyOver(expires_at) => local_timestamp_text(*expires_at),
        GuestResponse::AlreadyGuest(expires_at) => local_timestamp_text(*expires_at),
        GuestResponse::Sucess(expires_at) => local_timestamp_text(*expires_at),
        GuestResponse::AlreadyHasMember => String::new(),
        GuestResponse::InternalError => String::new(),
    };
    let r = compose_with_date(resp, date_text.as_str());
    proof {
        assert(r.body@ == response_body(*resp, date_text@));
    }
    r
}

} // verus!
