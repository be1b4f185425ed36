//! Typed outcomes of one delivery attempt, and the classification of the
//! endpoint's response.
use vstd::prelude::*;

verus! {

/// The classified result of one delivery attempt against the exceptions API.
#[derive(Debug)]
pub enum DeliveryOutcome {
    /// The endpoint accepted the notice (any 2xx status).
    Success,
    /// The endpoint replied with a redirect (any 3xx status).
    Redirected,
    /// API key is incorrect or the account is deactivated (401).
    Unauthorized,
    /// The payload could not be processed by the endpoint (422).
    Unprocessable,
    /// The rate limit was exceeded (429).
    RateLimited,
    /// The endpoint replied with an internal server error (500).
    ServerError,
    /// The deadline elapsed before a response arrived; carries the configured
    /// timeout in seconds.
    TimedOut(u64),
    /// The transport failed before the deadline; carries the transport's own
    /// rendering of the failure.
    TransportFailed(String),
    /// The endpoint replied with a status outside the recognized set.
    UnknownStatus(u16),
}

/// What the transport hands back for one attempt: the response's status code,
/// a transport failure rendered as text, or expiry of the deadline.
#[derive(Debug)]
pub enum TransportEvent {
    Status(u16),
    Failed(String),
    TimedOut,
}

/// Classification of a status code, by class first (2xx, 3xx), then specific
/// codes, then the catch-all.
pub open spec fn spec_classify(code: u16) -> DeliveryOutcome {
    if 200 <= code && code < 300 {
        DeliveryOutcome::Success
    } else if 300 <= code && code < 400 {
        DeliveryOutcome::Redirected
    } else if code == 401 {
        DeliveryOutcome::Unauthorized
    } else if code == 422 {
        DeliveryOutcome::Unprocessable
    } else if code == 429 {
        DeliveryOutcome::RateLimited
    } else if code == 500 {
        DeliveryOutcome::ServerError
    } else {
        DeliveryOutcome::UnknownStatus(code)
    }
}

/// Map a response status code to its outcome.  The result is a pure function
/// of the integer code.
pub fn classify_status(code: u16) -> (r: DeliveryOutcome)
    ensures
        r == spec_classify(code),
{
    if 200 <= code && code < 300 {
        DeliveryOutcome::Success
    } else if 300 <= code && code < 400 {
        DeliveryOutcome::Redirected
    } else if code == 401 {
        DeliveryOutcome::Unauthorized
    } else if code == 422 {
        DeliveryOutcome::Unprocessable
    } else if code == 429 {
        DeliveryOutcome::RateLimited
    } else if code == 500 {
        DeliveryOutcome::ServerError
    } else {
        DeliveryOutcome::UnknownStatus(code)
    }
}

/// The outcome of one attempt, given what the transport reported and the
/// configured timeout in seconds.
pub open spec fn spec_resolve(event: TransportEvent, timeout: u64) -> DeliveryOutcome {
    match event {
        TransportEvent::Status(code) => spec_classify(code),
        TransportEvent::Failed(cause) => DeliveryOutcome::TransportFailed(cause),
        TransportEvent::TimedOut => DeliveryOutcome::TimedOut(timeout),
    }
}

/// Resolve what the transport reported into a typed outcome.  A received
/// response is always interpreted; the deadline's expiry carries the
/// configured timeout.
pub fn resolve_delivery(event: TransportEvent, timeout: u64) -> (r: DeliveryOutcome)
    ensures
        r == spec_resolve(event, timeout),
{
    match event {
        TransportEvent::Status(code) => classify_status(code),
        TransportEvent::Failed(cause) => DeliveryOutcome::TransportFailed(cause),
        TransportEvent::TimedOut => DeliveryOutcome::TimedOut(timeout),
    }
}

/// The result of one notify attempt: `Ok` exactly when the endpoint accepted
/// the notice; every other outcome is surfaced as the distinct failure.
pub fn delivery_result(event: TransportEvent, timeout: u64) -> (r: Result<(), DeliveryOutcome>)
    ensures
        r is Ok <==> spec_resolve(event, timeout) is Success,
        r is Err ==> r->Err_0 == spec_resolve(event, timeout),
{
    match resolve_delivery(event, timeout) {
        DeliveryOutcome::Success => Ok(()),
        outcome => Err(outcome),
    }
}

impl DeliveryOutcome {
    /// A short, static description of the outcome, as surfaced to callers.
    pub fn description(&self) -> (r: String)
        ensures
            r@ == match self {
                DeliveryOutcome::Success => "Honeybadger notice delivered"@,
                DeliveryOutcome::Redirected => "The endpoint replied with a redirect"@,
                DeliveryOutcome::Unauthorized => "API key is incorrect or the account is deactivated"@,
                DeliveryOutcome::Unprocessable => "The payload couldn't be processed"@,
                DeliveryOutcome::RateLimited => "Honeybadger rate limit exceeded"@,
                DeliveryOutcome::ServerError => "The honeybadger API replied with a '500 Internal Server Error'"@,
                DeliveryOutcome::TimedOut(_) => "Honeybadger client timed out"@,
                DeliveryOutcome::TransportFailed(cause) => cause@,
                DeliveryOutcome::UnknownStatus(_) => "Honeybadger responded with an unknown status code"@,
            },
    {
        match self {
            DeliveryOutcome::Success => "Honeybadger notice delivered".to_owned(),
            DeliveryOutcome::Redirected => "The endpoint replied with a redirect".to_owned(),
            DeliveryOutcome::Unauthorized => {
                "API key is incorrect or the account is deactivated".to_owned()
            },
            DeliveryOutcome::Unprocessable => "The payload couldn't be processed".to_owned(),
            DeliveryOutcome::RateLimited => "Honeybadger rate limit exceeded".to_owned(),
            DeliveryOutcome::ServerError => {
                "The honeybadger API replied with a '500 Internal Server Error'".to_owned()
            },
            DeliveryOutcome::TimedOut(_) => "Honeybadger client timed out".to_owned(),
            DeliveryOutcome::TransportFailed(cause) => cause.clone(),
            DeliveryOutcome::UnknownStatus(_) => {
                "Honeybadger responded with an unknown status code".to_owned()
            },
        }
    }
}

} // verus!
