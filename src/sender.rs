use vstd::prelude::*;
use vstd::string::*;

verus! {

/// Why a submission to the email provider failed.
#[derive(Debug)]
pub enum SendEmailError {
    Build(String),
    Sdk(String),
    MaxRetriesExceeded(String),
}

pub open spec fn send_error_text(e: SendEmailError) -> Seq<char> {
    match e {
        SendEmailError::Build(m) => "Failed to build email: "@ + m@,
        SendEmailError::Sdk(m) => "SES SDK error: "@ + m@,
        SendEmailError::MaxRetriesExceeded(m) => "Max retries exceeded: "@ + m@,
    }
}

impl SendEmailError {
    /// The error's description.
    pub fn to_string(&self) -> (r: String)
        ensures
            r@ == send_error_text(*self),
    {
        let (prefix, m) = match self {
            SendEmailError::Build(m) => ("Failed to build email: ", m),
            SendEmailError::Sdk(m) => ("SES SDK error: ", m),
            SendEmailError::MaxRetriesExceeded(m) => ("Max retries exceeded: ", m),
        };
        let mut s = String::from_str(prefix);
        s.append(m.as_str());
        s
    }
}

/// How one provider call failed.
#[derive(Clone, Copy, Debug, PartialEq, Eq, Structural)]
pub enum SendFailure {
    /// The provider throttled the call (HTTP 429).
    Throttled,
    Timeout,
    /// The request could not be dispatched to the provider.
    Dispatch,
    Other,
}

/// Provider calls for one email, at most (the first call and its retries).
pub const MAX_ATTEMPTS: u32 = 3;

/// The wait before the first retry, in milliseconds; it doubles each time.
pub const INITIAL_BACKOFF_MS: u64 = 100;

/// Throttling, timeouts and dispatch failures are worth another try.
pub open spec fn is_retryable_spec(f: SendFailure) -> bool {
    f == SendFailure::Throttled || f == SendFailure::Timeout || f == SendFailure::Dispatch
}

pub fn is_retryable(f: SendFailure) -> (r: bool)
    ensures
        r == is_retryable_spec(f),
{
    match f {
        SendFailure::Throttled | SendFailure::Timeout | SendFailure::Dispatch => true,
        SendFailure::Other => false,
    }
}

pub open spec fn pow2(n: nat) -> nat
    decreases n,
{
    if n == 0 {
        1
    } else {
        2 * pow2((n - 1) as nat)
    }
}

/// What to do after a failed call, when `retries` retries have been made
/// before it (so `retries + 1` calls in all): wait `Some(ms)` and call again
/// while fewer than `MAX_ATTEMPTS` calls have been made, or give up (`None`).
pub open spec fn retry_delay_spec(retries: u32, f: SendFailure) -> Option<u64> {
    if is_retryable_spec(f) && retries + 1 < MAX_ATTEMPTS {
        Some((INITIAL_BACKOFF_MS * pow2(retries as nat)) as u64)
    } else {
        None
    }
}

pub fn retry_delay_ms(retries: u32, f: SendFailure) -> (r: Option<u64>)
    ensures
        r == retry_delay_spec(retries, f),
{
    if is_retryable(f) && retries < MAX_ATTEMPTS - 1 {
        let mut d: u64 = INITIAL_BACKOFF_MS;
        let mut k: u32 = 0;
        proof {
            reveal_with_fuel(pow2, 3);
        }
        while k < retries
            invariant
                0 <= k <= retries < MAX_ATTEMPTS - 1,
                d == INITIAL_BACKOFF_MS * pow2(k as nat),
                d <= 200,
            decreases retries - k,
        {
            proof {
                reveal_with_fuel(pow2, 3);
            }
            assert(d <= 100);
            d = d * 2;
            k = k + 1;
        }
        Some(d)
    } else {
        None
    }
}

} // verus!
