use vstd::prelude::*;
use vstd::string::*;

use crate::models::EmailRequest;
use crate::sender::{send_error_text, SendEmailError};
use crate::status::{status_code, EmailMessageStatus};
use crate::text::{push_signed_decimal, signed_decimal};

verus! {

/// The tracking-pixel tag appended to each outgoing body: fetching its image
/// records an `Open` for the request.
pub open spec fn pixel_tag(server_url: Seq<char>, request_id: i32) -> Seq<char> {
    "<img src=\""@ + server_url + "/v1/events/open?request_id="@ + signed_decimal(request_id as int)
        + "\">"@
}

/// The body that goes out for a request: its HTML content followed by its
/// tracking pixel.
pub fn tracked_body(content: &str, server_url: &str, request_id: i32) -> (r: String)
    ensures
        r@ == content@ + pixel_tag(server_url@, request_id),
{
    let mut s = String::from_str(content);
    s.append("<img src=\"");
    s.append(server_url);
    s.append("/v1/events/open?request_id=");
    push_signed_decimal(&mut s, request_id as i64);
    s.append("\">");
    proof {
        assert(s@ =~= content@ + pixel_tag(server_url@, request_id));
    }
    s
}

/// A request after its submission: `Sent` with the provider's message id, or
/// `Failed` with the error's description. Nothing else changes.
pub fn apply_send_outcome(req: EmailRequest, outcome: Result<String, SendEmailError>) -> (r:
    EmailRequest)
    ensures
        outcome matches Ok(mid) ==> r == (EmailRequest {
            status: status_code(EmailMessageStatus::Sent) as i32,
            message_id: Some(mid),
            ..req
        }),
        outcome matches Err(e) ==> (r == (EmailRequest {
            status: status_code(EmailMessageStatus::Failed) as i32,
            error: r.error,
            ..req
        }) && (r.error matches Some(t) && t@ == send_error_text(e))),
{
    match outcome {
        Ok(mid) => {
            let r = req.with_status(EmailMessageStatus::Sent);
            EmailRequest { message_id: Some(mid), ..r }
        },
        Err(e) => {
            let r = req.with_status(EmailMessageStatus::Failed);
            EmailRequest { error: Some(e.to_string()), ..r }
        },
    }
}

/// The submission rate: the configured rate, but at least one per second.
pub fn send_rate(max_send_per_second: i32) -> (r: u64)
    ensures
        r as int == if max_send_per_second < 1 {
            1
        } else {
            max_send_per_second as int
        },
{
    if max_send_per_second < 1 {
        1
    } else {
        max_send_per_second as u64
    }
}

/// The number of submissions that may be in flight at once: twice the rate.
pub fn in_flight_limit(rate: u64) -> (r: u64)
    requires
        rate <= i32::MAX,
    ensures
        r == 2 * rate,
{
    rate * 2
}

} // verus!
