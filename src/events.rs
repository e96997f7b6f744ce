use vstd::prelude::*;
use vstd::string::*;

use crate::error::AppError;
use crate::models::EmailResult;
use crate::text::{parse_i32, parsed_i32};

verus! {

/// Largest webhook body read, in bytes.
pub const MAX_BODY_SIZE: usize = 1048576;

/// A 1x1 fully transparent PNG, answered to every tracking-pixel fetch.
pub const TRACKING_PIXEL: [u8; 66] = [
    0x89, 0x50, 0x4E, 0x47, 0x0D, 0x0A, 0x1A, 0x0A, 0x00, 0x00, 0x00, 0x0D, 0x49, 0x48, 0x44, 0x52,
    0x00, 0x00, 0x00, 0x01, 0x00, 0x00, 0x00, 0x01, 0x08, 0x06, 0x00, 0x00, 0x00, 0x1F, 0x15, 0xC4,
    0x89, 0x00, 0x00, 0x00, 0x0A, 0x49, 0x44, 0x41, 0x54, 0x78, 0x9C, 0x63, 0x00, 0x00, 0x00, 0x02,
    0x00, 0x01, 0xE2, 0x26, 0x05, 0x9B, 0x00, 0x00, 0x00, 0x00, 0x49, 0x45, 0x4E, 0x44, 0xAE, 0x42,
    0x60, 0x82,
];

/// Query of a tracking-pixel fetch.
#[derive(Debug)]
pub struct OpenQueryParams {
    pub request_id: Option<String>,
}

/// Query of the sent-count read.
#[derive(Debug)]
pub struct SentCountQueryParams {
    pub hours: Option<i32>,
}

/// Answer of the sent-count read.
#[derive(Debug)]
pub struct SentCountResponse {
    pub count: i32,
}

/// The outer envelope of a provider callback.
#[derive(Debug)]
pub enum SnsMessage {
    SubscriptionConfirmation { subscribe_url: String },
    Notification { message: String, message_id: String },
    Other,
}

/// The parts of a provider event that are read: its type (Delivery,
/// Bounce, Complaint, ...) and the provider message id of the mail.
#[derive(Debug)]
pub struct SesNotification {
    pub event_type: String,
    pub mail_message_id: Option<String>,
}

/// The request an `Open` is recorded for: the query's `request_id` when it
/// reads as an integer.
pub fn open_request_id(query: &OpenQueryParams) -> (r: Option<i32>)
    ensures
        r == match query.request_id {
            Some(s) => parsed_i32(s@),
            None => None,
        },
{
    match &query.request_id {
        Some(s) => parse_i32(s.as_str()),
        None => None,
    }
}

/// The result recorded for a tracking-pixel fetch, if the query names a
/// request.
pub fn open_result(query: &OpenQueryParams) -> (r: Option<EmailResult>)
    ensures
        r matches Some(res) ==> (query.request_id matches Some(s) && parsed_i32(s@) == Some(
            res.request_id,
        ) && res.status@ == "Open"@ && res.raw is None && res.id is None),
        r is None ==> match query.request_id {
            Some(s) => parsed_i32(s@) is None,
            None => true,
        },
{
    match open_request_id(query) {
        Some(id) => Some(EmailResult::open(id)),
        None => None,
    }
}

/// Only provider callbacks announced as a notification or a subscription
/// confirmation are read.
pub open spec fn supported_message_type(header: Option<Seq<char>>) -> bool {
    header == Some("Notification"@) || header == Some("SubscriptionConfirmation"@)
}

pub fn check_message_type(header: Option<&str>) -> (r: Result<(), AppError>)
    ensures
        r is Ok <==> supported_message_type(
            match header {
                Some(h) => Some(h@),
                None => None,
            },
        ),
        r matches Err(AppError::BadRequest(m)) ==> m@ == "Invalid SNS Message Type"@,
        r is Err ==> r matches Err(AppError::BadRequest(_)),
{
    match header {
        Some(h) => {
            let s = String::from_str(h);
            if s == String::from_str("Notification") || s == String::from_str(
                "SubscriptionConfirmation",
            ) {
                Ok(())
            } else {
                Err(AppError::BadRequest(String::from_str("Invalid SNS Message Type")))
            }
        },
        None => Err(AppError::BadRequest(String::from_str("Invalid SNS Message Type"))),
    }
}

/// The status text answered to a callback envelope.
pub fn envelope_reply(msg: &SnsMessage) -> (r: &'static str)
    ensures
        msg is SubscriptionConfirmation ==> r@ == "subscription_confirmation_required"@,
        !(msg is SubscriptionConfirmation) ==> r@ == "ok"@,
{
    match msg {
        SnsMessage::SubscriptionConfirmation { .. } => "subscription_confirmation_required",
        _ => "ok",
    }
}

/// The provider message id of an event; an event without one is refused.
pub fn event_message_id(n: &SesNotification) -> (r: Result<String, AppError>)
    ensures
        n.mail_message_id matches Some(m) ==> r == Ok::<String, AppError>(m),
        n.mail_message_id is None ==> (r matches Err(AppError::BadRequest(m)) && m@
            == "SES message_id not found"@),
{
    match &n.mail_message_id {
        Some(m) => Ok(m.clone()),
        None => Err(AppError::BadRequest(String::from_str("SES message_id not found"))),
    }
}

/// The request an event belongs to, as looked up by its provider message
/// id; an unknown id is refused.
pub fn resolved_request(found: Option<i32>) -> (r: Result<i32, AppError>)
    ensures
        found matches Some(id) ==> r == Ok::<i32, AppError>(id),
        found is None ==> (r matches Err(AppError::NotFound(m)) && m@ == "Request not found"@),
{
    match found {
        Some(id) => Ok(id),
        None => Err(AppError::NotFound(String::from_str("Request not found"))),
    }
}

/// The result recorded for a provider event of request `request_id`: the
/// event's type as its status and the whole event text as `raw`.
pub fn event_result(request_id: i32, n: SesNotification, raw: &str) -> (r: EmailResult)
    ensures
        r.id is None,
        r.request_id == request_id,
        r.status == n.event_type,
        r.raw matches Some(t) && t@ == raw@,
{
    EmailResult { id: None, request_id, status: n.event_type, raw: Some(String::from_str(raw)) }
}

/// The window of the sent-count read, in hours: 24 unless given.
pub fn sent_count_hours(query: &SentCountQueryParams) -> (r: i32)
    ensures
        r == match query.hours {
            Some(h) => h,
            None => 24,
        },
{
    match query.hours {
        Some(h) => h,
        None => 24,
    }
}

/// A topic is named by a non-empty id.
pub fn check_topic_id(topic_id: &str) -> (r: Result<(), AppError>)
    ensures
        topic_id@.len() > 0 ==> r is Ok,
        topic_id@.len() == 0 ==> (r matches Err(AppError::BadRequest(m)) && m@
            == "topic_id is required"@),
{
    if topic_id.unicode_len() == 0 {
        Err(AppError::BadRequest(String::from_str("topic_id is required")))
    } else {
        Ok(())
    }
}

} // verus!
