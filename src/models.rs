use vstd::prelude::*;
use vstd::string::*;

use std::sync::Arc;

use crate::status::{status_code, EmailMessageStatus};

verus! {

/// The subject and HTML body of one outbound message, shared by all of its
/// recipients. `id` is assigned by the store.
#[derive(Clone, Debug)]
pub struct EmailContent {
    pub id: Option<i32>,
    pub subject: String,
    pub content: String,
}

/// One outbound email to a single recipient.
///
/// `subject` and `content` are not stored with the request: they are read
/// from the request's content row when the request is dispatched. They are
/// shared handles, so the requests made from one message share one copy.
#[derive(Clone, Debug)]
pub struct EmailRequest {
    pub id: Option<i32>,
    pub topic_id: Option<String>,
    pub content_id: Option<i32>,
    pub email: String,
    pub subject: Arc<String>,
    pub content: Arc<String>,
    pub scheduled_at: Option<String>,
    pub status: i32,
    pub error: Option<String>,
    pub message_id: Option<String>,
}

/// One recorded event about a request: a provider event type (Delivery,
/// Bounce, Complaint, ...) or `Open` for a tracking-pixel hit.
#[derive(Debug)]
pub struct EmailResult {
    pub id: Option<i32>,
    pub request_id: i32,
    pub status: String,
    pub raw: Option<String>,
}

pub fn clone_opt_string(s: &Option<String>) -> (r: Option<String>)
    ensures
        r == *s,
{
    match s {
        Some(v) => Some(v.clone()),
        None => None,
    }
}

impl EmailRequest {
    /// This request with its status replaced.
    pub fn with_status(self, status: EmailMessageStatus) -> (r: EmailRequest)
        ensures
            r == (EmailRequest { status: r.status, ..self }),
            r.status as int == status_code(status),
    {
        EmailRequest { status: status.as_i32(), ..self }
    }
}

impl EmailResult {
    /// The result recorded when the tracking pixel of request `request_id`
    /// is fetched.
    pub fn open(request_id: i32) -> (r: EmailResult)
        ensures
            r.id.is_none(),
            r.request_id == request_id,
            r.status@ == "Open"@,
            r.raw.is_none(),
    {
        EmailResult { id: None, request_id, status: String::from_str("Open"), raw: None }
    }
}

} // verus!
