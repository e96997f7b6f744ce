use vstd::prelude::*;
use vstd::string::*;

use std::sync::Arc;

use crate::error::AppError;
use crate::models::{clone_opt_string, EmailContent, EmailRequest};
use crate::status::{status_code, EmailMessageStatus};

verus! {

/// The most recipients one create call may address.
pub const MAX_EMAILS_PER_REQUEST: usize = 10000;

/// One message of a create call: a subject and body sent to each address.
#[derive(Debug)]
pub struct Message {
    pub topic_id: Option<String>,
    pub emails: Vec<String>,
    pub subject: String,
    pub content: String,
}

/// The body of a create call. `scheduled_at` is wall-clock time in +09:00,
/// written `YYYY-MM-DD HH:MM:SS`; absent or empty means "send now".
#[derive(Debug)]
pub struct CreateMessageRequest {
    pub messages: Vec<Message>,
    pub scheduled_at: Option<String>,
}

/// The answer to a create call.
#[derive(Debug)]
pub struct CreateMessageResponse {
    pub total: usize,
    pub success: usize,
    pub errors: usize,
    pub duration_ms: u128,
    pub scheduled: bool,
}

/// The number of recipients over all messages.
pub open spec fn recipient_count(ms: Seq<Message>) -> nat
    decreases ms.len(),
{
    if ms.len() == 0 {
        0
    } else {
        recipient_count(ms.drop_last()) + ms.last().emails@.len()
    }
}

/// Whether a create call asks for later delivery.
pub open spec fn is_scheduled_spec(scheduled_at: Option<String>) -> bool {
    match scheduled_at {
        Some(s) => s@.len() > 0,
        None => false,
    }
}

/// The status new requests are stored with: `Created` when scheduled (the
/// scheduler claims them when due), `Processed` when sent at once.
pub open spec fn initial_status(scheduled: bool) -> EmailMessageStatus {
    if scheduled {
        EmailMessageStatus::Created
    } else {
        EmailMessageStatus::Processed
    }
}

/// `r` is the request planned for `email` of message `m`, whose content was
/// stored as `c`.
pub open spec fn is_planned_request(
    r: EmailRequest,
    m: Message,
    c: EmailContent,
    email: String,
    scheduled_at: Option<String>,
    status: i32,
) -> bool {
    &&& r.id.is_none()
    &&& r.topic_id is Some
    &&& r.topic_id.unwrap()@ == match m.topic_id {
        Some(t) => t@,
        None => Seq::<char>::empty(),
    }
    &&& r.content_id == c.id
    &&& r.email == email
    &&& r.subject == c.subject
    &&& r.content == c.content
    &&& r.scheduled_at == scheduled_at
    &&& r.status == status
    &&& r.error.is_none()
    &&& r.message_id.is_none()
}

/// `rs` holds one planned request per (message, recipient), message by
/// message and recipients in order.
pub open spec fn is_request_plan(
    rs: Seq<EmailRequest>,
    ms: Seq<Message>,
    cs: Seq<EmailContent>,
    scheduled_at: Option<String>,
    status: i32,
) -> bool {
    &&& rs.len() == recipient_count(ms)
    &&& forall|i: int, j: int|
        0 <= i < ms.len() && 0 <= j < ms[i].emails@.len() ==> is_planned_request(
            #[trigger] rs[recipient_count(ms.take(i)) + j],
            ms[i],
            cs[i],
            #[trigger] ms[i].emails@[j],
            scheduled_at,
            status,
        )
}

proof fn lemma_count_take_step(ms: Seq<Message>, i: int)
    requires
        0 <= i < ms.len(),
    ensures
        recipient_count(ms.take(i + 1)) == recipient_count(ms.take(i)) + ms[i].emails@.len(),
{
    assert(ms.take(i + 1).drop_last() =~= ms.take(i));
}

proof fn lemma_count_take_mono(ms: Seq<Message>, i: int, k: int)
    requires
        0 <= i <= k <= ms.len(),
    ensures
        recipient_count(ms.take(i)) <= recipient_count(ms.take(k)),
    decreases k - i,
{
    if i < k {
        lemma_count_take_mono(ms, i, k - 1);
        lemma_count_take_step(ms, k - 1);
    }
}

/// Checks a create call before anything is stored: it must hold at least one
/// message and at most `MAX_EMAILS_PER_REQUEST` recipients in all. Returns
/// the number of recipients.
pub fn check_create(payload: &CreateMessageRequest) -> (r: Result<usize, AppError>)
    ensures
        payload.messages@.len() == 0 ==> (r matches Err(AppError::BadRequest(m)) && m@
            == "No messages provided"@),
        payload.messages@.len() > 0 && recipient_count(payload.messages@) > 10000 ==> (r matches Err(
            AppError::BadRequest(m),
        ) && m@ == "Max 10000 emails per request"@),
        payload.messages@.len() > 0 && recipient_count(payload.messages@) <= 10000 ==> r == Ok::<
            usize,
            AppError,
        >(recipient_count(payload.messages@) as usize),
{
    let n = payload.messages.len();
    if n == 0 {
        return Err(AppError::BadRequest(String::from_str("No messages provided")));
    }
    let ghost ms = payload.messages@;
    let mut total: usize = 0;
    let mut i: usize = 0;
    while i < n
        invariant
            n == ms.len(),
            ms == payload.messages@,
            0 <= i <= n,
            total == recipient_count(ms.take(i as int)),
            total <= MAX_EMAILS_PER_REQUEST,
        decreases n - i,
    {
        proof {
            lemma_count_take_step(ms, i as int);
        }
        let k = payload.messages[i].emails.len();
        if k > MAX_EMAILS_PER_REQUEST - total {
            proof {
                lemma_count_take_mono(ms, i as int + 1, n as int);
                assert(ms.take(n as int) =~= ms);
            }
            return Err(AppError::BadRequest(String::from_str("Max 10000 emails per request")));
        }
        total = total + k;
        i = i + 1;
    }
    proof {
        assert(ms.take(n as int) =~= ms);
    }
    Ok(total)
}

/// Whether a create call asks for later delivery: `scheduled_at` is present
/// and not empty.
pub fn is_scheduled(scheduled_at: &Option<String>) -> (r: bool)
    ensures
        r == is_scheduled_spec(*scheduled_at),
{
    match scheduled_at {
        Some(s) => s.as_str().unicode_len() > 0,
        None => false,
    }
}

/// The status new requests are stored with.
pub fn status_for(scheduled: bool) -> (r: EmailMessageStatus)
    ensures
        r == initial_status(scheduled),
{
    if scheduled {
        EmailMessageStatus::Created
    } else {
        EmailMessageStatus::Processed
    }
}

/// One content row per message, in message order, not yet stored.
pub fn contents_for(messages: &Vec<Message>) -> (r: Vec<EmailContent>)
    ensures
        r@.len() == messages@.len(),
        forall|i: int|
            0 <= i < r@.len() ==> (#[trigger] r@[i]).id.is_none() && r@[i].subject
                == messages@[i].subject && r@[i].content == messages@[i].content,
{
    let mut r: Vec<EmailContent> = Vec::new();
    let mut i: usize = 0;
    while i < messages.len()
        invariant
            0 <= i <= messages@.len(),
            r@.len() == i,
            forall|k: int|
                0 <= k < i ==> (#[trigger] r@[k]).id.is_none() && r@[k].subject
                    == messages@[k].subject && r@[k].content == messages@[k].content,
        decreases messages@.len() - i,
    {
        let m = &messages[i];
        r.push(EmailContent { id: None, subject: m.subject.clone(), content: m.content.clone() });
        i = i + 1;
    }
    r
}

/// One request per (message, recipient), each pointing at its message's
/// stored content and carrying the given schedule and status.
pub fn build_requests(
    messages: &Vec<Message>,
    saved: &Vec<EmailContent>,
    scheduled_at: &Option<String>,
    status: EmailMessageStatus,
) -> (r: Vec<EmailRequest>)
    requires
        saved@.len() == messages@.len(),
        recipient_count(messages@) <= usize::MAX,
    ensures
        is_request_plan(r@, messages@, saved@, *scheduled_at, status_code(status) as i32),
{
    let ghost ms = messages@;
    let code = status.as_i32();
    let mut r: Vec<EmailRequest> = Vec::new();
    let mut i: usize = 0;
    while i < messages.len()
        invariant
            ms == messages@,
            saved@.len() == ms.len(),
            0 <= i <= ms.len(),
            recipient_count(ms) <= usize::MAX,
            code as int == status_code(status),
            r@.len() == recipient_count(ms.take(i as int)),
            forall|a: int, b: int|
                0 <= a < i && 0 <= b < ms[a].emails@.len() ==> is_planned_request(
                    #[trigger] r@[recipient_count(ms.take(a)) + b],
                    ms[a],
                    saved@[a],
                    #[trigger] ms[a].emails@[b],
                    *scheduled_at,
                    code,
                ),
        decreases ms.len() - i,
    {
        let m = &messages[i];
        let c = &saved[i];
        let topic = match &m.topic_id {
            Some(t) => t.clone(),
            None => String::new(),
        };
        // One shared copy of the subject and body for all recipients.
        let subject = Arc::new(c.subject.clone());
        let body = Arc::new(c.content.clone());
        let ghost base = r@.len();
        proof {
            lemma_count_take_step(ms, i as int);
            lemma_count_take_mono(ms, i as int + 1, ms.len() as int);
            assert(ms.take(ms.len() as int) =~= ms);
        }
        let mut j: usize = 0;
        while j < m.emails.len()
            invariant
                ms == messages@,
                saved@.len() == ms.len(),
                0 <= i < ms.len(),
                *m == ms[i as int],
                *c == saved@[i as int],
                subject == c.subject,
                body == c.content,
                topic@ == match m.topic_id {
                    Some(t) => t@,
                    None => Seq::<char>::empty(),
                },
                code as int == status_code(status),
                base == recipient_count(ms.take(i as int)),
                base + m.emails@.len() <= usize::MAX,
                0 <= j <= m.emails@.len(),
                r@.len() == base + j,
                forall|a: int, b: int|
                    0 <= a < i && 0 <= b < ms[a].emails@.len() ==> is_planned_request(
                        #[trigger] r@[recipient_count(ms.take(a)) + b],
                        ms[a],
                        saved@[a],
                        #[trigger] ms[a].emails@[b],
                        *scheduled_at,
                        code,
                    ),
                forall|b: int|
                    0 <= b < j ==> is_planned_request(
                        #[trigger] r@[base + b],
                        ms[i as int],
                        saved@[i as int],
                        ms[i as int].emails@[b],
                        *scheduled_at,
                        code,
                    ),
            decreases m.emails@.len() - j,
        {
            let req = EmailRequest {
                id: None,
                topic_id: Some(topic.clone()),
                content_id: c.id,
                email: m.emails[j].clone(),
                subject: Arc::clone(&subject),
                content: Arc::clone(&body),
                scheduled_at: clone_opt_string(scheduled_at),
                status: code,
                error: None,
                message_id: None,
            };
            let ghost before = r@;
            r.push(req);
            proof {
                assert forall|a: int, b: int|
                    0 <= a < i && 0 <= b < ms[a].emails@.len() implies is_planned_request(
                    #[trigger] r@[recipient_count(ms.take(a)) + b],
                    ms[a],
                    saved@[a],
                    #[trigger] ms[a].emails@[b],
                    *scheduled_at,
                    code,
                ) by {
                    lemma_count_take_step(ms, a);
                    lemma_count_take_mono(ms, a + 1, i as int);
                    assert(r@[recipient_count(ms.take(a)) + b] == before[recipient_count(ms.take(a))
                        + b]);
                }
                assert forall|b: int| 0 <= b < j + 1 implies is_planned_request(
                    #[trigger] r@[base + b],
                    ms[i as int],
                    saved@[i as int],
                    ms[i as int].emails@[b],
                    *scheduled_at,
                    code,
                ) by {
                    if b < j {
                        assert(r@[base + b] == before[base + b]);
                    }
                }
            }
            j = j + 1;
        }
        proof {
            assert forall|a: int, b: int|
                0 <= a < i + 1 && 0 <= b < ms[a].emails@.len() implies is_planned_request(
                #[trigger] r@[recipient_count(ms.take(a)) + b],
                ms[a],
                saved@[a],
                #[trigger] ms[a].emails@[b],
                *scheduled_at,
                code,
            ) by {
                if a == i {
                    assert(r@[base + b] == r@[recipient_count(ms.take(a)) + b]);
                }
            }
        }
        i = i + 1;
    }
    proof {
        assert(ms.take(ms.len() as int) =~= ms);
    }
    r
}

/// What became of the requests handed to the send queue during one create
/// call. Once the queue is found closed every later request is set aside as
/// well; the set-aside requests are rolled back to `Created`.
pub struct PublishLedger {
    pub closed: bool,
    pub failed: Vec<EmailRequest>,
}

impl PublishLedger {
    pub fn new() -> (r: PublishLedger)
        ensures
            !r.closed,
            r.failed@.len() == 0,
    {
        PublishLedger { closed: false, failed: Vec::new() }
    }

    /// Whether the next request should still be offered to the queue.
    pub fn accepting(&self) -> (r: bool)
        ensures
            r == !self.closed,
    {
        !self.closed
    }

    /// Records a request that the queue refused because it is closed, or that
    /// was not offered because it had closed before: it is kept, with status
    /// `Created`, for the rollback, and the queue counts as closed from now on.
    pub fn set_aside(&mut self, req: EmailRequest)
        ensures
            final(self).closed,
            final(self).failed@.len() == old(self).failed@.len() + 1,
            final(self).failed@.drop_last() == old(self).failed@,
            final(self).failed@.last() == (EmailRequest {
                status: status_code(EmailMessageStatus::Created) as i32,
                ..req
            }),
    {
        let r = req.with_status(EmailMessageStatus::Created);
        self.failed.push(r);
        self.closed = true;
        proof {
            assert(self.failed@.drop_last() =~= old(self).failed@);
        }
    }

    /// The ids of the set-aside requests, in order; requests without an id
    /// are skipped.
    pub fn rollback_ids(&self) -> (r: Vec<i32>)
        ensures
            r@ == ids_of(self.failed@),
    {
        let mut r: Vec<i32> = Vec::new();
        let mut i: usize = 0;
        while i < self.failed.len()
            invariant
                0 <= i <= self.failed@.len(),
                r@ == ids_of(self.failed@.take(i as int)),
            decreases self.failed@.len() - i,
        {
            proof {
                assert(self.failed@.take(i as int + 1).drop_last() =~= self.failed@.take(i as int));
            }
            if let Some(id) = self.failed[i].id {
                r.push(id);
            }
            i = i + 1;
        }
        proof {
            assert(self.failed@.take(self.failed@.len() as int) =~= self.failed@);
        }
        r
    }
}

/// The ids present among `rs`, in order.
pub open spec fn ids_of(rs: Seq<EmailRequest>) -> Seq<i32>
    decreases rs.len(),
{
    if rs.len() == 0 {
        Seq::empty()
    } else {
        match rs.last().id {
            Some(id) => ids_of(rs.drop_last()).push(id),
            None => ids_of(rs.drop_last()),
        }
    }
}

/// The answer to a create call with `total` recipients: all of them counted
/// as successes when the requests were stored (`stored` is the number
/// stored), all as errors when storing them failed (`None`).
pub fn create_response(total: usize, stored: Option<usize>, duration_ms: u128, scheduled: bool) -> (r:
    CreateMessageResponse)
    ensures
        r.total == total,
        r.success == match stored {
            Some(n) => n,
            None => 0,
        },
        r.errors == match stored {
            Some(_) => 0,
            None => total,
        },
        r.duration_ms == duration_ms,
        r.scheduled == scheduled,
{
    let (success, errors) = match stored {
        Some(n) => (n, 0),
        None => (0, total),
    };
    CreateMessageResponse { total, success, errors, duration_ms, scheduled }
}

} // verus!
