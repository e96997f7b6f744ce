use vstd::prelude::*;
use vstd::string::*;

use std::sync::Arc;

use crate::bulk::{append_placeholders, placeholders, SqlStatement, SqlValue};
use crate::models::EmailRequest;
use crate::status::{status_code, EmailMessageStatus};

verus! {

/// Requests claimed per poll.
pub const CLAIM_BATCH_SIZE: i32 = 1000;

/// Wait after an empty poll, in milliseconds; doubled after more than
/// `IDLE_STREAK` empty polls in a row.
pub const IDLE_DELAY_MS: u64 = 10000;

pub const IDLE_STREAK: u32 = 5;

/// Wait after a poll that claimed requests.
pub const BATCH_DELAY_MS: u64 = 100;

/// Wait after a store failure.
pub const ERROR_BACKOFF_MS: u64 = 5000;

/// A claimed request joined with its content.
#[derive(Debug)]
pub struct ClaimedRow {
    pub id: i64,
    pub topic_id: String,
    pub content_id: i32,
    pub email: String,
    pub subject: String,
    pub content: String,
}

/// The request handed to the send queue for a claimed row: `Processed`,
/// with its content, and nothing sent yet.
pub fn claimed_request(row: ClaimedRow) -> (r: EmailRequest)
    requires
        0 < row.id <= i32::MAX,
    ensures
        r.id matches Some(id) && id as int == row.id,
        r.topic_id == Some(row.topic_id),
        r.content_id == Some(row.content_id),
        r.email == row.email,
        r.subject == row.subject,
        r.content == row.content,
        r.scheduled_at.is_none(),
        r.status as int == status_code(EmailMessageStatus::Processed),
        r.error.is_none(),
        r.message_id.is_none(),
{
    EmailRequest {
        id: Some(row.id as i32),
        topic_id: Some(row.topic_id),
        content_id: Some(row.content_id),
        email: row.email,
        subject: Arc::new(row.subject),
        content: Arc::new(row.content),
        scheduled_at: None,
        status: EmailMessageStatus::Processed.as_i32(),
        error: None,
        message_id: None,
    }
}

pub open spec fn hydrate_sql(n: nat) -> Seq<char> {
    "SELECT r.id, r.topic_id, r.content_id, r.email, c.subject, c.content FROM email_requests r JOIN email_contents c ON r.content_id = c.id WHERE r.id IN ("@
        + placeholders(n) + ")"@
}

/// The read that joins claimed requests with their contents.
pub fn hydrate_statement(ids: &Vec<i64>) -> (r: SqlStatement)
    ensures
        r.sql@ == hydrate_sql(ids@.len()),
        r.binds@ == ids@.map_values(|id: i64| SqlValue::Int(id)),
{
    let mut sql = String::from_str(
        "SELECT r.id, r.topic_id, r.content_id, r.email, c.subject, c.content FROM email_requests r JOIN email_contents c ON r.content_id = c.id WHERE r.id IN (",
    );
    append_placeholders(&mut sql, ids.len());
    sql.append(")");
    let mut binds: Vec<SqlValue> = Vec::new();
    let mut k: usize = 0;
    while k < ids.len()
        invariant
            0 <= k <= ids@.len(),
            binds@ == ids@.take(k as int).map_values(|id: i64| SqlValue::Int(id)),
        decreases ids@.len() - k,
    {
        binds.push(SqlValue::Int(ids[k]));
        k = k + 1;
        proof {
            assert(binds@ =~= ids@.take(k as int).map_values(|id: i64| SqlValue::Int(id)));
        }
    }
    proof {
        assert(ids@.take(ids@.len() as int) =~= ids@);
        assert(sql@ =~= hydrate_sql(ids@.len()));
    }
    SqlStatement { sql, binds }
}

/// What one poll of the store came to.
#[derive(Clone, Copy, Debug, PartialEq, Eq, Structural)]
pub enum PollOutcome {
    /// This many requests were claimed and handed to the send queue.
    Claimed(usize),
    /// The store failed.
    StoreFailed,
    /// The send queue is closed.
    QueueClosed,
}

/// What the scheduler does next.
#[derive(Clone, Copy, Debug, PartialEq, Eq, Structural)]
pub enum SchedulerAction {
    /// Wait this many milliseconds, then poll again.
    Sleep(u64),
    Stop,
}

/// The scheduler's memory between polls.
pub struct SchedulerState {
    pub consecutive_empty: u32,
}

impl SchedulerState {
    pub fn new() -> (r: SchedulerState)
        ensures
            r.consecutive_empty == 0,
    {
        SchedulerState { consecutive_empty: 0 }
    }

    /// Decides what follows a poll. An empty poll lengthens the idle streak
    /// and waits `IDLE_DELAY_MS`, or twice that once the streak exceeds
    /// `IDLE_STREAK`; a poll that claimed requests ends the streak and waits
    /// `BATCH_DELAY_MS`; a store failure waits `ERROR_BACKOFF_MS`; a closed
    /// queue stops the scheduler.
    pub fn after_poll(&mut self, outcome: PollOutcome) -> (r: SchedulerAction)
        ensures
            outcome == PollOutcome::Claimed(0) ==> {
                &&& final(self).consecutive_empty as int == if old(self).consecutive_empty
                    == u32::MAX {
                    u32::MAX as int
                } else {
                    old(self).consecutive_empty + 1
                }
                &&& r == SchedulerAction::Sleep(
                    if final(self).consecutive_empty > IDLE_STREAK {
                        (2 * IDLE_DELAY_MS) as u64
                    } else {
                        IDLE_DELAY_MS
                    },
                )
            },
            outcome matches PollOutcome::Claimed(n) && n > 0 ==> final(self).consecutive_empty == 0
                && r == SchedulerAction::Sleep(BATCH_DELAY_MS),
            outcome == PollOutcome::StoreFailed ==> final(self).consecutive_empty
                == old(self).consecutive_empty && r == SchedulerAction::Sleep(ERROR_BACKOFF_MS),
            outcome == PollOutcome::QueueClosed ==> final(self).consecutive_empty
                == old(self).consecutive_empty && r == SchedulerAction::Stop,
    {
        match outcome {
            PollOutcome::Claimed(n) => {
                if n == 0 {
                    if self.consecutive_empty < u32::MAX {
                        self.consecutive_empty = self.consecutive_empty + 1;
                    }
                    if self.consecutive_empty > IDLE_STREAK {
                        SchedulerAction::Sleep(2 * IDLE_DELAY_MS)
                    } else {
                        SchedulerAction::Sleep(IDLE_DELAY_MS)
                    }
                } else {
                    self.consecutive_empty = 0;
                    SchedulerAction::Sleep(BATCH_DELAY_MS)
                }
            },
            PollOutcome::StoreFailed => SchedulerAction::Sleep(ERROR_BACKOFF_MS),
            PollOutcome::QueueClosed => SchedulerAction::Stop,
        }
    }
}

} // verus!
