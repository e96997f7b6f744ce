use vstd::prelude::*;
use vstd::string::*;

use crate::bulk::{
    first_error, first_message_id, first_with_id, ids_distinct, lemma_bulk_update_stores_batch,
    row_after_bulk, RowUpdate,
};
use crate::models::{clone_opt_string, EmailRequest};
use crate::status::{status_code, transition_allowed, EmailMessageStatus};

verus! {

/// A stored request. `scheduled_at` is in UTC seconds.
#[derive(Debug)]
pub struct StoredRequest {
    pub id: i32,
    pub topic_id: String,
    pub content_id: i32,
    pub email: String,
    pub scheduled_at: i64,
    pub status: i32,
    pub message_id: Option<String>,
    pub error: Option<String>,
}

/// A stored result event.
#[derive(Debug)]
pub struct StoredResult {
    pub id: i32,
    pub request_id: i32,
    pub status: String,
    pub raw: Option<String>,
}

/// An in-memory model of the store's row operations: requests and their
/// result events, with ids assigned in increasing order and never reused.
///
/// The service itself keeps its rows in SQLite and runs SQL written beside
/// the HTTP layer; this model states and proves what those operations are
/// meant to do (claiming, stopping a topic, counting, writing send outcomes,
/// recording results). Nothing here checks the SQL against the model: in
/// particular `row_after_bulk`, which `apply_bulk_update` follows, is not
/// linked to the text of `bulk_update_sql`.
pub struct Store {
    pub requests: Vec<StoredRequest>,
    pub results: Vec<StoredResult>,
    pub next_request_id: i32,
    pub next_result_id: i32,
}

pub open spec fn created() -> int {
    status_code(EmailMessageStatus::Created)
}

pub open spec fn processed() -> int {
    status_code(EmailMessageStatus::Processed)
}

pub open spec fn stopped() -> int {
    status_code(EmailMessageStatus::Stopped)
}

/// Some row of `rs` with id `id` was due at `now`.
pub open spec fn was_due_id(rs: Seq<StoredRequest>, id: i32, now: i64) -> bool {
    exists|i: int| 0 <= i < rs.len() && (#[trigger] rs[i]).id == id && is_due(rs[i], now)
}

/// A request the scheduler may claim at `now`.
pub open spec fn is_due(r: StoredRequest, now: i64) -> bool {
    r.status == created() && r.scheduled_at <= now
}

/// Request ids are distinct and below the next id to assign.
pub open spec fn requests_wf(rs: Seq<StoredRequest>, next_id: i32) -> bool {
    &&& forall|i: int| 0 <= i < rs.len() ==> 0 < (#[trigger] rs[i]).id < next_id
    &&& forall|i: int, j: int|
        0 <= i < rs.len() && 0 <= j < rs.len() && i != j ==> (#[trigger] rs[i]).id
            != (#[trigger] rs[j]).id
}

/// `new` is `old` after a claim at `now` of at most `limit` requests that
/// returned the ids `claimed`: exactly the claimed rows went from `Created`
/// to `Processed`, they were due, they were the earliest due, and fewer than
/// `limit` are claimed only when no due request is left.
pub open spec fn is_claim(
    old: Seq<StoredRequest>,
    new: Seq<StoredRequest>,
    claimed: Seq<i32>,
    limit: usize,
    now: i64,
) -> bool {
    &&& new.len() == old.len()
    &&& claimed.len() <= limit
    &&& claimed.no_duplicates()
    &&& forall|i: int|
        0 <= i < old.len() ==> (#[trigger] new[i] == old[i] && !claimed.contains(old[i].id)) || (
        is_due(old[i], now) && new[i] == (StoredRequest { status: processed() as i32, ..old[i] })
            && claimed.contains(old[i].id))
    &&& forall|k: int| 0 <= k < claimed.len() ==> was_due_id(old, #[trigger] claimed[k], now)
    &&& claimed.len() < limit ==> forall|j: int| 0 <= j < new.len() ==> !is_due(#[trigger] new[j], now)
    &&& forall|i: int, j: int|
        0 <= i < old.len() && 0 <= j < new.len() && claimed.contains(old[i].id) && is_due(
            #[trigger] new[j],
            now,
        ) ==> (#[trigger] old[i]).scheduled_at <= new[j].scheduled_at
}

/// Two claims run one after the other never hand out the same request.
pub proof fn lemma_claims_disjoint(
    s0: Seq<StoredRequest>,
    s1: Seq<StoredRequest>,
    s2: Seq<StoredRequest>,
    c1: Seq<i32>,
    c2: Seq<i32>,
    l1: usize,
    l2: usize,
    n1: i64,
    n2: i64,
    next_id: i32,
)
    requires
        requests_wf(s0, next_id),
        is_claim(s0, s1, c1, l1, n1),
        is_claim(s1, s2, c2, l2, n2),
    ensures
        forall|x: i32| c1.contains(x) ==> !c2.contains(x),
{
    assert forall|x: i32| c1.contains(x) implies !c2.contains(x) by {
        if c2.contains(x) {
            let k1 = choose|k: int| 0 <= k < c1.len() && c1[k] == x;
            let i = choose|i: int| 0 <= i < s0.len() && (#[trigger] s0[i]).id == c1[k1] && is_due(s0[i], n1);
            let k2 = choose|k: int| 0 <= k < c2.len() && c2[k] == x;
            let j = choose|j: int| 0 <= j < s1.len() && (#[trigger] s1[j]).id == c2[k2] && is_due(s1[j], n2);
            assert(s1[i] == s0[i] || s1[i].status == processed());
            assert(s1[j].id == s0[j].id);
            if i != j {
                assert(s0[i].id != s0[j].id);
            }
        }
    }
}

/// A claim only moves requests from `Created` to `Processed`.
pub proof fn lemma_claim_transitions_allowed(
    old: Seq<StoredRequest>,
    new: Seq<StoredRequest>,
    claimed: Seq<i32>,
    limit: usize,
    now: i64,
    i: int,
)
    requires
        is_claim(old, new, claimed, limit, now),
        0 <= i < old.len(),
        new[i].status != old[i].status,
    ensures
        transition_allowed(
            status_of(old[i].status as int),
            status_of(new[i].status as int),
        ),
{
}

/// The status stored under a code, reading an unknown code as `Created`
/// (used only where the code is known to name a status).
pub open spec fn status_of(code: int) -> EmailMessageStatus {
    if code == 1 {
        EmailMessageStatus::Processed
    } else if code == 2 {
        EmailMessageStatus::Sent
    } else if code == 3 {
        EmailMessageStatus::Failed
    } else if code == 4 {
        EmailMessageStatus::Stopped
    } else {
        EmailMessageStatus::Created
    }
}

/// `new` is `old` after stopping topic `topic`: its `Created` requests are
/// `Stopped`, every other row is unchanged.
pub open spec fn is_stop(old: Seq<StoredRequest>, new: Seq<StoredRequest>, topic: Seq<char>) -> bool {
    &&& new.len() == old.len()
    &&& forall|i: int|
        0 <= i < old.len() ==> #[trigger] new[i] == if old[i].status == created()
            && old[i].topic_id@ == topic {
            StoredRequest { status: stopped() as i32, ..old[i] }
        } else {
            old[i]
        }
}

/// Number of requests of topic `topic` stored with status code `code`.
pub open spec fn count_in_topic(rs: Seq<StoredRequest>, topic: Seq<char>, code: int) -> nat
    decreases rs.len(),
{
    if rs.len() == 0 {
        0
    } else {
        count_in_topic(rs.drop_last(), topic, code) + if rs.last().topic_id@ == topic
            && rs.last().status == code {
            1nat
        } else {
            0nat
        }
    }
}

/// Number of requests of topic `topic` whose status code names no status.
pub open spec fn count_unknown_in_topic(rs: Seq<StoredRequest>, topic: Seq<char>) -> nat
    decreases rs.len(),
{
    if rs.len() == 0 {
        0
    } else {
        count_unknown_in_topic(rs.drop_last(), topic) + if rs.last().topic_id@ == topic && !(0
            <= rs.last().status <= 4) {
            1nat
        } else {
            0nat
        }
    }
}

proof fn lemma_counts_agree(a: Seq<StoredRequest>, b: Seq<StoredRequest>, topic: Seq<char>)
    requires
        a.len() == b.len(),
        forall|i: int|
            0 <= i < a.len() && (a[i].topic_id@ == topic || b[i].topic_id@ == topic) ==> (
            #[trigger] a[i]).topic_id@ == b[i].topic_id@ && a[i].status == b[i].status,
    ensures
        forall|code: int| count_in_topic(a, topic, code) == count_in_topic(b, topic, code),
        count_unknown_in_topic(a, topic) == count_unknown_in_topic(b, topic),
    decreases a.len(),
{
    if a.len() > 0 {
        let (a2, b2) = (a.drop_last(), b.drop_last());
        assert forall|i: int|
            0 <= i < a2.len() && (a2[i].topic_id@ == topic || b2[i].topic_id@ == topic) implies (
            #[trigger] a2[i]).topic_id@ == b2[i].topic_id@ && a2[i].status == b2[i].status by {
            assert(a2[i] == a[i] && b2[i] == b[i]);
        }
        lemma_counts_agree(a2, b2, topic);
        let n = a.len() - 1;
        assert(a.last() == a[n] && b.last() == b[n]);
        assert forall|code: int| count_in_topic(a, topic, code) == count_in_topic(b, topic, code) by {
            assert(count_in_topic(a2, topic, code) == count_in_topic(b2, topic, code));
            if a[n].topic_id@ == topic || b[n].topic_id@ == topic {
                assert(a[n].topic_id@ == b[n].topic_id@ && a[n].status == b[n].status);
            }
        }
        if a[n].topic_id@ == topic || b[n].topic_id@ == topic {
            assert(a[n].topic_id@ == b[n].topic_id@ && a[n].status == b[n].status);
        }
    }
}

/// Stopping one topic changes no request of another topic, and no count of
/// another topic.
pub proof fn lemma_stop_isolated(
    old: Seq<StoredRequest>,
    new: Seq<StoredRequest>,
    a: Seq<char>,
    b: Seq<char>,
)
    requires
        is_stop(old, new, a),
        a != b,
    ensures
        forall|i: int| 0 <= i < old.len() && old[i].topic_id@ != a ==> new[i] == old[i],
        forall|code: int| count_in_topic(new, b, code) == count_in_topic(old, b, code),
        count_unknown_in_topic(new, b) == count_unknown_in_topic(old, b),
{
    assert forall|i: int| 0 <= i < old.len() && old[i].topic_id@ != a implies new[i] == old[i] by {
        assert(new[i] == old[i]);
    }
    assert forall|i: int|
        0 <= i < new.len() && (new[i].topic_id@ == b || old[i].topic_id@ == b) implies (
        #[trigger] new[i]).topic_id@ == old[i].topic_id@ && new[i].status == old[i].status by {
        assert(new[i] == old[i] || new[i].topic_id@ == a);
    }
    lemma_counts_agree(new, old, b);
}

/// Stopping a topic only moves requests from `Created` to `Stopped`.
pub proof fn lemma_stop_transitions_allowed(
    old: Seq<StoredRequest>,
    new: Seq<StoredRequest>,
    topic: Seq<char>,
    i: int,
)
    requires
        is_stop(old, new, topic),
        0 <= i < old.len(),
        new[i].status != old[i].status,
    ensures
        transition_allowed(status_of(old[i].status as int), status_of(new[i].status as int)),
{
    assert(new[i] == old[i] || (old[i].status == created() && new[i].status == stopped()));
}

/// Number of requests of topic `topic` that have at least one result with
/// status `status`: a result status counted per topic counts each request
/// once, however many such results it has.
pub open spec fn requests_with_result(
    rs: Seq<StoredRequest>,
    results: Seq<StoredResult>,
    topic: Seq<char>,
    status: Seq<char>,
) -> nat
    decreases rs.len(),
{
    if rs.len() == 0 {
        0
    } else {
        requests_with_result(rs.drop_last(), results, topic, status) + if rs.last().topic_id@
            == topic && has_result(results, rs.last().id, status) {
            1nat
        } else {
            0nat
        }
    }
}

/// Request `id` has a result with status `status`.
pub open spec fn has_result(results: Seq<StoredResult>, id: i32, status: Seq<char>) -> bool {
    exists|k: int| 0 <= k < results.len() && (#[trigger] results[k]).request_id == id && results[k].status@ == status
}

proof fn lemma_opened_step(
    rs: Seq<StoredRequest>,
    results: Seq<StoredResult>,
    added: StoredResult,
    topic: Seq<char>,
    status: Seq<char>,
)
    requires
        forall|i: int, j: int|
            0 <= i < rs.len() && 0 <= j < rs.len() && i != j ==> (#[trigger] rs[i]).id
                != (#[trigger] rs[j]).id,
    ensures
        requests_with_result(rs, results.push(added), topic, status) == requests_with_result(
            rs,
            results,
            topic,
            status,
        ) + if added.status@ == status && !has_result(results, added.request_id, status) && exists|
            i: int,
        | 0 <= i < rs.len() && (#[trigger] rs[i]).id == added.request_id && rs[i].topic_id@ == topic {
            1nat
        } else {
            0nat
        },
    decreases rs.len(),
{
    let r2 = results.push(added);
    assert forall|id: i32| #[trigger]
        has_result(r2, id, status) == (has_result(results, id, status) || (added.request_id == id
            && added.status@ == status)) by {
        if has_result(r2, id, status) && !has_result(results, id, status) {
            let k = choose|k: int| 0 <= k < r2.len() && (#[trigger] r2[k]).request_id == id && r2[k].status@ == status;
            if k < results.len() {
                assert(r2[k] == results[k]);
            }
        }
        if has_result(results, id, status) {
            let k = choose|k: int| 0 <= k < results.len() && (#[trigger] results[k]).request_id == id && results[k].status@ == status;
            assert(r2[k] == results[k]);
        }
        if added.request_id == id && added.status@ == status {
            assert(r2[results.len() as int] == added);
        }
    }
    if rs.len() > 0 {
        let t = rs.drop_last();
        assert forall|i: int, j: int|
            0 <= i < t.len() && 0 <= j < t.len() && i != j implies (#[trigger] t[i]).id != (
            #[trigger] t[j]).id by {
            assert(t[i] == rs[i] && t[j] == rs[j]);
        }
        lemma_opened_step(t, results, added, topic, status);
        let in_t = exists|i: int| 0 <= i < t.len() && (#[trigger] t[i]).id == added.request_id && t[i].topic_id@ == topic;
        let in_rs = exists|i: int| 0 <= i < rs.len() && (#[trigger] rs[i]).id == added.request_id && rs[i].topic_id@ == topic;
        let last = rs.last();
        if in_t {
            let i = choose|i: int| 0 <= i < t.len() && (#[trigger] t[i]).id == added.request_id && t[i].topic_id@ == topic;
            assert(rs[i] == t[i]);
            assert(rs[rs.len() - 1] == last);
            assert(last.id != added.request_id);
        }
        if in_rs && !in_t {
            let i = choose|i: int| 0 <= i < rs.len() && (#[trigger] rs[i]).id == added.request_id && rs[i].topic_id@ == topic;
            if i < t.len() {
                assert(t[i] == rs[i]);
            }
            assert(i == rs.len() - 1);
        }
        if !in_rs && last.topic_id@ == topic {
            assert(rs[rs.len() - 1] == last);
        }
        if in_t {
            let i = choose|i: int| 0 <= i < t.len() && (#[trigger] t[i]).id == added.request_id && t[i].topic_id@ == topic;
            assert(rs[i] == t[i]);
        }
    }
}

/// Recording an `Open` for a request of the topic raises the topic's count
/// of opened requests by one the first time and leaves it unchanged after:
/// every call appends a result, and the per-topic count goes by request.
pub proof fn lemma_open_counted_once(
    rs: Seq<StoredRequest>,
    results: Seq<StoredResult>,
    added: StoredResult,
    topic: Seq<char>,
    next_id: i32,
    i: int,
)
    requires
        requests_wf(rs, next_id),
        0 <= i < rs.len(),
        rs[i].topic_id@ == topic,
        added.request_id == rs[i].id,
        added.status@ == "Open"@,
    ensures
        requests_with_result(rs, results.push(added), topic, "Open"@) == requests_with_result(
            rs,
            results,
            topic,
            "Open"@,
        ) + if has_result(results, rs[i].id, "Open"@) {
            0nat
        } else {
            1nat
        },
{
    lemma_opened_step(rs, results, added, topic, "Open"@);
    assert(rs[i].id == added.request_id && rs[i].topic_id@ == topic);
}

/// A stored request after the bulk update of `batch` (see `row_after_bulk`).
pub open spec fn bulk_applied(row: StoredRequest, batch: Seq<EmailRequest>) -> StoredRequest {
    let u = row_after_bulk(
        RowUpdate { status: row.status, message_id: row.message_id, error: row.error },
        row.id,
        batch,
    );
    StoredRequest { status: u.status, message_id: u.message_id, error: u.error, ..row }
}

/// After a bulk update with a batch whose ids are distinct, a stored request
/// named in the batch holds the batch row's status, its provider message id
/// when the row carries one (else the earlier one), and its error likewise.
pub proof fn lemma_stored_after_bulk_update(row: StoredRequest, batch: Seq<EmailRequest>, k: int)
    requires
        0 <= k < batch.len(),
        batch[k].id == Some(row.id),
        ids_distinct(batch),
    ensures
        bulk_applied(row, batch).status == batch[k].status,
        bulk_applied(row, batch).message_id == match batch[k].message_id {
            Some(m) => Some(m),
            None => row.message_id,
        },
        bulk_applied(row, batch).error == match batch[k].error {
            Some(e) => Some(e),
            None => row.error,
        },
        bulk_applied(row, batch).id == row.id,
        bulk_applied(row, batch).topic_id == row.topic_id,
{
    lemma_bulk_update_stores_batch(
        RowUpdate { status: row.status, message_id: row.message_id, error: row.error },
        batch,
        k,
    );
}

/// Writing send outcomes (`Sent` or `Failed`) to requests that were
/// `Processed` moves them only along allowed transitions.
pub proof fn lemma_outcomes_transitions_allowed(row: StoredRequest, batch: Seq<EmailRequest>, k: int)
    requires
        0 <= k < batch.len(),
        batch[k].id == Some(row.id),
        ids_distinct(batch),
        row.status == processed(),
        batch[k].status == status_code(EmailMessageStatus::Sent) || batch[k].status == status_code(
            EmailMessageStatus::Failed,
        ),
    ensures
        transition_allowed(
            status_of(row.status as int),
            status_of(bulk_applied(row, batch).status as int),
        ),
{
    lemma_stored_after_bulk_update(row, batch, k);
}

/// Per-status request counts of one topic.
#[derive(Debug)]
pub struct StatusCounts {
    pub created: usize,
    pub processed: usize,
    pub sent: usize,
    pub failed: usize,
    pub stopped: usize,
    pub unknown: usize,
}

impl Store {
    pub open spec fn wf(&self) -> bool {
        &&& requests_wf(self.requests@, self.next_request_id)
        &&& self.next_request_id > 0
        &&& self.next_result_id > 0
    }

    /// An empty store.
    pub fn new() -> (r: Store)
        ensures
            r.wf(),
            r.requests@.len() == 0,
            r.results@.len() == 0,
    {
        Store { requests: Vec::new(), results: Vec::new(), next_request_id: 1, next_result_id: 1 }
    }

    /// Stores a new request and returns its id.
    pub fn insert_request(
        &mut self,
        topic_id: String,
        content_id: i32,
        email: String,
        scheduled_at: i64,
        status: EmailMessageStatus,
    ) -> (r: Option<i32>)
        requires
            old(self).wf(),
        ensures
            final(self).wf(),
            final(self).results@ == old(self).results@,
            old(self).next_request_id == i32::MAX ==> r is None && final(self).requests@ == old(
                self,
            ).requests@,
            old(self).next_request_id < i32::MAX ==> r == Some(old(self).next_request_id)
                && final(self).requests@ == old(self).requests@.push(
                StoredRequest {
                    id: old(self).next_request_id,
                    topic_id,
                    content_id,
                    email,
                    scheduled_at,
                    status: status_code(status) as i32,
                    message_id: None,
                    error: None,
                },
            ),
    {
        if self.next_request_id == i32::MAX {
            return None;
        }
        let id = self.next_request_id;
        self.requests.push(
            StoredRequest {
                id,
                topic_id,
                content_id,
                email,
                scheduled_at,
                status: status.as_i32(),
                message_id: None,
                error: None,
            },
        );
        self.next_request_id = id + 1;
        Some(id)
    }

    /// Claims up to `limit` due requests at `now`, earliest first, moving
    /// them to `Processed`; returns their ids.
    pub fn claim_due(&mut self, limit: usize, now: i64) -> (r: Vec<i32>)
        requires
            old(self).wf(),
        ensures
            final(self).wf(),
            final(self).results@ == old(self).results@,
            is_claim(old(self).requests@, final(self).requests@, r@, limit, now),
    {
        let ghost start = self.requests@;
        let mut claimed: Vec<i32> = Vec::new();
        while claimed.len() < limit
            invariant
                self.wf(),
                self.results@ == old(self).results@,
                self.next_request_id == old(self).next_request_id,
                self.requests@.len() == start.len(),
                requests_wf(start, self.next_request_id),
                claimed@.len() <= limit,
                claimed@.no_duplicates(),
                forall|i: int|
                    0 <= i < start.len() ==> (#[trigger] self.requests@[i] == start[i]
                        && !claimed@.contains(start[i].id)) || (is_due(start[i], now)
                        && self.requests@[i] == (StoredRequest {
                        status: processed() as i32,
                        ..start[i]
                    }) && claimed@.contains(start[i].id)),
                forall|k: int| 0 <= k < claimed@.len() ==> was_due_id(start, #[trigger] claimed@[k], now),
                forall|i: int, j: int|
                    0 <= i < start.len() && 0 <= j < start.len() && claimed@.contains(start[i].id)
                        && is_due(#[trigger] self.requests@[j], now) ==> (
                    #[trigger] start[i]).scheduled_at <= self.requests@[j].scheduled_at,
            ensures
                claimed@.len() < limit ==> forall|j: int|
                    0 <= j < self.requests@.len() ==> !is_due(#[trigger] self.requests@[j], now),
            decreases limit - claimed@.len(),
        {
            // Find the earliest due request.
            let mut best: Option<usize> = None;
            let mut j: usize = 0;
            while j < self.requests.len()
                invariant
                    0 <= j <= self.requests@.len(),
                    best matches Some(b) ==> b < j && is_due(self.requests@[b as int], now),
                    best matches Some(b) ==> forall|k: int|
                        0 <= k < j && is_due(#[trigger] self.requests@[k], now)
                            ==> self.requests@[b as int].scheduled_at
                            <= self.requests@[k].scheduled_at,
                    best is None ==> forall|k: int| 0 <= k < j ==> !is_due(#[trigger] self.requests@[k], now),
                decreases self.requests@.len() - j,
            {
                let row = &self.requests[j];
                if row.status == EmailMessageStatus::Created.as_i32() && row.scheduled_at <= now {
                    match best {
                        Some(b) => {
                            if row.scheduled_at < self.requests[b].scheduled_at {
                                best = Some(j);
                            }
                        },
                        None => {
                            best = Some(j);
                        },
                    }
                }
                j = j + 1;
            }
            match best {
                None => {
                    break;
                },
                Some(b) => {
                    let ghost before = self.requests@;
                    let ghost old_claimed = claimed@;
                    let id = self.requests[b].id;
                    proof {
                        // The chosen row is still unclaimed, so its id is new.
                        assert(before[b as int] == start[b as int]);
                        if old_claimed.contains(id) {
                            let k = choose|k: int| 0 <= k < old_claimed.len() && old_claimed[k] == id;
                            let i = choose|i: int| 0 <= i < start.len() && (#[trigger] start[i]).id == old_claimed[k] && is_due(start[i], now);
                            if i != b as int {
                                assert(start[i].id != start[b as int].id);
                            }
                        }
                    }
                    self.set_status(b, EmailMessageStatus::Processed);
                    claimed.push(id);
                    proof {
                        assert forall|i: int|
                            0 <= i < start.len() implies (#[trigger] self.requests@[i] == start[i]
                                && !claimed@.contains(start[i].id)) || (is_due(start[i], now)
                                && self.requests@[i] == (StoredRequest {
                                status: processed() as i32,
                                ..start[i]
                            }) && claimed@.contains(start[i].id)) by {
                            if i != b as int {
                                assert(self.requests@[i] == before[i]);
                                assert(start[i].id != start[b as int].id);
                                if claimed@.contains(start[i].id) {
                                    let k = choose|k: int| 0 <= k < claimed@.len() && claimed@[k] == start[i].id;
                                    if k < old_claimed.len() {
                                        assert(old_claimed[k] == claimed@[k]);
                                        assert(old_claimed.contains(start[i].id));
                                    }
                                }
                            } else {
                                assert(claimed@[claimed@.len() - 1] == id);
                            }
                            if old_claimed.contains(start[i].id) {
                                let k = choose|k: int| 0 <= k < old_claimed.len() && old_claimed[k] == start[i].id;
                                assert(claimed@[k] == old_claimed[k]);
                            }
                        }
                        assert forall|k: int| 0 <= k < claimed@.len() implies was_due_id(
                            start,
                            #[trigger] claimed@[k],
                            now,
                        ) by {
                            if k < old_claimed.len() {
                                assert(claimed@[k] == old_claimed[k]);
                            } else {
                                assert(start[b as int].id == claimed@[k]);
                                assert(is_due(start[b as int], now));
                            }
                        }
                        assert forall|i: int, j: int|
                            0 <= i < start.len() && 0 <= j < start.len() && claimed@.contains(
                                start[i].id,
                            ) && is_due(#[trigger] self.requests@[j], now) implies (
                            #[trigger] start[i]).scheduled_at <= self.requests@[j].scheduled_at by {
                            assert(j != b as int);
                            assert(self.requests@[j] == before[j]);
                            let k = choose|k: int| 0 <= k < claimed@.len() && claimed@[k] == start[i].id;
                            if k < old_claimed.len() {
                                assert(old_claimed[k] == claimed@[k]);
                                assert(old_claimed.contains(start[i].id));
                            } else {
                                assert(start[i].id == start[b as int].id);
                                if i != b as int {
                                    assert(start[i].id != start[b as int].id);
                                }
                            }
                        }
                    }
                },
            }
        }
        claimed
    }

    fn set_status(&mut self, b: usize, status: EmailMessageStatus)
        requires
            b < old(self).requests@.len(),
        ensures
            final(self).requests@ == old(self).requests@.update(
                b as int,
                StoredRequest { status: status_code(status) as i32, ..old(self).requests@[b as int] },
            ),
            final(self).results@ == old(self).results@,
            final(self).next_request_id == old(self).next_request_id,
            final(self).next_result_id == old(self).next_result_id,
    {
        let code = status.as_i32();
        let mut rows = Vec::new();
        std::mem::swap(&mut rows, &mut self.requests);
        let mut row = rows.remove(b);
        row.status = code;
        rows.insert(b, row);
        std::mem::swap(&mut rows, &mut self.requests);
        proof {
            assert(self.requests@ =~= old(self).requests@.update(
                b as int,
                StoredRequest { status: code, ..old(self).requests@[b as int] },
            ));
        }
    }

    fn replace_row(&mut self, b: usize, row: StoredRequest)
        requires
            b < old(self).requests@.len(),
        ensures
            final(self).requests@ == old(self).requests@.update(b as int, row),
            final(self).results@ == old(self).results@,
            final(self).next_request_id == old(self).next_request_id,
            final(self).next_result_id == old(self).next_result_id,
    {
        let mut rows = Vec::new();
        std::mem::swap(&mut rows, &mut self.requests);
        let _ = rows.remove(b);
        rows.insert(b, row);
        std::mem::swap(&mut rows, &mut self.requests);
        proof {
            assert(self.requests@ =~= old(self).requests@.update(b as int, row));
        }
    }

    /// Writes a batch of send outcomes: each stored request named in the
    /// batch takes the batch's status, and its provider message id and error
    /// where the batch carries them.
    pub fn apply_bulk_update(&mut self, batch: &Vec<EmailRequest>)
        requires
            old(self).wf(),
        ensures
            final(self).wf(),
            final(self).results@ == old(self).results@,
            final(self).requests@.len() == old(self).requests@.len(),
            forall|i: int|
                0 <= i < old(self).requests@.len() ==> #[trigger] final(self).requests@[i]
                    == bulk_applied(old(self).requests@[i], batch@),
    {
        let ghost start = self.requests@;
        let ghost bs = batch@;
        let mut i: usize = 0;
        while i < self.requests.len()
            invariant
                self.requests@.len() == start.len(),
                self.results@ == old(self).results@,
                self.next_request_id == old(self).next_request_id,
                self.next_result_id == old(self).next_result_id,
                start == old(self).requests@,
                bs == batch@,
                0 <= i <= start.len(),
                forall|k: int|
                    0 <= k < start.len() ==> #[trigger] self.requests@[k] == if k < i {
                        bulk_applied(start[k], bs)
                    } else {
                        start[k]
                    },
            decreases start.len() - i,
        {
            let id = self.requests[i].id;
            let mut j: usize = batch.len();
            let mut st: Option<i32> = None;
            let mut mid: Option<String> = None;
            let mut err: Option<String> = None;
            while j > 0
                invariant
                    bs == batch@,
                    0 <= j <= bs.len(),
                    st == match first_with_id(bs.subrange(j as int, bs.len() as int), id) {
                        Some(r) => Some(r.status),
                        None => None,
                    },
                    mid == first_message_id(bs.subrange(j as int, bs.len() as int), id),
                    err == first_error(bs.subrange(j as int, bs.len() as int), id),
                decreases j,
            {
                j = j - 1;
                proof {
                    let sub = bs.subrange(j as int, bs.len() as int);
                    assert(sub.drop_first() =~= bs.subrange(j + 1, bs.len() as int));
                    assert(sub[0] == bs[j as int]);
                }
                let r = &batch[j];
                if r.id == Some(id) {
                    st = Some(r.status);
                    if r.message_id.is_some() {
                        mid = clone_opt_string(&r.message_id);
                    }
                    if r.error.is_some() {
                        err = clone_opt_string(&r.error);
                    }
                }
            }
            proof {
                assert(bs.subrange(0, bs.len() as int) =~= bs);
            }
            if let Some(s) = st {
                let old_row = &self.requests[i];
                let row = StoredRequest {
                    id: old_row.id,
                    topic_id: old_row.topic_id.clone(),
                    content_id: old_row.content_id,
                    email: old_row.email.clone(),
                    scheduled_at: old_row.scheduled_at,
                    status: s,
                    message_id: match mid {
                        Some(m) => Some(m),
                        None => clone_opt_string(&old_row.message_id),
                    },
                    error: match err {
                        Some(e) => Some(e),
                        None => clone_opt_string(&old_row.error),
                    },
                };
                self.replace_row(i, row);
            }
            i = i + 1;
        }
        proof {
            assert forall|a: int| 0 <= a < self.requests@.len() implies 0 < (
            #[trigger] self.requests@[a]).id < self.next_request_id by {
                assert(self.requests@[a].id == start[a].id);
            }
            assert forall|a: int, b: int|
                0 <= a < self.requests@.len() && 0 <= b < self.requests@.len() && a != b implies (
                #[trigger] self.requests@[a]).id != (#[trigger] self.requests@[b]).id by {
                assert(self.requests@[a].id == start[a].id && self.requests@[b].id == start[b].id);
            }
        }
    }

    /// Stops topic `topic`: its `Created` requests become `Stopped`.
    pub fn stop_topic(&mut self, topic: &str)
        requires
            old(self).wf(),
        ensures
            final(self).wf(),
            final(self).results@ == old(self).results@,
            is_stop(old(self).requests@, final(self).requests@, topic@),
    {
        let t = String::from_str(topic);
        let ghost start = self.requests@;
        let mut i: usize = 0;
        while i < self.requests.len()
            invariant
                self.requests@.len() == start.len(),
                self.results@ == old(self).results@,
                self.next_request_id == old(self).next_request_id,
                self.next_result_id == old(self).next_result_id,
                start == old(self).requests@,
                t@ == topic@,
                0 <= i <= start.len(),
                forall|k: int|
                    0 <= k < start.len() ==> #[trigger] self.requests@[k] == if k < i
                        && start[k].status == created() && start[k].topic_id@ == topic@ {
                        StoredRequest { status: stopped() as i32, ..start[k] }
                    } else {
                        start[k]
                    },
            decreases start.len() - i,
        {
            if self.requests[i].status == EmailMessageStatus::Created.as_i32()
                && self.requests[i].topic_id == t {
                self.set_status(i, EmailMessageStatus::Stopped);
            }
            i = i + 1;
        }
        proof {
            assert forall|a: int| 0 <= a < self.requests@.len() implies 0 < (
            #[trigger] self.requests@[a]).id < self.next_request_id by {
                assert(self.requests@[a].id == start[a].id);
            }
            assert forall|a: int, b: int|
                0 <= a < self.requests@.len() && 0 <= b < self.requests@.len() && a != b implies (
                #[trigger] self.requests@[a]).id != (#[trigger] self.requests@[b]).id by {
                assert(self.requests@[a].id == start[a].id && self.requests@[b].id == start[b].id);
            }
        }
    }

    /// Per-status request counts of topic `topic`.
    pub fn request_counts(&self, topic: &str) -> (r: StatusCounts)
        ensures
            r.created == count_in_topic(self.requests@, topic@, 0),
            r.processed == count_in_topic(self.requests@, topic@, 1),
            r.sent == count_in_topic(self.requests@, topic@, 2),
            r.failed == count_in_topic(self.requests@, topic@, 3),
            r.stopped == count_in_topic(self.requests@, topic@, 4),
            r.unknown == count_unknown_in_topic(self.requests@, topic@),
    {
        let t = String::from_str(topic);
        let ghost rs = self.requests@;
        let mut c = StatusCounts { created: 0, processed: 0, sent: 0, failed: 0, stopped: 0, unknown: 0 };
        let mut i: usize = 0;
        while i < self.requests.len()
            invariant
                rs == self.requests@,
                t@ == topic@,
                0 <= i <= rs.len(),
                c.created == count_in_topic(rs.take(i as int), topic@, 0),
                c.processed == count_in_topic(rs.take(i as int), topic@, 1),
                c.sent == count_in_topic(rs.take(i as int), topic@, 2),
                c.failed == count_in_topic(rs.take(i as int), topic@, 3),
                c.stopped == count_in_topic(rs.take(i as int), topic@, 4),
                c.unknown == count_unknown_in_topic(rs.take(i as int), topic@),
                c.created + c.processed + c.sent + c.failed + c.stopped + c.unknown <= i,
            decreases rs.len() - i,
        {
            proof {
                assert(rs.take(i as int + 1).drop_last() =~= rs.take(i as int));
                assert(rs.take(i as int + 1).last() == rs[i as int]);
            }
            let row = &self.requests[i];
            if row.topic_id == t {
                let s = row.status;
                if s == 0 {
                    c.created = c.created + 1;
                } else if s == 1 {
                    c.processed = c.processed + 1;
                } else if s == 2 {
                    c.sent = c.sent + 1;
                } else if s == 3 {
                    c.failed = c.failed + 1;
                } else if s == 4 {
                    c.stopped = c.stopped + 1;
                } else {
                    c.unknown = c.unknown + 1;
                }
            }
            i = i + 1;
        }
        proof {
            assert(rs.take(rs.len() as int) =~= rs);
        }
        c
    }

    /// Appends a result event for request `request_id`; returns its id.
    pub fn save_result(&mut self, request_id: i32, status: String, raw: Option<String>) -> (r: Option<i32>)
        requires
            old(self).wf(),
        ensures
            final(self).wf(),
            final(self).requests@ == old(self).requests@,
            old(self).next_result_id == i32::MAX ==> r is None && final(self).results@ == old(
                self,
            ).results@,
            old(self).next_result_id < i32::MAX ==> r == Some(old(self).next_result_id)
                && final(self).results@ == old(self).results@.push(
                StoredResult { id: old(self).next_result_id, request_id, status, raw },
            ),
    {
        if self.next_result_id == i32::MAX {
            return None;
        }
        let id = self.next_result_id;
        self.results.push(StoredResult { id, request_id, status, raw });
        self.next_result_id = id + 1;
        Some(id)
    }

    /// Number of requests of topic `topic` with at least one result of
    /// status `status`.
    pub fn result_count(&self, topic: &str, status: &str) -> (r: usize)
        ensures
            r == requests_with_result(self.requests@, self.results@, topic@, status@),
    {
        let t = String::from_str(topic);
        let st = String::from_str(status);
        let ghost rs = self.requests@;
        let ghost res = self.results@;
        let mut n: usize = 0;
        let mut i: usize = 0;
        while i < self.requests.len()
            invariant
                rs == self.requests@,
                res == self.results@,
                t@ == topic@,
                st@ == status@,
                0 <= i <= rs.len(),
                n == requests_with_result(rs.take(i as int), res, topic@, status@),
                n <= i,
            decreases rs.len() - i,
        {
            proof {
                assert(rs.take(i as int + 1).drop_last() =~= rs.take(i as int));
                assert(rs.take(i as int + 1).last() == rs[i as int]);
            }
            let row = &self.requests[i];
            if row.topic_id == t {
                let mut found = false;
                let mut k: usize = 0;
                while k < self.results.len()
                    invariant
                        res == self.results@,
                        0 <= k <= res.len(),
                        st@ == status@,
                        found == exists|q: int|
                            0 <= q < k && (#[trigger] res[q]).request_id == row.id && res[q].status@
                                == status@,
                    decreases res.len() - k,
                {
                    if self.results[k].request_id == row.id && self.results[k].status == st {
                        found = true;
                    }
                    k = k + 1;
                }
                if found {
                    n = n + 1;
                }
            }
            i = i + 1;
        }
        proof {
            assert(rs.take(rs.len() as int) =~= rs);
        }
        n
    }

    /// The id of the request whose provider message id is `message_id`.
    pub fn lookup_request_id(&self, message_id: &str) -> (r: Option<i32>)
        ensures
            r matches Some(id) ==> exists|i: int|
                0 <= i < self.requests@.len() && (#[trigger] self.requests@[i]).id == id
                    && (self.requests@[i].message_id matches Some(m) && m@ == message_id@),
            r is None ==> forall|i: int|
                0 <= i < self.requests@.len() ==> !((#[trigger] self.requests@[i]).message_id matches Some(
                    m,
                ) && m@ == message_id@),
    {
        let target = String::from_str(message_id);
        let mut i: usize = 0;
        while i < self.requests.len()
            invariant
                0 <= i <= self.requests@.len(),
                target@ == message_id@,
                forall|k: int|
                    0 <= k < i ==> !((#[trigger] self.requests@[k]).message_id matches Some(m) && m@
                        == message_id@),
            decreases self.requests@.len() - i,
        {
            if let Some(m) = &self.requests[i].message_id {
                if *m == target {
                    return Some(self.requests[i].id);
                }
            }
            i = i + 1;
        }
        None
    }
}

} // verus!
