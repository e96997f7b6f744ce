use vstd::prelude::*;
use vstd::string::*;

use crate::bulk::{SqlStatement, SqlValue};
use crate::models::{EmailContent, EmailRequest};

verus! {

/// Content rows per multi-row insert (three columns each).
pub const CONTENT_CHUNK_SIZE: usize = 150;

/// Request rows per multi-row insert (five bound columns each).
pub const REQUEST_CHUNK_SIZE: usize = 100;

/// `k` copies of `row`, separated by `, `.
pub open spec fn joined_rows(row: Seq<char>, k: nat) -> Seq<char>
    decreases k,
{
    if k == 0 {
        Seq::empty()
    } else if k == 1 {
        row
    } else {
        joined_rows(row, (k - 1) as nat) + ", "@ + row
    }
}

pub open spec fn content_row() -> Seq<char> {
    "(?, ?, datetime('now'))"@
}

pub open spec fn request_row() -> Seq<char> {
    "(?, ?, ?, ?, ?, datetime('now'), datetime('now'))"@
}

pub open spec fn insert_contents_sql(k: nat) -> Seq<char> {
    "INSERT INTO email_contents (subject, content, created_at) VALUES "@ + joined_rows(
        content_row(),
        k,
    )
}

pub open spec fn insert_requests_sql(k: nat) -> Seq<char> {
    "INSERT INTO email_requests (topic_id, content_id, email, scheduled_at, status, created_at, updated_at) VALUES "@
        + joined_rows(request_row(), k)
}

pub open spec fn text_or_null(v: Option<String>) -> SqlValue {
    match v {
        Some(s) => SqlValue::Text(s),
        None => SqlValue::Null,
    }
}

pub open spec fn int_or_null(v: Option<i32>) -> SqlValue {
    match v {
        Some(n) => SqlValue::Int(n as i64),
        None => SqlValue::Null,
    }
}

/// The binds of content rows: subject, then body, row by row.
pub open spec fn content_binds(cs: Seq<EmailContent>) -> Seq<SqlValue>
    decreases cs.len(),
{
    if cs.len() == 0 {
        Seq::empty()
    } else {
        content_binds(cs.drop_last()).push(SqlValue::Text(cs.last().subject)).push(
            SqlValue::Text(cs.last().content),
        )
    }
}

/// The binds of request rows: topic, content id, address, stored UTC
/// schedule and status, row by row.
pub open spec fn request_binds(rs: Seq<EmailRequest>, scheduled: Seq<String>) -> Seq<SqlValue>
    decreases rs.len(),
{
    if rs.len() == 0 || scheduled.len() != rs.len() {
        Seq::empty()
    } else {
        request_binds(rs.drop_last(), scheduled.drop_last()).push(text_or_null(rs.last().topic_id)).push(
            int_or_null(rs.last().content_id),
        ).push(SqlValue::Text(rs.last().email)).push(SqlValue::Text(scheduled.last())).push(
            SqlValue::Int(rs.last().status as i64),
        )
    }
}

fn append_rows(out: &mut String, row: &str, k: usize)
    ensures
        final(out)@ == old(out)@ + joined_rows(row@, k as nat),
{
    let ghost start = out@;
    let mut i: usize = 0;
    while i < k
        invariant
            0 <= i <= k,
            out@ == start + joined_rows(row@, i as nat),
        decreases k - i,
    {
        if i > 0 {
            out.append(", ");
        }
        out.append(row);
        proof {
            assert(out@ =~= start + joined_rows(row@, (i + 1) as nat));
        }
        i = i + 1;
    }
}

fn text_value(s: &String) -> (r: SqlValue)
    ensures
        r == SqlValue::Text(*s),
{
    SqlValue::Text(s.clone())
}

/// The multi-row insert of one chunk of contents.
pub fn insert_contents_statement(chunk: &Vec<EmailContent>) -> (r: SqlStatement)
    ensures
        r.sql@ == insert_contents_sql(chunk@.len()),
        r.binds@ == content_binds(chunk@),
{
    let mut sql = String::from_str("INSERT INTO email_contents (subject, content, created_at) VALUES ");
    append_rows(&mut sql, "(?, ?, datetime('now'))", chunk.len());
    let mut binds: Vec<SqlValue> = Vec::new();
    let mut i: usize = 0;
    while i < chunk.len()
        invariant
            0 <= i <= chunk@.len(),
            binds@ == content_binds(chunk@.take(i as int)),
        decreases chunk@.len() - i,
    {
        proof {
            assert(chunk@.take(i as int + 1).drop_last() =~= chunk@.take(i as int));
        }
        binds.push(text_value(&chunk[i].subject));
        binds.push(text_value(&chunk[i].content));
        i = i + 1;
    }
    proof {
        assert(chunk@.take(chunk@.len() as int) =~= chunk@);
    }
    SqlStatement { sql, binds }
}

/// The multi-row insert of one chunk of requests; `scheduled[i]` is the
/// stored UTC schedule of `chunk[i]`.
pub fn insert_requests_statement(chunk: &Vec<EmailRequest>, scheduled: &Vec<String>) -> (r:
    SqlStatement)
    requires
        scheduled@.len() == chunk@.len(),
    ensures
        r.sql@ == insert_requests_sql(chunk@.len()),
        r.binds@ == request_binds(chunk@, scheduled@),
{
    let mut sql = String::from_str(
        "INSERT INTO email_requests (topic_id, content_id, email, scheduled_at, status, created_at, updated_at) VALUES ",
    );
    append_rows(&mut sql, "(?, ?, ?, ?, ?, datetime('now'), datetime('now'))", chunk.len());
    let mut binds: Vec<SqlValue> = Vec::new();
    let mut i: usize = 0;
    while i < chunk.len()
        invariant
            0 <= i <= chunk@.len(),
            scheduled@.len() == chunk@.len(),
            binds@ == request_binds(chunk@.take(i as int), scheduled@.take(i as int)),
        decreases chunk@.len() - i,
    {
        proof {
            assert(chunk@.take(i as int + 1).drop_last() =~= chunk@.take(i as int));
            assert(scheduled@.take(i as int + 1).drop_last() =~= scheduled@.take(i as int));
        }
        let req = &chunk[i];
        binds.push(
            match &req.topic_id {
                Some(t) => text_value(t),
                None => SqlValue::Null,
            },
        );
        binds.push(
            match req.content_id {
                Some(c) => SqlValue::Int(c as i64),
                None => SqlValue::Null,
            },
        );
        binds.push(text_value(&req.email));
        binds.push(text_value(&scheduled[i]));
        binds.push(SqlValue::Int(req.status as i64));
        i = i + 1;
    }
    proof {
        assert(chunk@.take(chunk@.len() as int) =~= chunk@);
        assert(scheduled@.take(scheduled@.len() as int) =~= scheduled@);
    }
    SqlStatement { sql, binds }
}

/// The ids of the `n` rows of a multi-row insert whose last row got
/// `last_id`: consecutive and increasing, ending at `last_id`.
pub fn assigned_ids(last_id: i64, n: usize) -> (r: Vec<i32>)
    requires
        n as int - 1 <= last_id <= i32::MAX,
    ensures
        r@.len() == n,
        forall|i: int| 0 <= i < n ==> #[trigger] r@[i] as int == last_id - (n - 1 - i),
{
    let mut r: Vec<i32> = Vec::new();
    let mut i: usize = 0;
    while i < n
        invariant
            0 <= i <= n,
            n as int - 1 <= last_id <= i32::MAX,
            r@.len() == i,
            forall|k: int| 0 <= k < i ==> #[trigger] r@[k] as int == last_id - (n - 1 - k),
        decreases n - i,
    {
        let back = (n - 1 - i) as i64;
        r.push((last_id - back) as i32);
        i = i + 1;
    }
    r
}

} // verus!
