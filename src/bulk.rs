use vstd::prelude::*;
use vstd::string::*;

use crate::models::EmailRequest;
use crate::status::EmailMessageStatus;
use crate::text::{push_signed_decimal, signed_decimal};

verus! {

/// A value bound to a `?` placeholder of a statement.
#[derive(Debug)]
pub enum SqlValue {
    Null,
    Int(i64),
    Text(String),
}

/// A statement with its bind values, in placeholder order.
#[derive(Debug)]
pub struct SqlStatement {
    pub sql: String,
    pub binds: Vec<SqlValue>,
}

/// `WHEN <id> THEN ? `
pub open spec fn when_clause(id: i32) -> Seq<char> {
    "WHEN "@ + signed_decimal(id as int) + " THEN ? "@
}

/// One `WHEN` per batch row that has an id.
pub open spec fn status_cases(rs: Seq<EmailRequest>) -> Seq<char>
    decreases rs.len(),
{
    if rs.len() == 0 {
        Seq::empty()
    } else {
        status_cases(rs.drop_last()) + match rs.last().id {
            Some(id) => when_clause(id),
            None => Seq::empty(),
        }
    }
}

/// One `WHEN` per batch row that has an id and a provider message id.
pub open spec fn message_id_cases(rs: Seq<EmailRequest>) -> Seq<char>
    decreases rs.len(),
{
    if rs.len() == 0 {
        Seq::empty()
    } else {
        message_id_cases(rs.drop_last()) + match (rs.last().id, rs.last().message_id) {
            (Some(id), Some(_)) => when_clause(id),
            _ => Seq::empty(),
        }
    }
}

/// One `WHEN` per batch row that has an id and an error.
pub open spec fn error_cases(rs: Seq<EmailRequest>) -> Seq<char>
    decreases rs.len(),
{
    if rs.len() == 0 {
        Seq::empty()
    } else {
        error_cases(rs.drop_last()) + match (rs.last().id, rs.last().error) {
            (Some(id), Some(_)) => when_clause(id),
            _ => Seq::empty(),
        }
    }
}

/// The ids of the batch rows that have one, in order.
pub open spec fn batch_ids(rs: Seq<EmailRequest>) -> Seq<i32>
    decreases rs.len(),
{
    if rs.len() == 0 {
        Seq::empty()
    } else {
        match rs.last().id {
            Some(id) => batch_ids(rs.drop_last()).push(id),
            None => batch_ids(rs.drop_last()),
        }
    }
}

pub open spec fn status_binds(rs: Seq<EmailRequest>) -> Seq<SqlValue>
    decreases rs.len(),
{
    if rs.len() == 0 {
        Seq::empty()
    } else {
        match rs.last().id {
            Some(_) => status_binds(rs.drop_last()).push(SqlValue::Int(rs.last().status as i64)),
            None => status_binds(rs.drop_last()),
        }
    }
}

pub open spec fn message_id_binds(rs: Seq<EmailRequest>) -> Seq<SqlValue>
    decreases rs.len(),
{
    if rs.len() == 0 {
        Seq::empty()
    } else {
        match (rs.last().id, rs.last().message_id) {
            (Some(_), Some(m)) => message_id_binds(rs.drop_last()).push(SqlValue::Text(m)),
            _ => message_id_binds(rs.drop_last()),
        }
    }
}

pub open spec fn error_binds(rs: Seq<EmailRequest>) -> Seq<SqlValue>
    decreases rs.len(),
{
    if rs.len() == 0 {
        Seq::empty()
    } else {
        match (rs.last().id, rs.last().error) {
            (Some(_), Some(e)) => error_binds(rs.drop_last()).push(SqlValue::Text(e)),
            _ => error_binds(rs.drop_last()),
        }
    }
}

pub open spec fn int_binds(ids: Seq<i32>) -> Seq<SqlValue> {
    ids.map_values(|id: i32| SqlValue::Int(id as i64))
}

/// `n` placeholders separated by commas.
pub open spec fn placeholders(n: nat) -> Seq<char>
    decreases n,
{
    if n == 0 {
        Seq::empty()
    } else if n == 1 {
        "?"@
    } else {
        placeholders((n - 1) as nat) + ",?"@
    }
}

/// The single statement that writes a batch of send outcomes: status always,
/// provider message id and error only where some row carries one; every
/// other stored value is kept (`ELSE`).
pub open spec fn bulk_update_sql(rs: Seq<EmailRequest>) -> Seq<char> {
    "UPDATE email_requests SET status = CASE id "@ + status_cases(rs) + "ELSE status END"@ + (
    if message_id_cases(rs).len() == 0 {
        Seq::empty()
    } else {
        ", message_id = CASE id "@ + message_id_cases(rs) + "ELSE message_id END"@
    }) + (if error_cases(rs).len() == 0 {
        Seq::empty()
    } else {
        ", error = CASE id "@ + error_cases(rs) + "ELSE error END"@
    }) + ", updated_at = datetime('now') WHERE id IN ("@ + placeholders(batch_ids(rs).len()) + ")"@
}

/// The statement's binds: the `WHEN` values of the three `CASE`s in turn,
/// then the ids of the `IN` list.
pub open spec fn bulk_update_binds(rs: Seq<EmailRequest>) -> Seq<SqlValue> {
    status_binds(rs) + message_id_binds(rs) + error_binds(rs) + int_binds(batch_ids(rs))
}

/// What a stored request holds after the statement has run: the status,
/// provider message id and error that the statement writes.
pub struct RowUpdate {
    pub status: i32,
    pub message_id: Option<String>,
    pub error: Option<String>,
}

/// The first batch row with id `id`, if any (a `CASE` takes its first
/// matching `WHEN`).
pub open spec fn first_with_id(rs: Seq<EmailRequest>, id: i32) -> Option<EmailRequest>
    decreases rs.len(),
{
    if rs.len() == 0 {
        None
    } else if rs[0].id == Some(id) {
        Some(rs[0])
    } else {
        first_with_id(rs.drop_first(), id)
    }
}

/// The first batch row with id `id` that carries a provider message id.
pub open spec fn first_message_id(rs: Seq<EmailRequest>, id: i32) -> Option<String>
    decreases rs.len(),
{
    if rs.len() == 0 {
        None
    } else if rs[0].id == Some(id) && rs[0].message_id is Some {
        rs[0].message_id
    } else {
        first_message_id(rs.drop_first(), id)
    }
}

/// The first batch row with id `id` that carries an error.
pub open spec fn first_error(rs: Seq<EmailRequest>, id: i32) -> Option<String>
    decreases rs.len(),
{
    if rs.len() == 0 {
        None
    } else if rs[0].id == Some(id) && rs[0].error is Some {
        rs[0].error
    } else {
        first_error(rs.drop_first(), id)
    }
}

/// The effect of the bulk statement on the stored row `id`, which held
/// `old`: rows outside the batch keep their values.
pub open spec fn row_after_bulk(old: RowUpdate, id: i32, rs: Seq<EmailRequest>) -> RowUpdate {
    match first_with_id(rs, id) {
        None => old,
        Some(r) => RowUpdate {
            status: r.status,
            message_id: match first_message_id(rs, id) {
                Some(m) => Some(m),
                None => old.message_id,
            },
            error: match first_error(rs, id) {
                Some(e) => Some(e),
                None => old.error,
            },
        },
    }
}

/// No two batch rows share an id.
pub open spec fn ids_distinct(rs: Seq<EmailRequest>) -> bool {
    forall|a: int, b: int|
        0 <= a < rs.len() && 0 <= b < rs.len() && a != b && (#[trigger] rs[a]).id is Some
            ==> #[trigger] rs[b].id != rs[a].id
}

proof fn lemma_absent(rs: Seq<EmailRequest>, id: i32)
    requires
        forall|k: int| 0 <= k < rs.len() ==> (#[trigger] rs[k]).id != Some(id),
    ensures
        first_with_id(rs, id) is None,
        first_message_id(rs, id) is None,
        first_error(rs, id) is None,
    decreases rs.len(),
{
    if rs.len() > 0 {
        assert(rs[0].id != Some(id));
        let t = rs.drop_first();
        assert forall|k: int| 0 <= k < t.len() implies (#[trigger] t[k]).id != Some(id) by {
            assert(t[k] == rs[k + 1]);
        }
        lemma_absent(t, id);
    }
}

proof fn lemma_first_is_row(rs: Seq<EmailRequest>, k: int, id: i32)
    requires
        0 <= k < rs.len(),
        rs[k].id == Some(id),
        ids_distinct(rs),
    ensures
        first_with_id(rs, id) == Some(rs[k]),
        first_message_id(rs, id) == rs[k].message_id,
        first_error(rs, id) == rs[k].error,
    decreases rs.len(),
{
    if k > 0 {
        assert(rs[0].id != rs[k].id);
        let t = rs.drop_first();
        assert forall|a: int, b: int|
            0 <= a < t.len() && 0 <= b < t.len() && a != b && (#[trigger] t[a]).id is Some
                implies #[trigger] t[b].id != t[a].id by {
            assert(t[a] == rs[a + 1] && t[b] == rs[b + 1]);
        }
        assert(t[k - 1] == rs[k]);
        lemma_first_is_row(t, k - 1, id);
    } else {
        let t = rs.drop_first();
        assert forall|j: int| 0 <= j < t.len() implies (#[trigger] t[j]).id != Some(id) by {
            assert(t[j] == rs[j + 1]);
            assert(rs[j + 1].id != rs[0].id);
        }
        lemma_absent(t, id);
    }
}

/// After a bulk update of a batch whose ids are distinct, every row of the
/// batch is stored with the batch's status; with the batch's provider
/// message id and error where the row carries one, and with its earlier
/// ones where it does not.
pub proof fn lemma_bulk_update_stores_batch(old: RowUpdate, rs: Seq<EmailRequest>, k: int)
    requires
        0 <= k < rs.len(),
        rs[k].id is Some,
        ids_distinct(rs),
    ensures
        ({
            let after = row_after_bulk(old, rs[k].id.unwrap(), rs);
            &&& after.status == rs[k].status
            &&& after.message_id == match rs[k].message_id {
                Some(m) => Some(m),
                None => old.message_id,
            }
            &&& after.error == match rs[k].error {
                Some(e) => Some(e),
                None => old.error,
            }
        }),
{
    lemma_first_is_row(rs, k, rs[k].id.unwrap());
}

/// A stored row whose id is not in the batch is left as it was.
pub proof fn lemma_bulk_update_keeps_others(old: RowUpdate, id: i32, rs: Seq<EmailRequest>)
    requires
        forall|k: int| 0 <= k < rs.len() ==> (#[trigger] rs[k]).id != Some(id),
    ensures
        row_after_bulk(old, id, rs) == old,
{
    lemma_absent(rs, id);
}

pub open spec fn rollback_sql(n: nat) -> Seq<char> {
    "UPDATE email_requests SET status=?, updated_at=datetime('now') WHERE id IN ("@ + placeholders(n)
        + ")"@
}

/// The statement that puts requests back to `Created` after they could not
/// be handed to the send queue, or `None` when there are none.
pub fn rollback_statement(ids: &Vec<i32>) -> (r: Option<SqlStatement>)
    ensures
        ids@.len() == 0 ==> r is None,
        ids@.len() > 0 ==> (r matches Some(st) && st.sql@ == rollback_sql(ids@.len())
            && st.binds@ == seq![SqlValue::Int(0)] + int_binds(ids@)),
{
    if ids.len() == 0 {
        return None;
    }
    let mut sql = String::from_str(
        "UPDATE email_requests SET status=?, updated_at=datetime('now') WHERE id IN (",
    );
    append_placeholders(&mut sql, ids.len());
    sql.append(")");
    let mut binds: Vec<SqlValue> = Vec::new();
    binds.push(SqlValue::Int(EmailMessageStatus::Created.as_i32() as i64));
    append_int_binds(&mut binds, ids);
    proof {
        assert(sql@ =~= rollback_sql(ids@.len()));
        assert(binds@ =~= seq![SqlValue::Int(0)] + int_binds(ids@));
    }
    Some(SqlStatement { sql, binds })
}

fn push_when(out: &mut String, id: i32)
    ensures
        final(out)@ == old(out)@ + when_clause(id),
{
    let ghost start = out@;
    out.append("WHEN ");
    push_signed_decimal(out, id as i64);
    out.append(" THEN ? ");
    proof {
        assert(out@ =~= start + when_clause(id));
    }
}

fn clone_value(v: &String) -> (r: SqlValue)
    ensures
        r == SqlValue::Text(*v),
{
    SqlValue::Text(v.clone())
}

/// The statement that writes a batch of send outcomes in one step, or `None`
/// when no row of the batch has an id (nothing to write).
pub fn bulk_update_statement(batch: &Vec<EmailRequest>) -> (r: Option<SqlStatement>)
    ensures
        batch_ids(batch@).len() == 0 ==> r is None,
        batch_ids(batch@).len() > 0 ==> (r matches Some(st) && st.sql@ == bulk_update_sql(batch@)
            && st.binds@ == bulk_update_binds(batch@)),
{
    let ghost rs = batch@;
    let mut sc = String::new();
    let mut mc = String::new();
    let mut ec = String::new();
    let mut sb: Vec<SqlValue> = Vec::new();
    let mut mb: Vec<SqlValue> = Vec::new();
    let mut eb: Vec<SqlValue> = Vec::new();
    let mut ids: Vec<i32> = Vec::new();
    let mut i: usize = 0;
    while i < batch.len()
        invariant
            rs == batch@,
            0 <= i <= rs.len(),
            sc@ == status_cases(rs.take(i as int)),
            mc@ == message_id_cases(rs.take(i as int)),
            ec@ == error_cases(rs.take(i as int)),
            sb@ == status_binds(rs.take(i as int)),
            mb@ == message_id_binds(rs.take(i as int)),
            eb@ == error_binds(rs.take(i as int)),
            ids@ == batch_ids(rs.take(i as int)),
        decreases rs.len() - i,
    {
        proof {
            assert(rs.take(i as int + 1).drop_last() =~= rs.take(i as int));
        }
        let req = &batch[i];
        if let Some(id) = req.id {
            push_when(&mut sc, id);
            sb.push(SqlValue::Int(req.status as i64));
            if let Some(m) = &req.message_id {
                push_when(&mut mc, id);
                mb.push(clone_value(m));
            }
            if let Some(e) = &req.error {
                push_when(&mut ec, id);
                eb.push(clone_value(e));
            }
            ids.push(id);
        }
        i = i + 1;
    }
    proof {
        assert(rs.take(rs.len() as int) =~= rs);
    }
    if ids.len() == 0 {
        return None;
    }
    let mut sql = String::from_str("UPDATE email_requests SET status = CASE id ");
    sql.append(sc.as_str());
    sql.append("ELSE status END");
    if mc.as_str().unicode_len() > 0 {
        sql.append(", message_id = CASE id ");
        sql.append(mc.as_str());
        sql.append("ELSE message_id END");
    }
    if ec.as_str().unicode_len() > 0 {
        sql.append(", error = CASE id ");
        sql.append(ec.as_str());
        sql.append("ELSE error END");
    }
    sql.append(", updated_at = datetime('now') WHERE id IN (");
    append_placeholders(&mut sql, ids.len());
    sql.append(")");
    let mut binds = sb;
    binds.append(&mut mb);
    binds.append(&mut eb);
    append_int_binds(&mut binds, &ids);
    proof {
        assert(sql@ =~= bulk_update_sql(rs));
        assert(binds@ =~= bulk_update_binds(rs));
    }
    Some(SqlStatement { sql, binds })
}

/// Appends `n` comma-separated placeholders.
pub fn append_placeholders(out: &mut String, n: usize)
    ensures
        final(out)@ == old(out)@ + placeholders(n as nat),
{
    let ghost start = out@;
    let mut k: usize = 0;
    while k < n
        invariant
            0 <= k <= n,
            out@ == start + placeholders(k as nat),
        decreases n - k,
    {
        if k == 0 {
            out.append("?");
            proof {
                assert(out@ =~= start + placeholders(1));
            }
        } else {
            out.append(",?");
            proof {
                assert(out@ =~= start + placeholders((k + 1) as nat));
            }
        }
        k = k + 1;
    }
}

/// Appends one integer bind per id.
pub fn append_int_binds(binds: &mut Vec<SqlValue>, ids: &Vec<i32>)
    ensures
        final(binds)@ == old(binds)@ + int_binds(ids@),
{
    let ghost start = binds@;
    let mut k: usize = 0;
    while k < ids.len()
        invariant
            0 <= k <= ids@.len(),
            binds@ == start + int_binds(ids@.take(k as int)),
        decreases ids@.len() - k,
    {
        binds.push(SqlValue::Int(ids[k] as i64));
        k = k + 1;
        proof {
            assert(int_binds(ids@.take(k as int)) =~= int_binds(ids@.take(k - 1)).push(
                SqlValue::Int(ids@[k - 1] as i64),
            ));
            assert(binds@ =~= start + int_binds(ids@.take(k as int)));
        }
    }
    proof {
        assert(ids@.take(ids@.len() as int) =~= ids@);
    }
}

} // verus!
