use std::sync::Arc;

use ses_sender::batcher::{singly_after_bulk, BatchEvent, Batcher};
use ses_sender::bucket::TokenBucket;
use ses_sender::bulk::{bulk_update_statement, rollback_statement, SqlValue};
use ses_sender::create::{
    build_requests, check_create, contents_for, create_response, is_scheduled, status_for,
    CreateMessageRequest, Message, PublishLedger,
};
use ses_sender::dispatch::{apply_send_outcome, in_flight_limit, send_rate, tracked_body};
use ses_sender::error::AppError;
use ses_sender::events::{
    check_message_type, check_topic_id, envelope_reply, event_message_id, event_result,
    open_result, resolved_request, sent_count_hours, OpenQueryParams, SentCountQueryParams,
    SesNotification, SnsMessage,
};
use ses_sender::insert::{assigned_ids, insert_contents_statement, insert_requests_statement};
use ses_sender::models::{EmailContent, EmailRequest};
use ses_sender::schedule::{format_wire, kst_to_utc, parse_scheduled_at, CivilDateTime};
use ses_sender::scheduler::{
    claimed_request, hydrate_statement, ClaimedRow, PollOutcome, SchedulerAction, SchedulerState,
};
use ses_sender::sender::{retry_delay_ms, SendEmailError, SendFailure};
use ses_sender::status::EmailMessageStatus;
use ses_sender::store::Store;
use ses_sender::text::parse_i32;

fn message(topic: Option<&str>, emails: &[&str]) -> Message {
    Message {
        topic_id: topic.map(|t| t.to_string()),
        emails: emails.iter().map(|e| e.to_string()).collect(),
        subject: "S".to_string(),
        content: "<p>C</p>".to_string(),
    }
}

fn request(id: i32, status: EmailMessageStatus, mid: Option<&str>, err: Option<&str>) -> EmailRequest {
    EmailRequest {
        id: Some(id),
        topic_id: Some("t".to_string()),
        content_id: Some(1),
        email: format!("u{id}@x"),
        subject: Arc::new(String::new()),
        content: Arc::new(String::new()),
        scheduled_at: None,
        status: status as i32,
        error: err.map(|e| e.to_string()),
        message_id: mid.map(|m| m.to_string()),
    }
}

#[test]
fn immediate_single_recipient_is_planned_processed() {
    let payload = CreateMessageRequest {
        messages: vec![message(Some("t1"), &["a@x"])],
        scheduled_at: None,
    };
    assert!(matches!(check_create(&payload), Ok(1)));
    let scheduled = is_scheduled(&payload.scheduled_at);
    assert!(!scheduled);
    let status = status_for(scheduled);
    assert_eq!(status, EmailMessageStatus::Processed);
    let contents = contents_for(&payload.messages);
    assert_eq!(contents.len(), 1);
    let saved = vec![EmailContent { id: Some(7), subject: "S".to_string(), content: "<p>C</p>".to_string() }];
    let reqs = build_requests(&payload.messages, &saved, &payload.scheduled_at, status);
    assert_eq!(reqs.len(), 1);
    assert_eq!(reqs[0].topic_id.as_deref(), Some("t1"));
    assert_eq!(reqs[0].content_id, Some(7));
    assert_eq!(reqs[0].email, "a@x");
    assert_eq!(reqs[0].status, 1);
    let resp = create_response(1, Some(1), 3, scheduled);
    assert_eq!((resp.total, resp.success, resp.errors, resp.scheduled), (1, 1, 0, false));
}

#[test]
fn scheduled_request_is_created_and_stored_in_utc() {
    let payload = CreateMessageRequest {
        messages: vec![message(Some("t1"), &["a@x"])],
        scheduled_at: Some("2030-01-01 10:00:00".to_string()),
    };
    let scheduled = is_scheduled(&payload.scheduled_at);
    assert!(scheduled);
    assert_eq!(status_for(scheduled), EmailMessageStatus::Created);
    assert_eq!(parse_scheduled_at(Some("2030-01-01 10:00:00")), "2030-01-01 01:00:00");
    let resp = create_response(1, Some(1), 0, scheduled);
    assert!(resp.scheduled);
    // Nothing is claimed before the request is due.
    let mut store = Store::new();
    let due_at = 1_000_000;
    let id = store
        .insert_request("t1".to_string(), 1, "a@x".to_string(), due_at, EmailMessageStatus::Created)
        .unwrap();
    assert!(store.claim_due(1000, due_at - 1).is_empty());
    assert_eq!(store.request_counts("t1").created, 1);
    assert_eq!(store.claim_due(1000, due_at), vec![id]);
}

#[test]
fn over_limit_is_rejected_before_storing() {
    let emails: Vec<String> = (0..10001).map(|i| format!("u{i}@x")).collect();
    let refs: Vec<&str> = emails.iter().map(|s| s.as_str()).collect();
    let payload = CreateMessageRequest { messages: vec![message(None, &refs)], scheduled_at: None };
    match check_create(&payload) {
        Err(AppError::BadRequest(m)) => assert!(m.contains("10000")),
        other => panic!("unexpected {other:?}"),
    }
    let exactly: Vec<&str> = refs[..10000].to_vec();
    let payload = CreateMessageRequest { messages: vec![message(None, &exactly)], scheduled_at: None };
    assert!(matches!(check_create(&payload), Ok(10000)));
}

#[test]
fn empty_message_list_is_rejected() {
    let payload = CreateMessageRequest { messages: vec![], scheduled_at: None };
    match check_create(&payload) {
        Err(AppError::BadRequest(m)) => assert_eq!(m, "No messages provided"),
        other => panic!("unexpected {other:?}"),
    }
}

#[test]
fn requests_follow_messages_and_recipients_in_order() {
    let messages = vec![message(None, &["a@x", "b@x"]), message(Some("k"), &["c@x"])];
    let saved = vec![
        EmailContent { id: Some(1), subject: "S".to_string(), content: "<p>C</p>".to_string() },
        EmailContent { id: Some(2), subject: "S".to_string(), content: "<p>C</p>".to_string() },
    ];
    let reqs = build_requests(&messages, &saved, &None, EmailMessageStatus::Processed);
    // Recipients of one message share one copy of its subject and body.
    assert!(Arc::ptr_eq(&reqs[0].content, &reqs[1].content));
    assert!(Arc::ptr_eq(&reqs[0].subject, &reqs[1].subject));
    assert!(!Arc::ptr_eq(&reqs[1].content, &reqs[2].content));
    assert_eq!(reqs[2].content.as_str(), "<p>C</p>");
    let got: Vec<(String, Option<i32>, String)> = reqs
        .iter()
        .map(|r| (r.email.clone(), r.content_id, r.topic_id.clone().unwrap()))
        .collect();
    assert_eq!(
        got,
        vec![
            ("a@x".to_string(), Some(1), String::new()),
            ("b@x".to_string(), Some(1), String::new()),
            ("c@x".to_string(), Some(2), "k".to_string()),
        ]
    );
}

#[test]
fn closed_queue_sets_requests_aside_for_rollback() {
    let mut ledger = PublishLedger::new();
    assert!(ledger.accepting());
    ledger.set_aside(request(4, EmailMessageStatus::Processed, None, None));
    assert!(!ledger.accepting());
    ledger.set_aside(request(5, EmailMessageStatus::Processed, None, None));
    assert_eq!(ledger.failed[0].status, 0);
    assert_eq!(ledger.rollback_ids(), vec![4, 5]);
    let st = rollback_statement(&ledger.rollback_ids()).unwrap();
    assert_eq!(
        st.sql,
        "UPDATE email_requests SET status=?, updated_at=datetime('now') WHERE id IN (?,?)"
    );
    assert!(matches!(st.binds[..], [SqlValue::Int(0), SqlValue::Int(4), SqlValue::Int(5)]));
    assert!(rollback_statement(&vec![]).is_none());
}

#[test]
fn kst_boundary_crosses_to_previous_year() {
    assert_eq!(parse_scheduled_at(Some("2025-01-01 08:00:00")), "2024-12-31 23:00:00");
    assert_eq!(parse_scheduled_at(Some("2024-03-01 05:00:00")), "2024-02-29 20:00:00");
    assert_eq!(parse_scheduled_at(Some("2023-03-01 05:00:00")), "2023-02-28 20:00:00");
}

#[test]
fn conversion_is_nine_hours_earlier() {
    let d = CivilDateTime { year: 2025, month: 6, day: 15, hour: 9, minute: 0, second: 0 };
    let u = kst_to_utc(d).unwrap();
    assert_eq!(format_wire(u), "2025-06-15 00:00:00");
    let early = CivilDateTime { year: 2025, month: 3, day: 1, hour: 0, minute: 30, second: 5 };
    assert_eq!(format_wire(kst_to_utc(early).unwrap()), "2025-02-28 15:30:05");
    let far = CivilDateTime { year: 12345, month: 1, day: 2, hour: 3, minute: 4, second: 5 };
    assert_eq!(format_wire(far), "+12345-01-02 03:04:05");
    let bottom = CivilDateTime { year: -262143, month: 1, day: 1, hour: 3, minute: 0, second: 0 };
    assert!(kst_to_utc(bottom).is_none());
}

#[test]
fn bulk_update_statement_names_only_present_fields() {
    let batch = vec![
        request(1, EmailMessageStatus::Sent, Some("m1"), None),
        request(2, EmailMessageStatus::Failed, None, Some("boom")),
    ];
    let st = bulk_update_statement(&batch).unwrap();
    assert_eq!(
        st.sql,
        "UPDATE email_requests SET status = CASE id WHEN 1 THEN ? WHEN 2 THEN ? ELSE status END, \
         message_id = CASE id WHEN 1 THEN ? ELSE message_id END, \
         error = CASE id WHEN 2 THEN ? ELSE error END, \
         updated_at = datetime('now') WHERE id IN (?,?)"
    );
    assert_eq!(st.binds.len(), 6);
    assert!(matches!(st.binds[0], SqlValue::Int(2)));
    assert!(matches!(st.binds[1], SqlValue::Int(3)));
    assert!(matches!(&st.binds[2], SqlValue::Text(m) if m == "m1"));
    assert!(matches!(&st.binds[3], SqlValue::Text(e) if e == "boom"));
    assert!(matches!(st.binds[4], SqlValue::Int(1)));
    assert!(matches!(st.binds[5], SqlValue::Int(2)));

    let only_status = vec![request(3, EmailMessageStatus::Sent, None, None)];
    assert_eq!(
        bulk_update_statement(&only_status).unwrap().sql,
        "UPDATE email_requests SET status = CASE id WHEN 3 THEN ? ELSE status END, \
         updated_at = datetime('now') WHERE id IN (?)"
    );
    let mut no_id = request(9, EmailMessageStatus::Sent, None, None);
    no_id.id = None;
    assert!(bulk_update_statement(&vec![no_id]).is_none());
}

#[test]
fn insert_statements_and_ids() {
    let contents = vec![
        EmailContent { id: None, subject: "a".to_string(), content: "b".to_string() },
        EmailContent { id: None, subject: "c".to_string(), content: "d".to_string() },
    ];
    let st = insert_contents_statement(&contents);
    assert_eq!(
        st.sql,
        "INSERT INTO email_contents (subject, content, created_at) VALUES (?, ?, datetime('now')), (?, ?, datetime('now'))"
    );
    assert_eq!(st.binds.len(), 4);
    let reqs = vec![request(1, EmailMessageStatus::Created, None, None)];
    let st = insert_requests_statement(&reqs, &vec!["2030-01-01 01:00:00".to_string()]);
    assert!(st.sql.ends_with("VALUES (?, ?, ?, ?, ?, datetime('now'), datetime('now'))"));
    assert!(matches!(&st.binds[3], SqlValue::Text(t) if t == "2030-01-01 01:00:00"));
    assert!(matches!(st.binds[4], SqlValue::Int(0)));
    assert_eq!(assigned_ids(10, 3), vec![8, 9, 10]);
    assert_eq!(assigned_ids(i64::from(i32::MAX), 2), vec![i32::MAX - 1, i32::MAX]);
}

#[test]
fn store_stop_topic_scenario() {
    let mut store = Store::new();
    for _ in 0..3 {
        store.insert_request("k".to_string(), 1, "a@x".to_string(), 0, EmailMessageStatus::Created);
    }
    for _ in 0..2 {
        store.insert_request("k".to_string(), 1, "a@x".to_string(), 0, EmailMessageStatus::Sent);
    }
    store.insert_request("other".to_string(), 1, "b@x".to_string(), 0, EmailMessageStatus::Created);
    let other_before = store.request_counts("other");
    store.stop_topic("k");
    let counts = store.request_counts("k");
    assert_eq!((counts.stopped, counts.sent, counts.created), (3, 2, 0));
    let other_after = store.request_counts("other");
    assert_eq!(other_before.created, other_after.created);
    assert_eq!(other_after.stopped, 0);
}

#[test]
fn claims_are_disjoint_and_earliest_first() {
    let mut store = Store::new();
    let a = store.insert_request("t".to_string(), 1, "a".to_string(), 30, EmailMessageStatus::Created).unwrap();
    let b = store.insert_request("t".to_string(), 1, "b".to_string(), 10, EmailMessageStatus::Created).unwrap();
    let c = store.insert_request("t".to_string(), 1, "c".to_string(), 20, EmailMessageStatus::Created).unwrap();
    let future = store.insert_request("t".to_string(), 1, "d".to_string(), 1000, EmailMessageStatus::Created).unwrap();
    let first = store.claim_due(2, 100);
    assert_eq!(first, vec![b, c]);
    let second = store.claim_due(10, 100);
    assert_eq!(second, vec![a]);
    assert!(store.claim_due(10, 100).is_empty());
    assert_eq!(store.claim_due(10, 1000), vec![future]);
    assert_eq!(store.request_counts("t").processed, 4);
}

#[test]
fn webhook_delivery_scenario() {
    let mut store = Store::new();
    let id = store.insert_request("t".to_string(), 1, "a@x".to_string(), 0, EmailMessageStatus::Processed).unwrap();
    assert_eq!(id, 1);
    store.apply_bulk_update(&vec![request(1, EmailMessageStatus::Sent, Some("ses-msg-123"), None)]);
    assert_eq!(store.requests[0].status, 2);
    assert!(check_message_type(Some("Notification")).is_ok());
    assert!(matches!(check_message_type(Some("Other")), Err(AppError::BadRequest(_))));
    assert!(check_message_type(None).is_err());
    let inner = "{\"notificationType\":\"Delivery\",\"mail\":{\"messageId\":\"ses-msg-123\"}}";
    let n = SesNotification { event_type: "Delivery".to_string(), mail_message_id: Some("ses-msg-123".to_string()) };
    let mid = event_message_id(&n).unwrap();
    let rid = resolved_request(store.lookup_request_id(&mid)).unwrap();
    assert_eq!(rid, 1);
    let res = event_result(rid, n, inner);
    assert_eq!((res.request_id, res.status.as_str(), res.raw.as_deref()), (1, "Delivery", Some(inner)));
    store.save_result(res.request_id, res.status, res.raw);
    assert_eq!(store.result_count("t", "Delivery"), 1);
    assert!(matches!(resolved_request(store.lookup_request_id("unknown")), Err(AppError::NotFound(_))));
    let missing = SesNotification { event_type: "Bounce".to_string(), mail_message_id: None };
    assert!(matches!(event_message_id(&missing), Err(AppError::BadRequest(_))));
    let env = SnsMessage::SubscriptionConfirmation { subscribe_url: "https://example.com".to_string() };
    assert_eq!(envelope_reply(&env), "subscription_confirmation_required");
    assert_eq!(envelope_reply(&SnsMessage::Other), "ok");
}

#[test]
fn opens_append_each_time_and_count_once_per_request() {
    let mut store = Store::new();
    store.insert_request("t".to_string(), 1, "a".to_string(), 0, EmailMessageStatus::Sent);
    store.insert_request("t".to_string(), 1, "b".to_string(), 0, EmailMessageStatus::Sent);
    let q = OpenQueryParams { request_id: Some("1".to_string()) };
    for _ in 0..3 {
        let r = open_result(&q).unwrap();
        store.save_result(r.request_id, r.status, r.raw);
    }
    assert_eq!(store.results.len(), 3);
    assert_eq!(store.result_count("t", "Open"), 1);
    let r = open_result(&OpenQueryParams { request_id: Some("2".to_string()) }).unwrap();
    store.save_result(r.request_id, r.status, r.raw);
    assert_eq!(store.result_count("t", "Open"), 2);
    assert!(open_result(&OpenQueryParams { request_id: Some("abc".to_string()) }).is_none());
    assert!(open_result(&OpenQueryParams { request_id: None }).is_none());
}

#[test]
fn bulk_update_keeps_absent_values() {
    let mut store = Store::new();
    store.insert_request("t".to_string(), 1, "a".to_string(), 0, EmailMessageStatus::Processed);
    store.insert_request("t".to_string(), 1, "b".to_string(), 0, EmailMessageStatus::Processed);
    store.apply_bulk_update(&vec![request(1, EmailMessageStatus::Sent, Some("m1"), None)]);
    store.apply_bulk_update(&vec![request(1, EmailMessageStatus::Sent, None, None)]);
    assert_eq!(store.requests[0].message_id.as_deref(), Some("m1"));
    assert_eq!(store.requests[1].status, 1);
    store.apply_bulk_update(&vec![request(2, EmailMessageStatus::Failed, None, Some("bad"))]);
    assert_eq!(store.requests[1].status, 3);
    assert_eq!(store.requests[1].error.as_deref(), Some("bad"));
}

#[test]
fn batcher_flushes_by_size_time_and_close() {
    let mut b = Batcher::new(0);
    for i in 0..99 {
        assert!(b.handle(BatchEvent::Received(request(i, EmailMessageStatus::Sent, None, None), 10)).is_empty());
    }
    let out = b.handle(BatchEvent::Received(request(99, EmailMessageStatus::Sent, None, None), 10));
    assert_eq!(out.len(), 100);
    assert_eq!(b.last_flush_ms, 10);
    assert!(b.handle(BatchEvent::Received(request(100, EmailMessageStatus::Sent, None, None), 20)).is_empty());
    assert!(b.handle(BatchEvent::Timeout(400)).is_empty());
    assert_eq!(b.handle(BatchEvent::Timeout(510)).len(), 1);
    assert!(b.handle(BatchEvent::Closed).is_empty());
    b.handle(BatchEvent::Received(request(101, EmailMessageStatus::Sent, None, None), 520));
    let last = b.handle(BatchEvent::Closed);
    assert_eq!(last.len(), 1);
    assert!(b.batch.is_empty());
}

#[test]
fn bucket_ticks_refill_and_reset() {
    let mut bucket = TokenBucket::new(24);
    for _ in 0..24 {
        assert!(bucket.try_acquire());
    }
    assert!(!bucket.try_acquire());
    assert_eq!(bucket.tick_amount(), 3);
    assert_eq!(bucket.tick(500, 0), 0);
    assert_eq!(bucket.tokens, 3);
    assert_eq!(bucket.tick(1000, 0), 1000);
    assert_eq!(bucket.tokens, 24);
    // one tick's headroom over a full bucket's worth
    let mut b = TokenBucket::new(10);
    let mut granted = 0;
    for _ in 0..10 {
        if b.try_acquire() {
            granted += 1;
        }
    }
    b.tick(100, 0);
    while b.try_acquire() {
        granted += 1;
    }
    assert_eq!(granted, 11);
}

#[test]
fn scheduler_delays() {
    let mut s = SchedulerState::new();
    for _ in 0..5 {
        assert_eq!(s.after_poll(PollOutcome::Claimed(0)), SchedulerAction::Sleep(10000));
    }
    assert_eq!(s.after_poll(PollOutcome::Claimed(0)), SchedulerAction::Sleep(20000));
    assert_eq!(s.after_poll(PollOutcome::Claimed(3)), SchedulerAction::Sleep(100));
    assert_eq!(s.consecutive_empty, 0);
    assert_eq!(s.after_poll(PollOutcome::StoreFailed), SchedulerAction::Sleep(5000));
    assert_eq!(s.after_poll(PollOutcome::QueueClosed), SchedulerAction::Stop);
    let st = hydrate_statement(&vec![4, 5]);
    assert!(st.sql.ends_with("WHERE r.id IN (?,?)"));
    let req = claimed_request(ClaimedRow {
        id: 4,
        topic_id: "t".to_string(),
        content_id: 2,
        email: "a@x".to_string(),
        subject: "S".to_string(),
        content: "B".to_string(),
    });
    assert_eq!((req.id, req.status, req.subject.as_str()), (Some(4), 1, "S"));
}

#[test]
fn dispatch_body_and_outcomes() {
    assert_eq!(
        tracked_body("<p>C</p>", "https://mail.example.com", 42),
        "<p>C</p><img src=\"https://mail.example.com/v1/events/open?request_id=42\">"
    );
    let sent = apply_send_outcome(request(1, EmailMessageStatus::Processed, None, None), Ok("mid-1".to_string()));
    assert_eq!((sent.status, sent.message_id.as_deref()), (2, Some("mid-1")));
    let failed = apply_send_outcome(
        request(1, EmailMessageStatus::Processed, None, None),
        Err(SendEmailError::Sdk("throttled".to_string())),
    );
    assert_eq!((failed.status, failed.error.as_deref()), (3, Some("SES SDK error: throttled")));
    assert_eq!(send_rate(0), 1);
    assert_eq!(send_rate(24), 24);
    assert_eq!(in_flight_limit(24), 48);
}

#[test]
fn retry_policy() {
    // At most three calls: two retries, after 100 and 200 ms.
    assert_eq!(retry_delay_ms(0, SendFailure::Throttled), Some(100));
    assert_eq!(retry_delay_ms(1, SendFailure::Timeout), Some(200));
    assert_eq!(retry_delay_ms(2, SendFailure::Dispatch), None);
    assert_eq!(retry_delay_ms(3, SendFailure::Throttled), None);
    assert_eq!(retry_delay_ms(0, SendFailure::Other), None);
}

#[test]
fn small_checks() {
    assert_eq!(parse_i32("123"), Some(123));
    assert_eq!(parse_i32("-2147483648"), Some(i32::MIN));
    assert_eq!(parse_i32("2147483648"), None);
    assert_eq!(parse_i32("+7"), Some(7));
    assert_eq!(parse_i32("-"), None);
    assert_eq!(parse_i32("1a"), None);
    assert_eq!(parse_i32("99999999999999999999"), None);
    assert!(check_topic_id("k").is_ok());
    assert!(matches!(check_topic_id(""), Err(AppError::BadRequest(m)) if m == "topic_id is required"));
    assert_eq!(sent_count_hours(&SentCountQueryParams { hours: None }), 24);
    assert_eq!(sent_count_hours(&SentCountQueryParams { hours: Some(3) }), 3);
}

#[test]
fn failed_bulk_write_falls_back_to_single_rows() {
    let batch = vec![
        request(1, EmailMessageStatus::Sent, Some("m1"), None),
        request(2, EmailMessageStatus::Failed, None, Some("e")),
    ];
    assert!(singly_after_bulk(batch.clone(), true).is_empty());
    let singly = singly_after_bulk(batch, false);
    assert_eq!(singly.iter().map(|r| r.id).collect::<Vec<_>>(), vec![Some(1), Some(2)]);
}
