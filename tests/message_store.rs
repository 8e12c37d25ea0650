use casual_mailer::date::Date;
use casual_mailer::delivery::{cycle_report, uniform_outcomes, CycleReport};
use casual_mailer::status::{DeliveryResult, DeliveryStatus, RecipientStatus};
use casual_mailer::store::{Envelope, FileStorage, Location, Message, StoreError};

fn d(year: i32, month: u32, day: u32) -> Date {
    Date { year, month, day }
}

fn envelope(to: &[&str]) -> Envelope {
    Envelope {
        from: "office@example.com".to_string(),
        to: to.iter().map(|s| s.to_string()).collect(),
    }
}

fn statuses_ids(v: &[DeliveryStatus]) -> Vec<u64> {
    v.iter().map(|s| s.message_id).collect()
}

#[test]
fn create_then_get_returns_what_was_written() {
    let mut store = FileStorage::new();
    let id = store
        .create(envelope(&["a@x.org"]), b"Subject: hi\r\n\r\nbody".to_vec(), d(2024, 5, 1), None)
        .unwrap();
    let (m, st) = store.get(id).unwrap();
    assert_eq!(m.id, id);
    assert_eq!(m.from, "office@example.com");
    assert_eq!(m.to, vec!["a@x.org".to_string()]);
    assert_eq!(m.content, b"Subject: hi\r\n\r\nbody".to_vec());
    assert_eq!(m.due_date, d(2024, 5, 1));
    assert_eq!(st.message_id, id);
    assert!(!st.completed());
    assert_eq!(store.location_of(id), Some(Location::Deferred));
}

#[test]
fn ids_are_distinct_and_unknown_ids_are_not_found() {
    let mut store = FileStorage::new();
    let a = store.create(envelope(&["a@x.org"]), vec![1], d(2024, 5, 1), None).unwrap();
    let b = store.create(envelope(&["b@x.org"]), vec![2], d(2024, 5, 1), None).unwrap();
    assert_ne!(a, b);
    assert_eq!(store.len(), 2);
    assert!(matches!(store.get(a + b + 1), Err(StoreError::NotFound)));
    assert_eq!(store.location_of(a + b + 1), None);
}

#[test]
fn create_refuses_an_empty_recipient_list() {
    let mut store = FileStorage::new();
    assert_eq!(store.create(envelope(&[]), vec![], d(2024, 5, 1), None), Err(StoreError::NoRecipients));
    assert_eq!(store.len(), 0);
}

#[test]
fn put_overwrites_and_checks_the_status() {
    let mut store = FileStorage::new();
    let m = Message {
        id: 40,
        from: "o@x.org".to_string(),
        to: vec!["a@x.org".to_string()],
        content: vec![7, 8],
        due_date: d(2024, 5, 1),
        origin: None,
    };
    let st = DeliveryStatus::queued(40, &m.to);
    assert_eq!(store.put(m.clone(), st.clone()), Ok(()));
    assert_eq!(store.location_of(40), Some(Location::Deferred));
    let mut m2 = m.clone();
    m2.content = vec![9];
    assert_eq!(store.put(m2, st.clone()), Ok(()));
    assert_eq!(store.len(), 1);
    assert_eq!(store.get(40).unwrap().0.content, vec![9]);
    let wrong = DeliveryStatus::queued(41, &m.to);
    assert_eq!(store.put(m.clone(), wrong), Err(StoreError::Mismatch));
    // ids handed out later never collide with stored ones
    let next = store.create(envelope(&["b@x.org"]), vec![], d(2024, 5, 1), None).unwrap();
    assert_eq!(next, 41);
}

#[test]
fn put_places_complete_statuses_in_sent_or_failed() {
    let mut store = FileStorage::new();
    let m = Message {
        id: 3,
        from: "o@x.org".to_string(),
        to: vec!["a@x.org".to_string()],
        content: vec![],
        due_date: d(2024, 5, 1),
        origin: None,
    };
    let st = DeliveryStatus {
        message_id: 3,
        recipients: vec![RecipientStatus {
            recipient: "a@x.org".to_string(),
            result: DeliveryResult::Delivered,
        }],
        retrieved: true,
    };
    assert_eq!(store.put(m.clone(), st.clone()), Ok(()));
    assert_eq!(store.location_of(3), Some(Location::Sent));
    assert_eq!(store.put(m, st), Err(StoreError::Closed));
}

#[test]
fn update_status_keeps_the_message_and_refuses_closed_records() {
    let mut store = FileStorage::new();
    let id = store.create(envelope(&["a@x.org"]), vec![1, 2, 3], d(2024, 5, 1), None).unwrap();
    let deferred = DeliveryStatus {
        message_id: id,
        recipients: vec![RecipientStatus {
            recipient: "a@x.org".to_string(),
            result: DeliveryResult::Deferred("421 busy".to_string(), 1),
        }],
        retrieved: true,
    };
    assert_eq!(store.update_status(id, deferred), Ok(()));
    let (m, st) = store.get(id).unwrap();
    assert_eq!(m.content, vec![1, 2, 3]);
    assert!(!st.retrieved);
    assert_eq!(st.deferred_count(), 1);
    let failed = DeliveryStatus {
        message_id: id,
        recipients: vec![RecipientStatus {
            recipient: "a@x.org".to_string(),
            result: DeliveryResult::Failed("550 no such user".to_string()),
        }],
        retrieved: false,
    };
    assert_eq!(store.update_status(id, failed.clone()), Ok(()));
    assert_eq!(store.location_of(id), Some(Location::Failed));
    assert_eq!(store.update_status(id, failed.clone()), Err(StoreError::Closed));
    assert_eq!(store.update_status(id + 1, failed), Err(StoreError::NotFound));
    let other = DeliveryStatus::queued(id, &vec!["z@x.org".to_string()]);
    let id2 = store.create(envelope(&["a@x.org"]), vec![], d(2024, 5, 1), None).unwrap();
    let other2 = DeliveryStatus::queued(id2, &vec!["z@x.org".to_string()]);
    assert_eq!(store.update_status(id2, other), Err(StoreError::Mismatch));
    assert_eq!(store.update_status(id2, other2), Err(StoreError::Mismatch));
}

#[test]
fn promotion_moves_due_messages_once() {
    let mut store = FileStorage::new();
    let past = store.create(envelope(&["a@x.org"]), vec![1], d(2024, 4, 30), None).unwrap();
    let today = store.create(envelope(&["b@x.org"]), vec![2], d(2024, 5, 1), None).unwrap();
    let later = store.create(envelope(&["c@x.org"]), vec![3], d(2024, 5, 2), None).unwrap();
    let moved = store.promote(&d(2024, 5, 1));
    assert_eq!(moved, vec![past, today]);
    assert_eq!(store.location_of(past), Some(Location::Ready));
    assert_eq!(store.location_of(later), Some(Location::Deferred));
    // a second run for the same date changes nothing
    let again = store.promote(&d(2024, 5, 1));
    assert!(again.is_empty());
    let ready: Vec<u64> = store.ready_messages().iter().map(|m| m.id).collect();
    assert_eq!(ready, vec![past, today]);
}

#[test]
fn attempt_with_every_recipient_accepted_is_sent() {
    let mut store = FileStorage::new();
    let id = store.create(envelope(&["a@x.org", "b@x.org"]), vec![5], d(2024, 5, 1), None).unwrap();
    store.promote(&d(2024, 5, 1));
    let loc = store.record_attempt(id, &vec![Ok(()), Ok(())]).unwrap();
    assert_eq!(loc, Location::Sent);
    let (m, st) = store.get(id).unwrap();
    assert_eq!(m.content, vec![5]);
    assert!(st.succeeded());
    assert_eq!(st.delivered_count(), 2);
    assert!(store.ready_messages().is_empty());
}

#[test]
fn partial_acceptance_lands_in_failed() {
    let mut store = FileStorage::new();
    let content = b"From: office@example.com\r\n\r\nrenewal".to_vec();
    let id = store
        .create(envelope(&["one@x.org", "two@x.org"]), content.clone(), d(2024, 5, 1), None)
        .unwrap();
    store.promote(&d(2024, 5, 1));
    let outcomes = vec![Ok(()), Err("550 mailbox unavailable".to_string())];
    assert_eq!(store.record_attempt(id, &outcomes), Ok(Location::Failed));
    let (m, st) = store.get(id).unwrap();
    assert_eq!(st.delivered_count(), 1);
    assert_eq!(st.failed_count(), 1);
    assert!(matches!(st.recipients[0].result, DeliveryResult::Delivered));
    match &st.recipients[1].result {
        DeliveryResult::Failed(reason) => assert_eq!(reason, "550 mailbox unavailable"),
        other => panic!("unexpected result {:?}", other),
    }
    assert_eq!(m.content, content);
    assert_eq!(store.location_of(id), Some(Location::Failed));
    assert!(store.ready_messages().is_empty());
}

#[test]
fn attempts_are_refused_outside_ready_or_with_wrong_counts() {
    let mut store = FileStorage::new();
    let id = store.create(envelope(&["a@x.org"]), vec![], d(2024, 5, 2), None).unwrap();
    assert_eq!(store.record_attempt(id, &vec![Ok(())]), Err(StoreError::NotReady));
    assert_eq!(store.record_attempt(id + 1, &vec![Ok(())]), Err(StoreError::NotFound));
    store.promote(&d(2024, 5, 2));
    assert_eq!(store.record_attempt(id, &vec![]), Err(StoreError::OutcomeCount));
    assert_eq!(store.location_of(id), Some(Location::Ready));
    assert_eq!(store.record_attempt(id, &vec![Ok(())]), Ok(Location::Sent));
    assert_eq!(store.record_attempt(id, &vec![Ok(())]), Err(StoreError::NotReady));
}

#[test]
fn whole_message_failure_fails_every_recipient() {
    let mut store = FileStorage::new();
    let id = store.create(envelope(&["a@x.org", "b@x.org", "c@x.org"]), vec![], d(2024, 5, 1), None).unwrap();
    store.promote(&d(2024, 5, 1));
    let outcomes = uniform_outcomes(3, &Err("connection refused".to_string()));
    assert_eq!(outcomes.len(), 3);
    assert_eq!(store.record_attempt(id, &outcomes), Ok(Location::Failed));
    assert_eq!(store.get(id).unwrap().1.failed_count(), 3);
    assert_eq!(uniform_outcomes(2, &Ok(())), vec![Ok(()), Ok(())]);
}

#[test]
fn recent_reports_terminal_messages_exactly_once() {
    let mut store = FileStorage::new();
    let done = store.create(envelope(&["a@x.org"]), vec![], d(2024, 5, 1), None).unwrap();
    let waiting = store.create(envelope(&["b@x.org"]), vec![], d(2024, 6, 1), None).unwrap();
    store.promote(&d(2024, 5, 1));
    store.record_attempt(done, &vec![Ok(())]).unwrap();
    let first = store.list_recent();
    assert_eq!(statuses_ids(&first), vec![done, waiting]);
    assert!(first[0].retrieved);
    let second = store.list_recent();
    assert_eq!(statuses_ids(&second), vec![waiting]);
    let third = store.list_recent();
    assert_eq!(statuses_ids(&third), vec![waiting]);
    assert!(store.get(done).unwrap().1.retrieved);
}

#[test]
fn restart_lists_exactly_the_incomplete_messages() {
    // a store rebuilt from disk: three messages still open, two finished
    let mut store = FileStorage::new();
    let mut open = Vec::new();
    for (i, due) in [d(2024, 5, 1), d(2024, 5, 3), d(2024, 6, 1)].iter().enumerate() {
        let to = vec![format!("open{}@x.org", i)];
        let m = Message { id: 10 + i as u64, from: "o@x.org".to_string(), to: to.clone(), content: vec![i as u8], due_date: *due, origin: None };
        store.put(m, DeliveryStatus::queued(10 + i as u64, &to)).unwrap();
        open.push(10 + i as u64);
    }
    for (i, result) in [DeliveryResult::Delivered, DeliveryResult::Failed("550".to_string())].into_iter().enumerate() {
        let id = 20 + i as u64;
        let m = Message { id, from: "o@x.org".to_string(), to: vec!["z@x.org".to_string()], content: vec![], due_date: d(2024, 4, 1), origin: None };
        let st = DeliveryStatus {
            message_id: id,
            recipients: vec![RecipientStatus { recipient: "z@x.org".to_string(), result }],
            retrieved: true,
        };
        store.put(m, st).unwrap();
    }
    let incomplete = store.list_incomplete();
    assert_eq!(statuses_ids(&incomplete), open);
}

#[test]
fn cycle_report_counts_sent_and_failed() {
    let report = cycle_report(&vec![Location::Sent, Location::Failed, Location::Sent, Location::Ready]);
    assert_eq!(report, CycleReport { sent: 2, failed: 1 });
    assert_eq!(cycle_report(&vec![]), CycleReport { sent: 0, failed: 0 });
}

fn plain(id: u64, to: &str, due: Date) -> Message {
    Message {
        id,
        from: "o@x.org".to_string(),
        to: vec![to.to_string()],
        content: vec![id as u8],
        due_date: due,
        origin: None,
    }
}

#[test]
fn restore_keeps_the_stored_location() {
    let mut store = FileStorage::new();
    let ready = plain(5, "a@x.org", d(2024, 5, 1));
    let st = DeliveryStatus::queued(5, &ready.to);
    assert_eq!(store.restore(ready, st, Location::Ready), Ok(()));
    assert_eq!(store.location_of(5), Some(Location::Ready));
    let later = plain(6, "b@x.org", d(2024, 9, 1));
    let st = DeliveryStatus::queued(6, &later.to);
    assert_eq!(store.restore(later, st, Location::Deferred), Ok(()));
    let ready_ids: Vec<u64> = store.ready_messages().iter().map(|m| m.id).collect();
    assert_eq!(ready_ids, vec![5]);
    assert_eq!(statuses_ids(&store.list_incomplete()), vec![5, 6]);
    // new ids do not collide with restored ones
    assert_eq!(store.create(envelope(&["c@x.org"]), vec![], d(2024, 5, 1), None), Ok(7));
}

#[test]
fn restore_refuses_misplaced_and_repeated_records() {
    let mut store = FileStorage::new();
    let m = plain(5, "a@x.org", d(2024, 5, 1));
    let open = DeliveryStatus::queued(5, &m.to);
    assert_eq!(store.restore(m.clone(), open.clone(), Location::Sent), Err(StoreError::WrongLocation));
    assert_eq!(store.restore(m.clone(), open.clone(), Location::Failed), Err(StoreError::WrongLocation));
    let delivered = DeliveryStatus {
        message_id: 5,
        recipients: vec![RecipientStatus { recipient: "a@x.org".to_string(), result: DeliveryResult::Delivered }],
        retrieved: false,
    };
    assert_eq!(store.restore(m.clone(), delivered.clone(), Location::Ready), Err(StoreError::WrongLocation));
    assert_eq!(store.restore(m.clone(), delivered.clone(), Location::Failed), Err(StoreError::WrongLocation));
    assert_eq!(store.len(), 0);
    assert_eq!(store.restore(m.clone(), delivered.clone(), Location::Sent), Ok(()));
    assert_eq!(store.restore(m.clone(), open, Location::Deferred), Err(StoreError::Duplicate));
    let wrong_id = DeliveryStatus::queued(9, &m.to);
    assert_eq!(store.restore(plain(8, "a@x.org", d(2024, 5, 1)), wrong_id, Location::Ready), Err(StoreError::Mismatch));
    assert_eq!(store.len(), 1);
}

#[test]
fn restart_with_three_open_messages_lists_those_three() {
    let mut store = FileStorage::new();
    let locations = [Location::Deferred, Location::Ready, Location::Ready];
    for (i, loc) in locations.iter().enumerate() {
        let m = plain(30 + i as u64, "a@x.org", d(2024, 5, 1));
        let st = DeliveryStatus::queued(m.id, &m.to);
        store.restore(m, st, *loc).unwrap();
    }
    let m = plain(40, "z@x.org", d(2024, 4, 1));
    let st = DeliveryStatus {
        message_id: 40,
        recipients: vec![RecipientStatus { recipient: "z@x.org".to_string(), result: DeliveryResult::Delivered }],
        retrieved: true,
    };
    store.restore(m, st, Location::Sent).unwrap();
    assert_eq!(statuses_ids(&store.list_incomplete()), vec![30, 31, 32]);
}

#[test]
fn put_clears_the_retrieved_mark() {
    let mut store = FileStorage::new();
    let m = plain(12, "a@x.org", d(2024, 5, 1));
    let done = DeliveryStatus {
        message_id: 12,
        recipients: vec![RecipientStatus { recipient: "a@x.org".to_string(), result: DeliveryResult::Delivered }],
        retrieved: true,
    };
    assert_eq!(store.put(m, done), Ok(()));
    assert!(!store.get(12).unwrap().1.retrieved);
    // the completed message is reported once, then no more
    assert_eq!(statuses_ids(&store.list_recent()), vec![12]);
    assert!(store.list_recent().is_empty());
}
