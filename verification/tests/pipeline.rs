use chat_pipeline::pipeline::{clamp_time, WorkerOutcome};
use chat_pipeline::store::Store;
use chat_pipeline::ChatError;

fn store_with_users(names: &[&str]) -> Store {
    let mut s = Store::new();
    for n in names {
        s.create_user_with_hash(n.to_string(), format!("hash-of-{}", n))
            .expect("user creation");
    }
    s
}

#[test]
fn scenario_general_chat() {
    let mut s = store_with_users(&["alice", "bob"]);
    s.create_chat(
        "general".to_string(),
        &vec!["alice".to_string(), "bob".to_string()],
        0,
    )
    .expect("chat creation");
    s.ingest("general", "alice", "hi".to_string(), 1).expect("ingest");
    s.ingest("general", "bob", "yo".to_string(), 2).expect("ingest");
    assert!(matches!(s.worker_step(10), WorkerOutcome::Delivered(_)));
    assert!(matches!(s.worker_step(20), WorkerOutcome::Delivered(_)));
    let h = s.get_history("general").expect("history");
    assert_eq!(h.len(), 2);
    assert_eq!(h[0].username, "alice");
    assert_eq!(h[0].content, "hi");
    assert_eq!(h[1].username, "bob");
    assert_eq!(h[1].content, "yo");
    assert!(h[0].created_at < h[1].created_at);
}

#[test]
fn fifo_delivery_order() {
    let mut s = store_with_users(&["alice"]);
    s.create_chat("room".to_string(), &vec!["alice".to_string()], 0)
        .expect("chat creation");
    for (t, text) in [(1u64, "one"), (2, "two"), (3, "three"), (4, "four")] {
        s.ingest("room", "alice", text.to_string(), t).expect("ingest");
    }
    s.drain(100);
    let h = s.get_history("room").expect("history");
    assert_eq!(h.len(), 4);
    let contents: Vec<&str> = h.iter().map(|r| r.content.as_str()).collect();
    assert_eq!(contents, vec!["one", "two", "three", "four"]);
}

#[test]
fn replay_does_not_duplicate() {
    let mut s = store_with_users(&["alice"]);
    s.create_chat("room".to_string(), &vec!["alice".to_string()], 0)
        .expect("chat creation");
    s.ingest("room", "alice", "only".to_string(), 1).expect("ingest");
    assert!(matches!(s.worker_step(5), WorkerOutcome::Delivered(0)));
    // a re-run of the worker finds the entry finished and must not re-deliver
    assert_eq!(s.worker_step(6), WorkerOutcome::Empty);
    s.drain(7);
    let h = s.get_history("room").expect("history");
    assert_eq!(h.len(), 1);
    assert_eq!(h[0].content, "only");
}

#[test]
fn no_cross_chat_interference() {
    let mut s = store_with_users(&["alice", "bob"]);
    s.create_chat("a".to_string(), &vec!["alice".to_string()], 0)
        .expect("chat creation");
    s.create_chat("b".to_string(), &vec!["bob".to_string()], 0)
        .expect("chat creation");
    s.ingest("a", "alice", "a1".to_string(), 1).expect("ingest");
    s.ingest("b", "bob", "b1".to_string(), 2).expect("ingest");
    s.ingest("a", "alice", "a2".to_string(), 3).expect("ingest");
    s.ingest("b", "bob", "b2".to_string(), 4).expect("ingest");
    s.drain(10);
    let ha = s.get_history("a").expect("history");
    let hb = s.get_history("b").expect("history");
    let ca: Vec<&str> = ha.iter().map(|r| r.content.as_str()).collect();
    let cb: Vec<&str> = hb.iter().map(|r| r.content.as_str()).collect();
    assert_eq!(ca, vec!["a1", "a2"]);
    assert_eq!(cb, vec!["b1", "b2"]);
}

#[test]
fn duplicate_username_conflicts() {
    let mut s = Store::new();
    s.create_user("alice".to_string(), "first-password").expect("user creation");
    let r = s.create_user("alice".to_string(), "second-password");
    assert_eq!(r.unwrap_err(), ChatError::Conflict);
    // the store is unchanged: the first credentials still work, the new do not
    assert!(s.user_exists("alice"));
    assert!(s.login("alice", "first-password"));
    assert!(!s.login("alice", "second-password"));
}

#[test]
fn login_unknown_user_fails() {
    let s = Store::new();
    assert!(!s.login("nobody", "anything"));
}

#[test]
fn missing_chat_is_distinct_from_empty() {
    let mut s = store_with_users(&["alice"]);
    s.create_chat("quiet".to_string(), &vec!["alice".to_string()], 0)
        .expect("chat creation");
    // an existing chat with no deliveries reads as an empty history
    let h = s.get_history("quiet").expect("history");
    assert!(h.is_empty());
    // a missing chat reads as NotFound, never as an empty history
    let r = s.get_history("nonexistent");
    assert_eq!(r.unwrap_err(), ChatError::NotFound);
}

#[test]
fn ingest_unknown_ids_not_found() {
    let mut s = store_with_users(&["alice"]);
    s.create_chat("room".to_string(), &vec!["alice".to_string()], 0)
        .expect("chat creation");
    let r = s.ingest("missing", "alice", "x".to_string(), 1);
    assert_eq!(r.unwrap_err(), ChatError::NotFound);
    let r = s.ingest("room", "mallory", "x".to_string(), 1);
    assert_eq!(r.unwrap_err(), ChatError::NotFound);
    s.drain(2);
    let h = s.get_history("room").expect("history");
    assert!(h.is_empty());
}

#[test]
fn create_chat_failures() {
    let mut s = store_with_users(&["alice"]);
    s.create_chat("room".to_string(), &vec!["alice".to_string()], 0)
        .expect("chat creation");
    let r = s.create_chat("room".to_string(), &vec!["alice".to_string()], 1);
    assert_eq!(r.unwrap_err(), ChatError::Conflict);
    let r = s.create_chat("other".to_string(), &vec!["mallory".to_string()], 1);
    assert_eq!(r.unwrap_err(), ChatError::NotFound);
    assert!(s.get_history("other").is_err());
}

#[test]
fn ingest_now_delivers() {
    let mut s = store_with_users(&["alice"]);
    s.create_chat("room".to_string(), &vec!["alice".to_string()], 0)
        .expect("chat creation");
    s.ingest_now("room", "alice", "clocked".to_string()).expect("ingest");
    s.drain(u64::MAX);
    let h = s.get_history("room").expect("history");
    assert_eq!(h.len(), 1);
    assert_eq!(h[0].username, "alice");
    assert_eq!(h[0].content, "clocked");
}

#[test]
fn clocked_worker_stamps_do_not_decrease() {
    let mut s = store_with_users(&["alice"]);
    s.create_chat("room".to_string(), &vec!["alice".to_string()], 0)
        .expect("chat creation");
    s.ingest("room", "alice", "first".to_string(), 1).expect("ingest");
    s.ingest("room", "alice", "second".to_string(), 2).expect("ingest");
    assert!(matches!(s.worker_step_now(), WorkerOutcome::Delivered(0)));
    assert!(matches!(s.worker_step_now(), WorkerOutcome::Delivered(1)));
    assert_eq!(s.worker_step_now(), WorkerOutcome::Empty);
    let h = s.get_history("room").expect("history");
    assert_eq!(h.len(), 2);
    assert_eq!(h[0].content, "first");
    assert_eq!(h[1].content, "second");
    assert!(h[0].created_at <= h[1].created_at);
}

#[test]
fn clamp_time_bounds() {
    assert_eq!(clamp_time(-5), 0);
    assert_eq!(clamp_time(0), 0);
    assert_eq!(clamp_time(1234567890), 1234567890);
}

#[test]
fn drain_empty_store() {
    let mut s = Store::new();
    assert_eq!(s.worker_step(1), WorkerOutcome::Empty);
    s.drain(1);
}
