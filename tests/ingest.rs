use image_search::ingest::{image_base64, needs_collection, point_id, Action, Event, Worker};
use image_search::tracker::Tracker;

fn names(v: &[&str]) -> Vec<String> {
    v.iter().map(|s| s.to_string()).collect()
}

fn commit(w: &mut Worker, name: &str) {
    assert!(matches!(w.step(Event::TimerFired), Some(Action::ListDirectory)));
    assert!(matches!(w.step(Event::Listed(names(&[name]))), Some(Action::ReadFile(_))));
    assert!(matches!(w.step(Event::ReadDone(vec![1, 2, 3])), Some(Action::RequestEmbedding { .. })));
    assert!(matches!(w.step(Event::EmbedDone), Some(Action::Upsert { .. })));
    assert!(matches!(w.step(Event::UpsertDone), Some(Action::Sleep)));
}

#[test]
fn tracker_marks_and_answers() {
    let mut t = Tracker::new();
    let a = "a.jpg".to_string();
    assert!(!t.is_committed(&a));
    t.mark_committed(a.clone());
    assert!(t.is_committed(&a));
    assert!(!t.is_committed(&"b.jpg".to_string()));
}

#[test]
fn image_base64_is_standard_padded() {
    assert_eq!(image_base64(&b"hello".to_vec()), "aGVsbG8=");
    assert_eq!(image_base64(&Vec::new()), "");
}

#[test]
fn point_id_is_url_uuid_v5_of_name() {
    assert_eq!(point_id(&"cat.jpg".to_string()), "4aea1fa7-e712-53ec-bd51-21647fd36e45");
    assert_eq!(point_id(&"dog.jpg".to_string()), "f5fd0e8d-49c8-5cfa-88d6-4244ade604e3");
    assert_eq!(point_id(&"cat.jpg".to_string()), point_id(&"cat.jpg".to_string()));
}

#[test]
fn collection_created_only_when_absent() {
    let existing = names(&["other", "clip_images_collection"]);
    assert!(!needs_collection(&existing, &"clip_images_collection".to_string()));
    assert!(needs_collection(&existing, &"fresh".to_string()));
    assert!(needs_collection(&Vec::new(), &"fresh".to_string()));
}

#[test]
fn tick_embeds_only_new_file() {
    let mut w = Worker::new();
    commit(&mut w, "dog.jpg");
    let mut embeds = Vec::new();
    let mut upserts = Vec::new();
    let mut reads = Vec::new();
    let mut next = w.step(Event::TimerFired);
    loop {
        match next {
            Some(Action::ListDirectory) => next = w.step(Event::Listed(names(&["cat.jpg", "dog.jpg"]))),
            Some(Action::ReadFile(n)) => {
                reads.push(n);
                next = w.step(Event::ReadDone(b"hello".to_vec()));
            }
            Some(Action::RequestEmbedding { file_name, image_base64 }) => {
                assert_eq!(image_base64, "aGVsbG8=");
                embeds.push(file_name);
                next = w.step(Event::EmbedDone);
            }
            Some(Action::Upsert { file_name, point_id }) => {
                assert_eq!(point_id, "4aea1fa7-e712-53ec-bd51-21647fd36e45");
                upserts.push(file_name);
                next = w.step(Event::UpsertDone);
            }
            Some(Action::Sleep) => break,
            _ => panic!("unexpected step"),
        }
    }
    assert_eq!(reads, vec!["cat.jpg".to_string()]);
    assert_eq!(embeds, vec!["cat.jpg".to_string()]);
    assert_eq!(upserts, vec!["cat.jpg".to_string()]);
    assert!(w.is_committed(&"cat.jpg".to_string()));
    assert!(w.is_committed(&"dog.jpg".to_string()));
}

#[test]
fn committed_file_is_skipped_next_tick() {
    let mut w = Worker::new();
    commit(&mut w, "a.jpg");
    assert!(matches!(w.step(Event::TimerFired), Some(Action::ListDirectory)));
    assert!(matches!(w.step(Event::Listed(names(&["a.jpg"]))), Some(Action::Sleep)));
}

#[test]
fn failed_embedding_is_retried_next_tick() {
    let mut w = Worker::new();
    assert!(matches!(w.step(Event::TimerFired), Some(Action::ListDirectory)));
    assert!(matches!(w.step(Event::Listed(names(&["a.jpg"]))), Some(Action::ReadFile(_))));
    assert!(matches!(w.step(Event::ReadDone(vec![0])), Some(Action::RequestEmbedding { .. })));
    assert!(matches!(w.step(Event::EmbedFailed), Some(Action::Sleep)));
    assert!(!w.is_committed(&"a.jpg".to_string()));
    assert!(matches!(w.step(Event::TimerFired), Some(Action::ListDirectory)));
    match w.step(Event::Listed(names(&["a.jpg"]))) {
        Some(Action::ReadFile(n)) => assert_eq!(n, "a.jpg"),
        _ => panic!("a.jpg should be read again"),
    }
}

#[test]
fn read_and_upsert_failures_commit_nothing() {
    let mut w = Worker::new();
    w.step(Event::TimerFired);
    match w.step(Event::Listed(names(&["a.jpg", "b.jpg"]))) {
        Some(Action::ReadFile(n)) => assert_eq!(n, "a.jpg"),
        _ => panic!("expected a read"),
    }
    match w.step(Event::ReadFailed) {
        Some(Action::ReadFile(n)) => assert_eq!(n, "b.jpg"),
        _ => panic!("expected the next read"),
    }
    w.step(Event::ReadDone(vec![7]));
    w.step(Event::EmbedDone);
    assert!(matches!(w.step(Event::UpsertFailed), Some(Action::Sleep)));
    assert!(!w.is_committed(&"a.jpg".to_string()));
    assert!(!w.is_committed(&"b.jpg".to_string()));
}

#[test]
fn listing_failure_waits_for_next_tick() {
    let mut w = Worker::new();
    w.step(Event::TimerFired);
    assert!(matches!(w.step(Event::ListFailed), Some(Action::Sleep)));
    assert!(matches!(w.step(Event::TimerFired), Some(Action::ListDirectory)));
}

#[test]
fn shutdown_stops_and_ignores_later_events() {
    let mut w = Worker::new();
    assert!(!w.is_stopped());
    assert!(matches!(w.step(Event::ShutdownRequested), Some(Action::Stop)));
    assert!(w.is_stopped());
    assert!(w.step(Event::TimerFired).is_none());
    assert!(w.step(Event::ShutdownRequested).is_none());
}

#[test]
fn out_of_stage_event_is_refused() {
    let mut w = Worker::new();
    assert!(w.step(Event::EmbedDone).is_none());
    assert!(w.step(Event::Listed(names(&["a.jpg"]))).is_none());
    assert!(matches!(w.step(Event::TimerFired), Some(Action::ListDirectory)));
}
