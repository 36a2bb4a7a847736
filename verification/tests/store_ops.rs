//! The content store: id assignment, retrieval, and the newest-first
//! ordering of a thread's posts.

use threadfeed::store::ContentStore;

#[test]
fn create_thread_then_get_thread() {
    let mut store = ContentStore::new();
    let t = store.create_thread(
        "Launch Day".to_string(),
        "2024-01-01T00:00:00+00:00".to_string(),
    );
    assert_eq!(t.id, 1);
    let found = store.get_thread(t.id).expect("created thread must be found");
    assert_eq!(found.title, "Launch Day");
    assert_eq!(found.created_at, "2024-01-01T00:00:00+00:00");
}

#[test]
fn get_thread_missing_is_none() {
    let store = ContentStore::new();
    assert!(store.get_thread(999999).is_none());
}

#[test]
fn thread_ids_are_monotonic() {
    let mut store = ContentStore::new();
    let a = store.create_thread("a".to_string(), "2024-01-01T00:00:00+00:00".to_string());
    let b = store.create_thread("b".to_string(), "2024-01-01T00:00:01+00:00".to_string());
    let c = store.create_thread("c".to_string(), "2024-01-01T00:00:02+00:00".to_string());
    assert!(a.id < b.id && b.id < c.id);
    assert_eq!(store.list_threads().len(), 3);
}

#[test]
fn posts_for_thread_sorted_newest_first() {
    let mut store = ContentStore::new();
    let t = store.create_thread("t".to_string(), "2024-01-01T00:00:00+00:00".to_string());
    // Inserted in scrambled order; timestamps are pairwise distinct.
    let stamps = [
        "2024-03-05T08:00:00+00:00",
        "2024-03-07T09:30:00+00:00",
        "2024-03-04T23:59:59+00:00",
        "2024-03-06T12:00:00+00:00",
    ];
    for (i, ts) in stamps.iter().enumerate() {
        store.create_post(t.id, format!("author{}", i), format!("post {}", i), ts.to_string());
    }
    let posts = store.list_posts_for_thread(t.id);
    assert_eq!(posts.len(), 4);
    for w in posts.windows(2) {
        assert!(w[0].created_at >= w[1].created_at);
    }
    assert_eq!(posts[0].created_at, "2024-03-07T09:30:00+00:00");
    assert_eq!(posts[3].created_at, "2024-03-04T23:59:59+00:00");
}

#[test]
fn posts_for_thread_filters_by_thread() {
    let mut store = ContentStore::new();
    let t1 = store.create_thread("one".to_string(), "2024-01-01T00:00:00+00:00".to_string());
    let t2 = store.create_thread("two".to_string(), "2024-01-01T00:00:01+00:00".to_string());
    store.create_post(t1.id, "a".to_string(), "x".to_string(), "2024-01-02T00:00:00+00:00".to_string());
    store.create_post(t2.id, "b".to_string(), "y".to_string(), "2024-01-03T00:00:00+00:00".to_string());
    store.create_post(t1.id, "c".to_string(), "z".to_string(), "2024-01-04T00:00:00+00:00".to_string());
    let posts = store.list_posts_for_thread(t1.id);
    assert_eq!(posts.len(), 2);
    assert!(posts.iter().all(|p| p.thread_id == t1.id));
    assert_eq!(store.list_posts().len(), 3);
}

#[test]
fn tied_timestamps_keep_all_posts() {
    let mut store = ContentStore::new();
    let t = store.create_thread("t".to_string(), "2024-01-01T00:00:00+00:00".to_string());
    let ts = "2024-05-05T05:05:05+00:00";
    store.create_post(t.id, "a".to_string(), "first".to_string(), ts.to_string());
    store.create_post(t.id, "b".to_string(), "second".to_string(), ts.to_string());
    let posts = store.list_posts_for_thread(t.id);
    assert_eq!(posts.len(), 2);
    assert_ne!(posts[0].id, posts[1].id);
}

#[test]
fn post_ids_are_unique_across_threads() {
    let mut store = ContentStore::new();
    let t1 = store.create_thread("one".to_string(), "2024-01-01T00:00:00+00:00".to_string());
    let t2 = store.create_thread("two".to_string(), "2024-01-01T00:00:01+00:00".to_string());
    let p1 = store.create_post(t1.id, "a".to_string(), "x".to_string(), "2024-01-02T00:00:00+00:00".to_string());
    let p2 = store.create_post(t2.id, "b".to_string(), "y".to_string(), "2024-01-03T00:00:00+00:00".to_string());
    let p3 = store.create_post(t1.id, "c".to_string(), "z".to_string(), "2024-01-01T12:00:00+00:00".to_string());
    assert!(p1.id != p2.id && p2.id != p3.id && p1.id != p3.id);
}
