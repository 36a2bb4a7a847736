//! The service end to end: the write gate, the feed endpoint with its
//! error taxonomy, and the live clock-stamped write path.

use threadfeed::api::{parse_u64, Service};
use threadfeed::model::ApiError;

const SECRET: &str = "opensesame";

fn fresh_service() -> Service {
    Service::new(SECRET.to_string())
}

#[test]
fn authorize_accepts_only_the_configured_secret() {
    let svc = fresh_service();
    assert!(svc.authorize(SECRET));
    assert!(!svc.authorize(""));
    assert!(!svc.authorize("wrong"));
    assert!(!svc.authorize("OPENSESAME"));
}

#[test]
fn wrong_password_writes_nothing() {
    let mut svc = fresh_service();
    let r = svc.create_thread_at(
        "wrong",
        "Launch Day".to_string(),
        "2024-01-01T00:00:00+00:00".to_string(),
    );
    assert_eq!(r, Err(ApiError::Unauthorized));
    assert_eq!(r.unwrap_err().status_code(), 401);
    assert_eq!(svc.threads_json().len(), 0);
    assert_eq!(svc.store.threads.len(), 0);
}

#[test]
fn empty_password_writes_nothing() {
    let mut svc = fresh_service();
    let r = svc.create_post_at(
        "",
        1,
        "Alice".to_string(),
        "hi".to_string(),
        "2024-01-01T00:00:00+00:00".to_string(),
    );
    assert_eq!(r, Err(ApiError::Unauthorized));
    assert_eq!(svc.store.posts.len(), 0);
}

#[test]
fn created_thread_appears_exactly_once() {
    let mut svc = fresh_service();
    let r = svc.create_thread_at(
        SECRET,
        "Launch Day".to_string(),
        "2024-01-01T00:00:00+00:00".to_string(),
    );
    assert_eq!(r, Ok(()));
    let threads = svc.threads_json();
    assert_eq!(threads.len(), 1);
    assert_eq!(threads[0].title, "Launch Day");
}

#[test]
fn feed_renders_created_post() {
    let mut svc = fresh_service();
    svc.create_thread_at(
        SECRET,
        "T".to_string(),
        "2024-01-01T00:00:00+00:00".to_string(),
    )
    .unwrap();
    let tid = svc.store.threads[0].id;
    svc.create_post_at(
        SECRET,
        tid,
        "Alice".to_string(),
        "**hello**".to_string(),
        "2024-01-02T00:00:00+00:00".to_string(),
    )
    .unwrap();
    let feed = svc.build_feed(tid).expect("feed of an existing thread");
    assert_eq!(feed.thread.title, "T");
    assert_eq!(feed.posts.len(), 1);
    assert_eq!(feed.posts[0].author, "Alice");
    assert_eq!(feed.posts[0].content, "**hello**");
    assert!(feed.posts[0].content_html.contains("<strong>hello</strong>"));
}

#[test]
fn feed_for_missing_thread_is_not_found() {
    let svc = fresh_service();
    let r = svc.build_feed(999999);
    assert_eq!(r.err(), Some(ApiError::NotFound));
}

#[test]
fn feed_endpoint_missing_id_gives_404() {
    let mut svc = fresh_service();
    svc.create_thread_at(
        SECRET,
        "T".to_string(),
        "2024-01-01T00:00:00+00:00".to_string(),
    )
    .unwrap();
    let r = svc.feed_json("999999");
    let e = r.err().expect("never-created id must miss");
    assert_eq!(e, ApiError::NotFound);
    assert_eq!(e.status_code(), 404);
    assert_eq!(e.message(), "Not found");
}

#[test]
fn feed_endpoint_bad_id_gives_400() {
    let svc = fresh_service();
    for bad in ["abc", "", "12a", "-3", "1.5", "+42"] {
        let e = svc.feed_json(bad).err().expect("non-numeric id must fail");
        assert_eq!(e, ApiError::Validation);
        assert_eq!(e.status_code(), 400);
        assert_eq!(e.message(), "Bad ID");
    }
}

#[test]
fn wrong_password_then_list_shows_no_new_thread() {
    let mut svc = fresh_service();
    svc.create_thread_at(
        SECRET,
        "existing".to_string(),
        "2024-01-01T00:00:00+00:00".to_string(),
    )
    .unwrap();
    let before = svc.threads_json().len();
    let r = svc.create_thread_at(
        "bad-password",
        "intruder".to_string(),
        "2024-01-02T00:00:00+00:00".to_string(),
    );
    assert_eq!(r.unwrap_err().status_code(), 401);
    assert_eq!(svc.threads_json().len(), before);
}

#[test]
fn live_write_path_stamps_parseable_time() {
    let mut svc = fresh_service();
    let r = svc.create_thread(SECRET, "clocked".to_string());
    assert_eq!(r, Ok(()));
    let created = &svc.store.threads[0];
    assert_eq!(created.title, "clocked");
    assert!(chrono::DateTime::parse_from_rfc3339(created.created_at.as_str()).is_ok());

    let r = svc.create_post(SECRET, created.id, "Alice".to_string(), "hi".to_string());
    assert_eq!(r, Ok(()));
    assert!(chrono::DateTime::parse_from_rfc3339(svc.store.posts[0].created_at.as_str()).is_ok());
}

#[test]
fn empty_title_is_refused() {
    let mut svc = fresh_service();
    let r = svc.create_thread_at(SECRET, "".to_string(), "2024-01-01T00:00:00+00:00".to_string());
    assert_eq!(r, Err(ApiError::Validation));
    assert_eq!(svc.store.threads.len(), 0);
}

#[test]
fn exhausted_id_space_is_a_store_error() {
    let mut svc = fresh_service();
    svc.store.next_post_id = u64::MAX;
    let r = svc.create_post_at(
        SECRET,
        1,
        "Alice".to_string(),
        "hi".to_string(),
        "2024-01-01T00:00:00+00:00".to_string(),
    );
    assert_eq!(r, Err(ApiError::Store));
    assert_eq!(r.unwrap_err().status_code(), 500);
    assert_eq!(svc.store.posts.len(), 0);
}

#[test]
fn orphan_posts_are_accepted_as_before() {
    let mut svc = fresh_service();
    let r = svc.create_post_at(
        SECRET,
        424242,
        "Alice".to_string(),
        "orphan".to_string(),
        "2024-01-01T00:00:00+00:00".to_string(),
    );
    assert_eq!(r, Ok(()));
    assert_eq!(svc.store.posts.len(), 1);
    assert_eq!(svc.store.posts[0].thread_id, 424242);
}

#[test]
fn posts_json_is_flat_and_rendered() {
    let mut svc = fresh_service();
    svc.create_thread_at(SECRET, "T".to_string(), "2024-01-01T00:00:00+00:00".to_string())
        .unwrap();
    let tid = svc.store.threads[0].id;
    svc.create_post_at(
        SECRET,
        tid,
        "A".to_string(),
        "*em*".to_string(),
        "2024-01-02T00:00:00+00:00".to_string(),
    )
    .unwrap();
    let posts = svc.posts_json();
    assert_eq!(posts.len(), 1);
    assert!(posts[0].content_html.contains("<em>em</em>"));
}

#[test]
fn parse_u64_accepts_digit_strings() {
    assert_eq!(parse_u64("0"), Some(0));
    assert_eq!(parse_u64("42"), Some(42));
    assert_eq!(parse_u64("999999"), Some(999999));
    assert_eq!(parse_u64("007"), Some(7));
    assert_eq!(parse_u64("18446744073709551615"), Some(u64::MAX));
}

#[test]
fn parse_u64_rejects_everything_else() {
    assert_eq!(parse_u64(""), None);
    assert_eq!(parse_u64("abc"), None);
    assert_eq!(parse_u64("12a"), None);
    assert_eq!(parse_u64("-1"), None);
    assert_eq!(parse_u64(" 1"), None);
    assert_eq!(parse_u64("18446744073709551616"), None);
    assert_eq!(parse_u64("99999999999999999999999"), None);
}

#[test]
fn status_codes_cover_the_taxonomy() {
    assert_eq!(ApiError::Validation.status_code(), 400);
    assert_eq!(ApiError::Unauthorized.status_code(), 401);
    assert_eq!(ApiError::NotFound.status_code(), 404);
    assert_eq!(ApiError::Store.status_code(), 500);
    assert_eq!(ApiError::Unauthorized.message(), "Unauthorized");
}
