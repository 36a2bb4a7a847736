//! The markup renderer through the public view projection: arbitrary
//! input renders without failure, and real markup becomes real HTML.

use threadfeed::model::{Post, PostView};

fn post_with_content(content: &str) -> Post {
    Post {
        id: 1,
        thread_id: 1,
        author: "Alice".to_string(),
        content: content.to_string(),
        created_at: "2024-01-01T00:00:00+00:00".to_string(),
    }
}

#[test]
fn render_empty_input() {
    let v = PostView::of(&post_with_content(""));
    assert_eq!(v.content, "");
    assert_eq!(v.content_html, "");
}

#[test]
fn render_plain_text() {
    let v = PostView::of(&post_with_content("just words"));
    assert!(v.content_html.contains("just words"));
}

#[test]
fn render_malformed_tags() {
    let v = PostView::of(&post_with_content("<div <b unclosed **oops"));
    assert_eq!(v.content, "<div <b unclosed **oops");
    assert!(!v.content_html.is_empty());
}

#[test]
fn render_bold_markup() {
    let v = PostView::of(&post_with_content("**hello**"));
    assert_eq!(v.content, "**hello**");
    assert!(v.content_html.contains("<strong>hello</strong>"));
}

#[test]
fn render_escapes_raw_html() {
    let v = PostView::of(&post_with_content("<script>alert(1)</script>"));
    assert!(!v.content_html.contains("<script>alert(1)</script>"));
}

#[test]
fn render_keeps_links() {
    let v = PostView::of(&post_with_content("[site](https://example.com)"));
    assert!(v.content_html.contains("https://example.com"));
}

#[test]
fn view_carries_fields_over() {
    let p = post_with_content("**hello**");
    let v = PostView::of(&p);
    assert_eq!(v.id, p.id);
    assert_eq!(v.author, p.author);
    assert_eq!(v.created_at, p.created_at);
}
