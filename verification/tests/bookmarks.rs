use app_core::bookmarks::{Bookmark, BookmarkCache, BookmarkSubject, GetBookmarksResponse};

fn make_bookmark(uri: &str, cid: &str, created_at: &str) -> Bookmark {
    Bookmark {
        created_at: created_at.to_string(),
        subject: BookmarkSubject { uri: uri.to_string(), cid: cid.to_string() },
        item: None,
    }
}

#[test]
fn test_bookmark_post_uri() {
    let bookmark = make_bookmark(
        "at://did:plc:abc/app.bsky.feed.post/123",
        "bafyreib",
        "2024-01-15T10:00:00Z",
    );

    assert_eq!(bookmark.post_uri(), "at://did:plc:abc/app.bsky.feed.post/123");
    assert_eq!(bookmark.post_cid(), "bafyreib");
}

#[test]
fn test_bookmark_has_content() {
    let bookmark = make_bookmark(
        "at://did:plc:abc/app.bsky.feed.post/123",
        "bafyreib",
        "2024-01-15T10:00:00Z",
    );

    assert!(!bookmark.has_content());
}

#[test]
fn test_get_bookmarks_response_has_more() {
    let response = GetBookmarksResponse {
        cursor: Some("cursor123".to_string()),
        bookmarks: vec![make_bookmark(
            "at://did:plc:abc/app.bsky.feed.post/123",
            "bafyreib",
            "2024-01-15T10:00:00Z",
        )],
    };

    assert!(response.has_more());
    assert_eq!(response.count(), 1);

    let no_more = GetBookmarksResponse { cursor: None, bookmarks: vec![] };

    assert!(!no_more.has_more());
    assert_eq!(no_more.count(), 0);
}

#[test]
fn test_bookmark_cache_new() {
    let cache = BookmarkCache::new();
    assert!(cache.is_empty());
    assert_eq!(cache.len(), 0);
}

#[test]
fn test_bookmark_cache_add_remove() {
    let mut cache = BookmarkCache::new();

    cache.add("at://did:plc:abc/app.bsky.feed.post/123");
    assert!(cache.contains("at://did:plc:abc/app.bsky.feed.post/123"));
    assert!(!cache.contains("at://did:plc:abc/app.bsky.feed.post/456"));
    assert_eq!(cache.len(), 1);

    cache.add("at://did:plc:abc/app.bsky.feed.post/456");
    assert_eq!(cache.len(), 2);

    cache.remove("at://did:plc:abc/app.bsky.feed.post/123");
    assert!(!cache.contains("at://did:plc:abc/app.bsky.feed.post/123"));
    assert_eq!(cache.len(), 1);
}

#[test]
fn test_bookmark_cache_clear() {
    let mut cache = BookmarkCache::new();

    cache.add("at://did:plc:abc/app.bsky.feed.post/123");
    cache.add("at://did:plc:abc/app.bsky.feed.post/456");
    assert_eq!(cache.len(), 2);

    cache.clear();
    assert!(cache.is_empty());
}

#[test]
fn test_bookmark_cache_populate() {
    let mut cache = BookmarkCache::new();

    let bookmarks = vec![
        make_bookmark(
            "at://did:plc:abc/app.bsky.feed.post/123",
            "bafyreib1",
            "2024-01-15T10:00:00Z",
        ),
        make_bookmark(
            "at://did:plc:abc/app.bsky.feed.post/456",
            "bafyreib2",
            "2024-01-15T11:00:00Z",
        ),
    ];

    cache.populate(&bookmarks);
    assert_eq!(cache.len(), 2);
    assert!(cache.contains("at://did:plc:abc/app.bsky.feed.post/123"));
    assert!(cache.contains("at://did:plc:abc/app.bsky.feed.post/456"));
}

#[test]
fn test_bookmark_cache_default() {
    let cache: BookmarkCache = Default::default();
    assert!(cache.is_empty());
}
