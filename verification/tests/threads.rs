use app_core::profiles::ProfileViewBasic;
use app_core::threads::{
    find_anchor, get_parents, get_replies, PostRecord, PostView, ThreadItem, ThreadItemBlocked,
    ThreadItemNotFound, ThreadItemPost, ThreadParams, ThreadSortOrder, ThreadViewMode,
};

#[test]
fn test_thread_params_builder() {
    let params = ThreadParams::new("at://did:plc:test/app.bsky.feed.post/123")
        .with_sort(ThreadSortOrder::Newest)
        .with_view(ThreadViewMode::Linear)
        .with_prioritize_followed(true)
        .with_below(30)
        .with_branching_factor(15);

    assert_eq!(params.anchor, "at://did:plc:test/app.bsky.feed.post/123");
    assert_eq!(params.sort, ThreadSortOrder::Newest);
    assert_eq!(params.view, ThreadViewMode::Linear);
    assert!(params.prioritize_followed_users);
    assert_eq!(params.below, 30);
    assert_eq!(params.branching_factor, 15);
}

#[test]
fn test_thread_sort_order_default() {
    assert_eq!(ThreadSortOrder::default(), ThreadSortOrder::Oldest);
}

#[test]
fn test_thread_view_mode_default() {
    assert_eq!(ThreadViewMode::default(), ThreadViewMode::Tree);
}

#[test]
fn test_thread_item_uri() {
    let post_item = ThreadItem::Post {
        uri: "at://did:plc:test/app.bsky.feed.post/123".to_string(),
        depth: 0,
        value: Box::new(ThreadItemPost {
            post: create_test_post(),
            op_thread: false,
            more_parents: false,
            more_replies: 0,
            hidden_by_threadgate: false,
            muted_by_viewer: false,
        }),
    };

    assert_eq!(post_item.uri(), "at://did:plc:test/app.bsky.feed.post/123");
    assert_eq!(post_item.depth(), 0);
    assert!(post_item.is_post());
}

#[test]
fn test_thread_item_depth() {
    let item = ThreadItem::Post {
        uri: "at://test".to_string(),
        depth: 2,
        value: Box::new(ThreadItemPost {
            post: create_test_post(),
            op_thread: false,
            more_parents: false,
            more_replies: 0,
            hidden_by_threadgate: false,
            muted_by_viewer: false,
        }),
    };

    assert_eq!(item.depth(), 2);
}

#[test]
fn test_find_anchor() {
    let thread = vec![
        create_thread_item("at://parent", 1),
        create_thread_item("at://anchor", 0),
        create_thread_item("at://reply", 2),
    ];

    let anchor = find_anchor(&thread);
    assert!(anchor.is_some());
    assert_eq!(anchor.unwrap().uri(), "at://anchor");
    assert_eq!(anchor.unwrap().depth(), 0);
}

#[test]
fn test_get_parents() {
    let thread = vec![
        create_thread_item("at://root", 0),
        create_thread_item("at://child1", 1),
        create_thread_item("at://child2", 1),
    ];

    let parents = get_parents(&thread, "at://child1");
    assert_eq!(parents.len(), 1);
    assert_eq!(parents[0].uri(), "at://root");
}

#[test]
fn test_get_replies() {
    let thread = vec![
        create_thread_item("at://anchor", 0),
        create_thread_item("at://reply1", 1),
        create_thread_item("at://reply2", 1),
        create_thread_item("at://reply3", 2),
    ];

    let replies = get_replies(&thread, "at://anchor");
    assert_eq!(replies.len(), 3);
}

#[test]
fn test_thread_item_not_found() {
    let item = ThreadItem::NotFound {
        uri: "at://test".to_string(),
        depth: 1,
        value: ThreadItemNotFound {
            uri: "at://test".to_string(),
            not_found: true,
        },
    };

    assert_eq!(item.uri(), "at://test");
    assert!(!item.is_post());
    assert!(item.as_post().is_none());
}

#[test]
fn test_thread_item_blocked() {
    let item = ThreadItem::Blocked {
        uri: "at://test".to_string(),
        depth: 1,
        value: ThreadItemBlocked {
            uri: "at://test".to_string(),
            blocked: true,
        },
    };

    assert_eq!(item.uri(), "at://test");
    assert!(!item.is_post());
}

fn create_test_post() -> PostView {
    PostView {
        uri: "at://did:plc:test/app.bsky.feed.post/123".to_string(),
        cid: "bafytest123".to_string(),
        author: ProfileViewBasic {
            did: "did:plc:test".to_string(),
            handle: "test.bsky.social".to_string(),
            display_name: Some("Test User".to_string()),
            avatar: None,
            associated: None,
            viewer: None,
            labels: None,
            created_at: None,
        },
        record: PostRecord {
            text: "Test post".to_string(),
            created_at: Some("2024-01-01T00:00:00Z".to_string()),
            reply: None,
            embed: None,
            facets: None,
            record_type: "app.bsky.feed.post".to_string(),
        },
        reply_count: Some(0),
        repost_count: Some(0),
        like_count: Some(0),
        indexed_at: Some("2024-01-01T00:00:00Z".to_string()),
        viewer: None,
    }
}

fn create_thread_item(uri: &str, depth: u32) -> ThreadItem {
    ThreadItem::Post {
        uri: uri.to_string(),
        depth,
        value: Box::new(ThreadItemPost {
            post: create_test_post(),
            op_thread: false,
            more_parents: false,
            more_replies: 0,
            hidden_by_threadgate: false,
            muted_by_viewer: false,
        }),
    }
}
