use app_core::feeds::{
    DedupeStrategy, FeedParams, FeedPreferences, FeedTuner, FeedViewPost, HashtagFeedParams,
    HashtagFeedSort, PinnedFeed, PinnedFeedType, PinnedFeedsError, PinnedFeedsManager, PostView,
    ReplyRef, ReplyRefPost,
};
use app_core::feeds::{custom_feed_headers, is_bluesky_owned_feed, posts_as_feed, trim_feed_page, FeedResponse};
use app_core::profiles::ProfileViewBasic;

fn create_test_post(uri: &str, author_did: &str) -> PostView {
    PostView {
        uri: uri.to_string(),
        cid: "test-cid".to_string(),
        author: ProfileViewBasic {
            did: author_did.to_string(),
            handle: "test.bsky.social".to_string(),
            display_name: Some("Test User".to_string()),
            avatar: None,
            associated: None,
            viewer: None,
            labels: None,
            created_at: None,
        },
        record: serde_json::from_str(r#"{"text": "test"}"#).unwrap(),
        embed: None,
        reply_count: Some(0),
        repost_count: Some(0),
        like_count: Some(0),
        quote_count: Some(0),
        indexed_at: "2024-01-01T00:00:00Z".to_string(),
        viewer: None,
        labels: None,
        threadgate: None,
    }
}

fn create_test_feed_post(uri: &str, author_did: &str) -> FeedViewPost {
    FeedViewPost {
        post: create_test_post(uri, author_did),
        reply: None,
        reason: None,
        feed_context: None,
    }
}

#[test]
fn test_dedupe_by_uri() {
    let mut tuner = FeedTuner::new();

    let posts = vec![
        create_test_feed_post("at://did:plc:abc/app.bsky.feed.post/1", "did:plc:abc"),
        create_test_feed_post("at://did:plc:abc/app.bsky.feed.post/2", "did:plc:abc"),
        create_test_feed_post("at://did:plc:abc/app.bsky.feed.post/1", "did:plc:abc"), // duplicate
    ];

    let deduped = tuner.dedupe(posts, DedupeStrategy::ByUri);
    assert_eq!(deduped.len(), 2);
    assert_eq!(deduped[0].post.uri, "at://did:plc:abc/app.bsky.feed.post/1");
    assert_eq!(deduped[1].post.uri, "at://did:plc:abc/app.bsky.feed.post/2");
}

#[test]
fn test_dedupe_by_thread() {
    let mut tuner = FeedTuner::new();

    let root_post = create_test_post("at://did:plc:abc/app.bsky.feed.post/1", "did:plc:abc");

    let posts = vec![
        FeedViewPost {
            post: create_test_post("at://did:plc:abc/app.bsky.feed.post/2", "did:plc:abc"),
            reply: Some(ReplyRef {
                root: ReplyRefPost::PostView(Box::new(root_post.clone())),
                parent: ReplyRefPost::PostView(Box::new(root_post.clone())),
                grandparent_author: None,
            }),
            reason: None,
            feed_context: None,
        },
        FeedViewPost {
            post: create_test_post("at://did:plc:abc/app.bsky.feed.post/3", "did:plc:abc"),
            reply: Some(ReplyRef {
                root: ReplyRefPost::PostView(Box::new(root_post.clone())),
                parent: ReplyRefPost::PostView(Box::new(root_post.clone())),
                grandparent_author: None,
            }),
            reason: None,
            feed_context: None,
        },
        create_test_feed_post("at://did:plc:xyz/app.bsky.feed.post/1", "did:plc:xyz"), // different thread
    ];

    let deduped = tuner.dedupe(posts, DedupeStrategy::ByThread);
    // Should keep only the first post from the thread and the post from a different thread
    assert_eq!(deduped.len(), 2);
}

#[test]
fn test_filter_followed_replies_self_thread() {
    let tuner = FeedTuner::new();
    let user_did = "did:plc:user";

    let root_post = create_test_post("at://did:plc:user/app.bsky.feed.post/1", user_did);

    let posts = vec![FeedViewPost {
        post: create_test_post("at://did:plc:user/app.bsky.feed.post/2", user_did),
        reply: Some(ReplyRef {
            root: ReplyRefPost::PostView(Box::new(root_post.clone())),
            parent: ReplyRefPost::PostView(Box::new(root_post.clone())),
            grandparent_author: None,
        }),
        reason: None,
        feed_context: None,
    }];

    let filtered = tuner.filter_followed_replies_only(posts, user_did);
    // Self-threads should always be shown
    assert_eq!(filtered.len(), 1);
}

#[test]
fn test_feed_params_default() {
    let params = FeedParams::default();
    assert_eq!(params.cursor, None);
    assert_eq!(params.limit, 0);
}

#[test]
fn test_feed_preferences_languages() {
    let prefs = FeedPreferences::with_languages(vec!["en".to_string(), "es".to_string()]);
    assert_eq!(prefs.content_languages_header(), "en,es");
    assert!(prefs.interests.is_none());
}

#[test]
fn test_feed_preferences_interests() {
    let prefs = FeedPreferences::with_interests(vec!["tech".to_string(), "sports".to_string()]);
    assert_eq!(prefs.interests_header(), "tech,sports");
    assert!(prefs.content_languages.is_none());
}

#[test]
fn test_feed_preferences_default() {
    let prefs = FeedPreferences::default();
    assert_eq!(prefs.content_languages_header(), "");
    assert_eq!(prefs.interests_header(), "");
}

#[test]
fn test_hashtag_feed_params_new() {
    let params = HashtagFeedParams::new("rust");
    assert_eq!(params.hashtag, "rust");
    assert_eq!(params.cursor, None);
    assert_eq!(params.limit, 50);
    assert_eq!(params.sort, HashtagFeedSort::Top);
}

#[test]
fn test_hashtag_feed_params_strips_hash() {
    let params = HashtagFeedParams::new("#rust");
    assert_eq!(params.hashtag, "rust");
}

#[test]
fn test_hashtag_feed_params_with_cursor() {
    let params = HashtagFeedParams::new("rust")
        .with_cursor(Some("cursor123".to_string()));
    assert_eq!(params.cursor, Some("cursor123".to_string()));
}

#[test]
fn test_hashtag_feed_params_with_limit() {
    let params = HashtagFeedParams::new("rust").with_limit(25);
    assert_eq!(params.limit, 25);
}

#[test]
fn test_hashtag_feed_params_limit_cap() {
    // Limit should be capped at 100
    let params = HashtagFeedParams::new("rust").with_limit(150);
    assert_eq!(params.limit, 100);
}

#[test]
fn test_hashtag_feed_params_with_sort() {
    let params = HashtagFeedParams::new("rust")
        .with_sort(HashtagFeedSort::Latest);
    assert_eq!(params.sort, HashtagFeedSort::Latest);
}

#[test]
fn test_hashtag_feed_params_builder_chain() {
    let params = HashtagFeedParams::new("#bluesky")
        .with_cursor(Some("abc".to_string()))
        .with_limit(10)
        .with_sort(HashtagFeedSort::Latest);

    assert_eq!(params.hashtag, "bluesky");
    assert_eq!(params.cursor, Some("abc".to_string()));
    assert_eq!(params.limit, 10);
    assert_eq!(params.sort, HashtagFeedSort::Latest);
}

#[test]
fn test_hashtag_feed_sort_as_str() {
    assert_eq!(HashtagFeedSort::Top.as_str(), "top");
    assert_eq!(HashtagFeedSort::Latest.as_str(), "latest");
}

#[test]
fn test_hashtag_feed_sort_default() {
    let sort = HashtagFeedSort::default();
    assert_eq!(sort, HashtagFeedSort::Top);
}

#[test]
fn test_hashtag_params_multiple_words() {
    let params = HashtagFeedParams::new("rust programming");
    assert_eq!(params.hashtag, "rust programming");
}

#[test]
fn test_hashtag_params_special_chars() {
    let params = HashtagFeedParams::new("rust-lang");
    assert_eq!(params.hashtag, "rust-lang");
}

#[test]
fn test_hashtag_feed_sort_equality() {
    assert_eq!(HashtagFeedSort::Top, HashtagFeedSort::Top);
    assert_eq!(HashtagFeedSort::Latest, HashtagFeedSort::Latest);
    assert_ne!(HashtagFeedSort::Top, HashtagFeedSort::Latest);
}

#[test]
fn test_hashtag_feed_sort_clone() {
    let sort1 = HashtagFeedSort::Latest;
    let sort2 = sort1;
    assert_eq!(sort1, sort2);
}

#[test]
fn test_hashtag_params_clone() {
    let params1 = HashtagFeedParams::new("rust")
        .with_limit(25)
        .with_sort(HashtagFeedSort::Latest);

    let params2 = params1.clone();

    assert_eq!(params1.hashtag, params2.hashtag);
    assert_eq!(params1.limit, params2.limit);
    assert_eq!(params1.sort, params2.sort);
    assert_eq!(params1.cursor, params2.cursor);
}

#[test]
fn test_new_manager() {
    let manager = PinnedFeedsManager::new();
    assert_eq!(manager.count(), 0);
    assert!(manager.is_empty());
    assert_eq!(manager.max_pinned(), PinnedFeedsManager::DEFAULT_MAX_PINNED);
}

#[test]
fn test_with_max() {
    let manager = PinnedFeedsManager::with_max(5);
    assert_eq!(manager.max_pinned(), 5);
}

#[test]
fn test_from_uris() {
    let uris = vec!["feed1".to_string(), "feed2".to_string()];
    let manager = PinnedFeedsManager::from_uris(uris);
    assert_eq!(manager.count(), 2);
    assert!(manager.is_pinned("feed1"));
    assert!(manager.is_pinned("feed2"));
}

#[test]
fn test_pin_feed() {
    let mut manager = PinnedFeedsManager::new();
    assert!(manager.pin("feed1").is_ok());
    assert_eq!(manager.count(), 1);
    assert!(manager.is_pinned("feed1"));
}

#[test]
fn test_pin_already_pinned() {
    let mut manager = PinnedFeedsManager::new();
    manager.pin("feed1").unwrap();
    let result = manager.pin("feed1");
    assert!(result.is_err());
    assert!(matches!(result, Err(PinnedFeedsError::AlreadyPinned(_))));
}

#[test]
fn test_pin_empty_uri() {
    let mut manager = PinnedFeedsManager::new();
    let result = manager.pin("");
    assert!(result.is_err());
    assert!(matches!(result, Err(PinnedFeedsError::InvalidUri(_))));
}

#[test]
fn test_pin_limit_reached() {
    let mut manager = PinnedFeedsManager::with_max(2);
    manager.pin("feed1").unwrap();
    manager.pin("feed2").unwrap();
    let result = manager.pin("feed3");
    assert!(result.is_err());
    assert!(matches!(result, Err(PinnedFeedsError::LimitReached(2))));
}

#[test]
fn test_unpin_feed() {
    let mut manager = PinnedFeedsManager::new();
    manager.pin("feed1").unwrap();
    manager.pin("feed2").unwrap();
    assert!(manager.unpin("feed1").is_ok());
    assert_eq!(manager.count(), 1);
    assert!(!manager.is_pinned("feed1"));
    assert!(manager.is_pinned("feed2"));
}

#[test]
fn test_unpin_not_pinned() {
    let mut manager = PinnedFeedsManager::new();
    let result = manager.unpin("feed1");
    assert!(result.is_err());
    assert!(matches!(result, Err(PinnedFeedsError::NotPinned(_))));
}

#[test]
fn test_is_pinned() {
    let mut manager = PinnedFeedsManager::new();
    assert!(!manager.is_pinned("feed1"));
    manager.pin("feed1").unwrap();
    assert!(manager.is_pinned("feed1"));
    assert!(!manager.is_pinned("feed2"));
}

#[test]
fn test_position() {
    let mut manager = PinnedFeedsManager::new();
    manager.pin("feed1").unwrap();
    manager.pin("feed2").unwrap();
    manager.pin("feed3").unwrap();
    assert_eq!(manager.position("feed1"), Some(0));
    assert_eq!(manager.position("feed2"), Some(1));
    assert_eq!(manager.position("feed3"), Some(2));
    assert_eq!(manager.position("feed4"), None);
}

#[test]
fn test_list() {
    let mut manager = PinnedFeedsManager::new();
    manager.pin("feed1").unwrap();
    manager.pin("feed2").unwrap();
    assert_eq!(manager.list(), &["feed1".to_string(), "feed2".to_string()]);
}

#[test]
fn test_count() {
    let mut manager = PinnedFeedsManager::new();
    assert_eq!(manager.count(), 0);
    manager.pin("feed1").unwrap();
    assert_eq!(manager.count(), 1);
    manager.pin("feed2").unwrap();
    assert_eq!(manager.count(), 2);
    manager.unpin("feed1").unwrap();
    assert_eq!(manager.count(), 1);
}

#[test]
fn test_is_empty() {
    let mut manager = PinnedFeedsManager::new();
    assert!(manager.is_empty());
    manager.pin("feed1").unwrap();
    assert!(!manager.is_empty());
    manager.unpin("feed1").unwrap();
    assert!(manager.is_empty());
}

#[test]
fn test_reorder() {
    let mut manager = PinnedFeedsManager::new();
    manager.pin("feed1").unwrap();
    manager.pin("feed2").unwrap();
    manager.pin("feed3").unwrap();

    // Move first to last
    manager.reorder(0, 2).unwrap();
    assert_eq!(
        manager.list(),
        &["feed2".to_string(), "feed3".to_string(), "feed1".to_string()]
    );

    // Move last to first
    manager.reorder(2, 0).unwrap();
    assert_eq!(
        manager.list(),
        &["feed1".to_string(), "feed2".to_string(), "feed3".to_string()]
    );

    // Move middle up
    manager.reorder(1, 0).unwrap();
    assert_eq!(
        manager.list(),
        &["feed2".to_string(), "feed1".to_string(), "feed3".to_string()]
    );
}

#[test]
fn test_reorder_invalid_from_index() {
    let mut manager = PinnedFeedsManager::new();
    manager.pin("feed1").unwrap();
    let result = manager.reorder(5, 0);
    assert!(result.is_err());
    assert!(matches!(result, Err(PinnedFeedsError::InvalidIndex(5))));
}

#[test]
fn test_reorder_invalid_to_index() {
    let mut manager = PinnedFeedsManager::new();
    manager.pin("feed1").unwrap();
    let result = manager.reorder(0, 5);
    assert!(result.is_err());
    assert!(matches!(result, Err(PinnedFeedsError::InvalidIndex(5))));
}

#[test]
fn test_reorder_same_index() {
    let mut manager = PinnedFeedsManager::new();
    manager.pin("feed1").unwrap();
    manager.pin("feed2").unwrap();
    manager.reorder(1, 1).unwrap();
    assert_eq!(manager.list(), &["feed1".to_string(), "feed2".to_string()]);
}

#[test]
fn feeds_test_clear() {
    let mut manager = PinnedFeedsManager::new();
    manager.pin("feed1").unwrap();
    manager.pin("feed2").unwrap();
    assert_eq!(manager.count(), 2);
    manager.clear();
    assert_eq!(manager.count(), 0);
    assert!(manager.is_empty());
}

#[test]
fn test_export() {
    let mut manager = PinnedFeedsManager::new();
    manager.pin("feed1").unwrap();
    manager.pin("feed2").unwrap();
    let exported = manager.export();
    assert_eq!(exported, vec!["feed1".to_string(), "feed2".to_string()]);
}

#[test]
fn test_import() {
    let mut manager = PinnedFeedsManager::new();
    manager.import(vec!["feed1".to_string(), "feed2".to_string(), "feed3".to_string()]);
    assert_eq!(manager.count(), 3);
    assert!(manager.is_pinned("feed1"));
    assert!(manager.is_pinned("feed2"));
    assert!(manager.is_pinned("feed3"));
}

#[test]
fn test_import_replaces_existing() {
    let mut manager = PinnedFeedsManager::new();
    manager.pin("old1").unwrap();
    manager.pin("old2").unwrap();
    manager.import(vec!["new1".to_string(), "new2".to_string()]);
    assert_eq!(manager.count(), 2);
    assert!(!manager.is_pinned("old1"));
    assert!(!manager.is_pinned("old2"));
    assert!(manager.is_pinned("new1"));
    assert!(manager.is_pinned("new2"));
}

#[test]
fn test_toggle_pin() {
    let mut manager = PinnedFeedsManager::new();
    let pinned = manager.toggle("feed1").unwrap();
    assert!(pinned);
    assert!(manager.is_pinned("feed1"));
}

#[test]
fn test_toggle_unpin() {
    let mut manager = PinnedFeedsManager::new();
    manager.pin("feed1").unwrap();
    let pinned = manager.toggle("feed1").unwrap();
    assert!(!pinned);
    assert!(!manager.is_pinned("feed1"));
}

#[test]
fn test_toggle_multiple_times() {
    let mut manager = PinnedFeedsManager::new();
    assert!(manager.toggle("feed1").unwrap());
    assert!(!manager.toggle("feed1").unwrap());
    assert!(manager.toggle("feed1").unwrap());
}

#[test]
fn test_move_up() {
    let mut manager = PinnedFeedsManager::new();
    manager.pin("feed1").unwrap();
    manager.pin("feed2").unwrap();
    manager.pin("feed3").unwrap();

    manager.move_up("feed3").unwrap();
    assert_eq!(manager.position("feed3"), Some(1));
    assert_eq!(
        manager.list(),
        &["feed1".to_string(), "feed3".to_string(), "feed2".to_string()]
    );
}

#[test]
fn test_move_up_at_top() {
    let mut manager = PinnedFeedsManager::new();
    manager.pin("feed1").unwrap();
    manager.pin("feed2").unwrap();

    manager.move_up("feed1").unwrap();
    assert_eq!(manager.position("feed1"), Some(0));
    assert_eq!(manager.list(), &["feed1".to_string(), "feed2".to_string()]);
}

#[test]
fn test_move_up_not_pinned() {
    let mut manager = PinnedFeedsManager::new();
    let result = manager.move_up("feed1");
    assert!(result.is_err());
    assert!(matches!(result, Err(PinnedFeedsError::NotPinned(_))));
}

#[test]
fn test_move_down() {
    let mut manager = PinnedFeedsManager::new();
    manager.pin("feed1").unwrap();
    manager.pin("feed2").unwrap();
    manager.pin("feed3").unwrap();

    manager.move_down("feed1").unwrap();
    assert_eq!(manager.position("feed1"), Some(1));
    assert_eq!(
        manager.list(),
        &["feed2".to_string(), "feed1".to_string(), "feed3".to_string()]
    );
}

#[test]
fn test_move_down_at_bottom() {
    let mut manager = PinnedFeedsManager::new();
    manager.pin("feed1").unwrap();
    manager.pin("feed2").unwrap();

    manager.move_down("feed2").unwrap();
    assert_eq!(manager.position("feed2"), Some(1));
    assert_eq!(manager.list(), &["feed1".to_string(), "feed2".to_string()]);
}

#[test]
fn test_move_down_not_pinned() {
    let mut manager = PinnedFeedsManager::new();
    let result = manager.move_down("feed1");
    assert!(result.is_err());
    assert!(matches!(result, Err(PinnedFeedsError::NotPinned(_))));
}

#[test]
fn test_default_trait() {
    let manager = PinnedFeedsManager::default();
    assert_eq!(manager.count(), 0);
    assert!(manager.is_empty());
}

#[test]
fn test_pinned_feed_new() {
    let feed = PinnedFeed::new("at://did:plc:abc/app.bsky.feed.generator/tech", 0);
    assert_eq!(feed.uri, "at://did:plc:abc/app.bsky.feed.generator/tech");
    assert_eq!(feed.position, 0);
    assert!(feed.display_name.is_none());
    assert!(feed.feed_type.is_none());
    assert!(feed.pinned_at.is_none());
}

#[test]
fn test_pinned_feed_builder() {
    let feed = PinnedFeed::new("feed1", 0)
        .with_display_name("Tech Feed")
        .with_type(PinnedFeedType::Custom)
        .with_timestamp("2024-01-01T00:00:00Z");

    assert_eq!(feed.display_name, Some("Tech Feed".to_string()));
    assert_eq!(feed.feed_type, Some(PinnedFeedType::Custom));
    assert_eq!(feed.pinned_at, Some("2024-01-01T00:00:00Z".to_string()));
}

#[test]
fn test_complex_reordering_sequence() {
    let mut manager = PinnedFeedsManager::new();
    manager.pin("feed1").unwrap();
    manager.pin("feed2").unwrap();
    manager.pin("feed3").unwrap();
    manager.pin("feed4").unwrap();
    manager.pin("feed5").unwrap();

    // Move feed5 to top
    manager.reorder(4, 0).unwrap();
    assert_eq!(manager.position("feed5"), Some(0));

    // Move feed1 to position 2
    manager.reorder(1, 2).unwrap();
    assert_eq!(manager.position("feed1"), Some(2));

    // Verify final order
    assert_eq!(
        manager.list(),
        &[
            "feed5".to_string(),
            "feed2".to_string(),
            "feed1".to_string(),
            "feed3".to_string(),
            "feed4".to_string(),
        ]
    );
}

#[test]
fn test_pin_with_special_characters_in_uri() {
    let mut manager = PinnedFeedsManager::new();
    let uri = "at://did:plc:abc123xyz/app.bsky.feed.generator/tech-news";
    manager.pin(uri).unwrap();
    assert!(manager.is_pinned(uri));
}

#[test]
fn test_error_display() {
    let error = PinnedFeedsError::AlreadyPinned("feed1".to_string());
    assert_eq!(error.to_string(), "Feed is already pinned: feed1");

    let error = PinnedFeedsError::NotPinned("feed2".to_string());
    assert_eq!(error.to_string(), "Feed is not pinned: feed2");

    let error = PinnedFeedsError::InvalidIndex(5);
    assert_eq!(error.to_string(), "Invalid index: 5");

    let error = PinnedFeedsError::LimitReached(20);
    assert_eq!(error.to_string(), "Maximum pinned feeds limit reached (max: 20)");

    let error = PinnedFeedsError::InvalidUri("".to_string());
    assert_eq!(error.to_string(), "Invalid feed URI: ");
}

#[test]
fn test_custom_feed_is_bluesky_owned() {
    // Bluesky-owned feed
    assert!(is_bluesky_owned_feed(
        "at://did:plc:z72i7hdynmk6r22z27h6tvur/app.bsky.feed.generator/whats-hot"
    ));

    // Non-Bluesky feed
    assert!(!is_bluesky_owned_feed("at://did:plc:abc123/app.bsky.feed.generator/my-feed"));
}

#[test]
fn custom_feed_request_headers() {
    let owned = "at://did:plc:z72i7hdynmk6r22z27h6tvur/app.bsky.feed.generator/whats-hot";
    let other = "at://did:plc:abc123/app.bsky.feed.generator/my-feed";
    let prefs = FeedPreferences {
        content_languages: Some(vec!["en".to_string(), "de".to_string()]),
        interests: Some(vec!["tech".to_string()]),
    };
    assert_eq!(
        custom_feed_headers(&prefs, owned),
        vec![
            ("Accept-Language".to_string(), "en,de".to_string()),
            ("X-Bsky-Topics".to_string(), "tech".to_string()),
        ]
    );
    assert_eq!(custom_feed_headers(&prefs, other), vec![("Accept-Language".to_string(), "en,de".to_string())]);
    let interests_only = FeedPreferences::with_interests(vec!["art".to_string(), "music".to_string()]);
    assert_eq!(custom_feed_headers(&interests_only, owned), vec![("X-Bsky-Topics".to_string(), "art,music".to_string())]);
    assert!(custom_feed_headers(&FeedPreferences::default(), owned).is_empty());
}

#[test]
fn custom_feed_page_is_trimmed() {
    let page = FeedResponse {
        cursor: Some("next".to_string()),
        feed: vec![
            create_test_feed_post("at://p/1", "did:plc:a"),
            create_test_feed_post("at://p/2", "did:plc:a"),
            create_test_feed_post("at://p/3", "did:plc:a"),
        ],
    };
    let trimmed = trim_feed_page(page.clone(), 2);
    assert_eq!(trimmed.feed.len(), 2);
    assert_eq!(trimmed.feed[1].post.uri, "at://p/2");
    assert_eq!(trimmed.cursor, Some("next".to_string()));
    let whole = trim_feed_page(page.clone(), 10);
    assert_eq!(whole.feed.len(), 3);
    let none = trim_feed_page(page, 0);
    assert!(none.feed.is_empty());
    assert_eq!(none.cursor, None);
    let empty = trim_feed_page(FeedResponse { cursor: Some("c".to_string()), feed: vec![] }, 5);
    assert_eq!(empty.cursor, None);
}

#[test]
fn hashtag_posts_become_feed_posts() {
    let page = posts_as_feed(
        vec![create_test_post("at://p/1", "did:plc:a"), create_test_post("at://p/2", "did:plc:b")],
        Some("c2".to_string()),
    );
    assert_eq!(page.cursor, Some("c2".to_string()));
    assert_eq!(page.feed.len(), 2);
    assert_eq!(page.feed[0].post.uri, "at://p/1");
    assert_eq!(page.feed[1].post.author.did, "did:plc:b");
    assert!(page.feed.iter().all(|p| p.reply.is_none() && p.reason.is_none() && p.feed_context.is_none()));
}

fn followed(mut post: PostView) -> PostView {
    post.author.viewer = Some(app_core::profiles::ProfileViewerState {
        muted: None,
        muted_by_list: None,
        blocking: None,
        blocked_by: None,
        following: Some("at://did:plc:user/app.bsky.graph.follow/1".to_string()),
        followed_by: None,
    });
    post
}

fn reply_to(post: PostView, parent: PostView, root: PostView) -> FeedViewPost {
    FeedViewPost {
        post,
        reply: Some(ReplyRef {
            root: ReplyRefPost::PostView(Box::new(root)),
            parent: ReplyRefPost::PostView(Box::new(parent)),
            grandparent_author: None,
        }),
        reason: None,
        feed_context: None,
    }
}

#[test]
fn following_feed_keeps_replies_to_followed_or_own_posts() {
    let tuner = FeedTuner::new();
    let user = "did:plc:user";
    let friend = |n: u32| followed(create_test_post(&format!("at://did:plc:friend/app.bsky.feed.post/{}", n), "did:plc:friend"));
    let stranger = |n: u32| create_test_post(&format!("at://did:plc:stranger/app.bsky.feed.post/{}", n), "did:plc:stranger");
    // A followed author replying to their own post under a root by someone not followed.
    let own_parent = reply_to(friend(2), friend(1), stranger(1));
    // A followed author replying to someone not followed, under a root by someone not followed.
    let to_stranger = reply_to(friend(3), stranger(2), stranger(1));
    // A followed author replying to a stranger under a followed root.
    let followed_root = reply_to(friend(4), stranger(2), friend(1));
    // Someone not followed replying to a followed author.
    let from_stranger = reply_to(stranger(3), friend(1), friend(1));
    let kept = tuner.filter_followed_replies_only(vec![own_parent, to_stranger, followed_root, from_stranger], user);
    let uris: Vec<&str> = kept.iter().map(|p| p.post.uri.as_str()).collect();
    assert_eq!(uris, vec!["at://did:plc:friend/app.bsky.feed.post/2", "at://did:plc:friend/app.bsky.feed.post/4"]);
}
