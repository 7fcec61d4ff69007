use app_core::auth::{
    account_refusal, asks_for_second_factor, is_invalid_token, login_error, login_result, token_change_error, AuthError,
    LoginFailure,
};
use app_core::feeds::{HashtagFeedParams, PinnedFeedsError, PinnedFeedsManager};
use app_core::interactions::{check_subject, record_keys, InteractionError, SubjectRef};
use app_core::lists::list_deletion_batches;
use app_core::media::{
    check_input_size, check_source_dimensions, validate_dimensions, validate_size, MediaError,
    SupportedFormat, MAX_IMAGE_DIMENSION, MAX_IMAGE_SIZE,
};
use app_core::posts::{
    check_image_count, check_post_content, check_reply_text, delete_error, reply_context, PostError,
    ReplyError, ReplyRef,
};
use app_core::profiles::{check_actor, check_actor_count, check_follow_subject, ProfileError};
use app_core::search::{checked_query, SearchError};
use app_core::threads::{check_anchor, ThreadError};
use app_core::profiles::follow_record_keys;
use app_core::messages::{check_message_length, MessageError};
use app_core::search::{typeahead_query, user_search_query};
use app_core::threads::ThreadSortOrder;
use app_core::link_preview::truncate_text;
use app_core::link_preview::{LinkPreview, PreviewCache};
use app_core::media::{ImageOptions, ImageProcessor};
use app_core::search::score_from_lowered;

#[test]
fn subject_must_have_uri_and_cid() {
    let ok = SubjectRef { uri: "at://did:plc:a/app.bsky.feed.post/1".to_string(), cid: "bafy".to_string() };
    assert!(check_subject(&ok).is_ok());
    let no_uri = SubjectRef { uri: String::new(), cid: "bafy".to_string() };
    match check_subject(&no_uri) {
        Err(e @ InteractionError::InvalidUri(_)) => assert_eq!(e.to_string(), "Invalid URI: Subject URI cannot be empty"),
        _ => panic!("expected InvalidUri"),
    }
    let no_cid = SubjectRef { uri: "at://x".to_string(), cid: String::new() };
    match check_subject(&no_cid) {
        Err(e @ InteractionError::InvalidCid(_)) => assert_eq!(e.to_string(), "Invalid CID: Subject CID cannot be empty"),
        _ => panic!("expected InvalidCid"),
    }
}

#[test]
fn record_keys_of_like_and_repost_uris() {
    let (repo, rkey) = record_keys("at://did:plc:me/app.bsky.feed.like/3k2", true).unwrap();
    assert_eq!(repo, "did:plc:me");
    assert_eq!(rkey, "3k2");
    match record_keys("", false) {
        Err(InteractionError::InvalidUri(m)) => assert_eq!(m, "Repost URI cannot be empty"),
        _ => panic!("expected InvalidUri"),
    }
    match record_keys("at://did:plc:me/only", true) {
        Err(InteractionError::InvalidUri(m)) => assert_eq!(m, "Invalid like URI format: at://did:plc:me/only"),
        _ => panic!("expected InvalidUri"),
    }
}

#[test]
fn search_query_is_trimmed_or_refused() {
    assert_eq!(checked_query("  rust  ").unwrap(), "rust");
    match checked_query(" \t ") {
        Err(e @ SearchError::InvalidQuery(_)) => assert_eq!(e.to_string(), "Invalid query: Query cannot be empty"),
        _ => panic!("expected InvalidQuery"),
    }
}

#[test]
fn thread_anchor_must_not_be_empty() {
    assert!(check_anchor("at://x").is_ok());
    match check_anchor("") {
        Err(ThreadError::InvalidUri(m)) => assert_eq!(m, "Anchor URI cannot be empty"),
        _ => panic!("expected InvalidUri"),
    }
}

#[test]
fn hashtag_query_gets_one_hash() {
    assert_eq!(HashtagFeedParams::new("rust").search_query().unwrap(), "#rust");
    assert!(HashtagFeedParams::new("   ").search_query().is_err());
}

#[test]
fn image_size_and_dimension_limits() {
    assert!(check_input_size(2 * MAX_IMAGE_SIZE).is_ok());
    assert!(matches!(
        check_input_size(2 * MAX_IMAGE_SIZE + 1),
        Err(MediaError::FileTooLarge { size, max }) if size == 2 * MAX_IMAGE_SIZE + 1 && max == 2 * MAX_IMAGE_SIZE
    ));
    assert!(check_source_dimensions(4000, 4000).is_ok());
    assert!(matches!(
        check_source_dimensions(100, 4001),
        Err(MediaError::DimensionTooLarge { dimension: 4001, max: 4000 })
    ));
    assert!(matches!(
        validate_dimensions(MAX_IMAGE_DIMENSION + 1, MAX_IMAGE_DIMENSION + 5),
        Err(MediaError::DimensionTooLarge { dimension, .. }) if dimension == MAX_IMAGE_DIMENSION + 1
    ));
    assert!(validate_dimensions(MAX_IMAGE_DIMENSION, MAX_IMAGE_DIMENSION).is_ok());
    assert!(validate_size(MAX_IMAGE_SIZE).is_ok());
    assert!(validate_size(MAX_IMAGE_SIZE + 1).is_err());
    match SupportedFormat::from_mime_type("image/gif") {
        Err(e @ MediaError::InvalidMimeType(_)) => assert_eq!(e.to_string(), "Invalid MIME type: image/gif"),
        _ => panic!("expected InvalidMimeType"),
    }
    assert!(matches!(SupportedFormat::from_mime_type("image/jpg"), Ok(SupportedFormat::Jpeg)));
}

#[test]
fn pinned_feed_limits_and_messages() {
    let mut m = PinnedFeedsManager::with_max(1);
    assert!(matches!(m.pin("   "), Err(PinnedFeedsError::InvalidUri(_))));
    m.pin("at://a").unwrap();
    let e = m.pin("at://b").unwrap_err();
    assert!(matches!(e, PinnedFeedsError::LimitReached(1)));
    assert_eq!(e.to_string(), "Maximum pinned feeds limit reached (max: 1)");
    assert_eq!(PinnedFeedsError::InvalidIndex(7).to_string(), "Invalid index: 7");
}

#[test]
fn post_deletion_failures_are_classified() {
    let uri = "at://did:plc:me/app.bsky.feed.post/1";
    assert!(matches!(delete_error(uri, "RecordNotFound: gone"), PostError::NotFound(u) if u == uri));
    assert!(matches!(delete_error(uri, "record not found"), PostError::NotFound(_)));
    assert!(matches!(delete_error(uri, "you lack permission"), PostError::NotAuthorized));
    assert!(matches!(delete_error(uri, "NotAuthorized"), PostError::NotAuthorized));
    match delete_error(uri, "timeout") {
        e @ PostError::Xrpc(_) => assert_eq!(e.to_string(), "XRPC error: timeout"),
        _ => panic!("expected Xrpc"),
    }
}

#[test]
fn post_content_and_image_checks() {
    assert!(check_post_content("hello", false).is_ok());
    assert!(check_post_content("", true).is_ok());
    let e = check_post_content("", false).unwrap_err();
    assert!(matches!(e, PostError::EmptyPost));
    assert_eq!(e.to_string(), "Post cannot be empty (no text and no images)");
    let long = "é".repeat(301);
    match check_post_content(&long, true) {
        Err(e @ PostError::TextTooLong { actual: 301, max: 300 }) => {
            assert_eq!(e.to_string(), "Text exceeds maximum length of 300 characters (got 301)")
        }
        _ => panic!("expected TextTooLong"),
    }
    assert!(check_post_content(&"👍🏽".repeat(300), false).is_ok());
    assert!(check_image_count(4).is_ok());
    assert!(matches!(check_image_count(5), Err(PostError::TooManyImages { count: 5 })));
}

#[test]
fn reply_checks_and_context() {
    assert!(check_reply_text("ok").is_ok());
    match check_reply_text("") {
        Err(e @ ReplyError::InvalidUri(_)) => assert_eq!(e.to_string(), "Invalid URI: Reply text cannot be empty"),
        _ => panic!("expected InvalidUri"),
    }
    let top = ReplyRef::to_post("at://p/1", "c1");
    assert_eq!(reply_context(&top), "Replying to at://p/1");
    let deep = ReplyRef::in_thread("at://p/1", "c1", "at://p/2", "c2");
    assert_eq!(reply_context(&deep), "Replying to at://p/2 (in thread at://p/1)");
}

#[test]
fn profile_request_checks() {
    assert!(check_actor("alice.test").is_ok());
    match check_actor("") {
        Err(e @ ProfileError::InvalidActor(_)) => {
            assert_eq!(e.to_string(), "Invalid actor identifier: Actor cannot be empty")
        }
        _ => panic!("expected InvalidActor"),
    }
    assert!(check_actor_count(25).is_ok());
    assert!(matches!(check_actor_count(26), Err(ProfileError::InvalidActor(m)) if m == "Maximum 25 actors allowed per request"));
    assert!(matches!(check_follow_subject(""), Err(ProfileError::InvalidActor(m)) if m == "DID cannot be empty"));
}

#[test]
fn list_deletions_come_in_batches_of_ten() {
    let items: Vec<String> = (0..12).map(|i| format!("at://did:plc:me/app.bsky.graph.listitem/item{}", i)).collect();
    let batches = list_deletion_batches(&items, "at://did:plc:me/app.bsky.graph.list/mylist");
    assert_eq!(batches.len(), 2);
    assert_eq!(batches[0].len(), 10);
    assert_eq!(batches[1].len(), 3);
    assert_eq!(batches[0][0], ("app.bsky.graph.listitem".to_string(), "item0".to_string()));
    assert_eq!(batches[1][2], ("app.bsky.graph.list".to_string(), "mylist".to_string()));
    let only = list_deletion_batches(&[], "noslash");
    assert_eq!(only, vec![vec![("app.bsky.graph.list".to_string(), "noslash".to_string())]]);
}

#[test]
fn login_decisions() {
    assert_eq!(account_refusal(Some("suspended"), "did:plc:x"), Some(AuthError::AccountSuspended("did:plc:x".to_string())));
    assert_eq!(account_refusal(Some("deactivated"), "did:plc:x"), Some(AuthError::AccountDeactivated));
    assert_eq!(account_refusal(Some("takendown"), "did:plc:x"), None);
    assert_eq!(account_refusal(None, "did:plc:x"), None);
    let r = login_result("did:plc:x", "x.test", None, Some(true), None);
    assert!(r.email_confirmed);
    assert!(!r.two_factor_enabled);
    assert!(asks_for_second_factor("error: AuthFactorTokenRequired"));
    assert!(!asks_for_second_factor("AuthenticationRequired"));
    assert!(is_invalid_token("InvalidToken: expired"));
}

#[test]
fn login_failures() {
    assert_eq!(login_error(&LoginFailure::InvalidCredentials), AuthError::InvalidCredentials);
    let second = LoginFailure::Service {
        message: "AuthFactorTokenRequired: check your email".to_string(),
        text: "Agent error: AuthFactorTokenRequired: check your email".to_string(),
    };
    assert_eq!(login_error(&second), AuthError::TwoFactorRequired);
    let other = LoginFailure::Service { message: "RateLimitExceeded".to_string(), text: "rate limited".to_string() };
    assert_eq!(login_error(&other), AuthError::Session("rate limited".to_string()));
    assert_eq!(login_error(&LoginFailure::Other("disk full".to_string())), AuthError::Session("disk full".to_string()));
    assert_eq!(login_error(&LoginFailure::Other("x".to_string())).to_string(), "Session error: x");
    assert_eq!(token_change_error("InvalidToken: expired"), AuthError::Invalid2FAToken);
    assert_eq!(token_change_error("timeout"), AuthError::Network("timeout".to_string()));
}

#[test]
fn test_auth_error_display() {
    let err = AuthError::InvalidCredentials;
    assert_eq!(err.to_string(), "Invalid credentials");

    let err = AuthError::AccountNotFound("did:plc:test".to_string());
    assert_eq!(err.to_string(), "Account not found: did:plc:test");

    let err = AuthError::NoSession;
    assert_eq!(err.to_string(), "No active session");

    let err = AuthError::SessionExpired;
    assert_eq!(err.to_string(), "Session expired");

    let err = AuthError::TwoFactorRequired;
    assert_eq!(err.to_string(), "Two-factor authentication required");

    let err = AuthError::Invalid2FAToken;
    assert_eq!(err.to_string(), "Invalid two-factor authentication token");

    let err = AuthError::AccountSuspended("reason".to_string());
    assert_eq!(err.to_string(), "Account suspended: reason");

    let err = AuthError::AccountDeactivated;
    assert_eq!(err.to_string(), "Account deactivated");

    let err = AuthError::Network("connection failed".to_string());
    assert_eq!(err.to_string(), "Network error: connection failed");

    let err = AuthError::Config("missing key".to_string());
    assert_eq!(err.to_string(), "Configuration error: missing key");
}

#[test]
fn page_sizes_and_record_keys() {
    assert_eq!(app_core::bookmarks::page_limit(None), 25);
    assert_eq!(app_core::bookmarks::page_limit(Some(7)), 7);
    assert_eq!(app_core::lists::page_limit(Some(3)), 3);
    assert_eq!(app_core::lists::page_limit(None), app_core::lists::PAGE_SIZE);
    assert_eq!(app_core::lists::record_key("at://did:plc:me/app.bsky.graph.list/abc123"), "abc123");
    assert_eq!(app_core::lists::record_key("noslash"), "noslash");
    assert_eq!(app_core::lists::record_key("ends/"), "");
    assert_eq!(app_core::profiles::cap_limit(50), 50);
    assert_eq!(app_core::profiles::cap_limit(100), 100);
    assert_eq!(app_core::profiles::cap_limit(101), 100);
}

#[test]
fn follow_record_uris() {
    let (repo, rkey) = follow_record_keys("at://did:plc:me/app.bsky.graph.follow/3kxyz").unwrap();
    assert_eq!(repo, "did:plc:me");
    assert_eq!(rkey, "3kxyz");
    match follow_record_keys("") {
        Err(e) => assert_eq!(e.to_string(), "Invalid actor identifier: Follow URI cannot be empty"),
        Ok(_) => panic!("an empty follow URI is refused"),
    }
    assert!(follow_record_keys("at://did:plc:me").is_err());
}

#[test]
fn message_length_limit() {
    assert!(check_message_length(&"a".repeat(10_000)).is_ok());
    match check_message_length(&"a".repeat(10_001)) {
        Err(MessageError::MessageTooLong { length, max }) => {
            assert_eq!(length, 10_001);
            assert_eq!(max, 10_000);
        }
        _ => panic!("a message of 10001 bytes is refused"),
    }
}

#[test]
fn search_queries() {
    assert_eq!(typeahead_query("  Alice.Bsky.  "), "alice.bsky");
    assert_eq!(typeahead_query("foo..."), "foo");
    assert_eq!(typeahead_query("   "), "");
    assert_eq!(user_search_query("alice.bsky.social", "rust"), "from:alice.bsky.social rust");
}

#[test]
fn thread_sort_params() {
    assert_eq!(ThreadSortOrder::Oldest.as_param(), "oldest");
    assert_eq!(ThreadSortOrder::Newest.as_param(), "newest");
    assert_eq!(ThreadSortOrder::MostLikes.as_param(), "most-likes");
    assert_eq!(ThreadSortOrder::Random.as_param(), "random");
}

#[test]
fn description_truncation() {
    assert_eq!(truncate_text("short", 10), "short");
    assert_eq!(truncate_text("exactly10!", 10), "exactly10!");
    assert_eq!(truncate_text("a longer description", 8), "a longer...");
}

#[test]
fn preview_cache_keeps_fresh_entries() {
    let mut cache = PreviewCache::with_ttl(std::time::Duration::from_secs(3600));
    cache.insert("https://example.com", LinkPreview::new("https://example.com"));
    cache.insert("https://example.org", LinkPreview::new("https://example.org"));
    cache.cleanup_expired();
    assert_eq!(cache.len(), 2);
    assert_eq!(cache.get("https://example.org").map(|p| p.url.clone()), Some("https://example.org".to_string()));
}

#[test]
fn image_processor_resize_decision() {
    let opts = ImageOptions { max_width: Some(100), max_height: Some(50), ..ImageOptions::default() };
    let p = ImageProcessor::with_options(opts);
    assert_eq!(p.options.max_width, Some(100));
    assert!(p.needs_resize(101, 10));
    assert!(p.needs_resize(10, 51));
    assert!(!p.needs_resize(100, 50));
    let unbounded = ImageOptions { max_width: None, ..ImageOptions::default() };
    assert!(!ImageProcessor::with_options(unbounded).needs_resize(100_000, 100_000));
}

#[test]
fn lowered_scores() {
    assert_eq!(score_from_lowered("alice", Some("alice"), "alice"), 1800);
    assert_eq!(score_from_lowered("bob", None, "alice"), 0);
}

#[test]
fn cached_previews_are_fresh_until_their_time_to_live() {
    let entry = app_core::link_preview::CachedPreview::new(LinkPreview::new("https://example.com"));
    assert_eq!(entry.fresh(10, 10).map(|p| p.url.clone()), Some("https://example.com".to_string()));
    assert!(entry.fresh(11, 10).is_none());
    let mut cache = PreviewCache::new();
    assert!(cache.get("https://example.com").is_none());
}
