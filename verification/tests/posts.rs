use app_core::posts::{
    chars_remaining, validate_text_length, AspectRatio, FacetFeature, PostError, ReplyRef, RichText,
    StrongRef, MAX_IMAGES_PER_POST, MAX_POST_LENGTH,
};
use app_core::posts::{delete_target, reply_context};

#[test]
fn test_rich_text_basic() {
    let rt = RichText::new("Hello world");
    assert_eq!(rt.text(), "Hello world");
    assert!(rt.facets().is_none());
}

#[test]
fn test_detect_links_https() {
    let mut rt = RichText::new("Check out https://example.com for more info");
    rt.detect_facets();

    let facets = rt.facets().unwrap();
    assert_eq!(facets.len(), 1);

    assert_eq!(facets[0].index.byte_start, 10);
    assert_eq!(facets[0].index.byte_end, 29);

    match &facets[0].features[0] {
        FacetFeature::Link(link) => {
            assert_eq!(link.uri, "https://example.com");
        }
        _ => panic!("Expected link feature"),
    }
}

#[test]
fn test_detect_links_bare_domain() {
    let mut rt = RichText::new("Visit example.com today");
    rt.detect_facets();

    let facets = rt.facets().unwrap();
    assert_eq!(facets.len(), 1);

    match &facets[0].features[0] {
        FacetFeature::Link(link) => {
            assert_eq!(link.uri, "https://example.com");
        }
        _ => panic!("Expected link feature"),
    }
}

#[test]
fn test_detect_mentions() {
    let mut rt = RichText::new("Hey @alice.bsky.social how are you?");
    rt.detect_facets();

    let facets = rt.facets().unwrap();
    let mention_facet = facets
        .iter()
        .find(|f| matches!(f.features[0], FacetFeature::Mention(_)))
        .unwrap();

    assert_eq!(
        rt.substring(mention_facet.index.byte_start, mention_facet.index.byte_end)
            .unwrap(),
        "@alice.bsky.social"
    );
}

#[test]
fn test_detect_hashtags() {
    let mut rt = RichText::new("This is #awesome and #cool");
    rt.detect_facets();

    let facets = rt.facets().unwrap();
    let tag_facets: Vec<_> = facets
        .iter()
        .filter(|f| matches!(f.features[0], FacetFeature::Tag(_)))
        .collect();

    assert_eq!(tag_facets.len(), 2);

    match &tag_facets[0].features[0] {
        FacetFeature::Tag(tag) => {
            assert_eq!(tag.tag, "awesome");
        }
        _ => panic!("Expected tag feature"),
    }

    match &tag_facets[1].features[0] {
        FacetFeature::Tag(tag) => {
            assert_eq!(tag.tag, "cool");
        }
        _ => panic!("Expected tag feature"),
    }
}

#[test]
fn test_mixed_facets() {
    let mut rt =
        RichText::new("Hey @alice check https://example.com for #news about the #update!");
    rt.detect_facets();

    let facets = rt.facets().unwrap();
    assert!(facets.len() >= 4); // mention, link, 2 tags

    // Verify facets are sorted by position
    for i in 1..facets.len() {
        assert!(facets[i].index.byte_start >= facets[i - 1].index.byte_start);
    }
}

#[test]
fn test_link_with_trailing_punctuation() {
    let mut rt = RichText::new("Visit https://example.com. It's great!");
    rt.detect_facets();

    let facets = rt.facets().unwrap();
    let link_facet = facets
        .iter()
        .find(|f| matches!(f.features[0], FacetFeature::Link(_)))
        .unwrap();

    match &link_facet.features[0] {
        FacetFeature::Link(link) => {
            assert_eq!(link.uri, "https://example.com");
            // Should not include the trailing period
        }
        _ => panic!("Expected link feature"),
    }
}

#[test]
fn test_strong_ref() {
    let strong_ref = StrongRef {
        uri: "at://did:plc:test/app.bsky.feed.post/123".to_string(),
        cid: "bafytest123".to_string(),
    };

    assert_eq!(strong_ref.uri, "at://did:plc:test/app.bsky.feed.post/123");
    assert_eq!(strong_ref.cid, "bafytest123");
}

#[test]
fn test_reply_ref_to_post() {
    let reply_ref =
        ReplyRef::to_post("at://did:plc:test/app.bsky.feed.post/123", "bafytest123");

    assert!(reply_ref.is_top_level_reply());
    assert_eq!(reply_ref.root.uri, reply_ref.parent.uri);
    assert_eq!(reply_ref.root.cid, reply_ref.parent.cid);
    assert_eq!(reply_ref.root_uri(), "at://did:plc:test/app.bsky.feed.post/123");
    assert_eq!(reply_ref.parent_uri(), "at://did:plc:test/app.bsky.feed.post/123");
}

#[test]
fn test_reply_ref_in_thread() {
    let reply_ref = ReplyRef::in_thread(
        "at://did:plc:test/app.bsky.feed.post/root",
        "bafyroot",
        "at://did:plc:test/app.bsky.feed.post/parent",
        "bafyparent",
    );

    assert!(!reply_ref.is_top_level_reply());
    assert_eq!(reply_ref.root.uri, "at://did:plc:test/app.bsky.feed.post/root");
    assert_eq!(reply_ref.root.cid, "bafyroot");
    assert_eq!(reply_ref.parent.uri, "at://did:plc:test/app.bsky.feed.post/parent");
    assert_eq!(reply_ref.parent.cid, "bafyparent");
    assert_eq!(reply_ref.root_uri(), "at://did:plc:test/app.bsky.feed.post/root");
    assert_eq!(reply_ref.parent_uri(), "at://did:plc:test/app.bsky.feed.post/parent");
}

#[test]
fn test_aspect_ratio() {
    let ratio = AspectRatio { width: 1920, height: 1080 };
    assert_eq!(ratio.width, 1920);
    assert_eq!(ratio.height, 1080);
}

#[test]
fn test_post_composer_validate_text_length() {
    let short_text = "Hello world";
    let (count, valid) = validate_text_length(short_text);
    assert_eq!(count, 11);
    assert!(valid);

    // Test with exactly 300 characters
    let max_text = "a".repeat(300);
    let (count, valid) = validate_text_length(&max_text);
    assert_eq!(count, 300);
    assert!(valid);

    // Test with > 300 characters
    let too_long_text = "a".repeat(301);
    let (count, valid) = validate_text_length(&too_long_text);
    assert_eq!(count, 301);
    assert!(!valid);
}

#[test]
fn test_post_composer_validate_text_length_unicode() {
    // Test with emojis (each emoji counts as 1 grapheme)
    let emoji_text = "Hello 👋 World 🌍";
    let (count, valid) = validate_text_length(emoji_text);
    assert_eq!(count, 15); // H e l l o space 👋 space W o r l d space 🌍
    assert!(valid);
}

#[test]
fn test_post_composer_chars_remaining() {
    let text = "Hello world";
    let remaining = chars_remaining(text);
    assert_eq!(remaining, 289); // 300 - 11

    let max_text = "a".repeat(300);
    let remaining = chars_remaining(&max_text);
    assert_eq!(remaining, 0);

    let too_long = "a".repeat(301);
    let remaining = chars_remaining(&too_long);
    assert_eq!(remaining, -1);
}

#[test]
fn test_post_error_display() {
    let err = PostError::TextTooLong { actual: 350, max: 300 };
    let msg = err.to_string();
    assert!(msg.contains("350"));
    assert!(msg.contains("300"));

    let err = PostError::TooManyImages { count: 5 };
    let msg = err.to_string();
    assert!(msg.contains("5"));
    assert!(msg.contains("4"));

    let err = PostError::EmptyPost;
    let msg = err.to_string();
    assert!(msg.contains("empty"));
}

#[test]
fn test_max_post_length_constant() {
    assert_eq!(MAX_POST_LENGTH, 300);
}

#[test]
fn test_max_images_per_post_constant() {
    assert_eq!(MAX_IMAGES_PER_POST, 4);
}

#[test]
fn test_delete_post_error_display() {
    // Test error message formatting for delete-related errors
    let err = PostError::NotFound("at://did:plc:test/app.bsky.feed.post/123".to_string());
    assert_eq!(err.to_string(), "Post not found: at://did:plc:test/app.bsky.feed.post/123");

    let err = PostError::NotAuthorized;
    assert_eq!(err.to_string(), "Not authorized to delete this post");

    let err = PostError::InvalidUri("bad-uri".to_string());
    assert_eq!(err.to_string(), "Invalid post URI: bad-uri");
}

#[test]
fn test_post_error_types() {
    // Test that error types can be matched
    let err = PostError::NotFound("test".to_string());
    assert!(matches!(err, PostError::NotFound(_)));

    let err = PostError::NotAuthorized;
    assert!(matches!(err, PostError::NotAuthorized));

    let err = PostError::InvalidUri("test".to_string());
    assert!(matches!(err, PostError::InvalidUri(_)));
}

#[test]
fn test_reply_composer_context() {
    // Top-level reply
    let reply_ref = ReplyRef::to_post("at://did:plc:test/app.bsky.feed.post/123", "bafytest123");
    let context = reply_context(&reply_ref);
    assert!(context.contains("Replying to"));
    assert!(context.contains("at://did:plc:test/app.bsky.feed.post/123"));

    // Thread reply
    let thread_reply_ref = ReplyRef::in_thread(
        "at://did:plc:test/app.bsky.feed.post/root",
        "bafyroot",
        "at://did:plc:test/app.bsky.feed.post/parent",
        "bafyparent",
    );
    let thread_context = reply_context(&thread_reply_ref);
    assert!(thread_context.contains("Replying to"));
    assert!(thread_context.contains("in thread"));
    assert!(thread_context.contains("parent"));
    assert!(thread_context.contains("root"));
}

#[test]
fn test_delete_post_invalid_uri_missing_prefix() {
    // Missing at:// prefix
    let result = delete_target("did:plc:abc123/app.bsky.feed.post/xyz789");
    assert!(result.is_err());
    assert!(matches!(result.unwrap_err(), PostError::InvalidUri(_)));
}

#[test]
fn test_delete_post_invalid_uri_wrong_format() {
    // Too few parts
    let result = delete_target("at://did:plc:abc123/app.bsky.feed.post");
    assert!(result.is_err());
    assert!(matches!(result.unwrap_err(), PostError::InvalidUri(_)));

    // Too many parts
    let result = delete_target("at://did:plc:abc123/app.bsky.feed.post/xyz789/extra");
    assert!(result.is_err());
    assert!(matches!(result.unwrap_err(), PostError::InvalidUri(_)));
}

#[test]
fn test_delete_post_invalid_collection() {
    let result = delete_target("at://did:plc:abc123/app.bsky.feed.like/xyz789");
    assert!(result.is_err());
    match result.unwrap_err() {
        PostError::InvalidUri(msg) => {
            assert!(msg.contains("app.bsky.feed.post"));
            assert!(msg.contains("app.bsky.feed.like"));
        }
        _ => panic!("Expected InvalidUri error"),
    }
}

#[test]
fn test_delete_post_valid_uri_format() {
    // A valid URI passes the validation that comes before the request
    let result = delete_target("at://did:plc:abc123/app.bsky.feed.post/xyz789");
    assert!(!matches!(result, Err(PostError::InvalidUri(_))));
}

#[test]
fn test_delete_post_uri_parsing() {
    let uri = "at://did:plc:abc123xyz/app.bsky.feed.post/3k2k3k4k5k6k7k8k";
    let result = delete_target(uri);
    assert!(!matches!(result, Err(PostError::InvalidUri(_))));
    let (repo, collection, rkey) = result.unwrap();
    assert_eq!(repo, "did:plc:abc123xyz");
    assert_eq!(collection, "app.bsky.feed.post");
    assert_eq!(rkey, "3k2k3k4k5k6k7k8k");
}

#[test]
fn test_delete_post_empty_components() {
    let result = delete_target("at:////");
    assert!(result.is_err());
    assert!(matches!(result.unwrap_err(), PostError::InvalidUri(_)));
}

#[test]
fn delete_refusal_messages() {
    match delete_target("did:plc:abc/app.bsky.feed.post/x") {
        Err(PostError::InvalidUri(m)) => assert_eq!(m, "URI must start with 'at://': did:plc:abc/app.bsky.feed.post/x"),
        _ => panic!("Expected InvalidUri error"),
    }
    match delete_target("at://a/b") {
        Err(PostError::InvalidUri(m)) => {
            assert_eq!(m, "Invalid AT-URI format, expected 'at://repo/collection/rkey': at://a/b")
        }
        _ => panic!("Expected InvalidUri error"),
    }
    match delete_target("at://a/app.bsky.feed.like/x") {
        Err(PostError::InvalidUri(m)) => {
            assert_eq!(m, "URI must be for app.bsky.feed.post collection, got: app.bsky.feed.like")
        }
        _ => panic!("Expected InvalidUri error"),
    }
}

#[test]
fn link_range_covers_the_link_as_written() {
    let mut rt = RichText::new("Visit https://example.com. It's great!");
    rt.detect_facets();
    let facets = rt.facets().unwrap();
    assert_eq!(facets[0].index.byte_start, 6);
    assert_eq!(facets[0].index.byte_end, 25);
    assert_eq!(&rt.text()[6..25], "https://example.com");
}
