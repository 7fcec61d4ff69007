use app_core::interactions::{create_quote_embed, InteractionCounts, SubjectRef};

#[test]
fn test_subject_ref() {
    let subject = SubjectRef {
        uri: "at://did:plc:test/app.bsky.feed.post/123".to_string(),
        cid: "bafytest123".to_string(),
    };

    assert_eq!(subject.uri, "at://did:plc:test/app.bsky.feed.post/123");
    assert_eq!(subject.cid, "bafytest123");
}

#[test]
fn test_interaction_counts_default() {
    let counts = InteractionCounts::default();
    assert_eq!(counts.like_count, 0);
    assert_eq!(counts.repost_count, 0);
    assert_eq!(counts.reply_count, 0);
    assert_eq!(counts.quote_count, 0);
}

#[test]
fn test_interaction_counts_increment() {
    let counts = InteractionCounts::new()
        .increment_likes()
        .increment_reposts()
        .increment_replies()
        .increment_quotes();

    assert_eq!(counts.like_count, 1);
    assert_eq!(counts.repost_count, 1);
    assert_eq!(counts.reply_count, 1);
    assert_eq!(counts.quote_count, 1);
}

#[test]
fn test_interaction_counts_decrement() {
    let counts = InteractionCounts {
        like_count: 5,
        repost_count: 3,
        reply_count: 2,
        quote_count: 1,
    };

    let updated = counts.decrement_likes().decrement_reposts();

    assert_eq!(updated.like_count, 4);
    assert_eq!(updated.repost_count, 2);
}

#[test]
fn test_interaction_counts_saturation() {
    let counts = InteractionCounts {
        like_count: 0,
        repost_count: u32::MAX,
        reply_count: 0,
        quote_count: 0,
    };

    // Test underflow protection
    let decremented = counts.decrement_likes();
    assert_eq!(decremented.like_count, 0);

    // Test overflow protection
    let incremented = counts.increment_reposts();
    assert_eq!(incremented.repost_count, u32::MAX);
}

#[test]
fn test_create_quote_embed() {
    let subject = SubjectRef {
        uri: "at://did:plc:test/app.bsky.feed.post/123".to_string(),
        cid: "bafytest123".to_string(),
    };

    let quote_embed = create_quote_embed(&subject);

    assert_eq!(quote_embed.embed_type, "app.bsky.embed.record");
    assert_eq!(quote_embed.record.uri, subject.uri);
    assert_eq!(quote_embed.record.cid, subject.cid);
}
