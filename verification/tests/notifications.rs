use app_core::notifications::{
    group_notifications, CachedNotificationPage, NotificationRecord, FeedNotification, Notification, NotificationFilter, NotificationPage,
    NotificationType,
};
use app_core::profiles::ProfileViewBasic;

fn make_notification(
    uri: &str,
    reason: &str,
    author_did: &str,
    indexed_at: &str,
    reason_subject: Option<&str>,
) -> Notification {
    Notification {
        uri: uri.to_string(),
        cid: "bafyreib".to_string(),
        author: ProfileViewBasic {
            did: author_did.to_string(),
            handle: format!("{}.bsky.social", author_did.split(':').last().unwrap_or("user")),
            display_name: None,
            avatar: None,
            associated: None,
            viewer: None,
            labels: None,
            created_at: None,
        },
        reason: reason.to_string(),
        reason_subject: reason_subject.map(String::from),
        record: NotificationRecord { subject_uri: None, value: serde_json::from_str("{}").unwrap() },
        is_read: false,
        indexed_at: indexed_at.to_string(),
        labels: None,
    }
}

#[test]
fn test_notification_type_from_reason() {
    assert_eq!(
        NotificationType::from_reason("like", None),
        NotificationType::PostLike
    );
    assert_eq!(
        NotificationType::from_reason("like", Some("at://did:plc:abc/app.bsky.feed.generator/xyz")),
        NotificationType::FeedgenLike
    );
    assert_eq!(
        NotificationType::from_reason("repost", None),
        NotificationType::Repost
    );
    assert_eq!(
        NotificationType::from_reason("mention", None),
        NotificationType::Mention
    );
    assert_eq!(
        NotificationType::from_reason("reply", None),
        NotificationType::Reply
    );
    assert_eq!(
        NotificationType::from_reason("quote", None),
        NotificationType::Quote
    );
    assert_eq!(
        NotificationType::from_reason("follow", None),
        NotificationType::Follow
    );
    assert_eq!(
        NotificationType::from_reason("starterpack-joined", None),
        NotificationType::StarterpackJoined
    );
    assert_eq!(
        NotificationType::from_reason("unknown-reason", None),
        NotificationType::Unknown
    );
}

#[test]
fn test_notification_type_is_groupable() {
    assert!(NotificationType::PostLike.is_groupable());
    assert!(NotificationType::Repost.is_groupable());
    assert!(NotificationType::Follow.is_groupable());
    assert!(!NotificationType::Reply.is_groupable());
    assert!(!NotificationType::Mention.is_groupable());
    assert!(!NotificationType::Quote.is_groupable());
}

#[test]
fn test_group_notifications_single() {
    let notifications = vec![make_notification(
        "at://did:plc:abc/app.bsky.feed.like/123",
        "like",
        "did:plc:user1",
        "2024-01-15T10:00:00Z",
        Some("at://did:plc:abc/app.bsky.feed.post/456"),
    )];

    let grouped = group_notifications(notifications);
    assert_eq!(grouped.len(), 1);
    assert!(grouped[0].additional.is_none());
}

#[test]
fn test_group_notifications_multiple_likes() {
    let notifications = vec![
        make_notification(
            "at://did:plc:abc/app.bsky.feed.like/123",
            "like",
            "did:plc:user1",
            "2024-01-15T10:00:00Z",
            Some("at://did:plc:abc/app.bsky.feed.post/456"),
        ),
        make_notification(
            "at://did:plc:abc/app.bsky.feed.like/124",
            "like",
            "did:plc:user2",
            "2024-01-15T10:05:00Z",
            Some("at://did:plc:abc/app.bsky.feed.post/456"),
        ),
        make_notification(
            "at://did:plc:abc/app.bsky.feed.like/125",
            "like",
            "did:plc:user3",
            "2024-01-15T10:10:00Z",
            Some("at://did:plc:abc/app.bsky.feed.post/456"),
        ),
    ];

    let grouped = group_notifications(notifications);
    assert_eq!(grouped.len(), 1);
    assert_eq!(grouped[0].count(), 3);
}

#[test]
fn test_group_notifications_different_subjects() {
    let notifications = vec![
        make_notification(
            "at://did:plc:abc/app.bsky.feed.like/123",
            "like",
            "did:plc:user1",
            "2024-01-15T10:00:00Z",
            Some("at://did:plc:abc/app.bsky.feed.post/456"),
        ),
        make_notification(
            "at://did:plc:abc/app.bsky.feed.like/124",
            "like",
            "did:plc:user2",
            "2024-01-15T10:05:00Z",
            Some("at://did:plc:abc/app.bsky.feed.post/789"), // Different post
        ),
    ];

    let grouped = group_notifications(notifications);
    assert_eq!(grouped.len(), 2); // Not grouped because different subjects
}

#[test]
fn test_group_notifications_mixed_types() {
    let notifications = vec![
        make_notification(
            "at://did:plc:abc/app.bsky.feed.like/123",
            "like",
            "did:plc:user1",
            "2024-01-15T10:00:00Z",
            Some("at://did:plc:abc/app.bsky.feed.post/456"),
        ),
        make_notification(
            "at://did:plc:abc/app.bsky.feed.post/789",
            "reply",
            "did:plc:user2",
            "2024-01-15T10:05:00Z",
            None,
        ),
        make_notification(
            "at://did:plc:abc/app.bsky.graph.follow/111",
            "follow",
            "did:plc:user3",
            "2024-01-15T10:10:00Z",
            None,
        ),
    ];

    let grouped = group_notifications(notifications);
    assert_eq!(grouped.len(), 3); // All different types, not grouped
}

#[test]
fn test_group_notifications_same_author_not_grouped() {
    let notifications = vec![
        make_notification(
            "at://did:plc:abc/app.bsky.feed.like/123",
            "like",
            "did:plc:user1",
            "2024-01-15T10:00:00Z",
            Some("at://did:plc:abc/app.bsky.feed.post/456"),
        ),
        make_notification(
            "at://did:plc:abc/app.bsky.feed.like/124",
            "like",
            "did:plc:user1", // Same author
            "2024-01-15T10:05:00Z",
            Some("at://did:plc:abc/app.bsky.feed.post/456"),
        ),
    ];

    let grouped = group_notifications(notifications);
    assert_eq!(grouped.len(), 2); // Not grouped because same author
}

#[test]
fn test_group_notifications_outside_time_window() {
    let notifications = vec![
        make_notification(
            "at://did:plc:abc/app.bsky.feed.like/123",
            "like",
            "did:plc:user1",
            "2024-01-15T10:00:00Z",
            Some("at://did:plc:abc/app.bsky.feed.post/456"),
        ),
        make_notification(
            "at://did:plc:abc/app.bsky.feed.like/124",
            "like",
            "did:plc:user2",
            "2024-01-20T10:00:00Z", // 5 days later, outside 48hr window
            Some("at://did:plc:abc/app.bsky.feed.post/456"),
        ),
    ];

    let grouped = group_notifications(notifications);
    assert_eq!(grouped.len(), 2); // Not grouped because outside time window
}

#[test]
fn test_notification_subject_uri() {
    let reply = make_notification(
        "at://did:plc:abc/app.bsky.feed.post/123",
        "reply",
        "did:plc:user1",
        "2024-01-15T10:00:00Z",
        None,
    );
    assert_eq!(
        reply.subject_uri(),
        Some("at://did:plc:abc/app.bsky.feed.post/123".to_string())
    );

    let mut like = make_notification(
        "at://did:plc:abc/app.bsky.feed.like/123",
        "like",
        "did:plc:user1",
        "2024-01-15T10:00:00Z",
        Some("at://did:plc:abc/app.bsky.feed.post/456"),
    );
    like.record = NotificationRecord {
        subject_uri: Some("at://did:plc:abc/app.bsky.feed.post/456".to_string()),
        value: serde_json::from_str(
            r#"{"subject": {"uri": "at://did:plc:abc/app.bsky.feed.post/456", "cid": "bafyreib"}}"#,
        )
        .unwrap(),
    };
    assert_eq!(
        like.subject_uri(),
        Some("at://did:plc:abc/app.bsky.feed.post/456".to_string())
    );
}

#[test]
fn test_notification_filter_reasons() {
    assert!(NotificationFilter::All.reasons().is_none());

    let mention_reasons = NotificationFilter::Mentions.reasons().unwrap();
    assert!(mention_reasons.contains(&"mention".to_string()));
    assert!(mention_reasons.contains(&"reply".to_string()));
    assert!(mention_reasons.contains(&"quote".to_string()));
    assert!(!mention_reasons.contains(&"like".to_string()));
}

#[test]
fn test_feed_notification_count() {
    let notif = make_notification(
        "at://did:plc:abc/app.bsky.feed.like/123",
        "like",
        "did:plc:user1",
        "2024-01-15T10:00:00Z",
        Some("at://did:plc:abc/app.bsky.feed.post/456"),
    );

    let mut feed_notif = FeedNotification::new(notif);
    assert_eq!(feed_notif.count(), 1);

    feed_notif.additional = Some(vec![
        make_notification(
            "at://did:plc:abc/app.bsky.feed.like/124",
            "like",
            "did:plc:user2",
            "2024-01-15T10:05:00Z",
            Some("at://did:plc:abc/app.bsky.feed.post/456"),
        ),
        make_notification(
            "at://did:plc:abc/app.bsky.feed.like/125",
            "like",
            "did:plc:user3",
            "2024-01-15T10:10:00Z",
            Some("at://did:plc:abc/app.bsky.feed.post/456"),
        ),
    ]);
    assert_eq!(feed_notif.count(), 3);
}

#[test]
fn test_feed_notification_authors() {
    let notif = make_notification(
        "at://did:plc:abc/app.bsky.feed.like/123",
        "like",
        "did:plc:user1",
        "2024-01-15T10:00:00Z",
        Some("at://did:plc:abc/app.bsky.feed.post/456"),
    );

    let mut feed_notif = FeedNotification::new(notif);
    feed_notif.additional = Some(vec![make_notification(
        "at://did:plc:abc/app.bsky.feed.like/124",
        "like",
        "did:plc:user2",
        "2024-01-15T10:05:00Z",
        Some("at://did:plc:abc/app.bsky.feed.post/456"),
    )]);

    let authors = feed_notif.authors();
    assert_eq!(authors.len(), 2);
    assert_eq!(authors[0].did, "did:plc:user1");
    assert_eq!(authors[1].did, "did:plc:user2");
}

#[test]
fn test_notification_type_to_reason() {
    assert_eq!(NotificationType::PostLike.to_reason(), "like");
    assert_eq!(NotificationType::FeedgenLike.to_reason(), "like");
    assert_eq!(NotificationType::Repost.to_reason(), "repost");
    assert_eq!(NotificationType::Reply.to_reason(), "reply");
    assert_eq!(NotificationType::Mention.to_reason(), "mention");
    assert_eq!(NotificationType::Quote.to_reason(), "quote");
    assert_eq!(NotificationType::Follow.to_reason(), "follow");
    assert_eq!(NotificationType::StarterpackJoined.to_reason(), "starterpack-joined");
}

#[test]
fn test_notification_page_empty() {
    let page = NotificationPage::empty();
    assert!(page.cursor.is_none());
    assert!(page.items.is_empty());
    assert!(!page.priority);
}

#[test]
fn test_cached_notification_page_default() {
    let cache = CachedNotificationPage::default();
    assert!(!cache.usable_in_feed);
    assert!(cache.data.is_none());
    assert_eq!(cache.unread_count, 0);
}

#[test]
fn notification_kinds() {
    let like = make_notification("at://n/1", "like", "did:plc:a", "2024-01-01T00:00:00Z", Some("at://did:plc:me/app.bsky.feed.post/1"));
    assert_eq!(like.notification_type(), NotificationType::PostLike);
    let feed_like = make_notification("at://n/2", "like", "did:plc:a", "2024-01-01T00:00:00Z", Some("at://did:plc:me/app.bsky.feed.generator/f"));
    assert_eq!(feed_like.notification_type(), NotificationType::FeedgenLike);
    let follow = make_notification("at://n/3", "follow", "did:plc:a", "2024-01-01T00:00:00Z", None);
    assert_eq!(follow.notification_type(), NotificationType::Follow);
}
