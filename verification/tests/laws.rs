use app_core::time::timestamp_at_offset;
use app_core::embeds::{EmbedDetector, SpotifyEmbed, SpotifyEmbedType, YouTubeEmbed};
use app_core::lists::{list_record_changes, RecordValue, UpdateListParams};
use app_core::notifications::NotificationType;
use app_core::time::outlived;
use app_core::bookmarks::{
    search_step, Bookmark, BookmarkCache, BookmarkSubject, GetBookmarksResponse, SearchStep,
};
use app_core::editor::RichTextEditor;
use app_core::feeds::{PinnedFeedsError, PinnedFeedsManager};
use app_core::interactions::InteractionCounts;
use app_core::lists::ListPurpose;
use app_core::media::{quality_step, MediaError, QualityStep, MAX_IMAGE_SIZE};
use app_core::messages::{
    check_connection_mode, events_from_conversations, relative_time_at, relative_time_text,
    ConnectionMode, Conversation, ConversationSortBy, InboxView, InboxViewExt, Message,
    MessageError, MessageEvent, MessageEventType, MessageRequest, MessageRequestFilter,
    MessageRequestQueue, MessageRequestStatus, MessageSender,
};
use app_core::notifications::{
    count_unread, group_notifications, notification_page, subject_choices, subject_requests,
    FeedNotification, Notification, NotificationPage, NotificationRecord, SubjectChoice,
};
use app_core::profiles::ProfileViewBasic;
use app_core::search::{pager_step, PagerStep, SearchRanking};
use app_core::threads::{order_replies, PostRecord, PostView, ThreadItem, ThreadItemPost, ThreadSortOrder};
use app_core::time::{is_later, Timestamp};

fn profile(did: &str, handle: &str, name: Option<&str>) -> ProfileViewBasic {
    ProfileViewBasic {
        did: did.to_string(),
        handle: handle.to_string(),
        display_name: name.map(|n| n.to_string()),
        avatar: None,
        associated: None,
        viewer: None,
        labels: None,
        created_at: None,
    }
}

fn sender(did: &str, handle: &str, name: Option<&str>) -> MessageSender {
    MessageSender {
        did: did.to_string(),
        handle: handle.to_string(),
        display_name: name.map(|n| n.to_string()),
        avatar: None,
    }
}

fn at(secs: i64) -> Timestamp {
    Timestamp { secs, nanos: 0 }
}

fn conversation(id: &str, name: Option<&str>, unread: u32, secs: i64) -> Conversation {
    Conversation {
        id: id.to_string(),
        members: vec![sender(&format!("did:plc:{}", id), &format!("{}.test", id), name)],
        last_message: None,
        unread_count: unread,
        updated_at: at(secs),
        muted: false,
    }
}

fn ids(inbox: &InboxView) -> Vec<String> {
    inbox.conversations().iter().map(|c| c.id.clone()).collect()
}

fn reply(uri: &str, indexed_at: Option<&str>, likes: Option<u32>) -> ThreadItem {
    ThreadItem::Post {
        uri: uri.to_string(),
        depth: 1,
        value: Box::new(ThreadItemPost {
            post: PostView {
                uri: uri.to_string(),
                cid: "bafy".to_string(),
                author: profile("did:plc:a", "a.test", None),
                record: PostRecord {
                    text: "reply".to_string(),
                    created_at: None,
                    reply: None,
                    embed: None,
                    facets: None,
                    record_type: "app.bsky.feed.post".to_string(),
                },
                reply_count: None,
                repost_count: None,
                like_count: likes,
                indexed_at: indexed_at.map(|t| t.to_string()),
                viewer: None,
            },
            op_thread: false,
            more_parents: false,
            more_replies: 0,
            hidden_by_threadgate: false,
            muted_by_viewer: false,
        }),
    }
}

fn uris(items: &[&ThreadItem]) -> Vec<String> {
    items.iter().map(|i| i.uri().to_string()).collect()
}

fn notification(uri: &str, reason: &str, author: &str, indexed_at: &str, subject: Option<&str>) -> Notification {
    Notification {
        uri: uri.to_string(),
        cid: "bafy".to_string(),
        author: profile(author, &format!("{}.test", author), None),
        reason: reason.to_string(),
        reason_subject: subject.map(|s| s.to_string()),
        record: NotificationRecord { subject_uri: None, value: serde_json::from_str("{}").unwrap() },
        is_read: false,
        indexed_at: indexed_at.to_string(),
        labels: None,
    }
}

#[test]
fn law_bookmark_remove_undoes_add() {
    let mut cache = BookmarkCache::new();
    cache.add("at://did:plc:x/app.bsky.feed.post/1");
    assert!(cache.contains("at://did:plc:x/app.bsky.feed.post/1"));
    cache.remove("at://did:plc:x/app.bsky.feed.post/1");
    assert!(!cache.contains("at://did:plc:x/app.bsky.feed.post/1"));
    assert!(cache.is_empty());
}

#[test]
fn law_backspace_undoes_typing_on_values() {
    let mut editor = RichTextEditor::with_text("héllo");
    let before_text = editor.text().to_string();
    let before_cursor = editor.cursor();
    editor.insert_text("é");
    assert_eq!(editor.text(), "héllo\u{e9}");
    editor.delete_backward();
    assert_eq!(editor.text(), before_text);
    assert_eq!(editor.cursor(), before_cursor);
}

#[test]
fn editor_counts_graphemes_not_chars() {
    let editor = RichTextEditor::with_text("a👨‍👩‍👧b");
    assert_eq!(editor.char_count(), 3);
    assert_eq!(editor.chars_remaining(), 297);
}

#[test]
fn law_reorder_back_restores_order() {
    let mut m = PinnedFeedsManager::new();
    m.pin("at://did:plc:a/app.bsky.feed.generator/one").unwrap();
    m.pin("at://did:plc:a/app.bsky.feed.generator/two").unwrap();
    m.pin("at://did:plc:a/app.bsky.feed.generator/three").unwrap();
    let before: Vec<String> = m.list().to_vec();
    m.reorder(0, 2).unwrap();
    assert_eq!(m.list()[2], "at://did:plc:a/app.bsky.feed.generator/one");
    m.reorder(2, 0).unwrap();
    assert_eq!(m.list().to_vec(), before);
}

#[test]
fn law_unpin_undoes_pin_and_pin_keeps_unique() {
    let mut m = PinnedFeedsManager::new();
    m.pin("at://did:plc:a/app.bsky.feed.generator/one").unwrap();
    let before: Vec<String> = m.list().to_vec();
    m.pin("at://did:plc:a/app.bsky.feed.generator/two").unwrap();
    assert!(matches!(
        m.pin("at://did:plc:a/app.bsky.feed.generator/two"),
        Err(PinnedFeedsError::AlreadyPinned(_))
    ));
    assert_eq!(m.count(), 2);
    m.unpin("at://did:plc:a/app.bsky.feed.generator/two").unwrap();
    assert_eq!(m.list().to_vec(), before);
    assert!(matches!(
        m.unpin("at://did:plc:a/app.bsky.feed.generator/two"),
        Err(PinnedFeedsError::NotPinned(_))
    ));
    assert!(matches!(m.reorder(0, 5), Err(PinnedFeedsError::InvalidIndex(5))));
}

#[test]
fn law_decrement_undoes_increment_on_values() {
    let c = InteractionCounts { like_count: 7, repost_count: 0, reply_count: 2, quote_count: 1 };
    assert_eq!(c.increment_likes().decrement_likes(), c);
    assert_eq!(c.increment_reposts().decrement_reposts(), c);
    let zero = InteractionCounts::new();
    assert_eq!(zero.decrement_likes().like_count, 0);
    let full = InteractionCounts { like_count: u32::MAX, repost_count: 0, reply_count: 0, quote_count: 0 };
    assert_eq!(full.increment_likes().like_count, u32::MAX);
}

#[test]
fn law_purpose_name_round_trips() {
    for p in [ListPurpose::Curatelist, ListPurpose::Modlist, ListPurpose::Referencelist] {
        assert_eq!(ListPurpose::from_str(p.as_str()), Some(p));
        assert_eq!(p.to_string(), p.as_str());
    }
    assert_eq!(ListPurpose::from_str("app.bsky.graph.defs#other"), None);
}

#[test]
fn law_quality_steps_decrease_to_a_stop() {
    let mut q: u8 = 90;
    let mut steps = 0;
    loop {
        match quality_step(q, MAX_IMAGE_SIZE + 1) {
            QualityStep::Retry(next) => {
                assert!(next < q);
                q = next;
                steps += 1;
            }
            QualityStep::TooLarge => break,
            QualityStep::Done => unreachable!(),
        }
    }
    assert_eq!(q, 60);
    assert_eq!(steps, 6);
    assert_eq!(quality_step(85, MAX_IMAGE_SIZE), QualityStep::Done);
}

#[test]
fn media_error_messages() {
    let e = MediaError::FileTooLarge { size: 2_000_000, max: 1_000_000 };
    assert_eq!(e.to_string(), "File size 2000000 exceeds maximum 1000000");
    let io = MediaError::Io(std::io::Error::new(std::io::ErrorKind::Other, "disk gone"));
    assert!(io.to_string().contains("disk gone"));
}

#[test]
fn law_inbox_sort_is_ordered_and_stable() {
    let mut inbox = InboxView::new(vec![
        conversation("a", Some("Zed"), 0, 100),
        conversation("b", Some("amy"), 3, 300),
        conversation("c", None, 3, 200),
        conversation("d", Some("Amy"), 0, 300),
    ]);
    inbox.sort_by(ConversationSortBy::Recent);
    assert_eq!(ids(&inbox), vec!["b", "d", "c", "a"]);
    inbox.sort_by(ConversationSortBy::Unread);
    assert_eq!(ids(&inbox), vec!["b", "c", "d", "a"]);
    inbox.sort_by(ConversationSortBy::Name);
    // "amy" and "Amy" lower-case alike and keep their order; a missing name is the handle "c.test".
    assert_eq!(ids(&inbox), vec!["b", "d", "c", "a"]);
    assert_eq!(inbox.conversations().len(), 4);
}

#[test]
fn inbox_sort_by_recent_compares_nanoseconds() {
    let mut a = conversation("a", Some("A"), 0, 100);
    a.updated_at = Timestamp { secs: 100, nanos: 5 };
    let mut b = conversation("b", Some("B"), 0, 100);
    b.updated_at = Timestamp { secs: 100, nanos: 9 };
    let mut inbox = InboxView::new(vec![a, b]);
    inbox.sort_by(ConversationSortBy::Recent);
    assert_eq!(ids(&inbox), vec!["b", "a"]);
}

#[test]
fn apply_event_changes_first_matching_conversation_only() {
    let mut inbox = InboxView::new(vec![
        conversation("x", Some("X"), 1, 10),
        conversation("y", Some("Y"), 2, 20),
        conversation("y", Some("Y2"), 4, 30),
    ]);
    let msg = Message::new("m1", "hi", sender("did:plc:y", "y.test", None), at(99));
    let event = MessageEvent::new(MessageEventType::NewMessage, "y").with_message(msg.clone());
    inbox.apply_event(&event).unwrap();
    let cs = inbox.conversations();
    assert_eq!(cs[1].unread_count, 3);
    assert_eq!(cs[1].updated_at, at(99));
    assert_eq!(cs[1].last_message, Some(msg));
    assert_eq!(cs[2].unread_count, 4);
    assert_eq!(cs[0].unread_count, 1);

    let read = MessageEvent::new(MessageEventType::ConversationRead, "x");
    inbox.apply_event(&read).unwrap();
    assert_eq!(inbox.conversations()[0].unread_count, 0);

    let deleted = MessageEvent::new(MessageEventType::MessageDeleted, "y");
    inbox.apply_event(&deleted).unwrap();
    assert_eq!(inbox.conversations()[1].unread_count, 3);
}

#[test]
fn polled_conversations_become_new_message_events() {
    let mut with_msg = conversation("a", Some("A"), 0, 10);
    let mut m = Message::new("m1", "hello", sender("did:plc:a", "a.test", None), at(10));
    m.is_from_self = Some(true);
    with_msg.last_message = Some(m);
    let without = conversation("b", Some("B"), 0, 20);
    let events = events_from_conversations(vec![without, with_msg]);
    assert_eq!(events.len(), 1);
    assert_eq!(events[0].event_type, MessageEventType::NewMessage);
    assert_eq!(events[0].conversation_id, "a");
    let carried = events[0].message.as_ref().unwrap();
    assert_eq!(carried.text, "hello");
    assert_eq!(carried.is_from_self, None);
}

#[test]
fn websocket_mode_is_refused() {
    assert!(check_connection_mode(ConnectionMode::Polling).is_ok());
    match check_connection_mode(ConnectionMode::WebSocket) {
        Err(e @ MessageError::Xrpc(_)) => {
            assert_eq!(e.to_string(), "XRPC error: WebSocket mode not yet implemented")
        }
        _ => panic!("expected an XRPC error"),
    }
}

#[test]
fn relative_time_at_fixed_times() {
    let now = Timestamp { secs: 1_700_000_000, nanos: 0 };
    assert_eq!(relative_time_at(now, Timestamp { secs: 1_700_000_000 - 59, nanos: 0 }), "Just now");
    assert_eq!(relative_time_at(now, Timestamp { secs: 1_700_000_000 - 90, nanos: 0 }), "1 minute ago");
    assert_eq!(relative_time_at(now, Timestamp { secs: 1_700_000_000 - 5 * 3600, nanos: 0 }), "5 hours ago");
    assert_eq!(relative_time_at(now, Timestamp { secs: 1_700_000_000 - 86_400, nanos: 0 }), "Yesterday");
    assert_eq!(relative_time_at(now, Timestamp { secs: 1_700_000_000 - 8 * 86_400, nanos: 0 }), "1 week ago");
    assert_eq!(relative_time_at(now, Timestamp { secs: 1_700_000_000 - 40 * 86_400, nanos: 0 }), "Oct 05, 2023");
    // 59.5 seconds before is under a minute.
    assert_eq!(
        relative_time_at(Timestamp { secs: 1_700_000_000, nanos: 0 }, Timestamp { secs: 1_699_999_940, nanos: 500_000_000 }),
        "Just now"
    );
    assert_eq!(relative_time_text(-30), Some("Just now".to_string()));
    assert_eq!(relative_time_text(28 * 86_400), None);
}

#[test]
fn message_length_error_and_boundary() {
    let s = sender("did:plc:a", "a.test", None);
    let exact = "a".repeat(10_000);
    assert!(Message::new("m", &exact, s.clone(), at(0)).validate_length().is_ok());
    let over = "a".repeat(10_001);
    let err = Message::new("m", &over, s, at(0)).validate_length().unwrap_err();
    assert_eq!(err.to_string(), "Message too long: 10001 exceeds maximum 10000");
}

fn request(id: &str, name: &str, preview: Option<&str>, secs: i64, status: MessageRequestStatus) -> MessageRequest {
    MessageRequest {
        id: id.to_string(),
        sender: sender(&format!("did:plc:{}", id), &format!("{}.test", name.to_lowercase()), Some(name)),
        message_preview: preview.map(|p| p.to_string()),
        received_at: at(secs),
        status,
        conversation_id: None,
    }
}

#[test]
fn law_request_queue_sorts_and_finds_first() {
    let mut q = MessageRequestQueue::new(vec![
        request("1", "bob", Some("Hello there"), 10, MessageRequestStatus::Pending),
        request("2", "Alice", None, 30, MessageRequestStatus::Accepted),
        request("1", "carol", Some("dup id"), 20, MessageRequestStatus::Pending),
    ]);
    assert_eq!(q.find_by_id("1").unwrap().sender.handle, "bob.test");
    assert!(q.update_status("1", MessageRequestStatus::Declined));
    assert_eq!(q.requests()[0].status, MessageRequestStatus::Declined);
    assert_eq!(q.requests()[2].status, MessageRequestStatus::Pending);
    assert!(!q.update_status("9", MessageRequestStatus::Accepted));
    assert_eq!(q.count_by_status(), (1, 1, 1));

    q.sort_by_recent();
    let order: Vec<&str> = q.requests().iter().map(|r| r.sender.handle.as_str()).collect();
    assert_eq!(order, vec!["alice.test", "carol.test", "bob.test"]);
    q.sort_by_sender();
    let order: Vec<&str> = q.requests().iter().map(|r| r.sender.handle.as_str()).collect();
    assert_eq!(order, vec!["alice.test", "bob.test", "carol.test"]);

    let removed = q.remove("1").unwrap();
    assert_eq!(removed.sender.handle, "bob.test");
    assert_eq!(q.requests().len(), 2);
    assert!(q.find_by_sender("did:plc:2").is_some());
    assert!(q.remove("nope").is_none());
}

#[test]
fn request_filter_searches_lowercased_and_limits() {
    let q = MessageRequestQueue::new(vec![
        request("1", "Bob", Some("HELLO there"), 10, MessageRequestStatus::Pending),
        request("2", "Alice", None, 30, MessageRequestStatus::Pending),
        request("3", "Hellen", None, 20, MessageRequestStatus::Declined),
    ]);
    let f = MessageRequestFilter { search_query: Some("hEl".to_string()), ..Default::default() };
    let found: Vec<&str> = q.filter(&f).iter().map(|r| r.id.as_str()).collect();
    assert_eq!(found, vec!["1", "3"]);
    let f = MessageRequestFilter { search_query: Some("hEl".to_string()), limit: Some(1), ..Default::default() };
    assert_eq!(q.filter(&f).len(), 1);
    let f = MessageRequestFilter {
        status: Some(MessageRequestStatus::Declined),
        search_query: Some("hel".to_string()),
        limit: None,
    };
    assert_eq!(q.filter(&f).len(), 1);
}

#[test]
fn law_replies_order_oldest_newest_likes() {
    let a = reply("a", Some("2024-01-03T00:00:00Z"), Some(5));
    let b = reply("b", None, None);
    let c = reply("c", Some("2024-01-01T00:00:00Z"), Some(10));
    let d = reply("d", Some("2024-01-01T00:00:00Z"), Some(5));
    let all = vec![&a, &b, &c, &d];
    assert_eq!(uris(&order_replies(all.clone(), ThreadSortOrder::Oldest)), vec!["b", "c", "d", "a"]);
    assert_eq!(uris(&order_replies(all.clone(), ThreadSortOrder::Newest)), vec!["a", "c", "d", "b"]);
    assert_eq!(uris(&order_replies(all.clone(), ThreadSortOrder::MostLikes)), vec!["c", "a", "d", "b"]);
    assert_eq!(uris(&order_replies(all, ThreadSortOrder::Random)), vec!["a", "b", "c", "d"]);
}

#[test]
fn newest_puts_longer_time_text_first() {
    let short = reply("short", Some("2024-01-01"), None);
    let long = reply("long", Some("2024-01-01T10:00:00Z"), None);
    let v = vec![&short, &long];
    assert_eq!(uris(&order_replies(v.clone(), ThreadSortOrder::Newest)), vec!["long", "short"]);
    assert_eq!(uris(&order_replies(v, ThreadSortOrder::Oldest)), vec!["short", "long"]);
}

#[test]
fn law_grouping_keeps_every_notification_on_values() {
    let ns = vec![
        notification("at://n/1", "like", "did:plc:a", "2024-01-02T00:00:00Z", Some("at://p/1")),
        notification("at://n/2", "like", "did:plc:b", "2024-01-01T12:00:00Z", Some("at://p/1")),
        notification("at://n/3", "follow", "did:plc:c", "2024-01-01T00:00:00Z", None),
        notification("at://n/4", "like", "did:plc:d", "not a time", Some("at://p/1")),
    ];
    let groups = group_notifications(ns);
    let total: usize = groups.iter().map(|g| g.count()).sum();
    assert_eq!(total, 4);
    assert_eq!(groups[0].count(), 2);
}

#[test]
fn indexed_time_is_read_by_chrono() {
    let n = notification("at://n/1", "like", "did:plc:a", "1970-01-01T00:00:01.5Z", None);
    assert_eq!(n.indexed_at_ms(), 1500);
    let bad = notification("at://n/2", "like", "did:plc:a", "yesterday", None);
    assert_eq!(bad.indexed_at_ms(), 0);
}

#[test]
fn law_ranking_sorted_and_deduplicated() {
    let ps = vec![
        profile("did:1", "bob.test", Some("Alice B")),
        profile("did:2", "alice.test", None),
        profile("did:3", "alice.test", Some("dup")),
        profile("did:4", "ALICE", None),
    ];
    let deduped = SearchRanking::deduplicate_by_handle(ps.clone());
    let handles: Vec<&str> = deduped.iter().map(|p| p.handle.as_str()).collect();
    assert_eq!(handles, vec!["bob.test", "alice.test", "ALICE"]);
    let ranked = SearchRanking::rank_by_relevance(deduped, "Alice");
    let handles: Vec<&str> = ranked.iter().map(|p| p.handle.as_str()).collect();
    assert_eq!(handles, vec!["ALICE", "alice.test", "bob.test"]);
    assert_eq!(SearchRanking::calculate_score("ALICE", None, "alice"), 1000);
    assert_eq!(SearchRanking::calculate_score("x", Some("ÀLICE"), "àlice"), 800);
}

#[test]
fn like_subject_is_read_from_the_record() {
    let mut n = notification("at://n/1", "like", "did:plc:a", "2024-01-01T00:00:00Z", None);
    n.record = NotificationRecord {
        subject_uri: Some("at://p/9".to_string()),
        value: serde_json::from_str(r#"{"subject":{"uri":"at://p/9","cid":"x"}}"#).unwrap(),
    };
    assert_eq!(n.subject_uri(), Some("at://p/9".to_string()));
    n.record = NotificationRecord { subject_uri: None, value: serde_json::from_str(r#"{"subject":{"uri":7}}"#).unwrap() };
    assert_eq!(n.subject_uri(), None);
    let reply = notification("at://n/2", "reply", "did:plc:a", "2024-01-01T00:00:00Z", None);
    assert_eq!(reply.subject_uri(), Some("at://n/2".to_string()));
}

fn feed_post(uri: &str) -> app_core::feeds::PostView {
    app_core::feeds::PostView {
        uri: uri.to_string(),
        cid: "cid".to_string(),
        author: profile("did:plc:a", "a.test", None),
        record: serde_json::from_str("{}").unwrap(),
        embed: None,
        reply_count: None,
        repost_count: None,
        like_count: None,
        quote_count: None,
        indexed_at: "2024-01-01T00:00:00Z".to_string(),
        viewer: None,
        labels: None,
        threadgate: None,
    }
}

#[test]
fn subjects_are_requested_and_matched() {
    let reply = FeedNotification::new(notification(
        "at://did:plc:b/app.bsky.feed.post/r1",
        "reply",
        "did:plc:b",
        "2024-01-01T00:00:00Z",
        None,
    ));
    let feed_like = FeedNotification::new(notification(
        "at://n/2",
        "like",
        "did:plc:c",
        "2024-01-01T00:00:00Z",
        Some("at://did:plc:x/app.bsky.feed.generator/g"),
    ));
    let follow = FeedNotification::new(notification("at://n/3", "follow", "did:plc:d", "2024-01-01T00:00:00Z", None));
    let ns = vec![reply, feed_like, follow];
    let (posts, packs) = subject_requests(&ns);
    assert_eq!(posts, vec!["at://did:plc:b/app.bsky.feed.post/r1".to_string()]);
    assert!(packs.is_empty());
    let fetched = vec![
        feed_post("at://did:plc:b/app.bsky.feed.post/r1"),
        feed_post("at://other"),
        feed_post("at://did:plc:b/app.bsky.feed.post/r1"),
    ];
    let choices = subject_choices(&ns, &fetched, &[]);
    assert_eq!(choices, vec![Some(SubjectChoice::Post(2)), None, None]);
}

#[test]
fn unread_groups_are_counted() {
    let mut read = FeedNotification::new(notification("at://n/1", "follow", "did:plc:a", "2024-01-01T00:00:00Z", None));
    read.notification.is_read = true;
    let unread = FeedNotification::new(notification("at://n/2", "follow", "did:plc:b", "2024-01-01T00:00:00Z", None));
    assert_eq!(count_unread(&[read, unread.clone(), unread]), 2);
    assert_eq!(count_unread(&[]), 0);
}

#[test]
fn bookmark_search_steps() {
    let mark = |uri: &str| Bookmark {
        created_at: "2024-01-01T00:00:00Z".to_string(),
        subject: BookmarkSubject { uri: uri.to_string(), cid: "c".to_string() },
        item: None,
    };
    let page = GetBookmarksResponse { cursor: Some("next".to_string()), bookmarks: vec![mark("at://a"), mark("at://b")] };
    assert_eq!(search_step(&page, "at://b", 1), SearchStep::Found);
    assert_eq!(search_step(&page, "at://z", 1), SearchStep::Next("next".to_string()));
    assert_eq!(search_step(&page, "at://z", 10), SearchStep::NotFound);
    let last = GetBookmarksResponse { cursor: None, bookmarks: vec![] };
    assert_eq!(search_step(&last, "at://z", 2), SearchStep::NotFound);
}

#[test]
fn search_pages_until_enough_or_last() {
    assert_eq!(pager_step(10, 50, false, Some("c2".to_string())), PagerStep::Fetch("c2".to_string()));
    assert_eq!(pager_step(50, 50, false, Some("c2".to_string())), PagerStep::Stop);
    assert_eq!(pager_step(10, 50, true, Some("c2".to_string())), PagerStep::Stop);
    assert_eq!(pager_step(10, 50, false, None), PagerStep::Stop);
}

#[test]
fn read_status_follows_the_seen_time() {
    let mut f = FeedNotification::new(notification("at://n/1", "follow", "did:plc:a", "2024-01-01T00:00:00.5Z", None));
    let indexed = 1_704_067_200; // 2024-01-01T00:00:00Z
    f.update_read_status(&Timestamp { secs: indexed, nanos: 600_000_000 });
    assert!(f.is_read());
    f.update_read_status(&Timestamp { secs: indexed, nanos: 500_000_000 });
    assert!(!f.is_read());
    let mut bad = FeedNotification::new(notification("at://n/2", "follow", "did:plc:a", "soon", None));
    bad.notification.is_read = true;
    bad.update_read_status(&Timestamp { secs: 0, nanos: 0 });
    assert!(bad.is_read());
    assert!(is_later(&Timestamp { secs: 2, nanos: 0 }, &Timestamp { secs: 1, nanos: 999 }));
    assert!(!is_later(&Timestamp { secs: 1, nanos: 5 }, &Timestamp { secs: 1, nanos: 5 }));
}

#[test]
fn pages_are_built_from_listings() {
    let page = notification_page(
        Some("next".to_string()),
        Some("2024-01-01T00:00:00+02:00".to_string()),
        None,
        vec![],
    );
    assert_eq!(page.cursor, Some("next".to_string()));
    assert_eq!(page.seen_at, Timestamp { secs: 1_704_060_000, nanos: 0 });
    assert!(!page.priority);
    let empty = NotificationPage::empty();
    assert!(empty.items.is_empty() && empty.cursor.is_none() && !empty.priority);
}

#[test]
fn watch_url_reads_back_as_the_same_video() {
    check_watch_round_trip("dQw4w9WgXcQ");
    check_watch_round_trip("a-_9");
}

fn check_watch_round_trip(id: &str) {
    let url = app_core::embeds::YouTubeEmbed::new(id).watch_url();
    let parsed = app_core::embeds::EmbedDetector::parse_youtube(&url).unwrap();
    assert_eq!(parsed.video_id, id);
    assert_eq!(parsed.start_time, None);
}

#[test]
fn tuner_shows_each_post_once() {
    let fv = |uri: &str| app_core::feeds::FeedViewPost { post: feed_post(uri), reply: None, reason: None, feed_context: None };
    let mut tuner = app_core::feeds::FeedTuner::new();
    let first = tuner.dedupe(vec![fv("at://1"), fv("at://2"), fv("at://1")], app_core::feeds::DedupeStrategy::ByUri);
    let shown: Vec<&str> = first.iter().map(|p| p.post.uri.as_str()).collect();
    assert_eq!(shown, vec!["at://1", "at://2"]);
    let again = tuner.dedupe(vec![fv("at://2"), fv("at://1")], app_core::feeds::DedupeStrategy::ByUri);
    assert!(again.is_empty());
}

#[test]
fn watch_url_with_start_reads_back() {
    let mut e = app_core::embeds::YouTubeEmbed::new("dQw4w9WgXcQ");
    e.start_time = Some(90);
    let url = e.watch_url();
    assert_eq!(url, "https://www.youtube.com/watch?v=dQw4w9WgXcQ&t=90s");
    let parsed = app_core::embeds::EmbedDetector::parse_youtube(&url).unwrap();
    assert_eq!(parsed.video_id, "dQw4w9WgXcQ");
    assert_eq!(parsed.start_time, Some(90));
}

#[test]
fn open_url_reads_back_as_the_same_item() {
    check_open_url(app_core::embeds::SpotifyEmbedType::Track, "4cOdK2wGLETKBW3PvgPWqT");
    check_open_url(app_core::embeds::SpotifyEmbedType::Episode, "abc123");
}

fn check_open_url(t: app_core::embeds::SpotifyEmbedType, id: &str) {
    let url = app_core::embeds::SpotifyEmbed::new(t, id).open_url();
    let parsed = app_core::embeds::EmbedDetector::parse_spotify(&url).unwrap();
    assert_eq!(parsed.embed_type, t);
    assert_eq!(parsed.id, id);
}

#[test]
fn deleting_what_was_typed_restores_the_text() {
    let mut editor = RichTextEditor::with_text("héllo");
    editor.set_cursor(3);
    editor.insert_text("ñé");
    assert_eq!(editor.text(), "héñéllo");
    assert_eq!(editor.cursor(), 7);
    editor.delete_range(3..7);
    assert_eq!(editor.text(), "héllo");
    assert_eq!(editor.cursor(), 3);
}

#[test]
fn time_to_live_is_exclusive() {
    assert!(!outlived(300_000_000_000, 300_000_000_000));
    assert!(outlived(300_000_000_001, 300_000_000_000));
    assert!(!outlived(0, 0) && outlived(1, 0));
}

#[test]
fn embed_urls_read_back() {
    let e = YouTubeEmbed::new("dQw4w9WgXcQ");
    let back = EmbedDetector::parse_youtube(&e.embed_url()).unwrap();
    assert_eq!(back.video_id, "dQw4w9WgXcQ");
    assert_eq!(back.start_time, None);
    let mut s = YouTubeEmbed::new("a-b_C9");
    s.start_time = Some(100);
    let back = EmbedDetector::parse_youtube(&s.embed_url()).unwrap();
    assert_eq!(back.video_id, "a-b_C9");
    assert_eq!(back.start_time, Some(100));
    let back = EmbedDetector::parse_youtube(&s.watch_url()).unwrap();
    assert_eq!(back.start_time, Some(100));
}

#[test]
fn spotify_urls_and_uris_read_back() {
    let e = SpotifyEmbed::new(SpotifyEmbedType::Album, "1DFix.LWu-Pk_v3");
    let back = EmbedDetector::parse_spotify(&e.open_url()).unwrap();
    assert_eq!(back.embed_type, SpotifyEmbedType::Album);
    assert_eq!(back.id, "1DFix.LWu-Pk_v3");
    let uri = format!("spotify:{}:{}", SpotifyEmbedType::Episode.as_str(), "7x/y?z");
    let back = EmbedDetector::parse_spotify(&uri).unwrap();
    assert_eq!(back.embed_type, SpotifyEmbedType::Episode);
    assert_eq!(back.id, "7x/y?z");
}

#[test]
fn reasons_read_back() {
    for r in ["like", "repost", "mention", "reply", "quote", "follow", "starterpack-joined", "verified", "unverified", "like-via-repost", "repost-via-repost", "subscribed-post"] {
        assert_eq!(NotificationType::from_reason(r, None).to_reason(), r);
        assert_eq!(NotificationType::from_reason(r, Some("at://x/app.bsky.feed.generator/f")).to_reason(), r);
    }
    assert_eq!(NotificationType::from_reason("something-new", None).to_reason(), "unknown");
    for t in [NotificationType::PostLike, NotificationType::Repost, NotificationType::Follow, NotificationType::Unknown, NotificationType::SubscribedPost] {
        assert_eq!(NotificationType::from_reason(t.to_reason(), None), t);
    }
}

#[test]
fn groups_hold_joining_notifications_and_replies_stay_alone() {
    let ns = vec![
        notification("at://n/1", "like", "did:plc:a", "2024-01-03T00:00:00Z", Some("at://p/1")),
        notification("at://n/2", "reply", "did:plc:b", "2024-01-03T00:00:00Z", Some("at://p/1")),
        notification("at://n/3", "like", "did:plc:c", "2024-01-02T12:00:00Z", Some("at://p/1")),
        notification("at://n/4", "reply", "did:plc:d", "2024-01-02T12:00:00Z", Some("at://p/1")),
        notification("at://n/5", "like", "did:plc:e", "2023-12-01T00:00:00Z", Some("at://p/1")),
        notification("at://n/6", "like", "did:plc:f", "2024-01-02T00:00:00Z", Some("at://p/2")),
    ];
    let groups = group_notifications(ns);
    let heads: Vec<&str> = groups.iter().map(|g| g.notification.uri.as_str()).collect();
    assert_eq!(heads, vec!["at://n/1", "at://n/2", "at://n/4", "at://n/5", "at://n/6"]);
    assert_eq!(groups[0].additional.as_ref().map(|a| a.len()), Some(1));
    assert!(groups[1].additional.is_none());
    assert!(groups[2].additional.is_none());
}

#[test]
fn list_update_fields() {
    let params = UpdateListParams {
        uri: "at://did:plc:me/app.bsky.graph.list/abc".to_string(),
        name: "Friends".to_string(),
        description: None,
        description_facets: None,
        avatar: Some(None),
    };
    let changes = list_record_changes(params);
    assert_eq!(changes.len(), 4);
    assert_eq!(changes[0].0, "name");
    assert!(matches!(&changes[0].1, RecordValue::Text(n) if n == "Friends"));
    assert!(matches!(changes[1].1, RecordValue::Null));
    assert!(matches!(changes[2].1, RecordValue::Null));
    assert_eq!(changes[3].0, "avatar");
    assert!(matches!(changes[3].1, RecordValue::Null));
    let keep = UpdateListParams {
        uri: "at://x/y/z".to_string(),
        name: "N".to_string(),
        description: Some("d".to_string()),
        description_facets: None,
        avatar: None,
    };
    let changes = list_record_changes(keep);
    assert_eq!(changes.len(), 3);
    assert!(matches!(&changes[1].1, RecordValue::Text(d) if d == "d"));
}

#[test]
fn a_new_editor_counts_no_graphemes() {
    let mut e = RichTextEditor::new();
    assert_eq!(e.char_count(), 0);
    e.insert_text("hé");
    e.clear();
    assert_eq!(e.char_count(), 0);
}

#[test]
fn clock_offsets_become_timestamps() {
    assert_eq!(timestamp_at_offset(Ok((1_700_000_000, 5))), Timestamp { secs: 1_700_000_000, nanos: 5 });
    assert_eq!(timestamp_at_offset(Err((10, 0))), Timestamp { secs: -10, nanos: 0 });
    assert_eq!(timestamp_at_offset(Err((10, 250_000_000))), Timestamp { secs: -11, nanos: 750_000_000 });
    assert_eq!(timestamp_at_offset(Ok((u64::MAX, 1))), Timestamp { secs: i64::MAX, nanos: 1 });
    assert_eq!(timestamp_at_offset(Err((u64::MAX, 1))), Timestamp { secs: i64::MIN, nanos: 0 });
    let now = Timestamp::now();
    assert!(now.secs > 1_600_000_000 && now.nanos < 1_000_000_000);
}
