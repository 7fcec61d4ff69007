//! Notifications: their kinds, the subject they point at, and the grouping of similar
//! notifications (likes, reposts, follows, ...) that arrive close together.
use vstd::prelude::*;
use crate::feeds::{Label, PostView};
use crate::json::json_error_message;
use crate::profiles::{opt_view, ProfileViewBasic};
use crate::text::{chars_of, concat2, contains, occurs, owned, str_eq};
use crate::time::{is_later, no_later, parse_rfc3339, rfc3339_instant, Timestamp};

verus! {

/// Notifications closer than this (48 hours, in milliseconds) may be grouped.
pub const GROUPING_WINDOW_MS: i64 = 172_800_000;

/// Number of notifications fetched per page.
pub const PAGE_SIZE: u32 = 30;

/// Notification errors.
#[derive(Debug)]
pub enum NotificationError {
    /// API error
    ApiError(String),
    /// Parse error
    ParseError(serde_json::Error),
    /// No active session
    NoSession,
    /// Lock error
    LockError,
}

impl NotificationError {
    /// The error message (that of a parse error is serde_json's).
    pub fn to_string(&self) -> (r: String)
        ensures
            match self {
                NotificationError::ApiError(m) => r@ == "API error: "@ + m@,
                NotificationError::ParseError(_) => true,
                NotificationError::NoSession => r@ == "No active session"@,
                NotificationError::LockError => r@ == "Lock error"@,
            },
    {
        match self {
            NotificationError::ApiError(m) => concat2("API error: ", m.as_str()),
            NotificationError::ParseError(e) => {
                let m = json_error_message(e);
                concat2("Parse error: ", m.as_str())
            },
            NotificationError::NoSession => owned("No active session"),
            NotificationError::LockError => owned("Lock error"),
        }
    }
}

/// Kinds of notification.
#[derive(Debug, Clone, Copy, PartialEq, Eq, Hash)]
pub enum NotificationType {
    PostLike,
    Repost,
    Mention,
    Reply,
    Quote,
    Follow,
    FeedgenLike,
    StarterpackJoined,
    Verified,
    Unverified,
    LikeViaRepost,
    RepostViaRepost,
    SubscribedPost,
    Unknown,
}

/// The API reason of a kind (a feed generator like is a `like`).
pub open spec fn reason_of(t: NotificationType) -> Seq<char> {
    match t {
        NotificationType::PostLike => "like"@,
        NotificationType::Repost => "repost"@,
        NotificationType::Mention => "mention"@,
        NotificationType::Reply => "reply"@,
        NotificationType::Quote => "quote"@,
        NotificationType::Follow => "follow"@,
        NotificationType::FeedgenLike => "like"@,
        NotificationType::StarterpackJoined => "starterpack-joined"@,
        NotificationType::Verified => "verified"@,
        NotificationType::Unverified => "unverified"@,
        NotificationType::LikeViaRepost => "like-via-repost"@,
        NotificationType::RepostViaRepost => "repost-via-repost"@,
        NotificationType::SubscribedPost => "subscribed-post"@,
        NotificationType::Unknown => "unknown"@,
    }
}

/// The kind of a notification with the given reason; a like of a feed generator (its reason
/// subject holds `feed.generator`) is told apart.
pub open spec fn type_of(reason: Seq<char>, subject: Option<Seq<char>>) -> NotificationType {
    if reason == "like"@ {
        if subject matches Some(s) && occurs(s, "feed.generator"@) {
            NotificationType::FeedgenLike
        } else {
            NotificationType::PostLike
        }
    } else if reason == "repost"@ {
        NotificationType::Repost
    } else if reason == "mention"@ {
        NotificationType::Mention
    } else if reason == "reply"@ {
        NotificationType::Reply
    } else if reason == "quote"@ {
        NotificationType::Quote
    } else if reason == "follow"@ {
        NotificationType::Follow
    } else if reason == "starterpack-joined"@ {
        NotificationType::StarterpackJoined
    } else if reason == "verified"@ {
        NotificationType::Verified
    } else if reason == "unverified"@ {
        NotificationType::Unverified
    } else if reason == "like-via-repost"@ {
        NotificationType::LikeViaRepost
    } else if reason == "repost-via-repost"@ {
        NotificationType::RepostViaRepost
    } else if reason == "subscribed-post"@ {
        NotificationType::SubscribedPost
    } else {
        NotificationType::Unknown
    }
}

/// The reasons the API sends that have a kind of their own.
pub open spec fn known_reason(r: Seq<char>) -> bool {
    r == "like"@ || r == "repost"@ || r == "mention"@ || r == "reply"@ || r == "quote"@ || r
        == "follow"@ || r == "starterpack-joined"@ || r == "verified"@ || r == "unverified"@ || r
        == "like-via-repost"@ || r == "repost-via-repost"@ || r == "subscribed-post"@
}

/// A known reason reads back as itself through its kind, whatever the reason subject; any
/// other reason reads back as `unknown`.
pub proof fn law_reason_round_trip(r: Seq<char>, subject: Option<Seq<char>>)
    ensures
        known_reason(r) ==> reason_of(type_of(r, subject)) == r,
        !known_reason(r) ==> reason_of(type_of(r, subject)) == "unknown"@,
{
}

/// Every kind but a feed generator like (whose reason is `like`) is the kind of its own
/// reason.
pub proof fn law_kind_round_trip(t: NotificationType)
    requires
        t != NotificationType::FeedgenLike,
    ensures
        type_of(reason_of(t), None) == t,
{
    reveal_strlit("like");
    reveal_strlit("repost");
    reveal_strlit("mention");
    reveal_strlit("reply");
    reveal_strlit("quote");
    reveal_strlit("follow");
    reveal_strlit("starterpack-joined");
    reveal_strlit("verified");
    reveal_strlit("unverified");
    reveal_strlit("like-via-repost");
    reveal_strlit("repost-via-repost");
    reveal_strlit("subscribed-post");
    reveal_strlit("unknown");
    let r = reason_of(t);
    if r.len() == 6 {
        assert(r[0] != "repost"@[0] ==> r != "repost"@);
        assert(r[0] != "follow"@[0] ==> r != "follow"@);
    }
    if r.len() == 7 {
        assert(r[0] != "mention"@[0] ==> r != "mention"@);
        assert(r[0] != "unknown"@[0] ==> r != "unknown"@);
    }
    if r.len() == 5 {
        assert(r[0] != "reply"@[0] ==> r != "reply"@);
        assert(r[0] != "quote"@[0] ==> r != "quote"@);
    }
    if r.len() == 15 {
        assert(r[0] != "like-via-repost"@[0] ==> r != "like-via-repost"@);
        assert(r[0] != "subscribed-post"@[0] ==> r != "subscribed-post"@);
    }
}

/// Kinds whose reason is among the groupable ones (likes, reposts, follows, likes and reposts
/// via a repost, subscribed posts).
pub open spec fn groupable(t: NotificationType) -> bool {
    let r = reason_of(t);
    r == "like"@ || r == "repost"@ || r == "follow"@ || r == "like-via-repost"@ || r
        == "repost-via-repost"@ || r == "subscribed-post"@
}

impl NotificationType {
    /// Whether notifications of this kind may be grouped.
    pub fn is_groupable(&self) -> (r: bool)
        ensures
            r == groupable(*self),
    {
        let r = self.to_reason();
        str_eq(r, "like") || str_eq(r, "repost") || str_eq(r, "follow") || str_eq(r, "like-via-repost")
            || str_eq(r, "repost-via-repost") || str_eq(r, "subscribed-post")
    }

    /// The kind of a notification from its reason and reason subject.
    pub fn from_reason(reason: &str, reason_subject: Option<&str>) -> (r: Self)
        ensures
            r == type_of(
                reason@,
                match reason_subject {
                    Some(s) => Some(s@),
                    None => None,
                },
            ),
    {
        if str_eq(reason, "like") {
            let feedgen = match reason_subject {
                Some(s) => {
                    let sc = chars_of(s);
                    let p = chars_of("feed.generator");
                    contains(sc.as_slice(), p.as_slice())
                },
                None => false,
            };
            if feedgen {
                NotificationType::FeedgenLike
            } else {
                NotificationType::PostLike
            }
        } else if str_eq(reason, "repost") {
            NotificationType::Repost
        } else if str_eq(reason, "mention") {
            NotificationType::Mention
        } else if str_eq(reason, "reply") {
            NotificationType::Reply
        } else if str_eq(reason, "quote") {
            NotificationType::Quote
        } else if str_eq(reason, "follow") {
            NotificationType::Follow
        } else if str_eq(reason, "starterpack-joined") {
            NotificationType::StarterpackJoined
        } else if str_eq(reason, "verified") {
            NotificationType::Verified
        } else if str_eq(reason, "unverified") {
            NotificationType::Unverified
        } else if str_eq(reason, "like-via-repost") {
            NotificationType::LikeViaRepost
        } else if str_eq(reason, "repost-via-repost") {
            NotificationType::RepostViaRepost
        } else if str_eq(reason, "subscribed-post") {
            NotificationType::SubscribedPost
        } else {
            NotificationType::Unknown
        }
    }

    /// The API reason of the kind.
    pub fn to_reason(&self) -> (r: &'static str)
        ensures
            r@ == reason_of(*self),
    {
        match self {
            NotificationType::PostLike => "like",
            NotificationType::Repost => "repost",
            NotificationType::Mention => "mention",
            NotificationType::Reply => "reply",
            NotificationType::Quote => "quote",
            NotificationType::Follow => "follow",
            NotificationType::FeedgenLike => "like",
            NotificationType::StarterpackJoined => "starterpack-joined",
            NotificationType::Verified => "verified",
            NotificationType::Unverified => "unverified",
            NotificationType::LikeViaRepost => "like-via-repost",
            NotificationType::RepostViaRepost => "repost-via-repost",
            NotificationType::SubscribedPost => "subscribed-post",
            NotificationType::Unknown => "unknown",
        }
    }
}

/// The record of a notification: the JSON document, and what the library reads of it.
#[derive(Debug, Clone, PartialEq)]
pub struct NotificationRecord {
    /// The `uri` of the record's `subject`, where it has one that is a string
    pub subject_uri: Option<String>,
    /// The record as JSON
    pub value: serde_json::Value,
}

/// A notification.
#[derive(Debug, Clone, PartialEq)]
pub struct Notification {
    /// URI of the notification's record
    pub uri: String,
    /// CID of the record
    pub cid: String,
    /// Who caused it
    pub author: ProfileViewBasic,
    /// Reason (like, repost, follow, ...)
    pub reason: String,
    /// What the reason is about (for likes and reposts, the post)
    pub reason_subject: Option<String>,
    /// The record
    pub record: NotificationRecord,
    /// Whether it was read
    pub is_read: bool,
    /// Indexing timestamp (RFC 3339)
    pub indexed_at: String,
    /// Labels
    pub labels: Option<Vec<Label>>,
}

/// The kind of a notification.
pub open spec fn notification_kind(n: Notification) -> NotificationType {
    type_of(n.reason@, opt_view(n.reason_subject))
}

/// The timestamp of a notification in milliseconds (0 when it does not parse).
pub open spec fn millis_of(n: Notification) -> i64 {
    match rfc3339_instant(n.indexed_at@) {
        Some((secs, nanos)) => instant_millis(secs, nanos),
        None => 0,
    }
}

/// The milliseconds since the epoch of an instant, as chrono's `timestamp_millis` reckons
/// them: the seconds times a thousand plus the whole milliseconds of the nanoseconds (as an
/// `i64`, which every time chrono holds fits).
pub open spec fn instant_millis(secs: i64, nanos: u32) -> i64 {
    (secs * 1000 + nanos / 1_000_000) as i64
}

/// What `subject_uri` gives: the notification's own URI for replies, quotes, mentions and
/// subscribed posts, the record's subject URI for likes and reposts, the reason subject for
/// feed generator likes, nothing for the other kinds.
pub open spec fn subject_uri_ok(n: Notification, r: Option<String>) -> bool {
    match notification_kind(n) {
        NotificationType::Reply | NotificationType::Quote | NotificationType::Mention
        | NotificationType::SubscribedPost => r matches Some(x) && x@ == n.uri@,
        NotificationType::PostLike | NotificationType::Repost | NotificationType::LikeViaRepost
        | NotificationType::RepostViaRepost => opt_view(r) == opt_view(n.record.subject_uri),
        NotificationType::FeedgenLike => opt_view(r) == opt_view(n.reason_subject),
        _ => r is None,
    }
}

impl Notification {
    /// The notification's kind.
    pub fn notification_type(&self) -> (r: NotificationType)
        ensures
            r == notification_kind(*self),
    {
        let rs: Option<&str> = match &self.reason_subject {
            Some(s) => Some(s.as_str()),
            None => None,
        };
        NotificationType::from_reason(self.reason.as_str(), rs)
    }

    /// The URI of the post or object the notification is about (see `subject_uri_ok`); for
    /// likes and reposts it is the subject URI of the record.
    pub fn subject_uri(&self) -> (r: Option<String>)
        ensures
            subject_uri_ok(*self, r),
    {
        match self.notification_type() {
            NotificationType::Reply | NotificationType::Quote | NotificationType::Mention
            | NotificationType::SubscribedPost => Some(owned(self.uri.as_str())),
            NotificationType::PostLike | NotificationType::Repost | NotificationType::LikeViaRepost
            | NotificationType::RepostViaRepost => match &self.record.subject_uri {
                Some(x) => Some(owned(x.as_str())),
                None => None,
            },
            NotificationType::FeedgenLike => match &self.reason_subject {
                Some(s) => Some(owned(s.as_str())),
                None => None,
            },
            _ => None,
        }
    }

    /// The indexing time in milliseconds since the epoch, 0 when it does not parse.
    pub fn indexed_at_ms(&self) -> (r: i64)
        ensures
            r == millis_of(*self),
    {
        match parse_rfc3339(self.indexed_at.as_str()) {
            Some((secs, nanos)) => {
                let m: i128 = (secs as i128) * 1000 + ((nanos / 1_000_000) as i128);
                m as i64
            },
            None => 0,
        }
    }
}

/// A starter pack, as a notification subject.
#[derive(Debug, Clone, PartialEq)]
pub struct StarterPackViewBasic {
    /// URI
    pub uri: String,
    /// CID
    pub cid: String,
    /// Creator
    pub creator: ProfileViewBasic,
    /// Record
    pub record: serde_json::Value,
    /// Joins this week
    pub joined_week_count: Option<u32>,
    /// Joins overall
    pub joined_all_time_count: Option<u32>,
    /// Labels
    pub labels: Option<Vec<Label>>,
    /// Indexing timestamp
    pub indexed_at: Option<String>,
}

/// What a notification is about, once resolved.
#[derive(Debug, Clone, PartialEq)]
pub enum NotificationSubject {
    /// A post
    Post(Box<PostView>),
    /// A starter pack
    StarterPack(Box<StarterPackViewBasic>),
}

/// A notification as a feed shows it, with the notifications grouped into it.
#[derive(Debug, Clone, PartialEq)]
pub struct FeedNotification {
    /// Unique key
    pub react_key: String,
    /// Kind
    pub notification_type: NotificationType,
    /// The first notification of the group
    pub notification: Notification,
    /// The other notifications of the group
    pub additional: Option<Vec<Notification>>,
    /// URI of the subject
    pub subject_uri: Option<String>,
    /// The resolved subject
    pub subject: Option<NotificationSubject>,
}

/// A feed notification made from one notification, before any grouping.
pub open spec fn is_fresh_feed_notification(f: FeedNotification, n: Notification) -> bool {
    &&& f.react_key@ == "notif-"@ + n.uri@ + "-"@ + n.reason@
    &&& f.notification_type == notification_kind(n)
    &&& f.notification == n
    &&& f.additional is None
    &&& subject_uri_ok(n, f.subject_uri)
    &&& f.subject is None
}

/// Every notification added to a group could join it: it is groupable and `joins` the
/// group's first notification (same reason and reason subject, within the grouping window,
/// from another author unless it is a subscribed post, and neither is a follow-back); every
/// group with additions has at least one.
pub open spec fn members_join(g: (Notification, Option<Seq<Notification>>)) -> bool {
    match g.1 {
        Some(a) => a.len() > 0 && forall|j: int|
            0 <= j < a.len() ==> joins(g.0, #[trigger] a[j]) && groupable(notification_kind(a[j])),
        None => true,
    }
}

/// A group holds only notifications that may join its first one (see `members_join`).
pub proof fn law_groups_hold_only_joining_notifications(ns: Seq<Notification>)
    ensures
        forall|i: int| 0 <= i < groups_of(ns).len() ==> members_join(#[trigger] groups_of(ns)[i]),
    decreases ns.len(),
{
    if ns.len() > 0 {
        law_groups_hold_only_joining_notifications(ns.drop_last());
        let gs = groups_of(ns.drop_last());
        let n = ns.last();
        if groupable(notification_kind(n)) && first_join(gs, n) is Some {
            let i = first_join(gs, n)->Some_0;
            lemma_first_join_range(gs, n);
            let g = (gs[i].0, Some(match gs[i].1 {
                Some(a) => a.push(n),
                None => seq![n],
            }));
            assert(members_join(gs[i]));
            assert(members_join(g)) by {
                match gs[i].1 {
                    Some(a) => {
                        assert forall|j: int| 0 <= j < a.push(n).len() implies joins(g.0, #[trigger] a.push(n)[j])
                            && groupable(notification_kind(a.push(n)[j])) by {
                            if j < a.len() {
                                assert(a.push(n)[j] == a[j]);
                            }
                        }
                    },
                    None => {},
                }
            }
            assert(groups_of(ns) == gs.update(i, g));
            assert forall|k: int| 0 <= k < groups_of(ns).len() implies members_join(#[trigger] groups_of(ns)[k]) by {
                if k != i {
                    assert(groups_of(ns)[k] == gs[k]);
                }
            }
        } else {
            assert(groups_of(ns) == gs.push((n, None)));
            assert forall|k: int| 0 <= k < groups_of(ns).len() implies members_join(#[trigger] groups_of(ns)[k]) by {
                if k < gs.len() {
                    assert(groups_of(ns)[k] == gs[k]);
                }
            }
        }
    }
}

/// A follow-back is never grouped: in a group with additions, neither the first notification
/// nor any added one is a `follow` from an author the viewer already follows.
pub proof fn law_follow_backs_are_never_grouped(ns: Seq<Notification>)
    ensures
        forall|i: int|
            0 <= i < groups_of(ns).len() && (#[trigger] groups_of(ns)[i]).1 is Some ==> !(groups_of(ns)[i].0.reason@
                == "follow"@ && groups_of(ns)[i].0.author.viewer is Some
                && groups_of(ns)[i].0.author.viewer.unwrap().following is Some),
        forall|i: int, j: int|
            0 <= i < groups_of(ns).len() && groups_of(ns)[i].1 is Some && 0 <= j < groups_of(ns)[i].1.unwrap().len()
                ==> !((#[trigger] groups_of(ns)[i].1.unwrap()[j]).reason@ == "follow"@
                && groups_of(ns)[i].1.unwrap()[j].author.viewer is Some
                && groups_of(ns)[i].1.unwrap()[j].author.viewer.unwrap().following is Some),
{
    law_groups_hold_only_joining_notifications(ns);
    let gs = groups_of(ns);
    assert forall|i: int| 0 <= i < gs.len() && (#[trigger] gs[i]).1 is Some implies !(gs[i].0.reason@ == "follow"@
        && gs[i].0.author.viewer is Some && gs[i].0.author.viewer.unwrap().following is Some) by {
        assert(members_join(gs[i]));
        let a = gs[i].1.unwrap();
        assert(joins(gs[i].0, a[0]));
    }
    assert forall|i: int, j: int|
        0 <= i < gs.len() && gs[i].1 is Some && 0 <= j < gs[i].1.unwrap().len() implies !(
        (#[trigger] gs[i].1.unwrap()[j]).reason@ == "follow"@ && gs[i].1.unwrap()[j].author.viewer is Some
            && gs[i].1.unwrap()[j].author.viewer.unwrap().following is Some) by {
        assert(members_join(gs[i]));
        assert(joins(gs[i].0, gs[i].1.unwrap()[j]));
    }
}

/// A notification that may not be grouped (a reply, a mention, a quote, ...) stays alone: a
/// group whose first notification is of such a kind has no additions.
pub proof fn law_ungroupable_notifications_stay_alone(ns: Seq<Notification>)
    ensures
        forall|i: int|
            0 <= i < groups_of(ns).len() && !groupable(notification_kind(#[trigger] groups_of(ns)[i].0))
                ==> groups_of(ns)[i].1 is None,
{
    law_groups_hold_only_joining_notifications(ns);
    assert forall|i: int|
        0 <= i < groups_of(ns).len() && !groupable(notification_kind(#[trigger] groups_of(ns)[i].0))
            implies groups_of(ns)[i].1 is None by {
        let g = groups_of(ns)[i];
        assert(members_join(g));
        if g.1 is Some {
            let a = g.1->Some_0;
            assert(joins(g.0, a[0]));
            assert(notification_kind(a[0]) == notification_kind(g.0));
        }
    }
}

/// The number of notifications in a group.
pub open spec fn group_count(f: FeedNotification) -> int {
    1 + match f.additional {
        Some(a) => a@.len() as int,
        None => 0,
    }
}

impl FeedNotification {
    /// A group holding `notification` alone.
    pub fn new(notification: Notification) -> (r: Self)
        ensures
            is_fresh_feed_notification(r, notification),
    {
        let notification_type = notification.notification_type();
        let subject_uri = notification.subject_uri();
        let mut react_key = concat2("notif-", notification.uri.as_str());
        react_key.append("-");
        react_key.append(notification.reason.as_str());
        FeedNotification { react_key, notification_type, notification, additional: None, subject_uri, subject: None }
    }

    /// The number of notifications in the group.
    pub fn count(&self) -> (r: usize)
        requires
            group_count(*self) <= usize::MAX,
        ensures
            r == group_count(*self),
    {
        match &self.additional {
            Some(a) => 1 + a.len(),
            None => 1,
        }
    }

    /// The authors of the group's notifications, the first one's first.
    pub fn authors(&self) -> (r: Vec<&ProfileViewBasic>)
        ensures
            r@.len() == group_count(*self),
            *r@[0] == self.notification.author,
            self.additional matches Some(a) ==> forall|i: int|
                0 <= i < a@.len() ==> *r@[i + 1] == a@[i].author,
    {
        let mut authors: Vec<&ProfileViewBasic> = Vec::new();
        authors.push(&self.notification.author);
        match &self.additional {
            Some(additional) => {
                let mut i: usize = 0;
                while i < additional.len()
                    invariant
                        i <= additional@.len(),
                        authors@.len() == i + 1,
                        *authors@[0] == self.notification.author,
                        forall|k: int| 0 <= k < i ==> *authors@[k + 1] == additional@[k].author,
                    decreases additional@.len() - i,
                {
                    authors.push(&additional[i].author);
                    i += 1;
                }
            },
            None => {},
        }
        authors
    }

    /// Whether the group's first notification was read.
    pub fn is_read(&self) -> (r: bool)
        ensures
            r == self.notification.is_read,
    {
        self.notification.is_read
    }

    /// Marks the group's first notification read when the notifications were seen after it
    /// was indexed, and unread otherwise; a timestamp that does not parse leaves it as it was.
    pub fn update_read_status(&mut self, seen_at: &Timestamp)
        ensures
            match rfc3339_instant(old(self).notification.indexed_at@) {
                Some((secs, nanos)) => *final(self) == (FeedNotification {
                    notification: Notification {
                        is_read: !no_later(*seen_at, Timestamp { secs, nanos }),
                        ..old(self).notification
                    },
                    ..*old(self)
                }),
                None => *final(self) == *old(self),
            },
    {
        match parse_rfc3339(self.notification.indexed_at.as_str()) {
            Some((secs, nanos)) => {
                let indexed = Timestamp { secs, nanos };
                self.notification.is_read = is_later(seen_at, &indexed);
            },
            None => {},
        }
    }
}

/// A page of notifications.
#[derive(Debug, Clone, PartialEq)]
pub struct NotificationPage {
    /// Cursor of the next page
    pub cursor: Option<String>,
    /// When the user last saw the notifications
    pub seen_at: Timestamp,
    /// The grouped notifications
    pub items: Vec<FeedNotification>,
    /// Whether the page holds priority notifications
    pub priority: bool,
}

impl NotificationPage {
    /// An empty page, seen now.
    pub fn empty() -> (r: Self)
        ensures
            r.cursor is None,
            r.items@.len() == 0,
            !r.priority,
    {
        NotificationPage { cursor: None, seen_at: Timestamp::now(), items: Vec::new(), priority: false }
    }
}

/// A listing of notifications as the API returns it.
#[derive(Debug, Clone)]
pub struct ListNotificationsResponse {
    /// Cursor of the next page
    pub cursor: Option<String>,
    /// The notifications
    pub notifications: Vec<Notification>,
    /// When the user last saw notifications (RFC 3339)
    pub seen_at: Option<String>,
    /// Whether priority notifications are available
    pub priority: Option<bool>,
}

/// The page made of a listing and its grouped notifications: the listing's cursor, its seen
/// time (the clock's time when it has none or it does not parse), and whether it has priority
/// notifications (not when unsaid).
pub fn notification_page(
    cursor: Option<String>,
    seen_at: Option<String>,
    priority: Option<bool>,
    items: Vec<FeedNotification>,
) -> (r: NotificationPage)
    ensures
        r.cursor == cursor,
        r.items == items,
        r.priority == (priority == Some(true)),
        match seen_at {
            Some(s) => match rfc3339_instant(s@) {
                Some((secs, nanos)) => r.seen_at == (Timestamp { secs, nanos }),
                None => true,
            },
            None => true,
        },
{
    let parsed = match &seen_at {
        Some(s) => parse_rfc3339(s.as_str()),
        None => None,
    };
    let seen = match parsed {
        Some((secs, nanos)) => Timestamp { secs, nanos },
        None => Timestamp::now(),
    };
    let pr = match priority {
        Some(b) => b,
        None => false,
    };
    NotificationPage { cursor, seen_at: seen, items, priority: pr }
}

/// A cached page of notifications, for checking what is unread.
#[derive(Debug, Clone)]
pub struct CachedNotificationPage {
    /// Whether the cache is fresh enough to show
    pub usable_in_feed: bool,
    /// When it was synced
    pub synced_at: Timestamp,
    /// The cached page
    pub data: Option<NotificationPage>,
    /// Unread count when synced
    pub unread_count: u32,
}

impl Default for CachedNotificationPage {
    /// An unusable, empty cache, synced now.
    fn default() -> (r: Self)
        ensures
            !r.usable_in_feed,
            r.data is None,
            r.unread_count == 0,
    {
        CachedNotificationPage { usable_in_feed: false, synced_at: Timestamp::now(), data: None, unread_count: 0 }
    }
}

/// Parameters of a notification listing.
#[derive(Debug, Clone)]
pub struct ListNotificationsParams {
    /// Page size
    pub limit: Option<u32>,
    /// Pagination cursor
    pub cursor: Option<String>,
    /// Reasons to keep
    pub reasons: Option<Vec<String>>,
    /// Priority notifications only
    pub priority: Option<bool>,
}

impl Default for ListNotificationsParams {
    fn default() -> (r: Self)
        ensures
            r.limit is None && r.cursor is None && r.reasons is None && r.priority is None,
    {
        ListNotificationsParams { limit: None, cursor: None, reasons: None, priority: None }
    }
}

/// Parameters for marking notifications as seen.
#[derive(Debug, Clone)]
pub struct UpdateSeenParams {
    /// Timestamp up to which notifications are seen
    pub seen_at: String,
}

/// Response with the number of unread notifications.
#[derive(Debug, Clone)]
pub struct UnreadCountResponse {
    /// Unread count
    pub count: u32,
}

/// Which notifications a listing shows.
#[derive(Debug, Clone, Copy, PartialEq, Eq, Hash)]
pub enum NotificationFilter {
    /// All notifications
    All,
    /// Mentions, replies and quotes
    Mentions,
}

impl NotificationFilter {
    /// The reasons a listing asks for: none (all) or mention, reply and quote.
    pub fn reasons(&self) -> (r: Option<Vec<String>>)
        ensures
            match self {
                NotificationFilter::All => r is None,
                NotificationFilter::Mentions => r matches Some(v) && v@.len() == 3 && v@[0]@
                    == "mention"@ && v@[1]@ == "reply"@ && v@[2]@ == "quote"@,
            },
    {
        match self {
            NotificationFilter::All => None,
            NotificationFilter::Mentions => Some(vec![owned("mention"), owned("reply"), owned("quote")]),
        }
    }
}

/// A notification about a follow from someone the viewer already follows.
pub open spec fn is_follow_back(n: Notification) -> bool {
    n.reason@ == "follow"@ && (n.author.viewer matches Some(v) && v.following is Some)
}

/// Notification `n` joins the group headed by `head`: they are less than the window apart, of
/// the same reason and reason subject, from different authors (unless subscribed posts), and
/// neither is a follow-back.
pub open spec fn joins(head: Notification, n: Notification) -> bool {
    let d = millis_of(head) - millis_of(n);
    &&& -GROUPING_WINDOW_MS < d < GROUPING_WINDOW_MS
    &&& n.reason@ == head.reason@
    &&& opt_view(n.reason_subject) == opt_view(head.reason_subject)
    &&& (n.author.did@ != head.author.did@ || n.reason@ == "subscribed-post"@)
    &&& !is_follow_back(n)
    &&& !is_follow_back(head)
}

/// A group: its first notification and the notifications added to it.
pub open spec fn group_of(f: FeedNotification) -> (Notification, Option<Seq<Notification>>) {
    (
        f.notification,
        match f.additional {
            Some(a) => Some(a@),
            None => None,
        },
    )
}

/// Index of the first group that `n` joins.
pub open spec fn first_join(gs: Seq<(Notification, Option<Seq<Notification>>)>, n: Notification) -> Option<int>
    decreases gs.len(),
{
    if gs.len() == 0 {
        None
    } else {
        match first_join(gs.drop_last(), n) {
            Some(i) => Some(i),
            None => if joins(gs.last().0, n) {
                Some(gs.len() - 1)
            } else {
                None
            },
        }
    }
}

/// The groups of a list of notifications, in order: each groupable notification joins the
/// first group it can, else starts a new one.
pub open spec fn groups_of(ns: Seq<Notification>) -> Seq<(Notification, Option<Seq<Notification>>)>
    decreases ns.len(),
{
    if ns.len() == 0 {
        seq![]
    } else {
        let gs = groups_of(ns.drop_last());
        let n = ns.last();
        if groupable(notification_kind(n)) && first_join(gs, n) is Some {
            let i = first_join(gs, n)->Some_0;
            gs.update(
                i,
                (
                    gs[i].0,
                    Some(
                        match gs[i].1 {
                            Some(a) => a.push(n),
                            None => seq![n],
                        },
                    ),
                ),
            )
        } else {
            gs.push((n, None))
        }
    }
}

proof fn lemma_first_join_prefix(
    gs: Seq<(Notification, Option<Seq<Notification>>)>,
    n: Notification,
    k: int,
)
    requires
        0 <= k <= gs.len(),
    ensures
        first_join(gs.take(k), n) matches Some(i) ==> first_join(gs, n) == Some(i) && 0 <= i < k,
        first_join(gs.take(k), n) is None && k < gs.len() && joins(gs[k].0, n) ==> first_join(gs, n)
            == Some(k),
        first_join(gs.take(k), n) is None && k == gs.len() ==> first_join(gs, n) is None,
    decreases gs.len() - k,
{
    if k == gs.len() {
        assert(gs.take(k) =~= gs);
        lemma_first_join_range(gs, n);
    } else {
        lemma_first_join_prefix(gs, n, k + 1);
        assert(gs.take(k + 1).drop_last() =~= gs.take(k));
        assert(gs.take(k + 1).last() == gs[k]);
        lemma_first_join_range(gs.take(k), n);
    }
}

proof fn lemma_first_join_range(gs: Seq<(Notification, Option<Seq<Notification>>)>, n: Notification)
    ensures
        first_join(gs, n) matches Some(i) ==> 0 <= i < gs.len() && joins(gs[i].0, n),
    decreases gs.len(),
{
    if gs.len() > 0 {
        lemma_first_join_range(gs.drop_last(), n);
    }
}

/// The groups seen as pairs.
pub open spec fn groups_view(s: Seq<FeedNotification>) -> Seq<(Notification, Option<Seq<Notification>>)> {
    s.map_values(|f: FeedNotification| group_of(f))
}

/// Each group was made from its first notification.
pub open spec fn groups_fresh(s: Seq<FeedNotification>) -> bool {
    forall|i: int| 0 <= i < s.len() ==> is_fresh_feed_notification(
        #[trigger] s[i],
        s[i].notification,
    ) || (s[i].additional is Some && is_fresh_feed_notification(
        FeedNotification { additional: None, ..s[i] },
        s[i].notification,
    ))
}

/// Whether `n` joins the group headed by `head` (see `joins`).
fn joins_exec(head: &Notification, n: &Notification, head_ms: i64, n_ms: i64) -> (r: bool)
    requires
        head_ms == millis_of(*head),
        n_ms == millis_of(*n),
    ensures
        r == joins(*head, *n),
{
    let d: i128 = (head_ms as i128) - (n_ms as i128);
    if !(-(GROUPING_WINDOW_MS as i128) < d && d < (GROUPING_WINDOW_MS as i128)) {
        return false;
    }
    if !str_eq(n.reason.as_str(), head.reason.as_str()) {
        return false;
    }
    let same_subject = match (&n.reason_subject, &head.reason_subject) {
        (Some(a), Some(b)) => str_eq(a.as_str(), b.as_str()),
        (None, None) => true,
        _ => false,
    };
    if !same_subject {
        return false;
    }
    let same_author = str_eq(n.author.did.as_str(), head.author.did.as_str());
    let is_subscribed = str_eq(n.reason.as_str(), "subscribed-post");
    if same_author && !is_subscribed {
        return false;
    }
    !follow_back(n) && !follow_back(head)
}

fn follow_back(n: &Notification) -> (r: bool)
    ensures
        r == is_follow_back(*n),
{
    str_eq(n.reason.as_str(), "follow") && match &n.author.viewer {
        Some(v) => v.following.is_some(),
        None => false,
    }
}

/// Groups notifications (see `groups_of`): each groupable notification joins the first
/// existing group that it can, the others start groups of their own.
pub fn group_notifications(notifications: Vec<Notification>) -> (r: Vec<FeedNotification>)
    ensures
        groups_view(r@) == groups_of(notifications@),
        groups_fresh(r@),
{
    let ghost ns = notifications@;
    let mut grouped: Vec<FeedNotification> = Vec::new();
    let mut src = notifications;
    let mut taken: usize = 0;
    let total = src.len();
    assert(groups_view(grouped@) =~= groups_of(ns.take(0)));
    assert(src@ =~= ns.skip(0));
    while src.len() > 0
        invariant
            taken + src@.len() == ns.len(),
            ns.len() == total,
            src@ == ns.skip(taken as int),
            groups_view(grouped@) == groups_of(ns.take(taken as int)),
            groups_fresh(grouped@),
        decreases src.len(),
    {
        let notif = src.remove(0);
        proof {
            assert(notif == ns[taken as int]);
            assert(src@ =~= ns.skip(taken + 1));
            assert(ns.take(taken + 1).drop_last() =~= ns.take(taken as int));
            assert(ns.take(taken + 1).last() == notif);
        }
        let ghost gs = groups_view(grouped@);
        let ts = notif.indexed_at_ms();
        let kind = notif.notification_type();
        let mut found: Option<usize> = None;
        if kind.is_groupable() {
            let mut j: usize = 0;
            assert(gs.take(0) =~= Seq::empty());
            assert(gs.len() == grouped@.len());
            while j < grouped.len()
                invariant_except_break
                    found is None,
                    first_join(gs.take(j as int), notif) is None,
                invariant
                    j <= grouped@.len(),
                    gs == groups_view(grouped@),
                    ts == millis_of(notif),
                ensures
                    found matches Some(k) ==> k < grouped@.len() && first_join(gs, notif) == Some(
                        k as int,
                    ),
                    found is None ==> j == grouped@.len() && first_join(gs.take(j as int), notif) is None,
                decreases grouped@.len() - j,
            {
                let ets = grouped[j].notification.indexed_at_ms();
                if joins_exec(&grouped[j].notification, &notif, ets, ts) {
                    proof {
                        assert(gs[j as int].0 == grouped@[j as int].notification);
                        lemma_first_join_prefix(gs, notif, j as int);
                    }
                    found = Some(j);
                    break;
                }
                proof {
                    assert(gs[j as int].0 == grouped@[j as int].notification);
                    assert(gs.take(j + 1).drop_last() =~= gs.take(j as int));
                    assert(gs.take(j + 1).last() == gs[j as int]);
                }
                j += 1;
            }
            proof {
                if found is None {
                    lemma_first_join_prefix(gs, notif, j as int);
                }
            }
        }
        assert(found matches Some(k) ==> k < grouped@.len() && groupable(notification_kind(notif))
            && first_join(gs, notif) == Some(k as int));
        assert(found is None ==> !(groupable(notification_kind(notif)) && first_join(gs, notif) is Some));
        match found {
            Some(j) => {
                let ghost before = grouped@;
                let mut g = grouped.remove(j);
                let ghost g0 = g;
                let add = match g.additional {
                    Some(a) => {
                        let mut a = a;
                        a.push(notif);
                        a
                    },
                    None => {
                        let mut a: Vec<Notification> = Vec::new();
                        a.push(notif);
                        a
                    },
                };
                g.additional = Some(add);
                grouped.insert(j, g);
                proof {
                    assert(gs[j as int] == group_of(g0));
                    assert(groups_view(grouped@) =~= gs.update(
                        j as int,
                        (
                            gs[j as int].0,
                            Some(
                                match gs[j as int].1 {
                                    Some(a) => a.push(notif),
                                    None => seq![notif],
                                },
                            ),
                        ),
                    ));
                    assert forall|i: int| 0 <= i < grouped@.len() implies is_fresh_feed_notification(
                        #[trigger] grouped@[i],
                        grouped@[i].notification,
                    ) || (grouped@[i].additional is Some && is_fresh_feed_notification(
                        FeedNotification { additional: None, ..grouped@[i] },
                        grouped@[i].notification,
                    )) by {
                        assert(grouped@ =~= before.update(j as int, g));
                        if i != j {
                            assert(grouped@[i] == before[i]);
                        } else {
                            assert(FeedNotification { additional: None, ..g } == FeedNotification {
                                additional: None,
                                ..g0
                            });
                        }
                    }
                }
            },
            None => {
                let f = FeedNotification::new(notif);
                grouped.push(f);
                assert(groups_view(grouped@) =~= gs.push((notif, None)));
            },
        }
        taken += 1;
    }
    assert(ns.take(ns.len() as int) =~= ns);
    grouped
}

/// The number of notifications in a group.
pub open spec fn group_size(g: (Notification, Option<Seq<Notification>>)) -> int {
    1 + match g.1 {
        Some(a) => a.len() as int,
        None => 0,
    }
}

/// The number of notifications in all groups.
pub open spec fn total_size(gs: Seq<(Notification, Option<Seq<Notification>>)>) -> int
    decreases gs.len(),
{
    if gs.len() == 0 {
        0
    } else {
        total_size(gs.drop_last()) + group_size(gs.last())
    }
}

proof fn lemma_total_update(
    gs: Seq<(Notification, Option<Seq<Notification>>)>,
    i: int,
    g: (Notification, Option<Seq<Notification>>),
)
    requires
        0 <= i < gs.len(),
    ensures
        total_size(gs.update(i, g)) == total_size(gs) - group_size(gs[i]) + group_size(g),
    decreases gs.len(),
{
    let t = gs.update(i, g);
    if i == gs.len() - 1 {
        assert(t.drop_last() =~= gs.drop_last());
    } else {
        lemma_total_update(gs.drop_last(), i, g);
        assert(t.drop_last() =~= gs.drop_last().update(i, g));
    }
}

/// Grouping loses and duplicates no notification: the groups hold as many notifications,
/// counting each group's first and its additions, as were given.
pub proof fn law_grouping_keeps_every_notification(ns: Seq<Notification>)
    ensures
        total_size(groups_of(ns)) == ns.len(),
    decreases ns.len(),
{
    if ns.len() > 0 {
        law_grouping_keeps_every_notification(ns.drop_last());
        let gs = groups_of(ns.drop_last());
        let n = ns.last();
        if groupable(notification_kind(n)) && first_join(gs, n) is Some {
            let i = first_join(gs, n)->Some_0;
            lemma_first_join_range(gs, n);
            let g = (gs[i].0, Some(match gs[i].1 {
                Some(a) => a.push(n),
                None => seq![n],
            }));
            lemma_total_update(gs, i, g);
        } else {
            assert(gs.push((n, None)).drop_last() =~= gs);
        }
    }
}


/// The subject URI names a post.
pub open spec fn names_post(u: Seq<char>) -> bool {
    occurs(u, "app.bsky.feed.post"@)
}

/// The reason subject names a starter pack.
pub open spec fn names_pack(r: Option<String>) -> bool {
    r matches Some(x) && occurs(x@, "app.bsky.graph.starterpack"@)
}

/// The posts a page of notifications asks for: each subject URI that names a post, in order.
pub open spec fn post_requests(s: Seq<FeedNotification>) -> Seq<Seq<char>>
    decreases s.len(),
{
    if s.len() == 0 {
        Seq::empty()
    } else {
        let rest = post_requests(s.drop_last());
        match s.last().subject_uri {
            Some(u) => if names_post(u@) {
                rest.push(u@)
            } else {
                rest
            },
            None => rest,
        }
    }
}

/// The starter packs a page of notifications asks for: for each notification with a subject
/// URI that names no post, its reason subject when that names a starter pack, in order.
pub open spec fn pack_requests(s: Seq<FeedNotification>) -> Seq<Seq<char>>
    decreases s.len(),
{
    if s.len() == 0 {
        Seq::empty()
    } else {
        let rest = pack_requests(s.drop_last());
        let f = s.last();
        match f.subject_uri {
            Some(u) => if !names_post(u@) && names_pack(f.notification.reason_subject) {
                rest.push(f.notification.reason_subject.unwrap()@)
            } else {
                rest
            },
            None => rest,
        }
    }
}

/// The URIs of the posts and of the starter packs to fetch for a page of notifications
/// (see `post_requests` and `pack_requests`).
pub fn subject_requests(notifications: &[FeedNotification]) -> (r: (Vec<String>, Vec<String>))
    ensures
        crate::text::string_views(r.0@) == post_requests(notifications@),
        crate::text::string_views(r.1@) == pack_requests(notifications@),
{
    let mut posts: Vec<String> = Vec::new();
    let mut packs: Vec<String> = Vec::new();
    let mut i: usize = 0;
    while i < notifications.len()
        invariant
            i <= notifications@.len(),
            crate::text::string_views(posts@) == post_requests(notifications@.take(i as int)),
            crate::text::string_views(packs@) == pack_requests(notifications@.take(i as int)),
        decreases notifications@.len() - i,
    {
        let f = &notifications[i];
        assert(notifications@.take(i + 1).drop_last() =~= notifications@.take(i as int));
        assert(notifications@.take(i + 1).last() == *f);
        let ghost pv = posts@;
        let ghost kv = packs@;
        match &f.subject_uri {
            Some(u) => {
                let uc = chars_of(u.as_str());
                let pc = chars_of("app.bsky.feed.post");
                if contains(uc.as_slice(), pc.as_slice()) {
                    posts.push(owned(u.as_str()));
                    assert(crate::text::string_views(posts@) =~= crate::text::string_views(pv).push(u@));
                } else {
                    match &f.notification.reason_subject {
                        Some(rs) => {
                            let rc = chars_of(rs.as_str());
                            let sc = chars_of("app.bsky.graph.starterpack");
                            if contains(rc.as_slice(), sc.as_slice()) {
                                packs.push(owned(rs.as_str()));
                                assert(crate::text::string_views(packs@) =~= crate::text::string_views(kv).push(
                                    rs@,
                                ));
                            }
                        },
                        None => {},
                    }
                }
            },
            None => {},
        }
        i += 1;
    }
    assert(notifications@.take(notifications@.len() as int) =~= notifications@);
    (posts, packs)
}

/// The index of the last post with this URI (the one a map filled in order keeps).
pub open spec fn post_index(posts: Seq<PostView>, u: Seq<char>) -> Option<int>
    decreases posts.len(),
{
    if posts.len() == 0 {
        None
    } else if posts.last().uri@ == u {
        Some(posts.len() - 1)
    } else {
        post_index(posts.drop_last(), u)
    }
}

/// The index of the last starter pack with this URI (the one a map filled in order keeps).
pub open spec fn pack_index(packs: Seq<StarterPackViewBasic>, u: Seq<char>) -> Option<int>
    decreases packs.len(),
{
    if packs.len() == 0 {
        None
    } else if packs.last().uri@ == u {
        Some(packs.len() - 1)
    } else {
        pack_index(packs.drop_last(), u)
    }
}

/// A fetched item that becomes a notification's subject.
#[derive(Debug, Clone, Copy, PartialEq, Eq)]
pub enum SubjectChoice {
    /// The fetched post at this index
    Post(usize),
    /// The fetched starter pack at this index
    StarterPack(usize),
}

/// The subject a notification gets from the fetched items: a joined starter pack the pack
/// named by its reason subject, any other notification the post named by its subject URI;
/// nothing without a subject URI or when the item was not fetched.
pub open spec fn subject_choice(
    f: FeedNotification,
    posts: Seq<PostView>,
    packs: Seq<StarterPackViewBasic>,
) -> Option<SubjectChoice> {
    match f.subject_uri {
        Some(u) => if f.notification_type == NotificationType::StarterpackJoined {
            match f.notification.reason_subject {
                Some(rs) => match pack_index(packs, rs@) {
                    Some(i) => Some(SubjectChoice::StarterPack(i as usize)),
                    None => None,
                },
                None => None,
            }
        } else {
            match post_index(posts, u@) {
                Some(i) => Some(SubjectChoice::Post(i as usize)),
                None => None,
            }
        },
        None => None,
    }
}

/// The chosen item is one with the URI the notification asks for.
pub open spec fn choice_fits(
    c: Option<SubjectChoice>,
    f: FeedNotification,
    posts: Seq<PostView>,
    packs: Seq<StarterPackViewBasic>,
) -> bool {
    match c {
        Some(SubjectChoice::Post(i)) => {
            &&& i < posts.len()
            &&& f.subject_uri matches Some(u)
            &&& posts[i as int].uri@ == u@
        },
        Some(SubjectChoice::StarterPack(i)) => {
            &&& i < packs.len()
            &&& f.notification.reason_subject matches Some(rs)
            &&& packs[i as int].uri@ == rs@
        },
        None => true,
    }
}

proof fn lemma_post_index_range(posts: Seq<PostView>, u: Seq<char>)
    ensures
        post_index(posts, u) matches Some(i) ==> 0 <= i < posts.len() && posts[i].uri@ == u,
    decreases posts.len(),
{
    if posts.len() > 0 && posts.last().uri@ != u {
        lemma_post_index_range(posts.drop_last(), u);
    }
}

proof fn lemma_pack_index_range(packs: Seq<StarterPackViewBasic>, u: Seq<char>)
    ensures
        pack_index(packs, u) matches Some(i) ==> 0 <= i < packs.len() && packs[i].uri@ == u,
    decreases packs.len(),
{
    if packs.len() > 0 && packs.last().uri@ != u {
        lemma_pack_index_range(packs.drop_last(), u);
    }
}

fn find_post(posts: &[PostView], u: &str) -> (r: Option<usize>)
    ensures
        match post_index(posts@, u@) {
            Some(i) => r == Some(i as usize),
            None => r is None,
        },
{
    let mut i: usize = posts.len();
    assert(posts@.take(posts@.len() as int) =~= posts@);
    while i > 0
        invariant
            i <= posts@.len(),
            post_index(posts@, u@) == post_index(posts@.take(i as int), u@),
        decreases i,
    {
        assert(posts@.take(i as int).last() == posts@[i - 1]);
        if str_eq(posts[i - 1].uri.as_str(), u) {
            return Some(i - 1);
        }
        assert(posts@.take(i as int).drop_last() =~= posts@.take(i - 1));
        i -= 1;
    }
    None
}

fn find_pack(packs: &[StarterPackViewBasic], u: &str) -> (r: Option<usize>)
    ensures
        match pack_index(packs@, u@) {
            Some(i) => r == Some(i as usize),
            None => r is None,
        },
{
    let mut i: usize = packs.len();
    assert(packs@.take(packs@.len() as int) =~= packs@);
    while i > 0
        invariant
            i <= packs@.len(),
            pack_index(packs@, u@) == pack_index(packs@.take(i as int), u@),
        decreases i,
    {
        assert(packs@.take(i as int).last() == packs@[i - 1]);
        if str_eq(packs[i - 1].uri.as_str(), u) {
            return Some(i - 1);
        }
        assert(packs@.take(i as int).drop_last() =~= packs@.take(i - 1));
        i -= 1;
    }
    None
}

/// The subject each notification gets from the fetched posts and starter packs, in order
/// (see `subject_choice`); every index given is that of an item with the URI asked for.
pub fn subject_choices(
    notifications: &[FeedNotification],
    posts: &[PostView],
    packs: &[StarterPackViewBasic],
) -> (r: Vec<Option<SubjectChoice>>)
    ensures
        r@ == notifications@.map_values(|f: FeedNotification| subject_choice(f, posts@, packs@)),
        forall|k: int| 0 <= k < r@.len() ==> choice_fits(#[trigger] r@[k], notifications@[k], posts@, packs@),
{
    let mut out: Vec<Option<SubjectChoice>> = Vec::new();
    let mut k: usize = 0;
    while k < notifications.len()
        invariant
            k <= notifications@.len(),
            out@ == notifications@.take(k as int).map_values(
                |f: FeedNotification| subject_choice(f, posts@, packs@),
            ),
        decreases notifications@.len() - k,
    {
        let f = &notifications[k];
        let is_pack = matches!(f.notification_type, NotificationType::StarterpackJoined);
        let c: Option<SubjectChoice> = match &f.subject_uri {
            Some(u) => {
                if is_pack {
                    match &f.notification.reason_subject {
                        Some(rs) => match find_pack(packs, rs.as_str()) {
                            Some(i) => Some(SubjectChoice::StarterPack(i)),
                            None => None,
                        },
                        None => None,
                    }
                } else {
                    match find_post(posts, u.as_str()) {
                        Some(i) => Some(SubjectChoice::Post(i)),
                        None => None,
                    }
                }
            },
            None => None,
        };
        assert(c == subject_choice(*f, posts@, packs@));
        out.push(c);
        assert(notifications@.take(k + 1).map_values(|f: FeedNotification| subject_choice(f, posts@, packs@))
            =~= notifications@.take(k as int).map_values(
            |f: FeedNotification| subject_choice(f, posts@, packs@),
        ).push(subject_choice(notifications@[k as int], posts@, packs@)));
        k += 1;
    }
    assert(notifications@.take(notifications@.len() as int) =~= notifications@);
    let np = posts.len();
    let nk = packs.len();
    proof {
        assert forall|k: int| 0 <= k < out@.len() implies choice_fits(
            #[trigger] out@[k],
            notifications@[k],
            posts@,
            packs@,
        ) by {
            let f = notifications@[k];
            assert(out@[k] == subject_choice(f, posts@, packs@));
            match f.subject_uri {
                Some(u) => {
                    if f.notification_type == NotificationType::StarterpackJoined {
                        match f.notification.reason_subject {
                            Some(rs) => {
                                lemma_pack_index_range(packs@, rs@);
                                match pack_index(packs@, rs@) {
                                    Some(i) => {
                                        assert(packs@.len() == nk);
                                        assert((i as usize) as int == i);
                                    },
                                    None => {},
                                }
                            },
                            None => {},
                        }
                    } else {
                        lemma_post_index_range(posts@, u@);
                        match post_index(posts@, u@) {
                            Some(i) => {
                                assert(posts@.len() == np);
                                assert((i as usize) as int == i);
                            },
                            None => {},
                        }
                    }
                },
                None => {},
            }
        }
    }
    out
}


/// The groups whose first notification is unread, in order.
pub open spec fn unread_groups(s: Seq<FeedNotification>) -> Seq<FeedNotification>
    decreases s.len(),
{
    if s.len() == 0 {
        s
    } else if s.last().notification.is_read {
        unread_groups(s.drop_last())
    } else {
        unread_groups(s.drop_last()).push(s.last())
    }
}

/// The number of unread groups of a page, as the unread count is reckoned.
pub fn count_unread(items: &[FeedNotification]) -> (r: usize)
    ensures
        r == unread_groups(items@).len(),
{
    let mut n: usize = 0;
    let mut i: usize = 0;
    while i < items.len()
        invariant
            i <= items@.len(),
            n == unread_groups(items@.take(i as int)).len(),
            n <= i,
        decreases items@.len() - i,
    {
        assert(items@.take(i + 1).drop_last() =~= items@.take(i as int));
        assert(items@.take(i + 1).last() == items@[i as int]);
        if !items[i].is_read() {
            n += 1;
        }
        i += 1;
    }
    assert(items@.take(items@.len() as int) =~= items@);
    n
}

} // verus!
