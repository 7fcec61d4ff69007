//! Feed parameters, feed tuning (deduplication and reply filtering) and the
//! pinned-feeds list.
use vstd::prelude::*;
use crate::profiles::ProfileViewBasic;
use crate::text::{
    concat2, decimal, decimal_string, join, join_strings, owned, position_of, str_eq, string_views,
    trim, trim_exec, chars_of,
};

verus! {

/// Pinned feed metadata.
#[derive(Debug, Clone, PartialEq, Eq)]
pub struct PinnedFeed {
    /// AT URI of the feed (for custom feeds) or special identifier (like "following")
    pub uri: String,
    /// Display name of the feed
    pub display_name: Option<String>,
    /// Feed type for UI differentiation
    pub feed_type: Option<PinnedFeedType>,
    /// Position in the pinned feeds list (0-indexed)
    pub position: usize,
    /// Timestamp when the feed was pinned
    pub pinned_at: Option<String>,
}

/// Type of pinned feed.
#[derive(Debug, Clone, Copy, PartialEq, Eq)]
pub enum PinnedFeedType {
    /// Following/timeline feed
    Following,
    /// Custom algorithm feed
    Custom,
    /// List feed
    List,
    /// Hashtag feed
    Hashtag,
}

impl PinnedFeed {
    /// Creates a pinned feed entry at the given position, with no optional metadata.
    pub fn new(uri: &str, position: usize) -> (r: Self)
        ensures
            r.uri@ == uri@,
            r.position == position,
            r.display_name is None,
            r.feed_type is None,
            r.pinned_at is None,
    {
        PinnedFeed { uri: owned(uri), display_name: None, feed_type: None, position, pinned_at: None }
    }

    /// Sets the display name.
    pub fn with_display_name(self, name: &str) -> (r: Self)
        ensures
            r.display_name is Some && r.display_name.unwrap()@ == name@,
            r.uri == self.uri,
            r.feed_type == self.feed_type,
            r.position == self.position,
            r.pinned_at == self.pinned_at,
    {
        let mut s = self;
        s.display_name = Some(owned(name));
        s
    }

    /// Sets the feed type.
    pub fn with_type(self, feed_type: PinnedFeedType) -> (r: Self)
        ensures
            r.feed_type == Some(feed_type),
            r.uri == self.uri,
            r.display_name == self.display_name,
            r.position == self.position,
            r.pinned_at == self.pinned_at,
    {
        let mut s = self;
        s.feed_type = Some(feed_type);
        s
    }

    /// Sets the pin timestamp.
    pub fn with_timestamp(self, timestamp: &str) -> (r: Self)
        ensures
            r.pinned_at is Some && r.pinned_at.unwrap()@ == timestamp@,
            r.uri == self.uri,
            r.display_name == self.display_name,
            r.feed_type == self.feed_type,
            r.position == self.position,
    {
        let mut s = self;
        s.pinned_at = Some(owned(timestamp));
        s
    }
}

/// Errors that can occur during pinned feeds operations.
#[derive(Debug)]
pub enum PinnedFeedsError {
    /// Feed is already pinned
    AlreadyPinned(String),
    /// Feed is not pinned
    NotPinned(String),
    /// Invalid index for reordering
    InvalidIndex(usize),
    /// Maximum pinned feeds limit reached
    LimitReached(usize),
    /// Invalid feed URI
    InvalidUri(String),
}

/// Result type for pinned feeds operations.
pub type PinnedFeedsResult<T> = Result<T, PinnedFeedsError>;

impl PinnedFeedsError {
    /// The error message.
    pub fn to_string(&self) -> (r: String)
        ensures
            match self {
                PinnedFeedsError::AlreadyPinned(u) => r@ == "Feed is already pinned: "@ + u@,
                PinnedFeedsError::NotPinned(u) => r@ == "Feed is not pinned: "@ + u@,
                PinnedFeedsError::InvalidIndex(i) => r@ == "Invalid index: "@ + decimal(*i as nat),
                PinnedFeedsError::LimitReached(m) => r@ == "Maximum pinned feeds limit reached (max: "@
                    + decimal(*m as nat) + ")"@,
                PinnedFeedsError::InvalidUri(u) => r@ == "Invalid feed URI: "@ + u@,
            },
    {
        match self {
            PinnedFeedsError::AlreadyPinned(u) => concat2("Feed is already pinned: ", u.as_str()),
            PinnedFeedsError::NotPinned(u) => concat2("Feed is not pinned: ", u.as_str()),
            PinnedFeedsError::InvalidIndex(i) => {
                let d = decimal_string(*i as u64);
                concat2("Invalid index: ", d.as_str())
            },
            PinnedFeedsError::LimitReached(m) => {
                let d = decimal_string(*m as u64);
                let mut s = concat2("Maximum pinned feeds limit reached (max: ", d.as_str());
                s.append(")");
                s
            },
            PinnedFeedsError::InvalidUri(u) => concat2("Invalid feed URI: ", u.as_str()),
        }
    }
}

/// Manager for the ordered list of pinned feeds.
pub struct PinnedFeedsManager {
    /// List of pinned feed URIs in order
    pinned_uris: Vec<String>,
    /// Maximum number of pinned feeds allowed
    max_pinned: usize,
}

/// Default maximum number of pinned feeds.
pub const DEFAULT_MAX_PINNED: usize = 20;

impl PinnedFeedsManager {
    /// The pinned feed URIs, in order.
    pub closed spec fn uris(&self) -> Seq<Seq<char>> {
        string_views(self.pinned_uris@)
    }

    /// The largest number of feeds that `pin` lets the list reach.
    pub closed spec fn max(&self) -> nat {
        self.max_pinned as nat
    }

    /// Default maximum number of pinned feeds.
    pub const DEFAULT_MAX_PINNED: usize = 20;

    /// Creates an empty manager with the default maximum of 20.
    pub fn new() -> (r: Self)
        ensures
            r.uris() == Seq::<Seq<char>>::empty(),
            r.max() == 20,
    {
        let r = PinnedFeedsManager { pinned_uris: Vec::new(), max_pinned: DEFAULT_MAX_PINNED };
        assert(r.uris() =~= Seq::<Seq<char>>::empty());
        r
    }

    /// Creates an empty manager with a custom maximum.
    pub fn with_max(max_pinned: usize) -> (r: Self)
        ensures
            r.uris() == Seq::<Seq<char>>::empty(),
            r.max() == max_pinned,
    {
        let r = PinnedFeedsManager { pinned_uris: Vec::new(), max_pinned };
        assert(r.uris() =~= Seq::<Seq<char>>::empty());
        r
    }

    /// Creates a manager holding `uris` as they are, with the default maximum.
    pub fn from_uris(uris: Vec<String>) -> (r: Self)
        ensures
            r.uris() == string_views(uris@),
            r.max() == 20,
    {
        PinnedFeedsManager { pinned_uris: uris, max_pinned: DEFAULT_MAX_PINNED }
    }

    /// The maximum number of pinned feeds.
    pub fn max_pinned(&self) -> (r: usize)
        ensures
            r == self.max(),
    {
        self.max_pinned
    }

    /// Pins a feed at the end of the list.
    ///
    /// Fails with `InvalidUri` when `uri` is empty or whitespace, with `AlreadyPinned`
    /// when it is in the list, and with `LimitReached` when the list is full.
    pub fn pin(&mut self, uri: &str) -> (r: PinnedFeedsResult<()>)
        ensures
            final(self).max() == old(self).max(),
            trim(uri@).len() == 0 ==> (r matches Err(PinnedFeedsError::InvalidUri(u)) && u@ == uri@),
            trim(uri@).len() != 0 && old(self).uris().contains(uri@) ==> (
                r matches Err(PinnedFeedsError::AlreadyPinned(u)) && u@ == uri@),
            trim(uri@).len() != 0 && !old(self).uris().contains(uri@) && old(self).uris().len()
                >= old(self).max() ==> (r matches Err(PinnedFeedsError::LimitReached(m)) && m
                == old(self).max()),
            r is Ok <==> (trim(uri@).len() != 0 && !old(self).uris().contains(uri@)
                && old(self).uris().len() < old(self).max()),
            r is Ok ==> final(self).uris() == old(self).uris().push(uri@),
            r is Err ==> final(self).uris() == old(self).uris(),
    {
        let cs = chars_of(uri);
        let t = trim_exec(cs.as_slice());
        if t.len() == 0 {
            return Err(PinnedFeedsError::InvalidUri(owned(uri)));
        }
        if position_of(self.pinned_uris.as_slice(), uri).is_some() {
            return Err(PinnedFeedsError::AlreadyPinned(owned(uri)));
        }
        if self.pinned_uris.len() >= self.max_pinned {
            return Err(PinnedFeedsError::LimitReached(self.max_pinned));
        }
        let ghost before = self.pinned_uris@;
        self.pinned_uris.push(owned(uri));
        assert(string_views(self.pinned_uris@) =~= string_views(before).push(uri@));
        Ok(())
    }

    /// Unpins a feed: removes its first occurrence; fails with `NotPinned` when it is absent.
    pub fn unpin(&mut self, uri: &str) -> (r: PinnedFeedsResult<()>)
        ensures
            final(self).max() == old(self).max(),
            r is Ok <==> old(self).uris().contains(uri@),
            r is Err ==> (r matches Err(PinnedFeedsError::NotPinned(u)) && u@ == uri@),
            r is Err ==> final(self).uris() == old(self).uris(),
            r is Ok ==> exists|i: int|
                0 <= i < old(self).uris().len() && old(self).uris()[i] == uri@ && (forall|j: int|
                    0 <= j < i ==> old(self).uris()[j] != uri@) && final(self).uris()
                    == old(self).uris().remove(i),
    {
        match position_of(self.pinned_uris.as_slice(), uri) {
            None => Err(PinnedFeedsError::NotPinned(owned(uri))),
            Some(pos) => {
                let ghost before = self.pinned_uris@;
                self.pinned_uris.remove(pos);
                assert(string_views(self.pinned_uris@) =~= string_views(before).remove(pos as int));
                assert(string_views(before)[pos as int] == uri@);
                assert(0 <= pos < old(self).uris().len() && old(self).uris()[pos as int] == uri@
                    && (forall|j: int| 0 <= j < pos ==> old(self).uris()[j] != uri@)
                    && self.uris() == old(self).uris().remove(pos as int));
                Ok(())
            },
        }
    }

    /// Whether a feed is pinned.
    pub fn is_pinned(&self, uri: &str) -> (r: bool)
        ensures
            r == self.uris().contains(uri@),
    {
        position_of(self.pinned_uris.as_slice(), uri).is_some()
    }

    /// The position (0-indexed) of the first occurrence of a feed, if it is pinned.
    pub fn position(&self, uri: &str) -> (r: Option<usize>)
        ensures
            match r {
                Some(i) => i < self.uris().len() && self.uris()[i as int] == uri@ && forall|j: int|
                    0 <= j < i ==> self.uris()[j] != uri@,
                None => !self.uris().contains(uri@),
            },
    {
        position_of(self.pinned_uris.as_slice(), uri)
    }

    /// All pinned feed URIs in order.
    pub fn list(&self) -> (r: &[String])
        ensures
            string_views(r@) == self.uris(),
    {
        self.pinned_uris.as_slice()
    }

    /// The number of pinned feeds.
    pub fn count(&self) -> (r: usize)
        ensures
            r == self.uris().len(),
    {
        self.pinned_uris.len()
    }

    /// Whether no feed is pinned.
    pub fn is_empty(&self) -> (r: bool)
        ensures
            r == (self.uris().len() == 0),
    {
        self.pinned_uris.len() == 0
    }

    /// Moves the feed at `from_index` to `to_index`; fails with `InvalidIndex` (naming
    /// `from_index` first, then `to_index`) when an index is out of bounds.
    pub fn reorder(&mut self, from_index: usize, to_index: usize) -> (r: PinnedFeedsResult<()>)
        ensures
            final(self).max() == old(self).max(),
            r is Ok <==> (from_index < old(self).uris().len() && to_index < old(self).uris().len()),
            from_index >= old(self).uris().len() ==> (r matches Err(
                PinnedFeedsError::InvalidIndex(i),
            ) && i == from_index),
            from_index < old(self).uris().len() && to_index >= old(self).uris().len() ==> (
                r matches Err(PinnedFeedsError::InvalidIndex(i)) && i == to_index),
            r is Err ==> final(self).uris() == old(self).uris(),
            r is Ok ==> final(self).uris() == reordered(old(self).uris(), from_index as int, to_index as int),
    {
        if from_index >= self.pinned_uris.len() {
            return Err(PinnedFeedsError::InvalidIndex(from_index));
        }
        if to_index >= self.pinned_uris.len() {
            return Err(PinnedFeedsError::InvalidIndex(to_index));
        }
        let ghost before = self.pinned_uris@;
        let feed = self.pinned_uris.remove(from_index);
        self.pinned_uris.insert(to_index, feed);
        assert(string_views(self.pinned_uris@) =~= reordered(string_views(before), from_index as int, to_index as int));
        Ok(())
    }

    /// Removes every pinned feed.
    pub fn clear(&mut self)
        ensures
            final(self).uris() == Seq::<Seq<char>>::empty(),
            final(self).max() == old(self).max(),
    {
        self.pinned_uris.clear();
        assert(string_views(self.pinned_uris@) =~= Seq::<Seq<char>>::empty());
    }

    /// A copy of the pinned feed URIs, for persistence.
    pub fn export(&self) -> (r: Vec<String>)
        ensures
            string_views(r@) == self.uris(),
    {
        let r = self.pinned_uris.clone();
        assert(string_views(r@) =~= string_views(self.pinned_uris@));
        r
    }

    /// Replaces all pinned feeds with `uris`.
    pub fn import(&mut self, uris: Vec<String>)
        ensures
            final(self).uris() == string_views(uris@),
            final(self).max() == old(self).max(),
    {
        self.pinned_uris = uris;
    }

    /// Unpins the feed when it is pinned, pins it otherwise; returns whether it is now pinned.
    pub fn toggle(&mut self, uri: &str) -> (r: PinnedFeedsResult<bool>)
        ensures
            final(self).max() == old(self).max(),
            old(self).uris().contains(uri@) ==> (r matches Ok(false) && exists|i: int|
                0 <= i < old(self).uris().len() && old(self).uris()[i] == uri@ && (forall|j: int|
                    0 <= j < i ==> old(self).uris()[j] != uri@) && final(self).uris()
                    == old(self).uris().remove(i)),
            !old(self).uris().contains(uri@) && trim(uri@).len() == 0 ==> (r matches Err(
                PinnedFeedsError::InvalidUri(u),
            ) && u@ == uri@ && final(self).uris() == old(self).uris()),
            !old(self).uris().contains(uri@) && trim(uri@).len() != 0 && old(self).uris().len()
                >= old(self).max() ==> (r matches Err(PinnedFeedsError::LimitReached(m)) && m
                == old(self).max() && final(self).uris() == old(self).uris()),
            !old(self).uris().contains(uri@) && trim(uri@).len() != 0 && old(self).uris().len()
                < old(self).max() ==> (r matches Ok(true) && final(self).uris() == old(
                self,
            ).uris().push(uri@)),
    {
        if self.is_pinned(uri) {
            match self.unpin(uri) {
                Ok(()) => Ok(false),
                Err(e) => Err(e),
            }
        } else {
            match self.pin(uri) {
                Ok(()) => Ok(true),
                Err(e) => Err(e),
            }
        }
    }

    /// Swaps a feed with the one above it; does nothing when it is first.
    /// Fails with `NotPinned` when the feed is absent.
    pub fn move_up(&mut self, uri: &str) -> (r: PinnedFeedsResult<()>)
        ensures
            final(self).max() == old(self).max(),
            r is Ok <==> old(self).uris().contains(uri@),
            r is Err ==> (r matches Err(PinnedFeedsError::NotPinned(u)) && u@ == uri@
                && final(self).uris() == old(self).uris()),
            r is Ok ==> exists|i: int|
                0 <= i < old(self).uris().len() && old(self).uris()[i] == uri@ && (forall|j: int|
                    0 <= j < i ==> old(self).uris()[j] != uri@) && final(self).uris() == (if i > 0 {
                    reordered(old(self).uris(), i, i - 1)
                } else {
                    old(self).uris()
                }),
    {
        match self.position(uri) {
            None => Err(PinnedFeedsError::NotPinned(owned(uri))),
            Some(pos) => {
                if pos > 0 {
                    let r = self.reorder(pos, pos - 1);
                    assert(r is Ok);
                }
                Ok(())
            },
        }
    }

    /// Swaps a feed with the one below it; does nothing when it is last.
    /// Fails with `NotPinned` when the feed is absent.
    pub fn move_down(&mut self, uri: &str) -> (r: PinnedFeedsResult<()>)
        ensures
            final(self).max() == old(self).max(),
            r is Ok <==> old(self).uris().contains(uri@),
            r is Err ==> (r matches Err(PinnedFeedsError::NotPinned(u)) && u@ == uri@
                && final(self).uris() == old(self).uris()),
            r is Ok ==> exists|i: int|
                0 <= i < old(self).uris().len() && old(self).uris()[i] == uri@ && (forall|j: int|
                    0 <= j < i ==> old(self).uris()[j] != uri@) && final(self).uris() == (if i + 1
                    < old(self).uris().len() {
                    reordered(old(self).uris(), i, i + 1)
                } else {
                    old(self).uris()
                }),
    {
        match self.position(uri) {
            None => Err(PinnedFeedsError::NotPinned(owned(uri))),
            Some(pos) => {
                if pos < self.pinned_uris.len() - 1 {
                    let r = self.reorder(pos, pos + 1);
                    assert(r is Ok);
                }
                Ok(())
            },
        }
    }
}

impl Default for PinnedFeedsManager {
    fn default() -> (r: Self)
        ensures
            r.uris() == Seq::<Seq<char>>::empty(),
            r.max() == 20,
    {
        Self::new()
    }
}

/// `s` with the element at `from` taken out and put back at `to`.
pub open spec fn reordered<A>(s: Seq<A>, from: int, to: int) -> Seq<A> {
    s.remove(from).insert(to, s[from])
}

} // verus!

verus! {

/// Moving an element from `from` to `to` and back again restores the list
/// (so `move_down` undoes `move_up`, and `reorder(to, from)` undoes `reorder(from, to)`).
pub proof fn law_reorder_inverse<A>(s: Seq<A>, from: int, to: int)
    requires
        0 <= from < s.len(),
        0 <= to < s.len(),
    ensures
        reordered(reordered(s, from, to), to, from) == s,
{
    let r = reordered(s, from, to);
    assert(r.remove(to) =~= s.remove(from));
    assert(r[to] == s[from]);
    assert(s.remove(from).insert(from, s[from]) =~= s);
}

/// Reordering never adds, drops or duplicates a feed: the multiset of entries is unchanged.
pub proof fn law_reorder_permutes<A>(s: Seq<A>, from: int, to: int)
    requires
        0 <= from < s.len(),
        0 <= to < s.len(),
    ensures
        reordered(s, from, to).to_multiset() == s.to_multiset(),
        reordered(s, from, to).len() == s.len(),
{
    broadcast use vstd::seq_lib::group_to_multiset_ensures;
    let r = reordered(s, from, to);
    let x = s[from];
    assert(r.remove(to) =~= s.remove(from));
    assert(r[to] == x);
    let m1 = r.to_multiset();
    let m2 = s.to_multiset();
    assert(m1.remove(x) =~= m2.remove(x));
    assert(r.contains(x)) by {
        assert(r[to] == x);
    }
    assert(s.contains(x)) by {
        assert(s[from] == x);
    }
    assert(m1.count(x) > 0);
    assert(m2.count(x) > 0);
    assert(m1 =~= m2) by {
        assert forall|a: A| m1.count(a) == m2.count(a) by {
            if a == x {
                assert(m1.remove(x).count(x) == m1.count(x) - 1);
                assert(m2.remove(x).count(x) == m2.count(x) - 1);
            } else {
                assert(m1.remove(x).count(a) == m1.count(a));
                assert(m2.remove(x).count(a) == m2.count(a));
            }
        }
    }
}

/// Unpinning a feed right after pinning it restores the list: a successful `pin`
/// appends the feed, and `unpin` removes its first occurrence, which is that one.
pub proof fn law_unpin_undoes_pin(s: Seq<Seq<char>>, uri: Seq<char>, i: int)
    requires
        !s.contains(uri),
        0 <= i < s.len() + 1,
        s.push(uri)[i] == uri,
        forall|j: int| 0 <= j < i ==> s.push(uri)[j] != uri,
    ensures
        s.push(uri).remove(i) == s,
{
    if i < s.len() {
        assert(s[i] == uri);
        assert(s.contains(uri));
    }
    assert(s.push(uri).remove(i) =~= s);
}

/// Pinning keeps the list free of duplicates: `pin` only appends a feed that is absent.
pub proof fn law_pin_keeps_unique(s: Seq<Seq<char>>, uri: Seq<char>)
    requires
        s.no_duplicates(),
        !s.contains(uri),
    ensures
        s.push(uri).no_duplicates(),
{
    let t = s.push(uri);
    assert forall|i: int, j: int| 0 <= i < t.len() && 0 <= j < t.len() && i != j implies t[i]
        != t[j] by {
        if i < s.len() && j < s.len() {
        } else if i == s.len() {
            assert(t[j] == s[j]);
        } else {
            assert(t[i] == s[i]);
        }
    }
}

} // verus!

verus! {

/// Errors that can occur during feed operations.
#[derive(Debug)]
pub enum FeedError {
    /// Network or API error
    ApiError(String),
    /// JSON parsing error
    ParseError(serde_json::Error),
    /// Lock error
    LockError,
}

impl FeedError {
    /// The error message.
    pub fn to_string(&self) -> (r: String)
        ensures
            match self {
                FeedError::ApiError(m) => r@ == "API error: "@ + m@,
                FeedError::ParseError(_) => true,
                FeedError::LockError => r@ == "Lock error"@,
            },
    {
        match self {
            FeedError::ApiError(m) => concat2("API error: ", m.as_str()),
            FeedError::ParseError(e) => {
                let m = crate::json::json_error_message(e);
                concat2("Parse error: ", m.as_str())
            },
            FeedError::LockError => owned("Lock error"),
        }
    }
}

/// Viewer's state relative to a post.
#[derive(Debug, Clone, PartialEq, Eq)]
pub struct ViewerState {
    /// URI of the viewer's like, if they liked this post
    pub like: Option<String>,
    /// URI of the viewer's repost, if they reposted this post
    pub repost: Option<String>,
    /// Whether the viewer has muted this thread
    pub thread_muted: Option<bool>,
    /// Whether the post is embedded as a quote
    pub embedding_disabled: Option<bool>,
    /// Whether the viewer is pinned
    pub pinned: Option<bool>,
}

/// Label applied to content for moderation.
#[derive(Debug, Clone, PartialEq, Eq)]
pub struct Label {
    /// Version of the label schema
    pub ver: Option<u32>,
    /// Source DID that created the label
    pub src: String,
    /// URI of the labeled content
    pub uri: String,
    /// CID of the labeled content (optional)
    pub cid: Option<String>,
    /// The label value
    pub val: String,
    /// Negation flag
    pub neg: Option<bool>,
    /// When the label was created
    pub cts: Option<String>,
    /// Expiration time
    pub exp: Option<String>,
    /// Signature
    pub sig: Option<Vec<u8>>,
}

/// A post view in a feed.
#[derive(Debug, Clone, PartialEq)]
pub struct PostView {
    /// URI of the post
    pub uri: String,
    /// CID of the post
    pub cid: String,
    /// Author of the post
    pub author: ProfileViewBasic,
    /// Post record (text, facets, etc.)
    pub record: serde_json::Value,
    /// Embed content (images, videos, quotes, etc.)
    pub embed: Option<serde_json::Value>,
    /// Reply count
    pub reply_count: Option<u32>,
    /// Repost count
    pub repost_count: Option<u32>,
    /// Like count
    pub like_count: Option<u32>,
    /// Quote count
    pub quote_count: Option<u32>,
    /// Timestamp when indexed
    pub indexed_at: String,
    /// Viewer state (like URI, repost URI, etc.)
    pub viewer: Option<ViewerState>,
    /// Labels applied to the post
    pub labels: Option<Vec<Label>>,
    /// Thread gate (who can reply)
    pub threadgate: Option<serde_json::Value>,
}

/// Reply reference in a feed post.
#[derive(Debug, Clone, PartialEq)]
pub struct ReplyRef {
    /// Root post in the thread
    pub root: ReplyRefPost,
    /// Immediate parent post
    pub parent: ReplyRefPost,
    /// Grandparent author (if available)
    pub grandparent_author: Option<ProfileViewBasic>,
}

/// Post reference in a reply chain (a full post or a stub).
#[derive(Debug, Clone, PartialEq)]
pub enum ReplyRefPost {
    /// Full post view
    PostView(Box<PostView>),
    /// Not found stub
    NotFoundPost(NotFoundPost),
    /// Blocked post stub
    BlockedPost(BlockedPost),
}

/// Stub for a post that wasn't found.
#[derive(Debug, Clone, PartialEq, Eq)]
pub struct NotFoundPost {
    /// URI of the not found post
    pub uri: String,
    /// Indicates this is a not found post
    pub not_found: bool,
}

/// Stub for a blocked post.
#[derive(Debug, Clone, PartialEq, Eq)]
pub struct BlockedPost {
    /// URI of the blocked post
    pub uri: String,
    /// Indicates this is blocked
    pub blocked: bool,
    /// Author of the blocked post
    pub author: BlockedAuthor,
}

/// Author of a blocked post.
#[derive(Debug, Clone, PartialEq, Eq)]
pub struct BlockedAuthor {
    /// DID of the blocked author
    pub did: String,
    /// Viewer state showing block
    pub viewer: Option<serde_json::Value>,
}

/// Reason a post appears in the feed.
#[derive(Debug, Clone, PartialEq)]
pub enum FeedReason {
    /// Post was reposted by someone
    Repost {
        /// The user who reposted
        by: Box<ProfileViewBasic>,
        /// When it was reposted
        indexed_at: String,
    },
    /// Post was pinned
    Pin,
}

/// A post in a feed with context.
#[derive(Debug, Clone, PartialEq)]
pub struct FeedViewPost {
    /// The post itself
    pub post: PostView,
    /// Reply context (parent/root posts)
    pub reply: Option<ReplyRef>,
    /// Reason this post appears in the feed
    pub reason: Option<FeedReason>,
    /// Feed-specific context string
    pub feed_context: Option<String>,
}

/// Parameters for fetching a feed.
#[derive(Debug, Clone)]
pub struct FeedParams {
    /// Pagination cursor
    pub cursor: Option<String>,
    /// Number of items to fetch (default 50, max 100)
    pub limit: u32,
}

impl Default for FeedParams {
    fn default() -> (r: Self)
        ensures
            r.cursor is None,
            r.limit == 0,
    {
        FeedParams { cursor: None, limit: 0 }
    }
}

/// Response from fetching a feed.
#[derive(Debug, Clone)]
pub struct FeedResponse {
    /// Cursor for pagination (next page)
    pub cursor: Option<String>,
    /// Feed posts
    pub feed: Vec<FeedViewPost>,
}

/// Feed ranking/sorting options.
#[derive(Debug, Clone, Copy, PartialEq, Eq)]
pub enum FeedSort {
    /// Reverse chronological (newest first)
    ReverseChronological,
    /// Algorithmic ranking
    Algorithmic,
}

/// Deduplication strategy for feed items.
#[derive(Debug, Clone, Copy, PartialEq, Eq)]
pub enum DedupeStrategy {
    /// No deduplication
    Disabled,
    /// Dedupe by post URI
    ByUri,
    /// Dedupe by thread root URI (show only latest in thread)
    ByThread,
}

/// Viewer state for a feed generator.
#[derive(Debug, Clone, PartialEq, Eq)]
pub struct GeneratorViewerState {
    /// URI of viewer's like if they liked this feed
    pub like: Option<String>,
}

/// Feed generator view (custom algorithm feed).
#[derive(Debug, Clone, PartialEq)]
pub struct GeneratorView {
    /// URI of the feed generator
    pub uri: String,
    /// CID of the feed generator record
    pub cid: String,
    /// DID of the creator
    pub did: String,
    /// Creator profile
    pub creator: ProfileViewBasic,
    /// Display name of the feed
    pub display_name: String,
    /// Description of the feed
    pub description: Option<String>,
    /// Description facets (links, mentions, etc.)
    pub description_facets: Option<Vec<serde_json::Value>>,
    /// Avatar image URL
    pub avatar: Option<String>,
    /// Number of likes
    pub like_count: Option<u32>,
    /// Whether this feed accepts interactions
    pub accepts_interactions: Option<bool>,
    /// Labels applied to the feed
    pub labels: Option<Vec<Label>>,
    /// Viewer state for this feed
    pub viewer: Option<GeneratorViewerState>,
    /// When the feed was indexed
    pub indexed_at: String,
}

/// Feed preferences.
#[derive(Debug, Clone, PartialEq, Eq)]
pub struct FeedPreferences {
    /// User's language preferences for content
    pub content_languages: Option<Vec<String>>,
    /// User's interests/topics
    pub interests: Option<Vec<String>>,
}

impl Default for FeedPreferences {
    fn default() -> (r: Self)
        ensures
            r.content_languages is None,
            r.interests is None,
    {
        FeedPreferences { content_languages: None, interests: None }
    }
}

/// The comma-joined header value for an optional list (empty when absent).
pub open spec fn header_value(v: Option<Vec<String>>) -> Seq<char> {
    match v {
        Some(l) => join(string_views(l@), ","@),
        None => Seq::empty(),
    }
}

impl FeedPreferences {
    /// Preferences with content languages only.
    pub fn with_languages(languages: Vec<String>) -> (r: Self)
        ensures
            r.content_languages == Some(languages),
            r.interests is None,
    {
        FeedPreferences { content_languages: Some(languages), interests: None }
    }

    /// Preferences with interests only.
    pub fn with_interests(interests: Vec<String>) -> (r: Self)
        ensures
            r.content_languages is None,
            r.interests == Some(interests),
    {
        FeedPreferences { content_languages: None, interests: Some(interests) }
    }

    /// Content languages joined with commas (empty when there are none).
    pub fn content_languages_header(&self) -> (r: String)
        ensures
            r@ == header_value(self.content_languages),
    {
        match &self.content_languages {
            Some(l) => join_strings(l.as_slice(), ","),
            None => String::new(),
        }
    }

    /// Interests joined with commas (empty when there are none).
    pub fn interests_header(&self) -> (r: String)
        ensures
            r@ == header_value(self.interests),
    {
        match &self.interests {
            Some(l) => join_strings(l.as_slice(), ","),
            None => String::new(),
        }
    }
}

/// Sort order for hashtag feed results.
#[derive(Debug, Clone, Copy, PartialEq, Eq)]
pub enum HashtagFeedSort {
    /// Most relevant results first (default)
    Top,
    /// Most recent results first
    Latest,
}

impl Default for HashtagFeedSort {
    fn default() -> (r: Self)
        ensures
            r == HashtagFeedSort::Top,
    {
        HashtagFeedSort::Top
    }
}

impl HashtagFeedSort {
    /// The API's name for the sort order.
    pub fn as_str(&self) -> (r: &'static str)
        ensures
            r@ == (match self {
                HashtagFeedSort::Top => "top"@,
                HashtagFeedSort::Latest => "latest"@,
            }),
    {
        match self {
            HashtagFeedSort::Top => "top",
            HashtagFeedSort::Latest => "latest",
        }
    }
}

/// Parameters for fetching a hashtag feed.
#[derive(Debug, Clone)]
pub struct HashtagFeedParams {
    /// Hashtag to search for (stored without a leading `#`)
    pub hashtag: String,
    /// Pagination cursor
    pub cursor: Option<String>,
    /// Number of items to fetch (default 50, max 100)
    pub limit: u32,
    /// Sort order for results
    pub sort: HashtagFeedSort,
}

/// The hashtag as stored: one leading `#` removed, if there is one.
pub open spec fn strip_hash(s: Seq<char>) -> Seq<char> {
    if s.len() > 0 && s[0] == '#' {
        s.drop_first()
    } else {
        s
    }
}

impl HashtagFeedParams {
    /// Parameters for a hashtag (with or without its `#`): no cursor, a limit of 50, top first.
    pub fn new(hashtag: &str) -> (r: Self)
        ensures
            r.hashtag@ == strip_hash(hashtag@),
            r.cursor is None,
            r.limit == 50,
            r.sort == HashtagFeedSort::Top,
    {
        let cs = chars_of(hashtag);
        let tag = if cs.len() > 0 && cs[0] == '#' {
            let mut v: Vec<char> = Vec::new();
            let mut i: usize = 1;
            while i < cs.len()
                invariant
                    1 <= i <= cs.len(),
                    cs@.len() > 0,
                    v@ == cs@.subrange(1, i as int),
                decreases cs.len() - i,
            {
                v.push(cs[i]);
                assert(cs@.subrange(1, i as int).push(cs@[i as int]) =~= cs@.subrange(1, i + 1));
                i += 1;
            }
            assert(cs@.subrange(1, cs@.len() as int) =~= cs@.drop_first());
            crate::text::string_of(v.as_slice())
        } else {
            owned(hashtag)
        };
        HashtagFeedParams { hashtag: tag, cursor: None, limit: 50, sort: HashtagFeedSort::Top }
    }

    /// Sets the pagination cursor.
    pub fn with_cursor(self, cursor: Option<String>) -> (r: Self)
        ensures
            r.cursor == cursor,
            r.hashtag == self.hashtag,
            r.limit == self.limit,
            r.sort == self.sort,
    {
        let mut s = self;
        s.cursor = cursor;
        s
    }

    /// Sets the result limit, capped at 100.
    pub fn with_limit(self, limit: u32) -> (r: Self)
        ensures
            r.limit == crate::profiles::capped_limit(limit),
            r.hashtag == self.hashtag,
            r.cursor == self.cursor,
            r.sort == self.sort,
    {
        let mut s = self;
        s.limit = crate::profiles::cap_limit(limit);
        s
    }

    /// Sets the sort order.
    pub fn with_sort(self, sort: HashtagFeedSort) -> (r: Self)
        ensures
            r.sort == sort,
            r.hashtag == self.hashtag,
            r.cursor == self.cursor,
            r.limit == self.limit,
    {
        let mut s = self;
        s.sort = sort;
        s
    }

    /// The search query for the hashtag feed: `#` then the trimmed hashtag; a blank
    /// hashtag is refused before any request is made.
    pub fn search_query(&self) -> (r: Result<String, FeedError>)
        ensures
            trim(self.hashtag@).len() == 0 ==> (r matches Err(FeedError::ApiError(m)) && m@
                == "Hashtag cannot be empty"@),
            trim(self.hashtag@).len() != 0 ==> (r matches Ok(q) && q@ == "#"@ + trim(
                self.hashtag@,
            )),
    {
        let cs = chars_of(self.hashtag.as_str());
        let t = trim_exec(cs.as_slice());
        if t.len() == 0 {
            return Err(FeedError::ApiError(owned("Hashtag cannot be empty")));
        }
        let ts = crate::text::string_of(t.as_slice());
        Ok(concat2("#", ts.as_str()))
    }
}

} // verus!

verus! {

/// The elements of `s` at the indices where `keep` holds, in order.
pub open spec fn select<T>(s: Seq<T>, keep: spec_fn(int) -> bool) -> Seq<T>
    decreases s.len(),
{
    if s.len() == 0 {
        Seq::empty()
    } else {
        let r = select(s.drop_last(), keep);
        if keep(s.len() - 1) {
            r.push(s.last())
        } else {
            r
        }
    }
}

/// The URI of the post that a reply-chain entry refers to.
pub open spec fn ref_uri(r: ReplyRefPost) -> Seq<char> {
    match r {
        ReplyRefPost::PostView(p) => p.uri@,
        ReplyRefPost::NotFoundPost(n) => n.uri@,
        ReplyRefPost::BlockedPost(b) => b.uri@,
    }
}

/// The key that deduplication compares: the post's URI, or (by thread) the URI of the
/// thread's root, which is the post itself when it is not a reply.
pub open spec fn dedupe_key(p: FeedViewPost, by_thread: bool) -> Seq<char> {
    if by_thread {
        match p.reply {
            Some(r) => ref_uri(r.root),
            None => p.post.uri@,
        }
    } else {
        p.post.uri@
    }
}

/// The keys of a list of posts.
pub open spec fn dedupe_keys(posts: Seq<FeedViewPost>, by_thread: bool) -> Seq<Seq<char>> {
    posts.map_values(|p: FeedViewPost| dedupe_key(p, by_thread))
}

/// Post `k` is kept: its key was not seen before this call nor earlier in this list.
pub open spec fn first_unseen(seen: Set<Seq<char>>, keys: Seq<Seq<char>>, k: int) -> bool {
    &&& !seen.contains(keys[k])
    &&& forall|j: int| 0 <= j < k ==> keys[j] != keys[k]
}

/// What deduplication keeps of `posts` given the keys already seen.
pub open spec fn deduped(seen: Set<Seq<char>>, posts: Seq<FeedViewPost>, by_thread: bool) -> Seq<FeedViewPost> {
    select(posts, |k: int| first_unseen(seen, dedupe_keys(posts, by_thread), k))
}

proof fn lemma_select_none<T>(s: Seq<T>, keep: spec_fn(int) -> bool)
    requires
        forall|k: int| 0 <= k < s.len() ==> !#[trigger] keep(k),
    ensures
        select(s, keep).len() == 0,
    decreases s.len(),
{
    if s.len() > 0 {
        lemma_select_none(s.drop_last(), keep);
    }
}

/// Giving the tuner the same posts a second time shows none of them: once posts have been
/// through deduplication, every key among them counts as seen.
pub proof fn law_dedupe_again_shows_nothing(seen: Set<Seq<char>>, posts: Seq<FeedViewPost>, by_thread: bool)
    ensures
        deduped(seen + dedupe_keys(posts, by_thread).to_set(), posts, by_thread).len() == 0,
{
    let keys = dedupe_keys(posts, by_thread);
    let after = seen + keys.to_set();
    let keep = |k: int| first_unseen(after, keys, k);
    assert forall|k: int| 0 <= k < posts.len() implies !#[trigger] keep(k) by {
        assert(keys.to_set().contains(keys[k]));
    }
    lemma_select_none(posts, keep);
}

proof fn lemma_select_indices<T>(s: Seq<T>, keep: spec_fn(int) -> bool) -> (ix: Seq<int>)
    ensures
        ix.len() == select(s, keep).len(),
        forall|m: int| 0 <= m < ix.len() ==> 0 <= #[trigger] ix[m] < s.len() && keep(ix[m]) && select(s, keep)[m]
            == s[ix[m]],
        forall|m1: int, m2: int| 0 <= m1 < m2 < ix.len() ==> #[trigger] ix[m1] < #[trigger] ix[m2],
    decreases s.len(),
{
    if s.len() == 0 {
        Seq::empty()
    } else {
        let d = s.drop_last();
        let prev = lemma_select_indices(d, keep);
        assert forall|m: int| 0 <= m < prev.len() implies select(d, keep)[m] == s[prev[m]] by {
            assert(d[prev[m]] == s[prev[m]]);
        }
        if keep(s.len() - 1) {
            let ix = prev.push(s.len() - 1);
            assert forall|m: int| 0 <= m < ix.len() implies 0 <= #[trigger] ix[m] < s.len() && keep(ix[m]) && select(
                s,
                keep,
            )[m] == s[ix[m]] by {
                if m < prev.len() {
                    assert(ix[m] == prev[m]);
                }
            }
            assert forall|m1: int, m2: int| 0 <= m1 < m2 < ix.len() implies #[trigger] ix[m1] < #[trigger] ix[m2] by {
                if m2 < prev.len() {
                    assert(ix[m1] == prev[m1] && ix[m2] == prev[m2]);
                } else {
                    assert(ix[m1] == prev[m1]);
                }
            }
            ix
        } else {
            prev
        }
    }
}

/// The tuner shows no post whose key it had seen, and no two posts with the same key.
pub proof fn law_dedupe_shows_each_key_once(seen: Set<Seq<char>>, posts: Seq<FeedViewPost>, by_thread: bool)
    ensures
        forall|m: int|
            0 <= m < deduped(seen, posts, by_thread).len() ==> !seen.contains(
                dedupe_key(#[trigger] deduped(seen, posts, by_thread)[m], by_thread),
            ),
        forall|m1: int, m2: int|
            0 <= m1 < m2 < deduped(seen, posts, by_thread).len() ==> dedupe_key(
                #[trigger] deduped(seen, posts, by_thread)[m1],
                by_thread,
            ) != dedupe_key(#[trigger] deduped(seen, posts, by_thread)[m2], by_thread),
{
    let keys = dedupe_keys(posts, by_thread);
    let keep = |k: int| first_unseen(seen, keys, k);
    let r = deduped(seen, posts, by_thread);
    let ix = lemma_select_indices(posts, keep);
    assert forall|m: int| 0 <= m < r.len() implies !seen.contains(dedupe_key(#[trigger] r[m], by_thread)) by {
        assert(keep(ix[m]));
        assert(keys[ix[m]] == dedupe_key(posts[ix[m]], by_thread));
    }
    assert forall|m1: int, m2: int| 0 <= m1 < m2 < r.len() implies dedupe_key(#[trigger] r[m1], by_thread)
        != dedupe_key(#[trigger] r[m2], by_thread) by {
        assert(ix[m1] < ix[m2]);
        assert(keep(ix[m2]));
        assert(keys[ix[m1]] == dedupe_key(posts[ix[m1]], by_thread));
        assert(keys[ix[m2]] == dedupe_key(posts[ix[m2]], by_thread));
    }
}

/// Feed tuner: remembers which posts and threads it has shown, to drop repeats.
pub struct FeedTuner {
    seen_uris: Vec<String>,
    seen_thread_roots: Vec<String>,
}

impl FeedTuner {
    /// The post URIs shown so far.
    pub closed spec fn seen_uris(&self) -> Set<Seq<char>> {
        string_views(self.seen_uris@).to_set()
    }

    /// The thread roots shown so far.
    pub closed spec fn seen_roots(&self) -> Set<Seq<char>> {
        string_views(self.seen_thread_roots@).to_set()
    }

    /// A tuner that has seen nothing.
    pub fn new() -> (r: Self)
        ensures
            r.seen_uris() == Set::<Seq<char>>::empty(),
            r.seen_roots() == Set::<Seq<char>>::empty(),
    {
        let r = FeedTuner { seen_uris: Vec::new(), seen_thread_roots: Vec::new() };
        assert(r.seen_uris() =~= Set::<Seq<char>>::empty());
        assert(r.seen_roots() =~= Set::<Seq<char>>::empty());
        r
    }

    /// Drops posts whose key (URI, or thread root) was seen before or earlier in `posts`,
    /// keeping the first of each and the order; the kept keys are remembered.
    pub fn dedupe(&mut self, posts: Vec<FeedViewPost>, strategy: DedupeStrategy) -> (r: Vec<FeedViewPost>)
        ensures
            strategy == DedupeStrategy::Disabled ==> r@ == posts@ && final(self).seen_uris() == old(self).seen_uris()
                && final(self).seen_roots() == old(self).seen_roots(),
            strategy == DedupeStrategy::ByUri ==> r@ == deduped(old(self).seen_uris(), posts@, false)
                && final(self).seen_uris() == old(self).seen_uris() + dedupe_keys(posts@, false).to_set()
                && final(self).seen_roots() == old(self).seen_roots(),
            strategy == DedupeStrategy::ByThread ==> r@ == deduped(old(self).seen_roots(), posts@, true)
                && final(self).seen_roots() == old(self).seen_roots() + dedupe_keys(posts@, true).to_set()
                && final(self).seen_uris() == old(self).seen_uris(),
    {
        match strategy {
            DedupeStrategy::Disabled => posts,
            DedupeStrategy::ByUri => dedupe_into(&mut self.seen_uris, posts, false),
            DedupeStrategy::ByThread => dedupe_into(&mut self.seen_thread_roots, posts, true),
        }
    }
}

impl Default for FeedTuner {
    fn default() -> (r: Self)
        ensures
            r.seen_uris() == Set::<Seq<char>>::empty(),
            r.seen_roots() == Set::<Seq<char>>::empty(),
    {
        FeedTuner::new()
    }
}

/// The deduplication key of a post.
fn key_of(p: &FeedViewPost, by_thread: bool) -> (r: &String)
    ensures
        r@ == dedupe_key(*p, by_thread),
{
    if by_thread {
        match &p.reply {
            Some(reply) => match &reply.root {
                ReplyRefPost::PostView(pv) => &pv.uri,
                ReplyRefPost::NotFoundPost(n) => &n.uri,
                ReplyRefPost::BlockedPost(b) => &b.uri,
            },
            None => &p.post.uri,
        }
    } else {
        &p.post.uri
    }
}

proof fn lemma_select_step<T>(s: Seq<T>, keep: spec_fn(int) -> bool, i: int)
    requires
        0 <= i < s.len(),
    ensures
        select(s.take(i + 1), keep) == (if keep(i) {
            select(s.take(i), keep).push(s[i])
        } else {
            select(s.take(i), keep)
        }),
{
    assert(s.take(i + 1).drop_last() =~= s.take(i));
}

/// Keeps the posts whose key is new to `seen`, recording each kept key in `seen`.
fn dedupe_into(seen: &mut Vec<String>, posts: Vec<FeedViewPost>, by_thread: bool) -> (r: Vec<FeedViewPost>)
    ensures
        r@ == deduped(string_views(old(seen)@).to_set(), posts@, by_thread),
        string_views(final(seen)@).to_set() == string_views(old(seen)@).to_set() + dedupe_keys(posts@, by_thread).to_set(),
{
    let ghost ps = posts@;
    let ghost s0 = string_views(seen@).to_set();
    let ghost keys = dedupe_keys(ps, by_thread);
    let ghost keep = |k: int| first_unseen(s0, keys, k);
    let mut out: Vec<FeedViewPost> = Vec::new();
    assert(ps.take(0) =~= Seq::<FeedViewPost>::empty());
    assert(keys.take(0).to_set() =~= Set::<Seq<char>>::empty());
    assert(s0 + keys.take(0).to_set() =~= s0);
    for post in it: posts.into_iter()
        invariant
            it.seq() == ps,
            keys == dedupe_keys(ps, by_thread),
            keep == (|k: int| first_unseen(s0, keys, k)),
            out@ == select(ps.take(it.index() as int), keep),
            string_views(seen@).to_set() == s0 + keys.take(it.index() as int).to_set(),
    {
        let ghost i = it.index() as int;
        proof {
            lemma_select_step(ps, keep, i);
            assert(keys.take(i + 1) =~= keys.take(i).push(keys[i]));
        }
        let key = key_of(&post, by_thread);
        assert(post == ps[i]);
        assert(key@ == keys[i]);
        let found = position_of(seen.as_slice(), key.as_str());
        assert(string_views(seen@).to_set().contains(keys[i]) <==> string_views(seen@).contains(keys[i]));
        if found.is_none() {
            proof {
                assert(keep(i)) by {
                    assert(!s0.contains(keys[i]));
                    assert forall|j: int| 0 <= j < i implies keys[j] != keys[i] by {
                        if keys[j] == keys[i] {
                            assert(keys.take(i)[j] == keys[j]);
                            assert(keys.take(i).to_set().contains(keys[i]));
                        }
                    }
                }
            }
            let k = owned(key.as_str());
            let ghost before = seen@;
            seen.push(k);
            proof {
                assert(string_views(seen@) =~= string_views(before).push(keys[i]));
                string_views(before).lemma_push_to_set_commute(keys[i]);
                keys.take(i).lemma_push_to_set_commute(keys[i]);
                assert(string_views(seen@).to_set() =~= s0 + keys.take(i + 1).to_set());
            }
            out.push(post);
        } else {
            proof {
                assert(string_views(seen@).contains(keys[i]));
                assert(!keep(i)) by {
                    let w = keys[i];
                    assert((s0 + keys.take(i).to_set()).contains(w));
                    if !s0.contains(w) {
                        assert(keys.take(i).contains(w));
                        let j = choose|j: int| 0 <= j < keys.take(i).len() && keys.take(i)[j] == w;
                        assert(keys[j] == w);
                    }
                }
                keys.take(i).lemma_push_to_set_commute(keys[i]);
                assert(keys.take(i + 1).to_set() =~= keys.take(i).to_set().insert(keys[i]));
                assert(string_views(seen@).to_set() =~= s0 + keys.take(i + 1).to_set());
            }
        }
    }
    assert(ps.take(ps.len() as int) =~= ps);
    assert(keys.take(keys.len() as int) =~= keys);
    out
}

} // verus!

verus! {

/// The profile is the user's own or one the user follows.
pub open spec fn is_self_or_following(profile: ProfileViewBasic, user_did: Seq<char>) -> bool {
    profile.did@ == user_did || (profile.viewer is Some && profile.viewer.unwrap().following is Some)
}

/// The author of a reply-chain entry, when the entry is a full post.
pub open spec fn ref_author(r: ReplyRefPost) -> Option<ProfileViewBasic> {
    match r {
        ReplyRefPost::PostView(p) => Some(p.author),
        _ => None,
    }
}

/// `other` is absent or has the same DID as `author`.
pub open spec fn absent_or_same(other: Option<ProfileViewBasic>, author: ProfileViewBasic) -> bool {
    match other {
        Some(o) => o.did@ == author.did@,
        None => true,
    }
}

/// `other` is present and is the user or someone the user follows.
pub open spec fn known_and_followed(other: Option<ProfileViewBasic>, user_did: Seq<char>) -> bool {
    match other {
        Some(o) => is_self_or_following(o, user_did),
        None => false,
    }
}

/// Whether the following feed shows a post: every non-reply; a reply only when its author is
/// the user or followed and, besides, the user follows (or is) the parent author or the root
/// author, or the thread is the author's own (the parent, root and grandparent authors, where
/// known, are the author).
pub open spec fn shows_in_following(p: FeedViewPost, user_did: Seq<char>) -> bool {
    match p.reply {
        None => true,
        Some(reply) => {
            let author = p.post.author;
            let parent = ref_author(reply.parent);
            let root = ref_author(reply.root);
            let gp = reply.grandparent_author;
            is_self_or_following(author, user_did) && ((absent_or_same(parent, author)
                && absent_or_same(root, author) && absent_or_same(gp, author))
                || known_and_followed(parent, user_did) || known_and_followed(root, user_did))
        },
    }
}

/// The following feed never drops a post that is not a reply, whoever wrote it: the posts
/// without a reply context that it shows are exactly those it was given, in order.
pub proof fn law_non_replies_always_shown(posts: Seq<FeedViewPost>, user_did: Seq<char>)
    ensures
        posts.filter(|p: FeedViewPost| shows_in_following(p, user_did)).filter(|p: FeedViewPost| p.reply is None)
            == posts.filter(|p: FeedViewPost| p.reply is None),
    decreases posts.len(),
{
    let shown = |p: FeedViewPost| shows_in_following(p, user_did);
    let plain = |p: FeedViewPost| p.reply is None;
    if posts.len() == 0 {
        assert(posts.filter(shown) =~= Seq::<FeedViewPost>::empty()) by {
            reveal_with_fuel(Seq::filter, 1);
        }
        assert(posts.filter(plain) =~= Seq::<FeedViewPost>::empty()) by {
            reveal_with_fuel(Seq::filter, 1);
        }
        assert(Seq::<FeedViewPost>::empty().filter(plain) =~= Seq::<FeedViewPost>::empty()) by {
            reveal_with_fuel(Seq::filter, 1);
        }
    } else {
        let init = posts.drop_last();
        let x = posts.last();
        law_non_replies_always_shown(init, user_did);
        assert(init.push(x) =~= posts);
        init.lemma_filter_push(x, shown);
        init.lemma_filter_push(x, plain);
        init.filter(shown).lemma_filter_push(x, plain);
    }
}

fn is_self_or_following_exec(profile: &ProfileViewBasic, user_did: &str) -> (r: bool)
    ensures
        r == is_self_or_following(*profile, user_did@),
{
    str_eq(profile.did.as_str(), user_did) || match &profile.viewer {
        Some(v) => v.following.is_some(),
        None => false,
    }
}

fn ref_author_exec(r: &ReplyRefPost) -> (a: Option<&ProfileViewBasic>)
    ensures
        match a {
            Some(x) => ref_author(*r) == Some(*x),
            None => ref_author(*r) is None,
        },
{
    match r {
        ReplyRefPost::PostView(p) => Some(&p.author),
        _ => None,
    }
}

fn absent_or_same_exec(other: Option<&ProfileViewBasic>, author: &ProfileViewBasic) -> (r: bool)
    ensures
        r == absent_or_same(
            match other {
                Some(x) => Some(*x),
                None => None,
            },
            *author,
        ),
{
    match other {
        Some(o) => str_eq(o.did.as_str(), author.did.as_str()),
        None => true,
    }
}

fn known_and_followed_exec(other: Option<&ProfileViewBasic>, user_did: &str) -> (r: bool)
    ensures
        r == known_and_followed(
            match other {
                Some(x) => Some(*x),
                None => None,
            },
            user_did@,
        ),
{
    match other {
        Some(o) => is_self_or_following_exec(o, user_did),
        None => false,
    }
}

fn shows_in_following_exec(p: &FeedViewPost, user_did: &str) -> (r: bool)
    ensures
        r == shows_in_following(*p, user_did@),
{
    match &p.reply {
        None => true,
        Some(reply) => {
            let author = &p.post.author;
            if !is_self_or_following_exec(author, user_did) {
                return false;
            }
            let parent = ref_author_exec(&reply.parent);
            let root = ref_author_exec(&reply.root);
            let gp = match &reply.grandparent_author {
                Some(g) => Some(g),
                None => None,
            };
            if absent_or_same_exec(parent, author) && absent_or_same_exec(root, author)
                && absent_or_same_exec(gp, author) {
                return true;
            }
            known_and_followed_exec(parent, user_did) || known_and_followed_exec(root, user_did)
        },
    }
}

impl FeedTuner {
    /// Keeps, in order, the posts that the following feed shows (see `shows_in_following`).
    pub fn filter_followed_replies_only(&self, posts: Vec<FeedViewPost>, user_did: &str) -> (r: Vec<FeedViewPost>)
        ensures
            r@ == posts@.filter(|p: FeedViewPost| shows_in_following(p, user_did@)),
            r@.filter(|p: FeedViewPost| p.reply is None) == posts@.filter(|p: FeedViewPost| p.reply is None),
    {
        proof {
            law_non_replies_always_shown(posts@, user_did@);
        }
        let ghost ps = posts@;
        let ghost pred = |p: FeedViewPost| shows_in_following(p, user_did@);
        let mut out: Vec<FeedViewPost> = Vec::new();
        assert(ps.take(0).filter(pred) =~= Seq::<FeedViewPost>::empty()) by {
            reveal_with_fuel(Seq::filter, 1);
        }
        for post in it: posts.into_iter()
            invariant
                it.seq() == ps,
                pred == (|p: FeedViewPost| shows_in_following(p, user_did@)),
                out@ == ps.take(it.index() as int).filter(pred),
        {
            let ghost i = it.index() as int;
            assert(post == ps[i]);
            assert(ps.take(i + 1) =~= ps.take(i).push(ps[i]));
            proof {
                ps.take(i).lemma_filter_push(ps[i], pred);
            }
            if shows_in_following_exec(&post, user_did) {
                out.push(post);
            }
        }
        assert(ps.take(ps.len() as int) =~= ps);
        out
    }
}

/// Feed generators whose feeds get the interests header.
pub open spec fn bluesky_feed_owners() -> Seq<Seq<char>> {
    seq!["did:plc:z72i7hdynmk6r22z27h6tvur"@, "did:plc:q6gjnaw2blty4crticxkmujt"@]
}

/// The owner DID part of a feed generator URI: from the first `did:` (or the start)
/// up to the first `/app.bsky.feed.generator/`.
pub open spec fn feed_owner_slice(uri: Seq<char>) -> Seq<char> {
    let end = crate::text::find_spec(uri, "/app.bsky.feed.generator/"@);
    let start = if crate::text::occurs(uri, "did:"@) {
        crate::text::find_spec(uri, "did:"@)
    } else {
        0
    };
    uri.subrange(start, end)
}

/// The DID slice of a generator URI can be taken: the `did:` it starts at (if any)
/// comes no later than the generator path.
pub open spec fn feed_owner_slice_ok(uri: Seq<char>) -> bool {
    crate::text::occurs(uri, "/app.bsky.feed.generator/"@) && crate::text::occurs(uri, "did:"@)
        ==> crate::text::find_spec(uri, "did:"@) <= crate::text::find_spec(
        uri,
        "/app.bsky.feed.generator/"@,
    )
}

/// Whether a custom feed is owned by Bluesky (and so gets the interests header):
/// its generator URI names one of Bluesky's feed-owner DIDs.
pub fn is_bluesky_owned_feed(feed_uri: &str) -> (r: bool)
    requires
        feed_owner_slice_ok(feed_uri@),
    ensures
        r == (crate::text::occurs(feed_uri@, "/app.bsky.feed.generator/"@)
            && bluesky_feed_owners().contains(feed_owner_slice(feed_uri@))),
{
    let s = chars_of(feed_uri);
    let gen = chars_of("/app.bsky.feed.generator/");
    let did = chars_of("did:");
    match crate::text::find(s.as_slice(), gen.as_slice()) {
        None => false,
        Some(end) => {
            let start = match crate::text::find(s.as_slice(), did.as_slice()) {
                Some(i) => i,
                None => 0,
            };
            let mut owner: Vec<char> = Vec::new();
            let mut k = start;
            while k < end
                invariant
                    start <= k <= end <= s.len(),
                    owner@ == s@.subrange(start as int, k as int),
                decreases end - k,
            {
                owner.push(s[k]);
                assert(s@.subrange(start as int, k as int).push(s@[k as int]) =~= s@.subrange(start as int, k + 1));
                k += 1;
            }
            let o = crate::text::string_of(owner.as_slice());
            let a = str_eq(o.as_str(), "did:plc:z72i7hdynmk6r22z27h6tvur");
            let b = str_eq(o.as_str(), "did:plc:q6gjnaw2blty4crticxkmujt");
            proof {
                let ow = bluesky_feed_owners();
                if ow.contains(o@) {
                    let j = choose|j: int| 0 <= j < ow.len() && ow[j] == o@;
                    assert(j == 0 || j == 1);
                }
                if a {
                    assert(ow[0] == o@);
                }
                if b {
                    assert(ow[1] == o@);
                }
            }
            a || b
        },
    }
}

/// The headers of a custom feed request, as (name, value) pairs: the content languages as
/// `Accept-Language` when there are any, then, for a feed that Bluesky owns, the interests as
/// `X-Bsky-Topics` when there are any.
pub open spec fn custom_feed_headers_spec(
    languages: Seq<char>,
    interests: Seq<char>,
    owned: bool,
) -> Seq<(Seq<char>, Seq<char>)> {
    (if languages.len() > 0 {
        seq![("Accept-Language"@, languages)]
    } else {
        Seq::empty()
    }) + (if interests.len() > 0 && owned {
        seq![("X-Bsky-Topics"@, interests)]
    } else {
        Seq::empty()
    })
}

/// The headers a custom feed request carries for these preferences (see
/// `custom_feed_headers_spec`); the feed's owner is looked at only when there are interests.
pub fn custom_feed_headers(preferences: &FeedPreferences, feed_uri: &str) -> (r: Vec<(String, String)>)
    requires
        header_value(preferences.interests).len() > 0 ==> feed_owner_slice_ok(feed_uri@),
    ensures
        r@.map_values(|h: (String, String)| (h.0@, h.1@)) == custom_feed_headers_spec(
            header_value(preferences.content_languages),
            header_value(preferences.interests),
            crate::text::occurs(feed_uri@, "/app.bsky.feed.generator/"@) && bluesky_feed_owners().contains(
                feed_owner_slice(feed_uri@),
            ),
        ),
{
    let mut r: Vec<(String, String)> = Vec::new();
    let languages = preferences.content_languages_header();
    if !languages.as_str().is_empty() {
        r.push((owned("Accept-Language"), languages));
    }
    let interests = preferences.interests_header();
    if !interests.as_str().is_empty() && is_bluesky_owned_feed(feed_uri) {
        r.push((owned("X-Bsky-Topics"), interests));
    }
    proof {
        let langs = header_value(preferences.content_languages);
        let ints = header_value(preferences.interests);
        let own = crate::text::occurs(feed_uri@, "/app.bsky.feed.generator/"@) && bluesky_feed_owners().contains(
            feed_owner_slice(feed_uri@),
        );
        assert(r@.map_values(|h: (String, String)| (h.0@, h.1@)) =~= custom_feed_headers_spec(langs, ints, own));
    }
    r
}

/// A custom feed's page as it is handed on: cut to `limit` posts (some feeds send more than
/// asked for), and without a cursor once it holds no post.
pub fn trim_feed_page(page: FeedResponse, limit: u32) -> (r: FeedResponse)
    ensures
        r.feed@ == (if page.feed@.len() > limit as nat {
            page.feed@.take(limit as int)
        } else {
            page.feed@
        }),
        r.cursor == (if r.feed@.len() == 0 {
            None
        } else {
            page.cursor
        }),
{
    let FeedResponse { cursor, feed } = page;
    let mut feed = feed;
    if feed.len() > limit as usize {
        feed.truncate(limit as usize);
    }
    let cursor = if feed.is_empty() {
        None
    } else {
        cursor
    };
    FeedResponse { cursor, feed }
}

/// The posts of a hashtag search as a feed page: each post on its own, with no reply context,
/// reason or feed context, and the search's cursor.
pub fn posts_as_feed(posts: Vec<PostView>, cursor: Option<String>) -> (r: FeedResponse)
    ensures
        r.cursor == cursor,
        r.feed@.len() == posts@.len(),
        forall|i: int|
            0 <= i < posts@.len() ==> #[trigger] r.feed@[i] == (FeedViewPost {
                post: posts@[i],
                reply: None,
                reason: None,
                feed_context: None,
            }),
{
    let ghost ps = posts@;
    let mut feed: Vec<FeedViewPost> = Vec::new();
    for post in it: posts.into_iter()
        invariant
            it.seq() == ps,
            feed@.len() == it.index(),
            forall|i: int|
                0 <= i < it.index() ==> #[trigger] feed@[i] == (FeedViewPost {
                    post: ps[i],
                    reply: None,
                    reason: None,
                    feed_context: None,
                }),
    {
        assert(post == ps[it.index() as int]);
        feed.push(FeedViewPost { post, reply: None, reason: None, feed_context: None });
    }
    FeedResponse { cursor, feed }
}

} // verus!
