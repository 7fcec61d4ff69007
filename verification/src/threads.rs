//! Post threads: the parameters of thread queries, the items of a thread, and the selection of
//! an anchor's parents and replies.
use vstd::prelude::*;
use crate::json::json_error_message;
use crate::profiles::ProfileViewBasic;
use crate::sorting::{
    char_codes, char_codes_exec, drop_keys, key_views, keyed_by, lemma_sorted_by, lex_le, sort_by_key, sort_by_keys,
    values_of,
};
use crate::text::{concat2, owned, str_eq};

verus! {

/// Thread errors.
#[derive(Debug)]
pub enum ThreadError {
    /// XRPC error
    Xrpc(String),
    /// Post not found
    NotFound(String),
    /// Thread blocked
    Blocked,
    /// Serialization error
    Serialization(serde_json::Error),
    /// Invalid URI
    InvalidUri(String),
}

impl ThreadError {
    /// The error message (that of a serialization error is serde_json's).
    pub fn to_string(&self) -> (r: String)
        ensures
            match self {
                ThreadError::Xrpc(m) => r@ == "XRPC error: "@ + m@,
                ThreadError::NotFound(m) => r@ == "Post not found: "@ + m@,
                ThreadError::Blocked => r@ == "Thread blocked"@,
                ThreadError::Serialization(_) => true,
                ThreadError::InvalidUri(m) => r@ == "Invalid URI: "@ + m@,
            },
    {
        match self {
            ThreadError::Xrpc(m) => concat2("XRPC error: ", m.as_str()),
            ThreadError::NotFound(m) => concat2("Post not found: ", m.as_str()),
            ThreadError::Blocked => owned("Thread blocked"),
            ThreadError::Serialization(e) => {
                let m = json_error_message(e);
                concat2("Serialization error: ", m.as_str())
            },
            ThreadError::InvalidUri(m) => concat2("Invalid URI: ", m.as_str()),
        }
    }
}

/// Order of the replies in a thread.
#[derive(Debug, Clone, Copy, PartialEq, Eq)]
pub enum ThreadSortOrder {
    /// Oldest first
    Oldest,
    /// Newest first
    Newest,
    /// Most liked first
    MostLikes,
    /// Random order
    Random,
}

impl Default for ThreadSortOrder {
    fn default() -> (r: Self)
        ensures
            r == ThreadSortOrder::Oldest,
    {
        ThreadSortOrder::Oldest
    }
}

impl ThreadSortOrder {
    /// The API name of the order.
    pub fn as_param(&self) -> (r: &'static str)
        ensures
            r@ == (match self {
                ThreadSortOrder::Oldest => "oldest"@,
                ThreadSortOrder::Newest => "newest"@,
                ThreadSortOrder::MostLikes => "most-likes"@,
                ThreadSortOrder::Random => "random"@,
            }),
    {
        match self {
            ThreadSortOrder::Oldest => "oldest",
            ThreadSortOrder::Newest => "newest",
            ThreadSortOrder::MostLikes => "most-likes",
            ThreadSortOrder::Random => "random",
        }
    }
}

/// How a thread is shown.
#[derive(Debug, Clone, Copy, PartialEq, Eq)]
pub enum ThreadViewMode {
    /// As a tree
    Tree,
    /// As a flat list
    Linear,
}

impl Default for ThreadViewMode {
    fn default() -> (r: Self)
        ensures
            r == ThreadViewMode::Tree,
    {
        ThreadViewMode::Tree
    }
}

/// Strong reference to a post (URI + CID).
#[derive(Debug, Clone, PartialEq)]
pub struct StrongRef {
    /// URI of the post
    pub uri: String,
    /// CID of the post
    pub cid: String,
}

/// Reply reference of a post record.
#[derive(Debug, Clone, PartialEq)]
pub struct ReplyRef {
    /// Root of the thread
    pub root: StrongRef,
    /// Immediate parent
    pub parent: StrongRef,
}

/// A post record as a thread holds it.
#[derive(Debug, Clone, PartialEq)]
pub struct PostRecord {
    /// Post text
    pub text: String,
    /// Creation timestamp
    pub created_at: Option<String>,
    /// Reply reference
    pub reply: Option<ReplyRef>,
    /// Embed
    pub embed: Option<serde_json::Value>,
    /// Facets
    pub facets: Option<Vec<serde_json::Value>>,
    /// Record type
    pub record_type: String,
}

/// Viewer state of a post.
#[derive(Debug, Clone, PartialEq)]
pub struct ViewerState {
    /// URI of the viewer's like
    pub like: Option<String>,
    /// URI of the viewer's repost
    pub repost: Option<String>,
    /// Whether replies are gated
    pub threadgated: Option<bool>,
}

/// A post as a thread holds it.
#[derive(Debug, Clone, PartialEq)]
pub struct PostView {
    /// URI
    pub uri: String,
    /// CID
    pub cid: String,
    /// Author
    pub author: ProfileViewBasic,
    /// Record
    pub record: PostRecord,
    /// Number of replies
    pub reply_count: Option<u32>,
    /// Number of reposts
    pub repost_count: Option<u32>,
    /// Number of likes
    pub like_count: Option<u32>,
    /// Indexing timestamp
    pub indexed_at: Option<String>,
    /// Viewer state
    pub viewer: Option<ViewerState>,
}

/// A post item of a thread.
#[derive(Debug, Clone, PartialEq)]
pub struct ThreadItemPost {
    /// The post
    pub post: PostView,
    /// Whether it belongs to the original poster's thread
    pub op_thread: bool,
    /// Whether there are more parents
    pub more_parents: bool,
    /// Number of further replies
    pub more_replies: u32,
    /// Whether a threadgate hides it
    pub hidden_by_threadgate: bool,
    /// Whether the viewer muted it
    pub muted_by_viewer: bool,
}

/// A thread item that was not found.
#[derive(Debug, Clone, PartialEq)]
pub struct ThreadItemNotFound {
    /// URI
    pub uri: String,
    /// Always true
    pub not_found: bool,
}

/// A thread item that is blocked.
#[derive(Debug, Clone, PartialEq)]
pub struct ThreadItemBlocked {
    /// URI
    pub uri: String,
    /// Always true
    pub blocked: bool,
}

/// An item of a thread with its depth.
#[derive(Debug, Clone, PartialEq)]
pub enum ThreadItem {
    /// A post
    Post { uri: String, depth: u32, value: Box<ThreadItemPost> },
    /// A post that was not found
    NotFound { uri: String, depth: u32, value: ThreadItemNotFound },
    /// A blocked post
    Blocked { uri: String, depth: u32, value: ThreadItemBlocked },
}

/// The URI of an item.
pub open spec fn item_uri(i: ThreadItem) -> Seq<char> {
    match i {
        ThreadItem::Post { uri, .. } => uri@,
        ThreadItem::NotFound { uri, .. } => uri@,
        ThreadItem::Blocked { uri, .. } => uri@,
    }
}

/// The depth of an item.
pub open spec fn item_depth(i: ThreadItem) -> u32 {
    match i {
        ThreadItem::Post { depth, .. } => depth,
        ThreadItem::NotFound { depth, .. } => depth,
        ThreadItem::Blocked { depth, .. } => depth,
    }
}

impl ThreadItem {
    /// The item's URI.
    pub fn uri(&self) -> (r: &str)
        ensures
            r@ == item_uri(*self),
    {
        match self {
            ThreadItem::Post { uri, .. } => uri.as_str(),
            ThreadItem::NotFound { uri, .. } => uri.as_str(),
            ThreadItem::Blocked { uri, .. } => uri.as_str(),
        }
    }

    /// The item's depth.
    pub fn depth(&self) -> (r: u32)
        ensures
            r == item_depth(*self),
    {
        match self {
            ThreadItem::Post { depth, .. } => *depth,
            ThreadItem::NotFound { depth, .. } => *depth,
            ThreadItem::Blocked { depth, .. } => *depth,
        }
    }

    /// Whether the item is a post.
    pub fn is_post(&self) -> (r: bool)
        ensures
            r == (*self is Post),
    {
        match self {
            ThreadItem::Post { .. } => true,
            _ => false,
        }
    }

    /// The post of a post item.
    pub fn as_post(&self) -> (r: Option<&PostView>)
        ensures
            match *self {
                ThreadItem::Post { value, .. } => r == Some(&value.post),
                _ => r is None,
            },
    {
        match self {
            ThreadItem::Post { value, .. } => Some(&value.post),
            _ => None,
        }
    }
}

/// A thread as the API returns it.
#[derive(Debug, Clone, PartialEq)]
pub struct ThreadResponse {
    /// The items
    pub thread: Vec<ThreadItem>,
    /// Whether other replies exist
    pub has_other_replies: bool,
    /// Threadgate record
    pub threadgate: Option<serde_json::Value>,
}

/// Parameters of a thread query.
#[derive(Debug, Clone)]
pub struct ThreadParams {
    /// URI of the anchor post
    pub anchor: String,
    /// Reply order
    pub sort: ThreadSortOrder,
    /// View mode
    pub view: ThreadViewMode,
    /// Whether replies from followed users come first
    pub prioritize_followed_users: bool,
    /// Depth of replies to fetch
    pub below: u32,
    /// Replies per level
    pub branching_factor: u32,
}

impl Default for ThreadParams {
    fn default() -> (r: Self)
        ensures
            r.anchor@ == Seq::<char>::empty(),
            r.sort == ThreadSortOrder::Oldest,
            r.view == ThreadViewMode::Tree,
            !r.prioritize_followed_users,
            r.below == 20,
            r.branching_factor == 10,
    {
        ThreadParams {
            anchor: String::new(),
            sort: ThreadSortOrder::Oldest,
            view: ThreadViewMode::Tree,
            prioritize_followed_users: false,
            below: 20,
            branching_factor: 10,
        }
    }
}

impl ThreadParams {
    /// The thread of `anchor`, with the default options.
    pub fn new(anchor: &str) -> (r: Self)
        ensures
            r.anchor@ == anchor@,
            r.sort == ThreadSortOrder::Oldest,
            r.view == ThreadViewMode::Tree,
            !r.prioritize_followed_users,
            r.below == 20,
            r.branching_factor == 10,
    {
        ThreadParams {
            anchor: owned(anchor),
            sort: ThreadSortOrder::Oldest,
            view: ThreadViewMode::Tree,
            prioritize_followed_users: false,
            below: 20,
            branching_factor: 10,
        }
    }

    /// The same query with another reply order.
    pub fn with_sort(self, sort: ThreadSortOrder) -> (r: Self)
        ensures
            r == (ThreadParams { sort, ..self }),
    {
        ThreadParams { sort, ..self }
    }

    /// The same query with another view mode.
    pub fn with_view(self, view: ThreadViewMode) -> (r: Self)
        ensures
            r == (ThreadParams { view, ..self }),
    {
        ThreadParams { view, ..self }
    }

    /// The same query, putting followed users first or not.
    pub fn with_prioritize_followed(self, prioritize: bool) -> (r: Self)
        ensures
            r == (ThreadParams { prioritize_followed_users: prioritize, ..self }),
    {
        ThreadParams { prioritize_followed_users: prioritize, ..self }
    }

    /// The same query with another reply depth.
    pub fn with_below(self, below: u32) -> (r: Self)
        ensures
            r == (ThreadParams { below, ..self }),
    {
        ThreadParams { below, ..self }
    }

    /// The same query with another branching factor.
    pub fn with_branching_factor(self, branching_factor: u32) -> (r: Self)
        ensures
            r == (ThreadParams { branching_factor, ..self }),
    {
        ThreadParams { branching_factor, ..self }
    }
}

/// Refuses an empty anchor URI, as thread queries do.
pub fn check_anchor(anchor: &str) -> (r: Result<(), ThreadError>)
    ensures
        anchor@.len() > 0 ==> r is Ok,
        anchor@.len() == 0 ==> (r matches Err(ThreadError::InvalidUri(m)) && m@ == "Anchor URI cannot be empty"@),
{
    if anchor.is_empty() {
        Err(ThreadError::InvalidUri(owned("Anchor URI cannot be empty")))
    } else {
        Ok(())
    }
}

/// Index of the first item that satisfies `p`.
pub open spec fn first_index(s: Seq<ThreadItem>, p: spec_fn(ThreadItem) -> bool) -> Option<int>
    decreases s.len(),
{
    if s.len() == 0 {
        None
    } else {
        match first_index(s.drop_last(), p) {
            Some(i) => Some(i),
            None => if p(s.last()) {
                Some(s.len() - 1)
            } else {
                None
            },
        }
    }
}

/// Index of the first item with depth zero.
pub open spec fn first_at_depth_zero(s: Seq<ThreadItem>) -> Option<int> {
    first_index(s, |x: ThreadItem| item_depth(x) == 0)
}

/// Index of the first item with URI `u`.
pub open spec fn first_with_uri(s: Seq<ThreadItem>, u: Seq<char>) -> Option<int> {
    first_index(s, |x: ThreadItem| item_uri(x) == u)
}

/// Scanning a prefix: no match in `s[..n]` and a match at `n` makes `n` the first match.
proof fn lemma_first_index_prefix(s: Seq<ThreadItem>, p: spec_fn(ThreadItem) -> bool, n: int)
    requires
        0 <= n <= s.len(),
    ensures
        first_index(s.take(n), p) matches Some(i) ==> first_index(s, p) == Some(i) && 0 <= i < n,
        first_index(s.take(n), p) is None && n < s.len() && p(s[n]) ==> first_index(s, p) == Some(n),
        first_index(s.take(n), p) is None && n == s.len() ==> first_index(s, p) is None,
    decreases s.len() - n,
{
    if n == s.len() {
        assert(s.take(n) =~= s);
        lemma_first_index_range(s, p);
    } else {
        lemma_first_index_prefix(s, p, n + 1);
        assert(s.take(n + 1).drop_last() =~= s.take(n));
        assert(s.take(n + 1).last() == s[n]);
        lemma_first_index_range(s.take(n), p);
    }
}

proof fn lemma_first_index_range(s: Seq<ThreadItem>, p: spec_fn(ThreadItem) -> bool)
    ensures
        first_index(s, p) matches Some(i) ==> 0 <= i < s.len() && p(s[i]),
    decreases s.len(),
{
    if s.len() > 0 {
        lemma_first_index_range(s.drop_last(), p);
    }
}

/// The items, in order, that are shallower than `d` and whose URI is not `u`.
pub open spec fn parents_of(s: Seq<ThreadItem>, d: u32, u: Seq<char>) -> Seq<ThreadItem>
    decreases s.len(),
{
    if s.len() == 0 {
        s
    } else {
        let rest = parents_of(s.drop_last(), d, u);
        if item_depth(s.last()) < d && item_uri(s.last()) != u {
            rest.push(s.last())
        } else {
            rest
        }
    }
}

/// The parents of an anchor are all the items of the thread above it: every item shallower
/// than depth `d` whose URI is not `u`, in thread order, and no other.
pub proof fn law_parents_are_all_shallower_items(s: Seq<ThreadItem>, d: u32, u: Seq<char>)
    ensures
        parents_of(s, d, u) == s.filter(|it: ThreadItem| item_depth(it) < d && item_uri(it) != u),
    decreases s.len(),
{
    let pred = |it: ThreadItem| item_depth(it) < d && item_uri(it) != u;
    if s.len() == 0 {
        assert(s.filter(pred) =~= Seq::<ThreadItem>::empty()) by {
            reveal_with_fuel(Seq::filter, 1);
        }
    } else {
        law_parents_are_all_shallower_items(s.drop_last(), d, u);
        s.drop_last().lemma_filter_push(s.last(), pred);
        assert(s.drop_last().push(s.last()) =~= s);
    }
}

/// The items, in order, that are deeper than `d`.
pub open spec fn replies_of(s: Seq<ThreadItem>, d: u32) -> Seq<ThreadItem>
    decreases s.len(),
{
    if s.len() == 0 {
        s
    } else {
        let rest = replies_of(s.drop_last(), d);
        if item_depth(s.last()) > d {
            rest.push(s.last())
        } else {
            rest
        }
    }
}

/// The references seen as the items they point to.
pub open spec fn derefs(s: Seq<&ThreadItem>) -> Seq<ThreadItem> {
    s.map_values(|x: &ThreadItem| *x)
}

/// The anchor of a thread: its first item of depth zero.
pub fn find_anchor(thread: &[ThreadItem]) -> (r: Option<&ThreadItem>)
    ensures
        match first_at_depth_zero(thread@) {
            Some(i) => r == Some(&thread@[i]),
            None => r is None,
        },
{
    let ghost p = |x: ThreadItem| item_depth(x) == 0;
    let mut i: usize = 0;
    assert(thread@.take(0) =~= Seq::<ThreadItem>::empty());
    while i < thread.len()
        invariant
            i <= thread@.len(),
            p == (|x: ThreadItem| item_depth(x) == 0),
            first_index(thread@.take(i as int), p) is None,
        decreases thread@.len() - i,
    {
        if thread[i].depth() == 0 {
            proof {
                lemma_first_index_prefix(thread@, p, i as int);
            }
            return Some(&thread[i]);
        }
        assert(thread@.take(i + 1).drop_last() =~= thread@.take(i as int));
        assert(thread@.take(i + 1).last() == thread@[i as int]);
        i += 1;
    }
    proof {
        lemma_first_index_prefix(thread@, p, i as int);
    }
    None
}

/// The index of the first item with URI `u`.
fn index_of_uri(thread: &[ThreadItem], u: &str) -> (r: Option<usize>)
    ensures
        match first_with_uri(thread@, u@) {
            Some(i) => r == Some(i as usize) && 0 <= i < thread@.len(),
            None => r is None,
        },
{
    let ghost p = |x: ThreadItem| item_uri(x) == u@;
    let mut i: usize = 0;
    assert(thread@.take(0) =~= Seq::<ThreadItem>::empty());
    while i < thread.len()
        invariant
            i <= thread@.len(),
            p == (|x: ThreadItem| item_uri(x) == u@),
            first_index(thread@.take(i as int), p) is None,
        decreases thread@.len() - i,
    {
        if str_eq(thread[i].uri(), u) {
            proof {
                lemma_first_index_prefix(thread@, p, i as int);
            }
            return Some(i);
        }
        assert(thread@.take(i + 1).drop_last() =~= thread@.take(i as int));
        assert(thread@.take(i + 1).last() == thread@[i as int]);
        i += 1;
    }
    proof {
        lemma_first_index_prefix(thread@, p, i as int);
    }
    None
}

/// The parents of the anchor with URI `anchor_uri`: the items shallower than it, other than
/// it; nothing when no item has that URI.
pub fn get_parents<'a>(thread: &'a [ThreadItem], anchor_uri: &str) -> (r: Vec<&'a ThreadItem>)
    ensures
        match first_with_uri(thread@, anchor_uri@) {
            Some(k) => derefs(r@) == parents_of(thread@, item_depth(thread@[k]), anchor_uri@),
            None => r@.len() == 0,
        },
        match first_with_uri(thread@, anchor_uri@) {
            Some(k) => derefs(r@) == thread@.filter(
                |it: ThreadItem| item_depth(it) < item_depth(thread@[k]) && item_uri(it) != anchor_uri@,
            ),
            None => true,
        },
{
    proof {
        if let Some(k) = first_with_uri(thread@, anchor_uri@) {
            law_parents_are_all_shallower_items(thread@, item_depth(thread@[k]), anchor_uri@);
        }
    }
    let mut out: Vec<&'a ThreadItem> = Vec::new();
    match index_of_uri(thread, anchor_uri) {
        None => out,
        Some(k) => {
            let d = thread[k].depth();
            let mut i: usize = 0;
            assert(derefs(out@) =~= parents_of(thread@.take(0), d, anchor_uri@));
            while i < thread.len()
                invariant
                    i <= thread@.len(),
                    derefs(out@) == parents_of(thread@.take(i as int), d, anchor_uri@),
                decreases thread@.len() - i,
            {
                assert(thread@.take(i + 1).drop_last() =~= thread@.take(i as int));
                assert(thread@.take(i + 1).last() == thread@[i as int]);
                let item = &thread[i];
                if item.depth() < d && !str_eq(item.uri(), anchor_uri) {
                    let ghost o = out@;
                    out.push(item);
                    assert(derefs(out@) =~= derefs(o).push(*item));
                }
                i += 1;
            }
            assert(thread@.take(thread@.len() as int) =~= thread@);
            out
        },
    }
}

/// The replies below the anchor with URI `anchor_uri`: the items deeper than it; nothing when
/// no item has that URI.
pub fn get_replies<'a>(thread: &'a [ThreadItem], anchor_uri: &str) -> (r: Vec<&'a ThreadItem>)
    ensures
        match first_with_uri(thread@, anchor_uri@) {
            Some(k) => derefs(r@) == replies_of(thread@, item_depth(thread@[k])),
            None => r@.len() == 0,
        },
{
    let mut out: Vec<&'a ThreadItem> = Vec::new();
    match index_of_uri(thread, anchor_uri) {
        None => out,
        Some(k) => {
            let d = thread[k].depth();
            let mut i: usize = 0;
            assert(derefs(out@) =~= replies_of(thread@.take(0), d));
            while i < thread.len()
                invariant
                    i <= thread@.len(),
                    derefs(out@) == replies_of(thread@.take(i as int), d),
                decreases thread@.len() - i,
            {
                assert(thread@.take(i + 1).drop_last() =~= thread@.take(i as int));
                assert(thread@.take(i + 1).last() == thread@[i as int]);
                let item = &thread[i];
                if item.depth() > d {
                    let ghost o = out@;
                    out.push(item);
                    assert(derefs(out@) =~= derefs(o).push(*item));
                }
                i += 1;
            }
            assert(thread@.take(thread@.len() as int) =~= thread@);
            out
        },
    }
}


/// When a reply was indexed: its post's timestamp, if it is a post that has one.
pub open spec fn reply_time(i: ThreadItem) -> Option<Seq<char>> {
    match i {
        ThreadItem::Post { value, .. } => match value.post.indexed_at {
            Some(t) => Some(t@),
            None => None,
        },
        _ => None,
    }
}

/// The likes of a reply: its post's like count, else zero.
pub open spec fn reply_likes(i: ThreadItem) -> u32 {
    match i {
        ThreadItem::Post { value, .. } => match value.post.like_count {
            Some(n) => n,
            None => 0,
        },
        _ => 0,
    }
}

/// The codes negated.
pub open spec fn negated(s: Seq<i128>) -> Seq<i128> {
    s.map_values(|c: i128| (-(c as int)) as i128)
}

/// The key by which `order_replies` orders a reply, compared lexicographically. Oldest first: a
/// reply without a time first, then by time as text. Newest first: the codes of the time
/// negated and closed by a code above them all, so that the order of times is reversed (see
/// `law_replies_order`), and a reply without a time last. Most likes: the negated likes.
pub open spec fn reply_key(i: ThreadItem, sort: ThreadSortOrder) -> Seq<i128> {
    match sort {
        ThreadSortOrder::Oldest => match reply_time(i) {
            None => Seq::empty(),
            Some(t) => seq![1i128] + char_codes(t),
        },
        ThreadSortOrder::Newest => match reply_time(i) {
            None => seq![1i128],
            Some(t) => seq![0i128] + negated(char_codes(t)) + seq![1i128],
        },
        ThreadSortOrder::MostLikes => seq![(-(reply_likes(i) as int)) as i128],
        ThreadSortOrder::Random => Seq::empty(),
    }
}

/// Replies paired with their keys.
pub open spec fn keyed_replies(s: Seq<&ThreadItem>, sort: ThreadSortOrder) -> Seq<(Seq<i128>, &ThreadItem)> {
    keyed_by(s, |r: &ThreadItem| reply_key(*r, sort))
}

/// The replies as `order_replies` leaves them.
pub open spec fn ordered_replies(s: Seq<&ThreadItem>, sort: ThreadSortOrder) -> Seq<&ThreadItem> {
    if sort == ThreadSortOrder::Random {
        s
    } else {
        values_of(sort_by_key(keyed_replies(s, sort)))
    }
}

/// The order of reply times: a missing time first, then times compared as text.
pub open spec fn time_le(a: Option<Seq<char>>, b: Option<Seq<char>>) -> bool {
    match a {
        None => true,
        Some(x) => match b {
            None => false,
            Some(y) => lex_le(char_codes(x), char_codes(y)),
        },
    }
}

/// `a` may come before `b` in the chosen order of replies.
pub open spec fn reply_order(a: ThreadItem, b: ThreadItem, sort: ThreadSortOrder) -> bool {
    match sort {
        ThreadSortOrder::Oldest => time_le(reply_time(a), reply_time(b)),
        ThreadSortOrder::Newest => time_le(reply_time(b), reply_time(a)),
        ThreadSortOrder::MostLikes => reply_likes(b) <= reply_likes(a),
        ThreadSortOrder::Random => true,
    }
}

proof fn lemma_lex_after_same(c: i128, x: Seq<i128>, y: Seq<i128>)
    ensures
        lex_le(seq![c] + x, seq![c] + y) == lex_le(x, y),
{
    assert((seq![c] + x).drop_first() =~= x);
    assert((seq![c] + y).drop_first() =~= y);
}

/// With codes that are not negative, negating them and closing them with a higher code reverses
/// their order.
proof fn lemma_newest_key_reverses(a: Seq<i128>, b: Seq<i128>)
    requires
        forall|k: int| 0 <= k < a.len() ==> 0 <= #[trigger] a[k],
        forall|k: int| 0 <= k < b.len() ==> 0 <= #[trigger] b[k],
    ensures
        lex_le(negated(a) + seq![1i128], negated(b) + seq![1i128]) == lex_le(b, a),
    decreases a.len(),
{
    let na = negated(a) + seq![1i128];
    let nb = negated(b) + seq![1i128];
    if a.len() > 0 && b.len() > 0 && a[0] == b[0] {
        assert(na.drop_first() =~= negated(a.drop_first()) + seq![1i128]);
        assert(nb.drop_first() =~= negated(b.drop_first()) + seq![1i128]);
        assert(na[0] == nb[0]);
        lemma_newest_key_reverses(a.drop_first(), b.drop_first());
        assert(lex_le(na, nb) == lex_le(na.drop_first(), nb.drop_first()));
        assert(lex_le(b, a) == lex_le(b.drop_first(), a.drop_first()));
    } else if a.len() == 0 && b.len() == 0 {
        assert(na =~= seq![1i128]);
        assert(nb =~= seq![1i128]);
        assert(na.drop_first() =~= Seq::<i128>::empty());
        assert(nb.drop_first() =~= Seq::<i128>::empty());
        assert(lex_le(na.drop_first(), nb.drop_first()));
        assert(lex_le(na, nb));
    } else {
        if a.len() > 0 {
            assert(na[0] == (-(a[0] as int)) as i128);
            assert(na[0] == -a[0]);
        } else {
            assert(na[0] == 1);
        }
        if b.len() > 0 {
            assert(nb[0] == (-(b[0] as int)) as i128);
            assert(nb[0] == -b[0]);
        } else {
            assert(nb[0] == 1);
        }
        assert(na[0] != nb[0]);
    }
}

proof fn lemma_codes_nonnegative(t: Seq<char>)
    ensures
        forall|k: int| 0 <= k < char_codes(t).len() ==> 0 <= #[trigger] char_codes(t)[k],
{
}

proof fn lemma_reply_key_order(a: ThreadItem, b: ThreadItem, sort: ThreadSortOrder)
    requires
        lex_le(reply_key(a, sort), reply_key(b, sort)),
    ensures
        reply_order(a, b, sort),
{
    match sort {
        ThreadSortOrder::Oldest => {
            if reply_time(a) is Some && reply_time(b) is Some {
                lemma_lex_after_same(1i128, char_codes(reply_time(a)->0), char_codes(reply_time(b)->0));
            }
        },
        ThreadSortOrder::Newest => {
            if reply_time(a) is Some && reply_time(b) is Some {
                let ca = char_codes(reply_time(a)->0);
                let cb = char_codes(reply_time(b)->0);
                lemma_codes_nonnegative(reply_time(a)->0);
                lemma_codes_nonnegative(reply_time(b)->0);
                assert(seq![0i128] + negated(ca) + seq![1i128] =~= seq![0i128] + (negated(ca) + seq![1i128]));
                assert(seq![0i128] + negated(cb) + seq![1i128] =~= seq![0i128] + (negated(cb) + seq![1i128]));
                lemma_lex_after_same(0i128, negated(ca) + seq![1i128], negated(cb) + seq![1i128]);
                lemma_newest_key_reverses(ca, cb);
            } else if reply_time(a) is None && reply_time(b) is Some {
                let cb = char_codes(reply_time(b)->0);
                assert((seq![0i128] + negated(cb) + seq![1i128])[0] == 0);
            }
        },
        ThreadSortOrder::MostLikes => {
            reveal_with_fuel(lex_le, 2);
        },
        ThreadSortOrder::Random => {},
    }
}

/// Ordering replies keeps every reply, as often as it occurred, and puts them in the chosen
/// order: each reply may come before every later one (see `reply_order`).
pub proof fn law_replies_order(s: Seq<&ThreadItem>, sort: ThreadSortOrder)
    ensures
        ordered_replies(s, sort).to_multiset() == s.to_multiset(),
        ordered_replies(s, sort).len() == s.len(),
        forall|i: int, j: int|
            0 <= i < j < s.len() ==> reply_order(
                *#[trigger] ordered_replies(s, sort)[i],
                *#[trigger] ordered_replies(s, sort)[j],
                sort,
            ),
{
    if sort != ThreadSortOrder::Random {
        let key = |r: &ThreadItem| reply_key(*r, sort);
        lemma_sorted_by(s, key);
        let r = ordered_replies(s, sort);
        assert forall|i: int, j: int| 0 <= i < j < s.len() implies reply_order(
            *#[trigger] r[i],
            *#[trigger] r[j],
            sort,
        ) by {
            assert(lex_le(key(r[i]), key(r[j])));
            lemma_reply_key_order(*r[i], *r[j], sort);
        }
    }
}

/// The key of a reply (see `reply_key`).
fn reply_key_exec(item: &ThreadItem, sort: ThreadSortOrder) -> (r: Vec<i128>)
    ensures
        r@ == reply_key(*item, sort),
{
    let mut v: Vec<i128> = Vec::new();
    let time: Option<&String> = match item.as_post() {
        Some(p) => match &p.indexed_at {
            Some(t) => Some(t),
            None => None,
        },
        None => None,
    };
    assert(match time {
        Some(t) => reply_time(*item) == Some(t@),
        None => reply_time(*item) is None,
    });
    match sort {
        ThreadSortOrder::Oldest => {
            match time {
                None => {},
                Some(t) => {
                    let codes = char_codes_exec(t.as_str());
                    v.push(1);
                    let mut k: usize = 0;
                    while k < codes.len()
                        invariant
                            k <= codes@.len(),
                            v@ == seq![1i128] + codes@.take(k as int),
                        decreases codes@.len() - k,
                    {
                        v.push(codes[k]);
                        assert(codes@.take(k + 1) =~= codes@.take(k as int).push(codes@[k as int]));
                        k += 1;
                    }
                    assert(codes@.take(codes@.len() as int) =~= codes@);
                },
            }
            assert(v@ =~= reply_key(*item, sort));
        },
        ThreadSortOrder::Newest => {
            match time {
                None => {
                    v.push(1);
                },
                Some(t) => {
                    let codes = char_codes_exec(t.as_str());
                    v.push(0);
                    let mut k: usize = 0;
                    while k < codes.len()
                        invariant
                            k <= codes@.len(),
                            codes@ == char_codes(t@),
                            v@ == seq![0i128] + negated(codes@.take(k as int)),
                        decreases codes@.len() - k,
                    {
                        let c = codes[k];
                        assert(0 <= c <= u32::MAX);
                        v.push(-c);
                        assert(negated(codes@.take(k + 1)) =~= negated(codes@.take(k as int)).push(
                            (-(c as int)) as i128,
                        ));
                        k += 1;
                    }
                    assert(codes@.take(codes@.len() as int) =~= codes@);
                    v.push(1);
                },
            }
            assert(v@ =~= reply_key(*item, sort));
        },
        ThreadSortOrder::MostLikes => {
            let likes: u32 = match item.as_post() {
                Some(p) => match p.like_count {
                    Some(n) => n,
                    None => 0,
                },
                None => 0,
            };
            v.push(-(likes as i128));
            assert(v@ =~= reply_key(*item, sort));
        },
        ThreadSortOrder::Random => {
            assert(v@ =~= reply_key(*item, sort));
        },
    }
    v
}

/// The replies put in the chosen order, stably: oldest first, newest first (replies without a
/// time first, resp. last; times compared as text), or most liked first (no count counting as
/// none); a random order is left to the server, so the replies are kept as they are.
pub fn order_replies<'a>(replies: Vec<&'a ThreadItem>, sort: ThreadSortOrder) -> (r: Vec<&'a ThreadItem>)
    ensures
        r@ == ordered_replies(replies@, sort),
{
    if matches!(sort, ThreadSortOrder::Random) {
        return replies;
    }
    let mut keyed: Vec<(Vec<i128>, &'a ThreadItem)> = Vec::new();
    let mut k: usize = 0;
    while k < replies.len()
        invariant
            k <= replies@.len(),
            key_views(keyed@) == keyed_replies(replies@.take(k as int), sort),
        decreases replies@.len() - k,
    {
        let item = replies[k];
        let key = reply_key_exec(item, sort);
        let ghost kv = key_views(keyed@);
        keyed.push((key, item));
        assert(key_views(keyed@) =~= kv.push((key@, item)));
        assert(key_views(keyed@) =~= keyed_replies(replies@.take(k + 1), sort));
        k += 1;
    }
    assert(replies@.take(replies@.len() as int) =~= replies@);
    let sorted = sort_by_keys(keyed);
    drop_keys(sorted)
}

} // verus!
