//! Autocompletion of mentions and hashtags: the suggestions offered, how they are shown and
//! completed, and the checks and local fallbacks of the searches behind them.
use vstd::prelude::*;
use crate::editor::SuggestionType;
use crate::text::{chars_of, concat2, decimal, decimal_string, owned, starts_with, starts_with_exec};

verus! {

/// Maximum number of autocompletion results.
pub const MAX_AUTOCOMPLETE_RESULTS: usize = 10;

/// Maximum length of an autocompletion query, in bytes.
pub const MAX_QUERY_LENGTH: usize = 100;

/// A user profile offered for a mention.
#[derive(Debug, Clone, PartialEq, Eq)]
pub struct ActorProfile {
    /// DID
    pub did: String,
    /// Handle
    pub handle: String,
    /// Display name
    pub display_name: Option<String>,
    /// Avatar URL
    pub avatar: Option<String>,
    /// Description
    pub description: Option<String>,
}

/// A hashtag offered for completion.
#[derive(Debug, Clone, PartialEq, Eq)]
pub struct HashtagSuggestion {
    /// The tag (without #)
    pub tag: String,
    /// How often it is used
    pub count: Option<u64>,
}

/// An autocompletion result.
#[derive(Debug, Clone, PartialEq, Eq)]
pub enum AutocompleteResult {
    /// A user to mention
    Mention(ActorProfile),
    /// A hashtag
    Hashtag(HashtagSuggestion),
}

/// How a result is shown: `Name (@handle)` or `@handle`; `#tag (count)` or `#tag`.
pub open spec fn display_text_of(r: AutocompleteResult) -> Seq<char> {
    match r {
        AutocompleteResult::Mention(a) => match a.display_name {
            Some(n) => n@ + " (@"@ + a.handle@ + ")"@,
            None => "@"@ + a.handle@,
        },
        AutocompleteResult::Hashtag(t) => match t.count {
            Some(c) => "#"@ + t.tag@ + " ("@ + decimal(c as nat) + ")"@,
            None => "#"@ + t.tag@,
        },
    }
}

impl AutocompleteResult {
    /// The text shown for the result.
    pub fn display_text(&self) -> (r: String)
        ensures
            r@ == display_text_of(*self),
    {
        match self {
            AutocompleteResult::Mention(actor) => match &actor.display_name {
                Some(name) => {
                    let mut s = concat2(name.as_str(), " (@");
                    s.append(actor.handle.as_str());
                    s.append(")");
                    s
                },
                None => concat2("@", actor.handle.as_str()),
            },
            AutocompleteResult::Hashtag(tag) => match tag.count {
                Some(c) => {
                    let n = decimal_string(c);
                    let mut s = concat2("#", tag.tag.as_str());
                    s.append(" (");
                    s.append(n.as_str());
                    s.append(")");
                    s
                },
                None => concat2("#", tag.tag.as_str()),
            },
        }
    }

    /// The text that completes the query: the handle or the tag.
    pub fn completion_value(&self) -> (r: String)
        ensures
            r@ == (match self {
                AutocompleteResult::Mention(a) => a.handle@,
                AutocompleteResult::Hashtag(t) => t.tag@,
            }),
    {
        match self {
            AutocompleteResult::Mention(actor) => owned(actor.handle.as_str()),
            AutocompleteResult::Hashtag(tag) => owned(tag.tag.as_str()),
        }
    }

    /// The DID of a mentioned user.
    pub fn did(&self) -> (r: Option<&str>)
        ensures
            match self {
                AutocompleteResult::Mention(a) => r matches Some(d) && d@ == a.did@,
                AutocompleteResult::Hashtag(_) => r is None,
            },
    {
        match self {
            AutocompleteResult::Mention(actor) => Some(actor.did.as_str()),
            AutocompleteResult::Hashtag(_) => None,
        }
    }
}

/// Autocompletion errors.
#[derive(Debug)]
pub enum AutocompleteError {
    /// XRPC error (the client's message)
    Xrpc(String),
    /// Serialization error
    Serialization(serde_json::Error),
    /// Invalid query
    InvalidQuery(String),
    /// Network error
    Network(String),
}

impl AutocompleteError {
    /// The error message (that of a serialization error is serde_json's).
    pub fn to_string(&self) -> (r: String)
        ensures
            match self {
                AutocompleteError::Xrpc(m) => r@ == "XRPC error: "@ + m@,
                AutocompleteError::Serialization(_) => true,
                AutocompleteError::InvalidQuery(m) => r@ == "Invalid query: "@ + m@,
                AutocompleteError::Network(m) => r@ == "Network error: "@ + m@,
            },
    {
        match self {
            AutocompleteError::Xrpc(m) => concat2("XRPC error: ", m.as_str()),
            AutocompleteError::Serialization(e) => {
                let m = crate::json::json_error_message(e);
                concat2("Serialization error: ", m.as_str())
            },
            AutocompleteError::InvalidQuery(m) => concat2("Invalid query: ", m.as_str()),
            AutocompleteError::Network(m) => concat2("Network error: ", m.as_str()),
        }
    }
}

/// What to do with an autocompletion query that is not refused.
#[derive(Debug, Clone, Copy, PartialEq, Eq)]
pub enum QueryCheck {
    /// Empty: no result, nothing to search
    Empty,
    /// Search for it
    Search,
}

/// How a query is handled: an empty one gives no result, one longer than 100 bytes is refused
/// as too long, any other is searched for.
pub fn check_query(query: &str) -> (r: Result<QueryCheck, AutocompleteError>)
    ensures
        query@.len() == 0 ==> r == Ok::<QueryCheck, AutocompleteError>(QueryCheck::Empty),
        query@.len() > 0 && crate::text::utf8_len(query@) > MAX_QUERY_LENGTH ==> (r matches Err(
            AutocompleteError::InvalidQuery(m),
        ) && m@ == "Query too long"@),
        query@.len() > 0 && crate::text::utf8_len(query@) <= MAX_QUERY_LENGTH ==> r == Ok::<
            QueryCheck,
            AutocompleteError,
        >(QueryCheck::Search),
{
    if query.is_empty() {
        Ok(QueryCheck::Empty)
    } else if crate::text::byte_len(query) > MAX_QUERY_LENGTH {
        Err(AutocompleteError::InvalidQuery(owned("Query too long")))
    } else {
        Ok(QueryCheck::Search)
    }
}

/// The key under which the results of a suggestion are cached: its kind and query.
pub fn cache_key(kind: SuggestionType, query: &str) -> (r: String)
    ensures
        r@ == (match kind {
            SuggestionType::Mention => "Mention:"@,
            SuggestionType::Hashtag => "Hashtag:"@,
        }) + query@,
{
    match kind {
        SuggestionType::Mention => concat2("Mention:", query),
        SuggestionType::Hashtag => concat2("Hashtag:", query),
    }
}

/// The hashtags suggested when the tag search is unavailable.
pub open spec fn common_tags() -> Seq<Seq<char>> {
    seq![
        "rust"@, "rustlang"@, "programming"@, "coding"@, "developer"@, "software"@, "tech"@,
        "technology"@, "opensource"@, "github"@, "bluesky"@, "atproto"@, "web3"@, "decentralized"@,
        "social"@, "art"@, "photography"@, "music"@, "news"@, "politics"@,
    ]
}

/// The tags of `tags` that start with `q`, in order.
pub open spec fn tags_starting_with(tags: Seq<Seq<char>>, q: Seq<char>) -> Seq<Seq<char>>
    decreases tags.len(),
{
    if tags.len() == 0 {
        seq![]
    } else {
        let rest = tags_starting_with(tags.drop_last(), q);
        if starts_with(tags.last(), q) {
            rest.push(tags.last())
        } else {
            rest
        }
    }
}

/// The tags of the results.
pub open spec fn result_tags(s: Seq<AutocompleteResult>) -> Seq<Seq<char>> {
    s.map_values(|r: AutocompleteResult| match r {
        AutocompleteResult::Hashtag(t) => t.tag@,
        AutocompleteResult::Mention(a) => a.handle@,
    })
}

/// Hashtag suggestions from the common tags that start with `query`, at most ten, without counts.
pub fn local_hashtag_suggestions(query: &str) -> (r: Vec<AutocompleteResult>)
    ensures
        result_tags(r@) == tags_starting_with(common_tags(), query@).take(
            if tags_starting_with(common_tags(), query@).len() <= MAX_AUTOCOMPLETE_RESULTS {
                tags_starting_with(common_tags(), query@).len() as int
            } else {
                MAX_AUTOCOMPLETE_RESULTS as int
            },
        ),
        forall|i: int| 0 <= i < r@.len() ==> (#[trigger] r@[i] matches AutocompleteResult::Hashtag(t)
            && t.count is None),
{
    let tags = vec![
        "rust", "rustlang", "programming", "coding", "developer", "software", "tech", "technology",
        "opensource", "github", "bluesky", "atproto", "web3", "decentralized", "social", "art",
        "photography", "music", "news", "politics",
    ];
    let ghost all = common_tags();
    assert(tags@.map_values(|t: &str| t@) =~= all);
    let q = chars_of(query);
    let mut out: Vec<AutocompleteResult> = Vec::new();
    let mut i: usize = 0;
    assert(result_tags(out@) =~= tags_starting_with(all.take(0), query@));
    while i < tags.len() && out.len() < MAX_AUTOCOMPLETE_RESULTS
        invariant
            i <= tags@.len(),
            tags@.map_values(|t: &str| t@) == all,
            q@ == query@,
            out@.len() <= MAX_AUTOCOMPLETE_RESULTS,
            result_tags(out@) == tags_starting_with(all.take(i as int), query@),
            forall|k: int| 0 <= k < out@.len() ==> (#[trigger] out@[k] matches AutocompleteResult::Hashtag(t)
                && t.count is None),
        decreases tags@.len() - i,
    {
        let t = tags[i];
        let tc = chars_of(t);
        proof {
            assert(all.take(i + 1).drop_last() =~= all.take(i as int));
            assert(all.take(i + 1).last() == all[i as int]);
            assert(all[i as int] == t@);
        }
        if starts_with_exec(tc.as_slice(), q.as_slice()) {
            let ghost o = out@;
            out.push(AutocompleteResult::Hashtag(HashtagSuggestion { tag: owned(t), count: None }));
            assert(result_tags(out@) =~= result_tags(o).push(t@));
        }
        i += 1;
    }
    proof {
        lemma_tags_prefix(all, query@, i as int);
        let full = tags_starting_with(all, query@);
        if i == tags@.len() {
            assert(all.take(i as int) =~= all);
            assert(full.take(full.len() as int) =~= full);
        }
    }
    out
}

/// The matches among the first `i` tags are a prefix of all matches; they are all of them when
/// `i` is the number of tags.
proof fn lemma_tags_prefix(all: Seq<Seq<char>>, q: Seq<char>, i: int)
    requires
        0 <= i <= all.len(),
    ensures
        tags_starting_with(all.take(i), q).len() <= tags_starting_with(all, q).len(),
        tags_starting_with(all.take(i), q) == tags_starting_with(all, q).take(
            tags_starting_with(all.take(i), q).len() as int,
        ),
    decreases all.len() - i,
{
    if i == all.len() {
        assert(all.take(i) =~= all);
        assert(tags_starting_with(all, q).take(tags_starting_with(all, q).len() as int) =~= tags_starting_with(
            all,
            q,
        ));
    } else {
        lemma_tags_prefix(all, q, i + 1);
        let a = tags_starting_with(all.take(i), q);
        let b = tags_starting_with(all.take(i + 1), q);
        assert(all.take(i + 1).drop_last() =~= all.take(i));
        let full = tags_starting_with(all, q);
        if b.len() == a.len() + 1 {
            assert(a =~= b.drop_last());
            assert(full.take(a.len() as int) =~= full.take(b.len() as int).drop_last());
        } else {
            assert(a == b);
        }
    }
}

/// How long cached results stay valid, in nanoseconds (five minutes).
pub const CACHE_EXPIRATION_NANOS: u128 = 300_000_000_000;

/// Cached results of a search, with the instant they were cached.
#[derive(Debug, Clone)]
pub struct CacheEntry {
    /// The results
    pub results: Vec<AutocompleteResult>,
    /// When they were cached
    pub timestamp: std::time::Instant,
}

impl CacheEntry {
    /// Caches `results` now.
    pub fn new(results: Vec<AutocompleteResult>) -> (r: Self)
        ensures
            r.results == results,
    {
        CacheEntry { results, timestamp: crate::link_preview::instant_now() }
    }

    /// Whether more than five minutes have passed since caching: the clock's elapsed time
    /// compared with `CACHE_EXPIRATION_NANOS` (see `time::outlived`).
    pub fn is_expired(&self) -> (r: bool)
        ensures
            exists|elapsed: u128| r == #[trigger] crate::time::past_ttl(elapsed, CACHE_EXPIRATION_NANOS),
    {
        let elapsed = crate::link_preview::duration_nanos(crate::link_preview::elapsed_since(&self.timestamp));
        crate::time::outlived(elapsed, CACHE_EXPIRATION_NANOS)
    }
}

} // verus!
