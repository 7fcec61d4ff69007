//! Post interactions (like, repost, quote): their records, the checks made before sending
//! them, and the interaction counters of a post.
use vstd::prelude::*;
use crate::json::json_error_message;
use crate::text::{at_uri_parts, at_uri_parts_exec, concat2, owned, string_of};

verus! {

/// Interaction errors.
#[derive(Debug)]
pub enum InteractionError {
    /// XRPC error
    Xrpc(String),
    /// Post not found
    NotFound(String),
    /// No active session
    NoSession,
    /// Serialization error
    Serialization(serde_json::Error),
    /// Invalid URI
    InvalidUri(String),
    /// Invalid CID
    InvalidCid(String),
}

impl InteractionError {
    /// The error message (that of a serialization error is serde_json's).
    pub fn to_string(&self) -> (r: String)
        ensures
            match self {
                InteractionError::Xrpc(m) => r@ == "XRPC error: "@ + m@,
                InteractionError::NotFound(m) => r@ == "Post not found: "@ + m@,
                InteractionError::NoSession => r@ == "No active session"@,
                InteractionError::Serialization(_) => true,
                InteractionError::InvalidUri(m) => r@ == "Invalid URI: "@ + m@,
                InteractionError::InvalidCid(m) => r@ == "Invalid CID: "@ + m@,
            },
    {
        match self {
            InteractionError::Xrpc(m) => concat2("XRPC error: ", m.as_str()),
            InteractionError::NotFound(m) => concat2("Post not found: ", m.as_str()),
            InteractionError::NoSession => owned("No active session"),
            InteractionError::Serialization(e) => {
                let m = json_error_message(e);
                concat2("Serialization error: ", m.as_str())
            },
            InteractionError::InvalidUri(m) => concat2("Invalid URI: ", m.as_str()),
            InteractionError::InvalidCid(m) => concat2("Invalid CID: ", m.as_str()),
        }
    }
}

/// Reference to the post being interacted with.
#[derive(Debug, Clone, PartialEq)]
pub struct SubjectRef {
    /// URI of the post
    pub uri: String,
    /// CID of the post
    pub cid: String,
}

/// Reference to the repost through which a post was reached.
#[derive(Debug, Clone, PartialEq)]
pub struct ViaRef {
    /// URI of the repost
    pub uri: String,
    /// CID of the repost
    pub cid: String,
}

/// A like record.
#[derive(Debug, Clone, PartialEq)]
pub struct LikeRecord {
    /// The liked post
    pub subject: SubjectRef,
    /// Creation timestamp
    pub created_at: String,
    /// The repost it was reached through
    pub via: Option<ViaRef>,
}

/// A repost record.
#[derive(Debug, Clone, PartialEq)]
pub struct RepostRecord {
    /// The reposted post
    pub subject: SubjectRef,
    /// Creation timestamp
    pub created_at: String,
    /// The repost it was reached through
    pub via: Option<ViaRef>,
}

/// The record quoted by a quote post.
#[derive(Debug, Clone, PartialEq)]
pub struct EmbedRecord {
    /// URI of the quoted post
    pub uri: String,
    /// CID of the quoted post
    pub cid: String,
}

/// The embed of a quote post.
#[derive(Debug, Clone, PartialEq)]
pub struct QuoteEmbed {
    /// Embed type (`app.bsky.embed.record`)
    pub embed_type: String,
    /// The quoted record
    pub record: EmbedRecord,
}

/// Response from creating a record.
#[derive(Debug, Clone, PartialEq)]
pub struct CreateRecordResponse {
    /// URI of the record
    pub uri: String,
    /// CID of the record
    pub cid: String,
}

/// Why a subject cannot be liked or reposted: an empty URI, else an empty CID.
pub open spec fn subject_error(uri: Seq<char>, cid: Seq<char>) -> Option<(bool, Seq<char>)> {
    if uri.len() == 0 {
        Some((true, "Subject URI cannot be empty"@))
    } else if cid.len() == 0 {
        Some((false, "Subject CID cannot be empty"@))
    } else {
        None
    }
}

/// Checks a subject before liking or reposting it: its URI, then its CID, must not be empty.
pub fn check_subject(subject: &SubjectRef) -> (r: Result<(), InteractionError>)
    ensures
        match subject_error(subject.uri@, subject.cid@) {
            None => r is Ok,
            Some((true, m)) => r matches Err(InteractionError::InvalidUri(x)) && x@ == m,
            Some((false, m)) => r matches Err(InteractionError::InvalidCid(x)) && x@ == m,
        },
{
    if subject.uri.as_str().is_empty() {
        return Err(InteractionError::InvalidUri(owned("Subject URI cannot be empty")));
    }
    if subject.cid.as_str().is_empty() {
        return Err(InteractionError::InvalidCid(owned("Subject CID cannot be empty")));
    }
    Ok(())
}

/// The repository and record key of a like (`like`) or repost record URI, or the message of
/// the refusal.
pub open spec fn record_keys_spec(uri: Seq<char>, like: bool) -> Result<(Seq<char>, Seq<char>), Seq<char>> {
    if uri.len() == 0 {
        Err(if like {
            "Like URI cannot be empty"@
        } else {
            "Repost URI cannot be empty"@
        })
    } else if at_uri_parts(uri).len() < 3 {
        Err(if like {
            "Invalid like URI format: "@ + uri
        } else {
            "Invalid repost URI format: "@ + uri
        })
    } else {
        Ok((at_uri_parts(uri)[0], at_uri_parts(uri)[2]))
    }
}

/// The `(repo, rkey)` of a like (`like`) or repost record to delete, refusing an empty URI or
/// one with fewer than three parts.
pub fn record_keys(uri: &str, like: bool) -> (r: Result<(String, String), InteractionError>)
    ensures
        match record_keys_spec(uri@, like) {
            Ok((a, b)) => r matches Ok((x, y)) && x@ == a && y@ == b,
            Err(m) => r matches Err(InteractionError::InvalidUri(x)) && x@ == m,
        },
{
    if uri.is_empty() {
        return Err(InteractionError::InvalidUri(
            if like {
                owned("Like URI cannot be empty")
            } else {
                owned("Repost URI cannot be empty")
            },
        ));
    }
    let parts = at_uri_parts_exec(uri);
    if parts.len() < 3 {
        return Err(InteractionError::InvalidUri(
            if like {
                concat2("Invalid like URI format: ", uri)
            } else {
                concat2("Invalid repost URI format: ", uri)
            },
        ));
    }
    Ok((string_of(parts[0].as_slice()), string_of(parts[2].as_slice())))
}

/// The quote embed of a subject: an `app.bsky.embed.record` of its URI and CID.
pub fn create_quote_embed(subject: &SubjectRef) -> (r: QuoteEmbed)
    ensures
        r.embed_type@ == "app.bsky.embed.record"@,
        r.record.uri@ == subject.uri@,
        r.record.cid@ == subject.cid@,
{
    QuoteEmbed {
        embed_type: owned("app.bsky.embed.record"),
        record: EmbedRecord { uri: owned(subject.uri.as_str()), cid: owned(subject.cid.as_str()) },
    }
}

/// Interaction counts of a post.
#[derive(Debug, Clone, Copy, PartialEq, Eq)]
pub struct InteractionCounts {
    /// Number of likes
    pub like_count: u32,
    /// Number of reposts
    pub repost_count: u32,
    /// Number of replies
    pub reply_count: u32,
    /// Number of quotes
    pub quote_count: u32,
}

/// `x + 1`, or `x` at the maximum.
pub open spec fn sat_inc(x: u32) -> u32 {
    if x == u32::MAX {
        x
    } else {
        (x + 1) as u32
    }
}

/// `x - 1`, or `0` at zero.
pub open spec fn sat_dec(x: u32) -> u32 {
    if x == 0 {
        0
    } else {
        (x - 1) as u32
    }
}

impl Default for InteractionCounts {
    fn default() -> (r: Self)
        ensures
            r == (InteractionCounts { like_count: 0, repost_count: 0, reply_count: 0, quote_count: 0 }),
    {
        InteractionCounts { like_count: 0, repost_count: 0, reply_count: 0, quote_count: 0 }
    }
}

impl InteractionCounts {
    /// All counts zero.
    pub fn new() -> (r: Self)
        ensures
            r == (InteractionCounts { like_count: 0, repost_count: 0, reply_count: 0, quote_count: 0 }),
    {
        InteractionCounts { like_count: 0, repost_count: 0, reply_count: 0, quote_count: 0 }
    }

    /// One more like (saturating).
    pub fn increment_likes(self) -> (r: Self)
        ensures
            r == (InteractionCounts { like_count: sat_inc(self.like_count), ..self }),
    {
        InteractionCounts { like_count: self.like_count.saturating_add(1), ..self }
    }

    /// One like less (saturating at zero).
    pub fn decrement_likes(self) -> (r: Self)
        ensures
            r == (InteractionCounts { like_count: sat_dec(self.like_count), ..self }),
    {
        InteractionCounts { like_count: self.like_count.saturating_sub(1), ..self }
    }

    /// One more repost (saturating).
    pub fn increment_reposts(self) -> (r: Self)
        ensures
            r == (InteractionCounts { repost_count: sat_inc(self.repost_count), ..self }),
    {
        InteractionCounts { repost_count: self.repost_count.saturating_add(1), ..self }
    }

    /// One repost less (saturating at zero).
    pub fn decrement_reposts(self) -> (r: Self)
        ensures
            r == (InteractionCounts { repost_count: sat_dec(self.repost_count), ..self }),
    {
        InteractionCounts { repost_count: self.repost_count.saturating_sub(1), ..self }
    }

    /// One more reply (saturating).
    pub fn increment_replies(self) -> (r: Self)
        ensures
            r == (InteractionCounts { reply_count: sat_inc(self.reply_count), ..self }),
    {
        InteractionCounts { reply_count: self.reply_count.saturating_add(1), ..self }
    }

    /// One more quote (saturating).
    pub fn increment_quotes(self) -> (r: Self)
        ensures
            r == (InteractionCounts { quote_count: sat_inc(self.quote_count), ..self }),
    {
        InteractionCounts { quote_count: self.quote_count.saturating_add(1), ..self }
    }
}

/// Unliking undoes a like and un-reposting undoes a repost, unless the count was at its maximum.
pub proof fn law_decrement_undoes_increment(c: InteractionCounts)
    ensures
        c.like_count < u32::MAX ==> sat_dec(sat_inc(c.like_count)) == c.like_count,
        c.repost_count < u32::MAX ==> sat_dec(sat_inc(c.repost_count)) == c.repost_count,
        sat_inc(c.like_count) >= c.like_count && sat_dec(c.like_count) <= c.like_count,
{
}

} // verus!
