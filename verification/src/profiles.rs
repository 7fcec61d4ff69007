//! Profile views and the parameters of profile queries.
use vstd::prelude::*;
use crate::text::{at_uri_parts, at_uri_parts_exec, concat2, owned, string_of};
use crate::json::json_error_message;

verus! {

/// Viewer state for a profile.
#[derive(Debug, Clone, PartialEq, Eq, Default)]
pub struct ProfileViewerState {
    /// Whether the current user is muting this profile
    pub muted: Option<bool>,
    /// URI of the mute list if muted
    pub muted_by_list: Option<String>,
    /// Whether the current user is blocking this profile
    pub blocking: Option<String>,
    /// Whether this profile is blocking the current user
    pub blocked_by: Option<bool>,
    /// URI of the follow record if following
    pub following: Option<String>,
    /// URI of the follow record if followed by this profile
    pub followed_by: Option<String>,
}

/// Profile associated information (e.g., labeler info).
#[derive(Debug, Clone, PartialEq, Eq)]
pub struct ProfileAssociated {
    /// Chat configuration
    pub chat: Option<serde_json::Value>,
    /// Labeler information
    pub labeler: Option<bool>,
    /// Feed generator information
    pub feedgens: Option<i32>,
    /// Starter packs
    pub starter_packs: Option<i32>,
}

/// Basic profile view.
#[derive(Debug, Clone, PartialEq, Eq)]
pub struct ProfileViewBasic {
    /// DID
    pub did: String,
    /// Handle
    pub handle: String,
    /// Display name
    pub display_name: Option<String>,
    /// Avatar image URL
    pub avatar: Option<String>,
    /// Associated information
    pub associated: Option<ProfileAssociated>,
    /// Viewer state
    pub viewer: Option<ProfileViewerState>,
    /// Labels
    pub labels: Option<Vec<serde_json::Value>>,
    /// Created at timestamp
    pub created_at: Option<String>,
}

/// An uploaded image, referenced by its content identifier.
#[derive(Debug, Clone, PartialEq, Eq)]
pub struct ImageBlob {
    /// Blob type
    pub blob_type: String,
    /// MIME type
    pub mime_type: String,
    /// Size in bytes
    pub size: u64,
    /// Content identifier reference
    pub reference: serde_json::Value,
}

/// A profile associated with another.
#[derive(Debug, Clone, PartialEq, Eq)]
pub struct AssociatedProfile {
    /// DID
    pub did: String,
    /// Handle
    pub handle: String,
    /// Display name
    pub display_name: Option<String>,
    /// Avatar image URL
    pub avatar: Option<String>,
    /// Labels
    pub labels: Option<Vec<serde_json::Value>>,
}

/// Profile view with a description.
#[derive(Debug, Clone, PartialEq, Eq)]
pub struct ProfileView {
    /// DID
    pub did: String,
    /// Handle
    pub handle: String,
    /// Display name
    pub display_name: Option<String>,
    /// Profile description
    pub description: Option<String>,
    /// Avatar image URL
    pub avatar: Option<String>,
    /// Associated information
    pub associated: Option<ProfileAssociated>,
    /// Indexing timestamp
    pub indexed_at: Option<String>,
    /// Viewer state
    pub viewer: Option<ProfileViewerState>,
    /// Labels
    pub labels: Option<Vec<serde_json::Value>>,
    /// Created at timestamp
    pub created_at: Option<String>,
}

/// Detailed profile view with counts.
#[derive(Debug, Clone, PartialEq, Eq)]
pub struct ProfileViewDetailed {
    /// DID
    pub did: String,
    /// Handle
    pub handle: String,
    /// Display name
    pub display_name: Option<String>,
    /// Profile description
    pub description: Option<String>,
    /// Avatar image URL
    pub avatar: Option<String>,
    /// Banner image URL
    pub banner: Option<String>,
    /// Number of followers
    pub followers_count: Option<i64>,
    /// Number of accounts followed
    pub follows_count: Option<i64>,
    /// Number of posts
    pub posts_count: Option<i64>,
    /// Associated information
    pub associated: Option<ProfileAssociated>,
    /// Pinned post URI
    pub pinned_post: Option<String>,
    /// Indexing timestamp
    pub indexed_at: Option<String>,
    /// Viewer state
    pub viewer: Option<ProfileViewerState>,
    /// Labels
    pub labels: Option<Vec<serde_json::Value>>,
    /// Created at timestamp
    pub created_at: Option<String>,
}

/// A profile as one lookup returns it.
#[derive(Debug, Clone)]
pub struct GetProfileResponse {
    /// The profile
    pub profile: ProfileViewDetailed,
}

/// Profiles as a lookup of several returns them.
#[derive(Debug, Clone)]
pub struct GetProfilesResponse {
    /// The profiles
    pub profiles: Vec<ProfileViewDetailed>,
}

/// A page of suggested accounts to follow.
#[derive(Debug, Clone)]
pub struct SuggestedFollowsResponse {
    /// The accounts
    pub actors: Vec<ProfileView>,
    /// Cursor of the next page
    pub cursor: Option<String>,
}

/// Accounts suggested from another account.
#[derive(Debug, Clone)]
pub struct SuggestedFollowsByActorResponse {
    /// The accounts
    pub suggestions: Vec<ProfileView>,
    /// Whether these are fallback suggestions
    pub is_fallback: bool,
    /// Recommendation ID
    pub rec_id: Option<String>,
}

/// A page of followers of an account that the viewer knows.
#[derive(Debug, Clone)]
pub struct KnownFollowersResponse {
    /// The account
    pub subject: String,
    /// The followers
    pub followers: Vec<ProfileView>,
    /// How many there are
    pub count: u32,
    /// Cursor of the next page
    pub cursor: Option<String>,
}

} // verus!

verus! {

/// Profile service error types.
#[derive(Debug)]
pub enum ProfileError {
    /// XRPC error
    Xrpc(String),
    /// Profile not found
    NotFound(String),
    /// Invalid actor identifier
    InvalidActor(String),
    /// Network error
    Network(String),
    /// Serialization error
    Serialization(serde_json::Error),
    /// No active session
    NoSession,
}

impl ProfileError {
    /// The error message.
    pub fn to_string(&self) -> (r: String)
        ensures
            match self {
                ProfileError::Xrpc(m) => r@ == "XRPC error: "@ + m@,
                ProfileError::NotFound(m) => r@ == "Profile not found: "@ + m@,
                ProfileError::InvalidActor(m) => r@ == "Invalid actor identifier: "@ + m@,
                ProfileError::Network(m) => r@ == "Network error: "@ + m@,
                ProfileError::Serialization(_) => true,
                ProfileError::NoSession => r@ == "No active session"@,
            },
    {
        match self {
            ProfileError::Xrpc(m) => concat2("XRPC error: ", m.as_str()),
            ProfileError::NotFound(m) => concat2("Profile not found: ", m.as_str()),
            ProfileError::InvalidActor(m) => concat2("Invalid actor identifier: ", m.as_str()),
            ProfileError::Network(m) => concat2("Network error: ", m.as_str()),
            ProfileError::Serialization(e) => {
                let m = json_error_message(e);
                concat2("Serialization error: ", m.as_str())
            },
            ProfileError::NoSession => owned("No active session"),
        }
    }
}

/// Maximum display name length, in characters.
pub const MAX_DISPLAY_NAME_CHARS: usize = 64;

/// Maximum description length, in characters.
pub const MAX_DESCRIPTION_CHARS: usize = 256;

/// Parameters for updating a profile; only the fields that are set are changed.
#[derive(Debug, Clone)]
pub struct ProfileUpdateParams {
    /// Repository (DID) of the profile to update
    pub repo: String,
    /// Display name (max 64 characters)
    pub display_name: Option<String>,
    /// Profile description/bio (max 256 characters)
    pub description: Option<String>,
    /// Avatar image blob reference
    pub avatar: Option<serde_json::Value>,
    /// Banner image blob reference
    pub banner: Option<serde_json::Value>,
}

/// Which limit, if any, a profile update breaks: the display name is checked first.
pub open spec fn profile_update_error(display_name: Option<Seq<char>>, description: Option<Seq<char>>) -> Option<Seq<char>> {
    if display_name is Some && display_name.unwrap().len() > 64 {
        Some("Display name must be 64 characters or less"@)
    } else if description is Some && description.unwrap().len() > 256 {
        Some("Description must be 256 characters or less"@)
    } else {
        None
    }
}

/// The view of an optional string.
pub open spec fn opt_view(s: Option<String>) -> Option<Seq<char>> {
    match s {
        Some(x) => Some(x@),
        None => None,
    }
}

impl ProfileUpdateParams {
    /// Creates a profile update for the given repository.
    pub fn new(repo: &str) -> (r: Self)
        ensures
            r.repo@ == repo@,
            r.display_name is None,
            r.description is None,
            r.avatar is None,
            r.banner is None,
    {
        ProfileUpdateParams {
            repo: owned(repo),
            display_name: None,
            description: None,
            avatar: None,
            banner: None,
        }
    }

    /// Sets the display name.
    pub fn with_display_name(self, display_name: &str) -> (r: Self)
        ensures
            r.display_name is Some && r.display_name.unwrap()@ == display_name@,
            r.repo == self.repo,
            r.description == self.description,
            r.avatar == self.avatar,
            r.banner == self.banner,
    {
        let mut s = self;
        s.display_name = Some(owned(display_name));
        s
    }

    /// Sets the description (bio).
    pub fn with_description(self, description: &str) -> (r: Self)
        ensures
            r.description is Some && r.description.unwrap()@ == description@,
            r.repo == self.repo,
            r.display_name == self.display_name,
            r.avatar == self.avatar,
            r.banner == self.banner,
    {
        let mut s = self;
        s.description = Some(owned(description));
        s
    }

    /// Sets the avatar blob.
    pub fn with_avatar(self, avatar: serde_json::Value) -> (r: Self)
        ensures
            r.avatar == Some(avatar),
            r.repo == self.repo,
            r.display_name == self.display_name,
            r.description == self.description,
            r.banner == self.banner,
    {
        let mut s = self;
        s.avatar = Some(avatar);
        s
    }

    /// Sets the banner blob.
    pub fn with_banner(self, banner: serde_json::Value) -> (r: Self)
        ensures
            r.banner == Some(banner),
            r.repo == self.repo,
            r.display_name == self.display_name,
            r.description == self.description,
            r.avatar == self.avatar,
    {
        let mut s = self;
        s.banner = Some(banner);
        s
    }

    /// Checks the character limits that a profile update must meet before it is sent:
    /// at most 64 characters of display name and 256 of description.
    pub fn validate(&self) -> (r: Result<(), ProfileError>)
        ensures
            match profile_update_error(opt_view(self.display_name), opt_view(self.description)) {
                Some(m) => r matches Err(ProfileError::InvalidActor(x)) && x@ == m,
                None => r is Ok,
            },
    {
        if let Some(name) = &self.display_name {
            if name.as_str().unicode_len() > MAX_DISPLAY_NAME_CHARS {
                return Err(ProfileError::InvalidActor(owned("Display name must be 64 characters or less")));
            }
        }
        if let Some(desc) = &self.description {
            if desc.as_str().unicode_len() > MAX_DESCRIPTION_CHARS {
                return Err(ProfileError::InvalidActor(owned("Description must be 256 characters or less")));
            }
        }
        Ok(())
    }
}

/// Parameters for the suggested-follows query.
#[derive(Debug, Clone)]
pub struct SuggestedFollowsParams {
    /// Pagination cursor
    pub cursor: Option<String>,
    /// Number of results to return (default 25, max 100)
    pub limit: u32,
    /// User interests for personalization
    pub interests: Option<Vec<String>>,
    /// Preferred language (e.g., "en", "es", "en,es")
    pub language: Option<String>,
}

impl Default for SuggestedFollowsParams {
    fn default() -> (r: Self)
        ensures
            r.cursor is None,
            r.limit == 0,
            r.interests is None,
            r.language is None,
    {
        SuggestedFollowsParams { cursor: None, limit: 0, interests: None, language: None }
    }
}

/// The smaller of `limit` and 100, the API's cap on page sizes.
pub open spec fn capped_limit(limit: u32) -> u32 {
    if limit < 100 {
        limit
    } else {
        100
    }
}

/// `limit` capped at 100.
pub fn cap_limit(limit: u32) -> (r: u32)
    ensures
        r == capped_limit(limit),
{
    if limit < 100 {
        limit
    } else {
        100
    }
}

impl SuggestedFollowsParams {
    /// Creates parameters with the defaults: no cursor, a limit of 25, no interests, no language.
    pub fn new() -> (r: Self)
        ensures
            r.cursor is None,
            r.limit == 25,
            r.interests is None,
            r.language is None,
    {
        SuggestedFollowsParams { cursor: None, limit: 25, interests: None, language: None }
    }

    /// Sets the pagination cursor.
    pub fn with_cursor(self, cursor: String) -> (r: Self)
        ensures
            r.cursor == Some(cursor),
            r.limit == self.limit,
            r.interests == self.interests,
            r.language == self.language,
    {
        let mut s = self;
        s.cursor = Some(cursor);
        s
    }

    /// Sets the result limit, capped at 100.
    pub fn with_limit(self, limit: u32) -> (r: Self)
        ensures
            r.limit == capped_limit(limit),
            r.cursor == self.cursor,
            r.interests == self.interests,
            r.language == self.language,
    {
        let mut s = self;
        s.limit = cap_limit(limit);
        s
    }

    /// Sets user interests for personalization.
    pub fn with_interests(self, interests: Vec<String>) -> (r: Self)
        ensures
            r.interests == Some(interests),
            r.cursor == self.cursor,
            r.limit == self.limit,
            r.language == self.language,
    {
        let mut s = self;
        s.interests = Some(interests);
        s
    }

    /// Sets the preferred language.
    pub fn with_language(self, language: &str) -> (r: Self)
        ensures
            r.language is Some && r.language.unwrap()@ == language@,
            r.cursor == self.cursor,
            r.limit == self.limit,
            r.interests == self.interests,
    {
        let mut s = self;
        s.language = Some(owned(language));
        s
    }
}

/// Parameters for the known-followers query.
#[derive(Debug, Clone)]
pub struct KnownFollowersParams {
    /// Pagination cursor
    pub cursor: Option<String>,
    /// Number of results to return (default 50, max 100)
    pub limit: u32,
}

impl Default for KnownFollowersParams {
    fn default() -> (r: Self)
        ensures
            r.cursor is None,
            r.limit == 0,
    {
        KnownFollowersParams { cursor: None, limit: 0 }
    }
}

impl KnownFollowersParams {
    /// Creates parameters with no cursor and a limit of 50.
    pub fn new() -> (r: Self)
        ensures
            r.cursor is None,
            r.limit == 50,
    {
        KnownFollowersParams { cursor: None, limit: 50 }
    }

    /// Sets the pagination cursor.
    pub fn with_cursor(self, cursor: String) -> (r: Self)
        ensures
            r.cursor == Some(cursor),
            r.limit == self.limit,
    {
        KnownFollowersParams { cursor: Some(cursor), limit: self.limit }
    }

    /// Sets the limit, capped at 100.
    pub fn with_limit(self, limit: u32) -> (r: Self)
        ensures
            r.limit == capped_limit(limit),
            r.cursor == self.cursor,
    {
        KnownFollowersParams { cursor: self.cursor, limit: cap_limit(limit) }
    }
}

/// The repository and record key of a follow record, taken from its `at://` URI
/// before it is deleted: the first and third `/`-separated pieces.
pub open spec fn follow_record_keys_spec(uri: Seq<char>) -> Result<(Seq<char>, Seq<char>), Seq<char>> {
    if uri.len() == 0 {
        Err("Follow URI cannot be empty"@)
    } else if at_uri_parts(uri).len() < 3 {
        Err("Invalid follow URI format: "@ + uri)
    } else {
        Ok((at_uri_parts(uri)[0], at_uri_parts(uri)[2]))
    }
}

/// Extracts `(repo, rkey)` from a follow record URI, rejecting what unfollowing rejects.
pub fn follow_record_keys(follow_uri: &str) -> (r: Result<(String, String), ProfileError>)
    ensures
        match follow_record_keys_spec(follow_uri@) {
            Ok((a, b)) => r matches Ok((x, y)) && x@ == a && y@ == b,
            Err(m) => r matches Err(ProfileError::InvalidActor(x)) && x@ == m,
        },
{
    if follow_uri.is_empty() {
        return Err(ProfileError::InvalidActor(owned("Follow URI cannot be empty")));
    }
    let parts = at_uri_parts_exec(follow_uri);
    if parts.len() < 3 {
        return Err(ProfileError::InvalidActor(concat2("Invalid follow URI format: ", follow_uri)));
    }
    let repo = string_of(parts[0].as_slice());
    let rkey = string_of(parts[2].as_slice());
    Ok((repo, rkey))
}


/// Checks the actor of a profile lookup: it cannot be empty.
pub fn check_actor(actor: &str) -> (r: Result<(), ProfileError>)
    ensures
        actor@.len() > 0 ==> r is Ok,
        actor@.len() == 0 ==> (r matches Err(ProfileError::InvalidActor(m)) && m@ == "Actor cannot be empty"@),
{
    if actor.is_empty() {
        Err(ProfileError::InvalidActor(owned("Actor cannot be empty")))
    } else {
        Ok(())
    }
}

/// Most actors one lookup of several profiles may name.
pub const MAX_ACTORS_PER_REQUEST: usize = 25;

/// Checks the number of actors of a lookup of several profiles: at most 25.
pub fn check_actor_count(count: usize) -> (r: Result<(), ProfileError>)
    ensures
        count <= MAX_ACTORS_PER_REQUEST ==> r is Ok,
        count > MAX_ACTORS_PER_REQUEST ==> (r matches Err(ProfileError::InvalidActor(m))
            && m@ == "Maximum 25 actors allowed per request"@),
{
    if count > MAX_ACTORS_PER_REQUEST {
        Err(ProfileError::InvalidActor(owned("Maximum 25 actors allowed per request")))
    } else {
        Ok(())
    }
}

/// Checks the DID to follow: it cannot be empty.
pub fn check_follow_subject(did: &str) -> (r: Result<(), ProfileError>)
    ensures
        did@.len() > 0 ==> r is Ok,
        did@.len() == 0 ==> (r matches Err(ProfileError::InvalidActor(m)) && m@ == "DID cannot be empty"@),
{
    if did.is_empty() {
        Err(ProfileError::InvalidActor(owned("DID cannot be empty")))
    } else {
        Ok(())
    }
}

} // verus!
