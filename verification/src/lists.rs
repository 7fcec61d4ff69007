//! User lists: curation and moderation lists, their views, and the record keys their
//! operations use.
use vstd::prelude::*;
use crate::feeds::Label;
use crate::json::json_error_message;
use crate::posts::Facet;
use crate::profiles::ProfileViewBasic;
use crate::text::{chars_of, concat2, owned, skip_exec, str_eq, string_of};

verus! {

/// Number of items fetched per page when none is given.
pub const PAGE_SIZE: u32 = 30;

/// Maximum number of pages fetched when collecting all members.
pub const MAX_PAGES: usize = 6;

/// List errors.
#[derive(Debug)]
pub enum ListError {
    /// API error
    ApiError(String),
    /// Parse error
    ParseError(serde_json::Error),
    /// List not found
    NotFound(String),
    /// Not authorized
    NotAuthorized(String),
    /// Invalid list purpose
    InvalidPurpose(String),
    /// No active session
    NoSession,
}

impl ListError {
    /// The error message (that of a parse error is serde_json's).
    pub fn to_string(&self) -> (r: String)
        ensures
            match self {
                ListError::ApiError(m) => r@ == "API error: "@ + m@,
                ListError::ParseError(_) => true,
                ListError::NotFound(m) => r@ == "List not found: "@ + m@,
                ListError::NotAuthorized(m) => r@ == "Not authorized: "@ + m@,
                ListError::InvalidPurpose(m) => r@ == "Invalid list purpose: "@ + m@,
                ListError::NoSession => r@ == "No active session"@,
            },
    {
        match self {
            ListError::ApiError(m) => concat2("API error: ", m.as_str()),
            ListError::ParseError(e) => {
                let m = json_error_message(e);
                concat2("Parse error: ", m.as_str())
            },
            ListError::NotFound(m) => concat2("List not found: ", m.as_str()),
            ListError::NotAuthorized(m) => concat2("Not authorized: ", m.as_str()),
            ListError::InvalidPurpose(m) => concat2("Invalid list purpose: ", m.as_str()),
            ListError::NoSession => owned("No active session"),
        }
    }
}

/// What a list is for.
#[derive(Debug, Clone, Copy, PartialEq, Eq, Hash)]
pub enum ListPurpose {
    /// A curation list
    Curatelist,
    /// A moderation list
    Modlist,
    /// A reference list
    Referencelist,
}

/// The lexicon name of a purpose.
pub open spec fn purpose_name(p: ListPurpose) -> Seq<char> {
    match p {
        ListPurpose::Curatelist => "app.bsky.graph.defs#curatelist"@,
        ListPurpose::Modlist => "app.bsky.graph.defs#modlist"@,
        ListPurpose::Referencelist => "app.bsky.graph.defs#referencelist"@,
    }
}

/// The purpose with lexicon name `s`, if any.
pub open spec fn purpose_of(s: Seq<char>) -> Option<ListPurpose> {
    if s == "app.bsky.graph.defs#curatelist"@ {
        Some(ListPurpose::Curatelist)
    } else if s == "app.bsky.graph.defs#modlist"@ {
        Some(ListPurpose::Modlist)
    } else if s == "app.bsky.graph.defs#referencelist"@ {
        Some(ListPurpose::Referencelist)
    } else {
        None
    }
}

impl ListPurpose {
    /// The lexicon name.
    pub fn as_str(&self) -> (r: &'static str)
        ensures
            r@ == purpose_name(*self),
    {
        match self {
            ListPurpose::Curatelist => "app.bsky.graph.defs#curatelist",
            ListPurpose::Modlist => "app.bsky.graph.defs#modlist",
            ListPurpose::Referencelist => "app.bsky.graph.defs#referencelist",
        }
    }

    /// The purpose named `s`, if any.
    pub fn from_str(s: &str) -> (r: Option<Self>)
        ensures
            r == purpose_of(s@),
    {
        if str_eq(s, "app.bsky.graph.defs#curatelist") {
            Some(ListPurpose::Curatelist)
        } else if str_eq(s, "app.bsky.graph.defs#modlist") {
            Some(ListPurpose::Modlist)
        } else if str_eq(s, "app.bsky.graph.defs#referencelist") {
            Some(ListPurpose::Referencelist)
        } else {
            None
        }
    }

    /// Whether it is a moderation list.
    pub fn is_modlist(&self) -> (r: bool)
        ensures
            r == (*self == ListPurpose::Modlist),
    {
        match self {
            ListPurpose::Modlist => true,
            _ => false,
        }
    }

    /// Whether it is a curation list.
    pub fn is_curatelist(&self) -> (r: bool)
        ensures
            r == (*self == ListPurpose::Curatelist),
    {
        match self {
            ListPurpose::Curatelist => true,
            _ => false,
        }
    }

    /// The lexicon name, as the purpose is displayed.
    pub fn to_string(&self) -> (r: String)
        ensures
            r@ == purpose_name(*self),
    {
        owned(self.as_str())
    }
}

/// A purpose's name reads back as the same purpose.
pub proof fn law_purpose_name_round_trip(p: ListPurpose)
    ensures
        purpose_of(purpose_name(p)) == Some(p),
{
    reveal_strlit("app.bsky.graph.defs#curatelist");
    reveal_strlit("app.bsky.graph.defs#modlist");
    reveal_strlit("app.bsky.graph.defs#referencelist");
    assert("app.bsky.graph.defs#curatelist"@[24] != "app.bsky.graph.defs#modlist"@[24]);
    assert("app.bsky.graph.defs#curatelist"@[20] != "app.bsky.graph.defs#referencelist"@[20]);
    assert("app.bsky.graph.defs#modlist"@[20] != "app.bsky.graph.defs#referencelist"@[20]);
}

/// The viewer's relation to a list.
#[derive(Debug, Clone, PartialEq, Eq)]
pub struct ListViewerState {
    /// Whether the viewer mutes the list
    pub muted: Option<bool>,
    /// URI of the viewer's block of the list
    pub blocked: Option<String>,
}

impl Default for ListViewerState {
    fn default() -> (r: Self)
        ensures
            r.muted is None,
            r.blocked is None,
    {
        ListViewerState { muted: None, blocked: None }
    }
}

impl ListViewerState {
    /// Whether the list is muted (absent means not).
    pub fn is_muted(&self) -> (r: bool)
        ensures
            r == (self.muted == Some(true)),
    {
        match self.muted {
            Some(m) => m,
            None => false,
        }
    }

    /// Whether the list is blocked.
    pub fn is_blocked(&self) -> (r: bool)
        ensures
            r == (self.blocked is Some),
    {
        self.blocked.is_some()
    }
}

/// Basic view of a list.
#[derive(Debug, Clone, PartialEq)]
pub struct ListViewBasic {
    /// URI
    pub uri: String,
    /// CID
    pub cid: String,
    /// Name
    pub name: String,
    /// Purpose (lexicon name)
    pub purpose: String,
    /// Avatar URL
    pub avatar: Option<String>,
    /// Number of items
    pub list_item_count: Option<u32>,
    /// Labels
    pub labels: Option<Vec<Label>>,
    /// Viewer state
    pub viewer: Option<ListViewerState>,
    /// Indexing timestamp
    pub indexed_at: Option<String>,
}

impl ListViewBasic {
    /// The list's purpose, if its name is known.
    pub fn purpose_enum(&self) -> (r: Option<ListPurpose>)
        ensures
            r == purpose_of(self.purpose@),
    {
        ListPurpose::from_str(self.purpose.as_str())
    }
}

/// Full view of a list.
#[derive(Debug, Clone, PartialEq)]
pub struct ListView {
    /// URI
    pub uri: String,
    /// CID
    pub cid: String,
    /// Creator
    pub creator: ProfileViewBasic,
    /// Name
    pub name: String,
    /// Purpose (lexicon name)
    pub purpose: String,
    /// Description
    pub description: Option<String>,
    /// Facets of the description
    pub description_facets: Option<Vec<Facet>>,
    /// Avatar URL
    pub avatar: Option<String>,
    /// Number of items
    pub list_item_count: Option<u32>,
    /// Labels
    pub labels: Option<Vec<Label>>,
    /// Viewer state
    pub viewer: Option<ListViewerState>,
    /// Indexing timestamp
    pub indexed_at: Option<String>,
}

impl ListView {
    /// The list's purpose, if its name is known.
    pub fn purpose_enum(&self) -> (r: Option<ListPurpose>)
        ensures
            r == purpose_of(self.purpose@),
    {
        ListPurpose::from_str(self.purpose.as_str())
    }

    /// Whether `did` created the list.
    pub fn is_owned_by(&self, did: &str) -> (r: bool)
        ensures
            r == (self.creator.did@ == did@),
    {
        str_eq(self.creator.did.as_str(), did)
    }
}

/// A member of a list.
#[derive(Debug, Clone, PartialEq)]
pub struct ListItemView {
    /// URI of the list item record
    pub uri: String,
    /// The member
    pub subject: ProfileViewBasic,
}

/// Parameters for creating a list.
#[derive(Debug, Clone)]
pub struct CreateListParams {
    /// Purpose
    pub purpose: ListPurpose,
    /// Name
    pub name: String,
    /// Description
    pub description: Option<String>,
    /// Facets of the description
    pub description_facets: Option<Vec<Facet>>,
    /// Avatar blob
    pub avatar: Option<serde_json::Value>,
}

/// A list item record.
#[derive(Debug, Clone)]
pub struct ListItemRecord {
    /// DID of the member
    pub subject: String,
    /// URI of the list
    pub list: String,
    /// Creation timestamp
    pub created_at: String,
}

/// Response from creating a record.
#[derive(Debug, Clone)]
pub struct CreateRecordResponse {
    /// URI of the record
    pub uri: String,
    /// CID of the record
    pub cid: String,
}

/// A list with a page of its items, as the API returns it.
#[derive(Debug, Clone)]
pub struct GetListResponse {
    /// Cursor of the next page
    pub cursor: Option<String>,
    /// The list
    pub list: ListView,
    /// The items
    pub items: Vec<ListItemView>,
}

/// A page of lists, as the API returns it.
#[derive(Debug, Clone)]
pub struct GetListsResponse {
    /// Cursor of the next page
    pub cursor: Option<String>,
    /// The lists
    pub lists: Vec<ListView>,
}

/// Parameters for updating a list.
#[derive(Debug, Clone)]
pub struct UpdateListParams {
    /// List URI
    pub uri: String,
    /// New name
    pub name: String,
    /// New description
    pub description: Option<String>,
    /// New description facets
    pub description_facets: Option<Vec<Facet>>,
    /// New avatar (`None` keeps it, `Some(None)` removes it)
    pub avatar: Option<Option<serde_json::Value>>,
}

/// The part of a URI after its last `/` (all of it when it has none): the record key.
pub open spec fn last_segment(uri: Seq<char>) -> Seq<char> {
    match crate::editor::last_index_of(uri, '/') {
        Some(i) => uri.skip(i + 1),
        None => uri,
    }
}

/// The record key of a record URI: what follows its last `/`.
pub fn record_key(uri: &str) -> (r: String)
    ensures
        r@ == last_segment(uri@),
{
    let s = chars_of(uri);
    let mut j: usize = s.len();
    assert(s@.take(s@.len() as int) =~= s@);
    while j > 0
        invariant
            j <= s@.len(),
            s@ == uri@,
            crate::editor::last_index_of(s@, '/') == crate::editor::last_index_of(s@.take(j as int), '/'),
        decreases j,
    {
        assert(s@.take(j as int).last() == s@[j - 1]);
        if s[j - 1] == '/' {
            assert(crate::editor::last_index_of(s@.take(j as int), '/') == Some(j - 1));
            let rest = skip_exec(s.as_slice(), j);
            return string_of(rest.as_slice());
        }
        assert(s@.take(j as int).drop_last() =~= s@.take(j - 1));
        j -= 1;
    }
    owned(uri)
}

/// A value an update writes into a list record.
#[derive(Debug, Clone)]
pub enum RecordValue {
    /// A string
    Text(String),
    /// Description facets
    Facets(Vec<Facet>),
    /// A JSON value (a blob reference)
    Json(serde_json::Value),
    /// `null`
    Null,
}

/// What an update writes into a field from an optional value: the value, or `null`.
pub open spec fn text_or_null(v: Option<String>, w: RecordValue) -> bool {
    match v {
        Some(t) => w matches RecordValue::Text(x) && x@ == t@,
        None => w is Null,
    }
}

/// The fields an update writes into the list record it reads back, in order; the record's
/// other fields are kept. The name; the description, `null` when there is none; the
/// description facets, `null` when there are none; and the avatar only when the update says
/// something of it: `null` to remove it, else the new blob.
pub fn list_record_changes(params: UpdateListParams) -> (r: Vec<(String, RecordValue)>)
    ensures
        r@.len() == (if params.avatar is Some {
            4int
        } else {
            3int
        }),
        r@[0].0@ == "name"@,
        r@[0].1 matches RecordValue::Text(n) && n@ == params.name@,
        r@[1].0@ == "description"@,
        text_or_null(params.description, r@[1].1),
        r@[2].0@ == "descriptionFacets"@,
        match params.description_facets {
            Some(f) => r@[2].1 == RecordValue::Facets(f),
            None => r@[2].1 is Null,
        },
        match params.avatar {
            Some(Some(v)) => r@[3].0@ == "avatar"@ && r@[3].1 == RecordValue::Json(v),
            Some(None) => r@[3].0@ == "avatar"@ && (r@[3].1 is Null),
            None => true,
        },
{
    let UpdateListParams { uri: _, name, description, description_facets, avatar } = params;
    let mut r: Vec<(String, RecordValue)> = Vec::new();
    r.push((owned("name"), RecordValue::Text(name)));
    let d = match description {
        Some(t) => RecordValue::Text(t),
        None => RecordValue::Null,
    };
    r.push((owned("description"), d));
    let f = match description_facets {
        Some(f) => RecordValue::Facets(f),
        None => RecordValue::Null,
    };
    r.push((owned("descriptionFacets"), f));
    match avatar {
        Some(Some(v)) => r.push((owned("avatar"), RecordValue::Json(v))),
        Some(None) => r.push((owned("avatar"), RecordValue::Null)),
        None => {},
    }
    r
}

/// The page size asked for: the given limit, else `PAGE_SIZE`.
pub fn page_limit(limit: Option<u32>) -> (r: u32)
    ensures
        r == match limit {
            Some(l) => l,
            None => PAGE_SIZE,
        },
{
    match limit {
        Some(l) => l,
        None => PAGE_SIZE,
    }
}


/// Record deletions sent in one batch.
pub const DELETE_BATCH_SIZE: usize = 10;

/// The records deleted with a list, as (collection, record key): each item's record, in
/// order, then the list's own.
pub open spec fn list_deletions(item_uris: Seq<Seq<char>>, list_uri: Seq<char>) -> Seq<(Seq<char>, Seq<char>)> {
    item_uris.map_values(|u: Seq<char>| ("app.bsky.graph.listitem"@, last_segment(u))).push(
        ("app.bsky.graph.list"@, last_segment(list_uri)),
    )
}

/// `s` cut into consecutive batches of ten, the last one possibly shorter.
pub open spec fn in_batches<T>(s: Seq<T>) -> Seq<Seq<T>> {
    Seq::new(
        ((s.len() + 9) / 10) as nat,
        |j: int| s.subrange(10 * j, if 10 * j + 10 < s.len() { 10 * j + 10 } else { s.len() as int }),
    )
}

/// The pairs seen as character sequences.
pub open spec fn pair_views(v: Seq<(String, String)>) -> Seq<(Seq<char>, Seq<char>)> {
    v.map_values(|p: (String, String)| (p.0@, p.1@))
}

/// The batches seen as character sequences.
pub open spec fn batch_views(v: Seq<Vec<(String, String)>>) -> Seq<Seq<(Seq<char>, Seq<char>)>> {
    v.map_values(|b: Vec<(String, String)>| pair_views(b@))
}

/// The deletions that remove a list with its items (see `list_deletions`), in batches of ten.
pub fn list_deletion_batches(item_uris: &[String], list_uri: &str) -> (r: Vec<Vec<(String, String)>>)
    ensures
        batch_views(r@) == in_batches(list_deletions(crate::text::string_views(item_uris@), list_uri@)),
{
    let ghost target = list_deletions(crate::text::string_views(item_uris@), list_uri@);
    let mut flat: Vec<(String, String)> = Vec::new();
    let mut i: usize = 0;
    while i < item_uris.len()
        invariant
            i <= item_uris@.len(),
            target == list_deletions(crate::text::string_views(item_uris@), list_uri@),
            pair_views(flat@) == target.take(i as int),
        decreases item_uris@.len() - i,
    {
        let k = record_key(item_uris[i].as_str());
        let ghost before = flat@;
        flat.push((owned("app.bsky.graph.listitem"), k));
        assert(pair_views(flat@) =~= pair_views(before).push(("app.bsky.graph.listitem"@, k@)));
        assert(target.take(i + 1) =~= target.take(i as int).push(target[i as int]));
        i += 1;
    }
    let lk = record_key(list_uri);
    let ghost before = flat@;
    flat.push((owned("app.bsky.graph.list"), lk));
    assert(pair_views(flat@) =~= pair_views(before).push(("app.bsky.graph.list"@, lk@)));
    assert(target.take(item_uris@.len() as int).push(target.last()) =~= target);
    let n = flat.len();
    let mut out: Vec<Vec<(String, String)>> = Vec::new();
    let mut start: usize = 0;
    while start < n
        invariant
            n == flat@.len(),
            pair_views(flat@) == target,
            start <= n,
            start < n ==> start == 10 * out@.len(),
            start == n ==> out@.len() == (n + 9) / 10,
            batch_views(out@) == in_batches(target).take(out@.len() as int),
            out@.len() <= (n + 9) / 10,
        decreases n - start,
    {
        let end: usize = if n - start > 10 {
            start + 10
        } else {
            n
        };
        let mut b: Vec<(String, String)> = Vec::new();
        let mut j: usize = start;
        while j < end
            invariant
                start <= j <= end <= n,
                n == flat@.len(),
                pair_views(b@) == pair_views(flat@).subrange(start as int, j as int),
            decreases end - j,
        {
            let ghost bb = b@;
            b.push((flat[j].0.clone(), flat[j].1.clone()));
            assert(pair_views(b@) =~= pair_views(bb).push((flat@[j as int].0@, flat@[j as int].1@)));
            assert(pair_views(flat@).subrange(start as int, j + 1) =~= pair_views(flat@).subrange(
                start as int,
                j as int,
            ).push(pair_views(flat@)[j as int]));
            j += 1;
        }
        let ghost ob = out@;
        out.push(b);
        assert(batch_views(out@) =~= batch_views(ob).push(pair_views(b@)));
        assert(in_batches(target)[ob.len() as int] == pair_views(b@));
        assert(in_batches(target).take(out@.len() as int) =~= in_batches(target).take(ob.len() as int).push(
            in_batches(target)[ob.len() as int],
        ));
        start = end;
    }
    assert(in_batches(target).take(out@.len() as int) =~= in_batches(target));
    out
}

} // verus!
