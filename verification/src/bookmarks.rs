//! Bookmarks (saved posts): their records and responses, and a local cache of bookmarked URIs.
use vstd::prelude::*;
use crate::feeds::PostView;
use crate::json::json_error_message;
use crate::keyed_map::KeyedMap;
use crate::text::{concat2, owned, str_eq};

verus! {

/// Number of bookmarks fetched per page when none is given.
pub const PAGE_SIZE: u32 = 25;

/// Bookmark errors.
#[derive(Debug)]
pub enum BookmarkError {
    /// API error
    ApiError(String),
    /// Parse error
    ParseError(serde_json::Error),
    /// Bookmark not found
    NotFound(String),
    /// No active session
    NoSession,
}

impl BookmarkError {
    /// The error message (that of a parse error is serde_json's).
    pub fn to_string(&self) -> (r: String)
        ensures
            match self {
                BookmarkError::ApiError(m) => r@ == "API error: "@ + m@,
                BookmarkError::ParseError(_) => true,
                BookmarkError::NotFound(m) => r@ == "Bookmark not found: "@ + m@,
                BookmarkError::NoSession => r@ == "No active session"@,
            },
    {
        match self {
            BookmarkError::ApiError(m) => concat2("API error: ", m.as_str()),
            BookmarkError::ParseError(e) => {
                let m = json_error_message(e);
                concat2("Parse error: ", m.as_str())
            },
            BookmarkError::NotFound(m) => concat2("Bookmark not found: ", m.as_str()),
            BookmarkError::NoSession => owned("No active session"),
        }
    }
}

/// The bookmarked post.
#[derive(Debug, Clone, PartialEq, Eq)]
pub struct BookmarkSubject {
    /// URI of the post
    pub uri: String,
    /// CID of the post
    pub cid: String,
}

/// A bookmark.
#[derive(Debug, Clone, PartialEq)]
pub struct Bookmark {
    /// When the bookmark was created
    pub created_at: String,
    /// The bookmarked post
    pub subject: BookmarkSubject,
    /// The post's content, if it was resolved
    pub item: Option<PostView>,
}

impl Bookmark {
    /// URI of the bookmarked post.
    pub fn post_uri(&self) -> (r: &str)
        ensures
            r@ == self.subject.uri@,
    {
        self.subject.uri.as_str()
    }

    /// CID of the bookmarked post.
    pub fn post_cid(&self) -> (r: &str)
        ensures
            r@ == self.subject.cid@,
    {
        self.subject.cid.as_str()
    }

    /// Whether the post's content was resolved.
    pub fn has_content(&self) -> (r: bool)
        ensures
            r == (self.item is Some),
    {
        self.item.is_some()
    }
}

/// A page of bookmarks.
#[derive(Debug, Clone)]
pub struct GetBookmarksResponse {
    /// Cursor of the next page
    pub cursor: Option<String>,
    /// The bookmarks
    pub bookmarks: Vec<Bookmark>,
}

impl GetBookmarksResponse {
    /// Whether another page follows.
    pub fn has_more(&self) -> (r: bool)
        ensures
            r == (self.cursor is Some),
    {
        self.cursor.is_some()
    }

    /// The number of bookmarks in the page.
    pub fn count(&self) -> (r: usize)
        ensures
            r == self.bookmarks@.len(),
    {
        self.bookmarks.len()
    }
}

/// Parameters for creating a bookmark.
#[derive(Debug, Clone)]
pub struct CreateBookmarkParams {
    /// URI of the post
    pub uri: String,
    /// CID of the post
    pub cid: String,
}

/// Parameters for deleting a bookmark.
#[derive(Debug, Clone)]
pub struct DeleteBookmarkParams {
    /// URI of the post
    pub uri: String,
}

/// The page size asked for: the given limit, else `PAGE_SIZE`.
pub fn page_limit(limit: Option<u32>) -> (r: u32)
    ensures
        r == match limit {
            Some(l) => l,
            None => PAGE_SIZE,
        },
{
    match limit {
        Some(l) => l,
        None => PAGE_SIZE,
    }
}

/// A local set of bookmarked post URIs.
#[derive(Debug, Clone)]
pub struct BookmarkCache {
    bookmarked_uris: KeyedMap<()>,
}

impl BookmarkCache {
    /// The bookmarked URIs.
    pub closed spec fn view(&self) -> Set<Seq<char>> {
        self.bookmarked_uris@.dom()
    }

    /// Each URI is held once.
    pub closed spec fn wf(&self) -> bool {
        self.bookmarked_uris.wf()
    }

    /// An empty cache.
    pub fn new() -> (r: Self)
        ensures
            r.wf(),
            r@ == Set::<Seq<char>>::empty(),
    {
        let r = BookmarkCache { bookmarked_uris: KeyedMap::new() };
        assert(r@ =~= Set::<Seq<char>>::empty());
        r
    }

    /// Records `uri` as bookmarked.
    pub fn add(&mut self, uri: &str)
        requires
            old(self).wf(),
        ensures
            final(self).wf(),
            final(self)@ == old(self)@.insert(uri@),
    {
        self.bookmarked_uris.insert(owned(uri), ());
        assert(self@ =~= old(self)@.insert(uri@));
    }

    /// Records `uri` as not bookmarked.
    pub fn remove(&mut self, uri: &str)
        requires
            old(self).wf(),
        ensures
            final(self).wf(),
            final(self)@ == old(self)@.remove(uri@),
    {
        self.bookmarked_uris.remove(uri);
        assert(self@ =~= old(self)@.remove(uri@));
    }

    /// Whether `uri` is bookmarked.
    pub fn contains(&self, uri: &str) -> (r: bool)
        ensures
            r == self@.contains(uri@),
    {
        self.bookmarked_uris.contains_key(uri)
    }

    /// Forgets every bookmark.
    pub fn clear(&mut self)
        ensures
            final(self).wf(),
            final(self)@ == Set::<Seq<char>>::empty(),
    {
        self.bookmarked_uris.clear();
        assert(self@ =~= Set::<Seq<char>>::empty());
    }

    /// The number of bookmarked URIs.
    pub fn len(&self) -> (r: usize)
        requires
            self.wf(),
        ensures
            r == self@.len(),
    {
        self.bookmarked_uris.len()
    }

    /// Whether no URI is bookmarked.
    pub fn is_empty(&self) -> (r: bool)
        ensures
            r == (self@ == Set::<Seq<char>>::empty()),
    {
        let r = self.bookmarked_uris.is_empty();
        proof {
            if r {
                assert(self@ =~= Set::<Seq<char>>::empty());
            } else {
                assert(!(self.bookmarked_uris@ =~= Map::<Seq<char>, ()>::empty()));
                let k = choose|k: Seq<char>| #[trigger] self.bookmarked_uris@.dom().contains(k);
                assert(self@.contains(k));
            }
        }
        r
    }

    /// Replaces the cache's content with the URIs of `bookmarks`.
    pub fn populate(&mut self, bookmarks: &[Bookmark])
        requires
            old(self).wf(),
        ensures
            final(self).wf(),
            final(self)@ == bookmark_uris(bookmarks@),
    {
        self.bookmarked_uris.clear();
        let mut i: usize = 0;
        assert(self@ =~= bookmark_uris(bookmarks@.take(0)));
        while i < bookmarks.len()
            invariant
                i <= bookmarks@.len(),
                self.wf(),
                self@ == bookmark_uris(bookmarks@.take(i as int)),
            decreases bookmarks@.len() - i,
        {
            self.bookmarked_uris.insert(owned(bookmarks[i].subject.uri.as_str()), ());
            proof {
                let t = bookmarks@.take(i + 1);
                assert(t.drop_last() =~= bookmarks@.take(i as int));
                assert(t.last() == bookmarks@[i as int]);
            }
            assert(self@ =~= bookmark_uris(bookmarks@.take(i + 1)));
            i += 1;
        }
        assert(bookmarks@.take(bookmarks@.len() as int) =~= bookmarks@);
    }
}

/// The set of the posts' URIs.
pub open spec fn bookmark_uris(s: Seq<Bookmark>) -> Set<Seq<char>>
    decreases s.len(),
{
    if s.len() == 0 {
        Set::empty()
    } else {
        bookmark_uris(s.drop_last()).insert(s.last().subject.uri@)
    }
}

impl Default for BookmarkCache {
    fn default() -> (r: Self)
        ensures
            r.wf(),
            r@ == Set::<Seq<char>>::empty(),
    {
        BookmarkCache::new()
    }
}

/// A URI just added is bookmarked; one just removed is not; adding a URI that was not there
/// and removing it again gives back the same set.
pub proof fn law_bookmark_add_remove(s: Set<Seq<char>>, uri: Seq<char>)
    ensures
        s.insert(uri).contains(uri),
        !s.remove(uri).contains(uri),
        !s.contains(uri) ==> s.insert(uri).remove(uri) == s,
        s.insert(uri).insert(uri) == s.insert(uri),
{
    assert(!s.contains(uri) ==> s.insert(uri).remove(uri) =~= s);
    assert(s.insert(uri).insert(uri) =~= s.insert(uri));
}


/// Pages of bookmarks searched before giving up.
pub const MAX_SEARCH_PAGES: usize = 10;

/// What to do after a page of bookmarks has been read while looking for a post.
#[derive(Debug, Clone, PartialEq, Eq)]
pub enum SearchStep {
    /// The post is bookmarked
    Found,
    /// Read the page at this cursor
    Next(String),
    /// The post is not bookmarked (or no more pages are read)
    NotFound,
}

/// Some bookmark of the page is of the post `uri`.
pub open spec fn page_has(page: Seq<Bookmark>, uri: Seq<char>) -> bool {
    exists|i: int| 0 <= i < page.len() && (#[trigger] page[i]).subject.uri@ == uri
}

/// The step after reading page `pages_read` (counting from one) of the bookmarks while
/// looking for `uri`: found when the page has it; else the next page while there is one and
/// fewer than `MAX_SEARCH_PAGES` have been read; else not found.
pub fn search_step(page: &GetBookmarksResponse, uri: &str, pages_read: usize) -> (r: SearchStep)
    ensures
        page_has(page.bookmarks@, uri@) ==> r == SearchStep::Found,
        !page_has(page.bookmarks@, uri@) && pages_read < MAX_SEARCH_PAGES && page.cursor is Some ==> (r matches SearchStep::Next(
            c,
        ) && c@ == page.cursor.unwrap()@),
        !page_has(page.bookmarks@, uri@) && (pages_read >= MAX_SEARCH_PAGES || page.cursor is None) ==> r
            == SearchStep::NotFound,
{
    let mut i: usize = 0;
    while i < page.bookmarks.len()
        invariant
            i <= page.bookmarks@.len(),
            forall|j: int| 0 <= j < i ==> (#[trigger] page.bookmarks@[j]).subject.uri@ != uri@,
        decreases page.bookmarks@.len() - i,
    {
        if str_eq(page.bookmarks[i].subject.uri.as_str(), uri) {
            assert(page.bookmarks@[i as int].subject.uri@ == uri@);
            return SearchStep::Found;
        }
        i += 1;
    }
    if pages_read >= MAX_SEARCH_PAGES {
        return SearchStep::NotFound;
    }
    match &page.cursor {
        Some(c) => SearchStep::Next(owned(c.as_str())),
        None => SearchStep::NotFound,
    }
}

} // verus!
