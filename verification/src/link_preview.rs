//! Link previews: the preview record, metadata extraction from HTML, and a preview cache.
use vstd::prelude::*;
use crate::keyed_map::{entry_views, keys_unique, lemma_map_of_entry, map_of, KeyedMap};
use crate::profiles::opt_view;
use crate::text::{
    chars_before_byte, chars_of, ci_find_from, ci_find_from_spec, ci_occurs_from, concat2, decimal,
    decimal_string, find_from, find_from_spec, is_boundary, lemma_ci_first_match_exists,
    lemma_first_match_exists, occurs_from, owned, prefix_until, prefix_until_exec, replace_all,
    replace_all_exec, skip_exec, starts_with, starts_with_exec, string_of, subrange_exec, take_exec,
    trim, trim_exec, utf8_len,
};

verus! {

/// Errors that can occur during link preview operations.
#[derive(Debug)]
pub enum LinkPreviewError {
    /// HTTP error
    Http(String),
    /// Invalid URL
    InvalidUrl(String),
    /// Parsing error
    Parse(String),
    /// No metadata found
    NoMetadata,
    /// Timeout
    Timeout,
    /// Too large
    TooLarge {
        /// Actual content size
        size: usize,
        /// Maximum allowed size
        max: usize,
    },
}

impl LinkPreviewError {
    /// The error message.
    pub fn to_string(&self) -> (r: String)
        ensures
            r@ == (match self {
                LinkPreviewError::Http(m) => "HTTP error: "@ + m@,
                LinkPreviewError::InvalidUrl(m) => "Invalid URL: "@ + m@,
                LinkPreviewError::Parse(m) => "Parsing error: "@ + m@,
                LinkPreviewError::NoMetadata => "No metadata found for URL"@,
                LinkPreviewError::Timeout => "Request timeout"@,
                LinkPreviewError::TooLarge { size, max } => "Content too large: "@ + decimal(
                    *size as nat,
                ) + " bytes exceeds maximum "@ + decimal(*max as nat),
            }),
    {
        match self {
            LinkPreviewError::Http(m) => concat2("HTTP error: ", m.as_str()),
            LinkPreviewError::InvalidUrl(m) => concat2("Invalid URL: ", m.as_str()),
            LinkPreviewError::Parse(m) => concat2("Parsing error: ", m.as_str()),
            LinkPreviewError::NoMetadata => owned("No metadata found for URL"),
            LinkPreviewError::Timeout => owned("Request timeout"),
            LinkPreviewError::TooLarge { size, max } => {
                let a = decimal_string(*size as u64);
                let b = decimal_string(*max as u64);
                let mut s = concat2("Content too large: ", a.as_str());
                s.append(" bytes exceeds maximum ");
                s.append(b.as_str());
                s
            },
        }
    }
}

/// Maximum HTML size to fetch (1 MB).
pub const MAX_HTML_SIZE: usize = 1_024_000;

/// Maximum number of redirects to follow.
pub const MAX_REDIRECTS: usize = 5;

/// Link preview metadata.
#[derive(Debug, Clone, PartialEq, Eq)]
pub struct LinkPreview {
    /// Original URL
    pub url: String,
    /// Final URL after redirects
    pub final_url: Option<String>,
    /// Page title
    pub title: Option<String>,
    /// Page description
    pub description: Option<String>,
    /// Preview image URL
    pub image: Option<String>,
    /// Site name
    pub site_name: Option<String>,
    /// Favicon URL
    pub favicon: Option<String>,
    /// Content type
    pub content_type: Option<String>,
}

/// The host part of an `https://` or `http://` URL: what follows the scheme, up to the first `/`.
pub open spec fn hostname_spec(url: Seq<char>) -> Option<Seq<char>> {
    if starts_with(url, "https://"@) {
        Some(prefix_until(url.skip(8), seq!['/']))
    } else if starts_with(url, "http://"@) {
        Some(prefix_until(url.skip(7), seq!['/']))
    } else {
        None
    }
}

/// What `truncated_description` gives for a description `d`: `d` itself when it is at most
/// `max` bytes long, else its first `max` bytes followed by `...`.
pub open spec fn truncated_spec(d: Seq<char>, max: nat, r: Seq<char>) -> bool {
    if utf8_len(d) > max {
        exists|k: int| 0 <= k <= d.len() && utf8_len(#[trigger] d.take(k)) == max && r == d.take(k) + "..."@
    } else {
        r == d
    }
}

/// A preview of `url` that holds nothing else.
pub open spec fn is_bare_preview(p: LinkPreview, url: Seq<char>) -> bool {
    &&& p.url@ == url
    &&& p.final_url is None
    &&& p.title is None
    &&& p.description is None
    &&& p.image is None
    &&& p.site_name is None
    &&& p.favicon is None
    &&& p.content_type is None
}

impl LinkPreview {
    /// A preview of `url` with no metadata.
    pub fn new(url: &str) -> (r: Self)
        ensures
            is_bare_preview(r, url@),
    {
        LinkPreview {
            url: owned(url),
            final_url: None,
            title: None,
            description: None,
            image: None,
            site_name: None,
            favicon: None,
            content_type: None,
        }
    }

    /// Whether the preview has a title, description, image or site name.
    pub fn has_metadata(&self) -> (r: bool)
        ensures
            r == (self.title is Some || self.description is Some || self.image is Some
                || self.site_name is Some),
    {
        self.title.is_some() || self.description.is_some() || self.image.is_some() || self.site_name.is_some()
    }

    /// The title, else the site name.
    pub fn display_title(&self) -> (r: Option<&str>)
        ensures
            match r {
                Some(t) => (self.title is Some && t@ == self.title.unwrap()@) || (self.title is None
                    && self.site_name is Some && t@ == self.site_name.unwrap()@),
                None => self.title is None && self.site_name is None,
            },
    {
        match &self.title {
            Some(t) => Some(t.as_str()),
            None => match &self.site_name {
                Some(s) => Some(s.as_str()),
                None => None,
            },
        }
    }

    /// The host of the final URL (or of the original URL when there was no redirect);
    /// the URL itself when it is not `http(s)://`.
    pub fn display_url(&self) -> (r: String)
        ensures
            ({
                let u = match self.final_url {
                    Some(f) => f@,
                    None => self.url@,
                };
                r@ == match hostname_spec(u) {
                    Some(h) => h,
                    None => u,
                }
            }),
    {
        let u: &String = match &self.final_url {
            Some(f) => f,
            None => &self.url,
        };
        match Self::extract_hostname(u.as_str()) {
            Some(h) => h,
            None => u.clone(),
        }
    }

    /// The host of an `http(s)://` URL: what follows the scheme up to the first `/`.
    pub fn extract_hostname(url: &str) -> (r: Option<String>)
        ensures
            match hostname_spec(url@) {
                Some(h) => r matches Some(x) && x@ == h,
                None => r is None,
            },
    {
        let s = chars_of(url);
        let https = chars_of("https://");
        let http = chars_of("http://");
        let slash = ['/'];
        proof {
            reveal_strlit("https://");
            reveal_strlit("http://");
        }
        let start = if starts_with_exec(s.as_slice(), https.as_slice()) {
            8
        } else if starts_with_exec(s.as_slice(), http.as_slice()) {
            7
        } else {
            return None;
        };
        assert(seq!['/'] =~= slash@);
        let host = prefix_until_exec(s.as_slice(), start, &slash);
        Some(string_of(host.as_slice()))
    }

    /// The description cut to `max_length` bytes (followed by `...`) when it is longer.
    pub fn truncated_description(&self, max_length: usize) -> (r: Option<String>)
        requires
            self.description is Some && utf8_len(self.description.unwrap()@) > max_length
                ==> is_boundary(self.description.unwrap()@, max_length as int),
        ensures
            match self.description {
                Some(d) => r matches Some(x) && truncated_spec(d@, max_length as nat, x@),
                None => r is None,
            },
    {
        match &self.description {
            None => None,
            Some(desc) => Some(truncate_text(desc.as_str(), max_length)),
        }
    }
}

/// `text` cut to its first `max_length` bytes, followed by `...`, when it is longer.
pub fn truncate_text(text: &str, max_length: usize) -> (r: String)
    requires
        utf8_len(text@) > max_length ==> is_boundary(text@, max_length as int),
    ensures
        truncated_spec(text@, max_length as nat, r@),
{
    let cs = chars_of(text);
    match chars_before_byte(cs.as_slice(), max_length) {
        Some(k) => {
            if k < cs.len() {
                proof {
                    crate::text::lemma_utf8_take_monotone(cs@, k as int, cs@.len() as int);
                    assert(cs@.take(cs@.len() as int) =~= cs@);
                }
                let head = take_exec(cs.as_slice(), k);
                let hs = string_of(head.as_slice());
                concat2(hs.as_str(), "...")
            } else {
                assert(cs@.take(k as int) =~= cs@);
                owned(text)
            }
        },
        None => {
            proof {
                assert(cs@.take(cs@.len() as int) =~= cs@);
                if utf8_len(cs@) > max_length {
                } else {
                    assert(!is_boundary(cs@, max_length as int));
                }
            }
            owned(text)
        },
    }
}


/// The value a map holds for `k`, seen as characters.
pub open spec fn lookup(m: Map<Seq<char>, String>, k: Seq<char>) -> Option<Seq<char>> {
    if m.dom().contains(k) {
        Some(m[k]@)
    } else {
        None
    }
}

/// `a` when present, else `b`.
pub open spec fn or_else(a: Option<Seq<char>>, b: Option<Seq<char>>) -> Option<Seq<char>> {
    match a {
        Some(x) => Some(x),
        None => b,
    }
}

/// An optional string slice seen as characters.
pub open spec fn str_opt_view(o: Option<&str>) -> Option<Seq<char>> {
    match o {
        Some(x) => Some(x@),
        None => None,
    }
}

/// A map with string values, its values seen as characters.
pub open spec fn text_map(m: Map<Seq<char>, String>) -> Map<Seq<char>, Seq<char>> {
    m.map_values(|v: String| v@)
}

/// Inserting into a map of strings inserts the string's characters into its text view.
pub proof fn lemma_text_map_insert(m: Map<Seq<char>, String>, k: Seq<char>, v: String)
    ensures
        text_map(m.insert(k, v)) == text_map(m).insert(k, v@),
{
    assert(text_map(m.insert(k, v)) =~= text_map(m).insert(k, v@));
}

fn first_str<'a>(a: Option<&'a str>, b: Option<&'a str>) -> (r: Option<&'a str>)
    ensures
        str_opt_view(r) == or_else(str_opt_view(a), str_opt_view(b)),
{
    match a {
        Some(x) => Some(x),
        None => b,
    }
}

fn owned_opt(o: Option<&str>) -> (r: Option<String>)
    ensures
        opt_view(r) == str_opt_view(o),
{
    match o {
        Some(x) => Some(owned(x)),
        None => None,
    }
}

/// Raw HTML metadata extracted from a page.
#[derive(Debug, Clone)]
pub struct HtmlMetadata {
    /// Open Graph metadata (og:*)
    pub og: KeyedMap<String>,
    /// Twitter Card metadata (twitter:*)
    pub twitter: KeyedMap<String>,
    /// Standard HTML meta tags
    pub meta: KeyedMap<String>,
    /// Page title from the title tag
    pub title: Option<String>,
}

impl HtmlMetadata {
    /// Each of the three maps holds each key at most once.
    pub open spec fn wf(&self) -> bool {
        self.og.wf() && self.twitter.wf() && self.meta.wf()
    }

    /// Holds nothing.
    pub open spec fn is_blank(&self) -> bool {
        &&& self.wf()
        &&& self.og@ == Map::<Seq<char>, String>::empty()
        &&& self.twitter@ == Map::<Seq<char>, String>::empty()
        &&& self.meta@ == Map::<Seq<char>, String>::empty()
        &&& self.title is None
    }

    /// An empty metadata collection.
    pub fn new() -> (r: Self)
        ensures
            r.is_blank(),
    {
        HtmlMetadata { og: KeyedMap::new(), twitter: KeyedMap::new(), meta: KeyedMap::new(), title: None }
    }

    /// A value from the Open Graph metadata.
    pub fn get_og(&self, key: &str) -> (r: Option<&str>)
        ensures
            str_opt_view(r) == lookup(self.og@, key@),
    {
        match self.og.get(key) {
            Some(v) => Some(v.as_str()),
            None => None,
        }
    }

    /// A value from the Twitter Card metadata.
    pub fn get_twitter(&self, key: &str) -> (r: Option<&str>)
        ensures
            str_opt_view(r) == lookup(self.twitter@, key@),
    {
        match self.twitter.get(key) {
            Some(v) => Some(v.as_str()),
            None => None,
        }
    }

    /// A value from the standard meta tags.
    pub fn get_meta(&self, key: &str) -> (r: Option<&str>)
        ensures
            str_opt_view(r) == lookup(self.meta@, key@),
    {
        match self.meta.get(key) {
            Some(v) => Some(v.as_str()),
            None => None,
        }
    }

    /// A preview of `url` from this metadata: the title from `og:title`, `twitter:title` or the
    /// page title; the description from `og:description`, `twitter:description` or the meta
    /// description; the image from `og:image` or `twitter:image`; the site name from
    /// `og:site_name` (the first present in each list).
    pub fn to_preview(&self, url: &str) -> (r: LinkPreview)
        ensures
            r.url@ == url@,
            opt_view(r.title) == or_else(
                lookup(self.og@, "title"@),
                or_else(lookup(self.twitter@, "title"@), opt_view(self.title)),
            ),
            opt_view(r.description) == or_else(
                lookup(self.og@, "description"@),
                or_else(lookup(self.twitter@, "description"@), lookup(self.meta@, "description"@)),
            ),
            opt_view(r.image) == or_else(lookup(self.og@, "image"@), lookup(self.twitter@, "image"@)),
            opt_view(r.site_name) == lookup(self.og@, "site_name"@),
            r.final_url is None,
            r.favicon is None,
            r.content_type is None,
    {
        let mut preview = LinkPreview::new(url);
        let page_title: Option<&str> = match &self.title {
            Some(t) => Some(t.as_str()),
            None => None,
        };
        let t = first_str(self.get_og("title"), first_str(self.get_twitter("title"), page_title));
        preview.title = owned_opt(t);
        let d = first_str(
            self.get_og("description"),
            first_str(self.get_twitter("description"), self.get_meta("description")),
        );
        preview.description = owned_opt(d);
        let i = first_str(self.get_og("image"), self.get_twitter("image"));
        preview.image = owned_opt(i);
        preview.site_name = owned_opt(self.get_og("site_name"));
        preview
    }
}

impl Default for HtmlMetadata {
    fn default() -> (r: Self)
        ensures
            r.is_blank(),
    {
        HtmlMetadata::new()
    }
}

/// The text with the entities `&amp;`, `&lt;`, `&gt;`, `&quot;`, `&#39;` and `&apos;` decoded,
/// one after the other in that order.
pub open spec fn decode_entities(t: Seq<char>) -> Seq<char> {
    replace_all(
        replace_all(
            replace_all(
                replace_all(replace_all(replace_all(t, "&amp;"@, "&"@), "&lt;"@, "<"@), "&gt;"@, ">"@),
                "&quot;"@,
                "\""@,
            ),
            "&#39;"@,
            "'"@,
        ),
        "&apos;"@,
        "'"@,
    )
}

/// Text that holds no `&` is copied through replacing a pattern that starts with `&`.
proof fn lemma_replace_after_plain(x: Seq<char>, y: Seq<char>, p: Seq<char>, r: Seq<char>)
    requires
        p.len() > 0,
        p[0] == '&',
        forall|k: int| 0 <= k < x.len() ==> #[trigger] x[k] != '&',
    ensures
        replace_all(x + y, p, r) == x + replace_all(y, p, r),
    decreases x.len(),
{
    if x.len() == 0 {
        assert(x + y =~= y);
        assert(x + replace_all(y, p, r) =~= replace_all(y, p, r));
    } else {
        let s = x + y;
        assert(s[0] == x[0]);
        assert(!crate::text::matches_at(s, p, 0)) by {
            if crate::text::matches_at(s, p, 0) {
                assert(s[0int + 0int] == p[0]);
            }
        }
        assert(s.drop_first() =~= x.drop_first() + y);
        assert forall|k: int| 0 <= k < x.drop_first().len() implies #[trigger] x.drop_first()[k] != '&' by {
            assert(x.drop_first()[k] == x[k + 1]);
        }
        lemma_replace_after_plain(x.drop_first(), y, p, r);
        assert(seq![s[0]] + (x.drop_first() + replace_all(y, p, r)) =~= x + replace_all(y, p, r));
    }
}

/// A text that starts with the pattern has it replaced there.
proof fn lemma_replace_at_start(y: Seq<char>, p: Seq<char>, r: Seq<char>)
    requires
        p.len() > 0,
    ensures
        replace_all(p + y, p, r) == r + replace_all(y, p, r),
{
    let s = p + y;
    assert(crate::text::matches_at(s, p, 0)) by {
        assert forall|k: int| 0 <= k < p.len() implies #[trigger] s[0 + k] == p[k] by {}
    }
    assert(s.skip(p.len() as int) =~= y);
}

/// An apostrophe entity is kept whole when another entity (`&` then something else than `#`)
/// is replaced.
proof fn lemma_replace_skips_apostrophe(y: Seq<char>, q: Seq<char>, r: Seq<char>)
    requires
        q.len() >= 2,
        q[0] == '&',
        q[1] != '#',
    ensures
        replace_all("&#39;"@ + y, q, r) == "&#39;"@ + replace_all(y, q, r),
{
    reveal_strlit("&#39;");
    let e = "&#39;"@;
    let s = e + y;
    assert(s[1] == '#');
    assert(!crate::text::matches_at(s, q, 0)) by {
        if crate::text::matches_at(s, q, 0) {
            assert(s[0int + 1int] == q[1]);
        }
    }
    let tail = seq!['#', '3', '9', ';'];
    assert(s.drop_first() =~= tail + y);
    assert forall|k: int| 0 <= k < tail.len() implies #[trigger] tail[k] != '&' by {}
    lemma_replace_after_plain(tail, y, q, r);
    assert(seq![s[0]] + (tail + replace_all(y, q, r)) =~= e + replace_all(y, q, r));
}

proof fn lemma_join_front(ps: Seq<Seq<char>>, sep: Seq<char>)
    requires
        ps.len() >= 2,
    ensures
        crate::text::join(ps, sep) == ps[0] + sep + crate::text::join(ps.drop_first(), sep),
    decreases ps.len(),
{
    if ps.len() == 2 {
        assert(ps.drop_last().len() == 1);
        assert(ps.drop_first().len() == 1);
        assert(crate::text::join(ps.drop_last(), sep) == ps[0]);
        assert(crate::text::join(ps.drop_first(), sep) == ps[1]);
    } else {
        lemma_join_front(ps.drop_last(), sep);
        assert(ps.drop_last().drop_first() =~= ps.drop_first().drop_last());
        assert(ps.drop_first().last() == ps.last());
        assert(ps.drop_last()[0] == ps[0]);
        assert(crate::text::join(ps, sep) =~= ps[0] + sep + crate::text::join(ps.drop_first(), sep));
    }
}

/// Pieces without `&` joined by apostrophe entities are left as they are by replacing another
/// entity.
proof fn lemma_other_entity_keeps_joined(ps: Seq<Seq<char>>, q: Seq<char>, r: Seq<char>)
    requires
        q.len() >= 2,
        q[0] == '&',
        q[1] != '#',
        forall|i: int, k: int| 0 <= i < ps.len() && 0 <= k < ps[i].len() ==> #[trigger] ps[i][k] != '&',
    ensures
        replace_all(crate::text::join(ps, "&#39;"@), q, r) == crate::text::join(ps, "&#39;"@),
    decreases ps.len(),
{
    let e = "&#39;"@;
    if ps.len() == 0 {
    } else if ps.len() == 1 {
        assert forall|k: int| 0 <= k < ps[0].len() implies #[trigger] ps[0][k] != '&' by {
            assert(ps[0][k] != '&');
        }
        lemma_replace_after_plain(ps[0], Seq::empty(), q, r);
        assert(ps[0] + Seq::<char>::empty() =~= ps[0]);
    } else {
        let rest = ps.drop_first();
        lemma_join_front(ps, e);
        assert forall|i: int, k: int| 0 <= i < rest.len() && 0 <= k < rest[i].len() implies #[trigger] rest[i][k]
            != '&' by {
            assert(rest[i] == ps[i + 1]);
        }
        lemma_other_entity_keeps_joined(rest, q, r);
        assert forall|k: int| 0 <= k < ps[0].len() implies #[trigger] ps[0][k] != '&' by {
            assert(ps[0][k] != '&');
        }
        assert(ps[0] + e + crate::text::join(rest, e) =~= ps[0] + (e + crate::text::join(rest, e)));
        lemma_replace_after_plain(ps[0], e + crate::text::join(rest, e), q, r);
        lemma_replace_skips_apostrophe(crate::text::join(rest, e), q, r);
    }
}

/// Pieces without `&` joined by apostrophe entities become the pieces joined by apostrophes.
proof fn lemma_apostrophes_decoded(ps: Seq<Seq<char>>)
    requires
        forall|i: int, k: int| 0 <= i < ps.len() && 0 <= k < ps[i].len() ==> #[trigger] ps[i][k] != '&',
    ensures
        replace_all(crate::text::join(ps, "&#39;"@), "&#39;"@, "'"@) == crate::text::join(ps, "'"@),
    decreases ps.len(),
{
    reveal_strlit("&#39;");
    let e = "&#39;"@;
    let a = "'"@;
    if ps.len() == 0 {
    } else if ps.len() == 1 {
        assert forall|k: int| 0 <= k < ps[0].len() implies #[trigger] ps[0][k] != '&' by {
            assert(ps[0][k] != '&');
        }
        lemma_replace_after_plain(ps[0], Seq::empty(), e, a);
        assert(ps[0] + Seq::<char>::empty() =~= ps[0]);
    } else {
        let rest = ps.drop_first();
        lemma_join_front(ps, e);
        lemma_join_front(ps, a);
        assert forall|i: int, k: int| 0 <= i < rest.len() && 0 <= k < rest[i].len() implies #[trigger] rest[i][k]
            != '&' by {
            assert(rest[i] == ps[i + 1]);
        }
        lemma_apostrophes_decoded(rest);
        assert forall|k: int| 0 <= k < ps[0].len() implies #[trigger] ps[0][k] != '&' by {
            assert(ps[0][k] != '&');
        }
        assert(ps[0] + e + crate::text::join(rest, e) =~= ps[0] + (e + crate::text::join(rest, e)));
        lemma_replace_after_plain(ps[0], e + crate::text::join(rest, e), e, a);
        lemma_replace_at_start(crate::text::join(rest, e), e, a);
        assert(ps[0] + (a + crate::text::join(rest, a)) =~= ps[0] + a + crate::text::join(rest, a));
    }
}

/// Pieces without `&` joined by apostrophes hold no `&`.
proof fn lemma_joined_plain(ps: Seq<Seq<char>>)
    requires
        forall|i: int, k: int| 0 <= i < ps.len() && 0 <= k < ps[i].len() ==> #[trigger] ps[i][k] != '&',
    ensures
        forall|k: int| 0 <= k < crate::text::join(ps, "'"@).len() ==> #[trigger] crate::text::join(ps, "'"@)[k]
            != '&',
    decreases ps.len(),
{
    reveal_strlit("'");
    if ps.len() == 1 {
        assert forall|k: int| 0 <= k < crate::text::join(ps, "'"@).len() implies #[trigger] crate::text::join(
            ps,
            "'"@,
        )[k] != '&' by {
            assert(ps[0][k] != '&');
        }
    } else if ps.len() >= 2 {
        let init = ps.drop_last();
        assert forall|i: int, k: int| 0 <= i < init.len() && 0 <= k < init[i].len() implies #[trigger] init[i][k]
            != '&' by {
            assert(init[i] == ps[i]);
        }
        lemma_joined_plain(init);
        let j = crate::text::join(ps, "'"@);
        let j0 = crate::text::join(init, "'"@);
        assert(j == j0 + "'"@ + ps.last());
        assert forall|k: int| 0 <= k < j.len() implies #[trigger] j[k] != '&' by {
            if k < j0.len() {
                assert(j[k] == j0[k]);
            } else if k == j0.len() {
                assert(j[k] == '\'');
            } else {
                assert(j[k] == ps.last()[k - j0.len() - 1]);
                assert(ps[ps.len() - 1][k - j0.len() - 1] != '&');
            }
        }
    }
}

/// Decoding turns every apostrophe entity into an apostrophe: a text made of pieces without
/// `&` joined by `&#39;` decodes to the same pieces joined by `'`.
pub proof fn law_apostrophe_entities_decoded(ps: Seq<Seq<char>>)
    requires
        forall|i: int, k: int| 0 <= i < ps.len() && 0 <= k < ps[i].len() ==> #[trigger] ps[i][k] != '&',
    ensures
        decode_entities(crate::text::join(ps, "&#39;"@)) == crate::text::join(ps, "'"@),
{
    reveal_strlit("&amp;");
    reveal_strlit("&lt;");
    reveal_strlit("&gt;");
    reveal_strlit("&quot;");
    reveal_strlit("&apos;");
    let t = crate::text::join(ps, "&#39;"@);
    lemma_other_entity_keeps_joined(ps, "&amp;"@, "&"@);
    lemma_other_entity_keeps_joined(ps, "&lt;"@, "<"@);
    lemma_other_entity_keeps_joined(ps, "&gt;"@, ">"@);
    lemma_other_entity_keeps_joined(ps, "&quot;"@, "\""@);
    lemma_apostrophes_decoded(ps);
    let d = crate::text::join(ps, "'"@);
    lemma_joined_plain(ps);
    lemma_replace_after_plain(d, Seq::empty(), "&apos;"@, "'"@);
    assert(d + Seq::<char>::empty() =~= d);
}

/// The value of attribute `name` in a tag: after the first `name="` (ignoring ASCII case) up to
/// the next `"`, with entities decoded.
pub open spec fn attribute_of(tag: Seq<char>, name: Seq<char>) -> Option<Seq<char>> {
    let pat = name + seq!['=', '"'];
    if !ci_occurs_from(tag, pat, 0) {
        None
    } else {
        let vs = ci_find_from_spec(tag, pat, 0) + pat.len();
        if !occurs_from(tag, seq!['"'], vs) {
            None
        } else {
            Some(decode_entities(tag.subrange(vs, find_from_spec(tag, seq!['"'], vs))))
        }
    }
}

/// The page title: the text between the first `<title>` and the next `</title>` (ignoring
/// ASCII case), trimmed and with entities decoded.
pub open spec fn title_of(h: Seq<char>) -> Option<Seq<char>> {
    if !ci_occurs_from(h, "<title>"@, 0) {
        None
    } else {
        let s = ci_find_from_spec(h, "<title>"@, 0) + 7;
        if !ci_occurs_from(h, "</title>"@, s) {
            None
        } else {
            Some(decode_entities(trim(h.subrange(s, ci_find_from_spec(h, "</title>"@, s)))))
        }
    }
}

/// The (attribute `attr`, attribute `content`) pairs of the meta tags of `h` from index `pos` on:
/// each tag runs from a `<meta ` (ignoring ASCII case) to the next `>`; a tag lacking either
/// attribute gives nothing.
pub open spec fn meta_tags(h: Seq<char>, pos: int, attr: Seq<char>) -> Seq<(Seq<char>, Seq<char>)>
    decreases h.len() - pos,
{
    if pos < 0 || pos > h.len() || !ci_occurs_from(h, "<meta "@, pos) {
        seq![]
    } else {
        let s = ci_find_from_spec(h, "<meta "@, pos);
        if !occurs_from(h, seq!['>'], s) {
            seq![]
        } else {
            let e = find_from_spec(h, seq!['>'], s);
            proof {
                lemma_ci_first_match_exists(h, "<meta "@, pos);
                lemma_first_match_exists(h, seq!['>'], s);
            }
            let rest = meta_tags(h, e + 1, attr);
            let tag = h.subrange(s, e);
            match (attribute_of(tag, attr), attribute_of(tag, "content"@)) {
                (Some(a), Some(c)) => seq![(a, c)] + rest,
                _ => rest,
            }
        }
    }
}

/// Pairs of strings seen as characters.
pub open spec fn pair_views(s: Seq<(String, String)>) -> Seq<(Seq<char>, Seq<char>)> {
    s.map_values(|e: (String, String)| (e.0@, e.1@))
}

/// The Open Graph map built from `property` pairs: `og:` stripped from the keys that carry it,
/// a later pair overriding an earlier one.
pub open spec fn og_of(props: Seq<(Seq<char>, Seq<char>)>) -> Map<Seq<char>, Seq<char>>
    decreases props.len(),
{
    if props.len() == 0 {
        Map::empty()
    } else {
        let m = og_of(props.drop_last());
        let p = props.last().0;
        if starts_with(p, "og:"@) {
            m.insert(p.skip(3), props.last().1)
        } else {
            m
        }
    }
}

/// The Twitter Card map built from `property` pairs: `twitter:` stripped from the keys that carry
/// it (and do not carry `og:`).
pub open spec fn twitter_of(props: Seq<(Seq<char>, Seq<char>)>) -> Map<Seq<char>, Seq<char>>
    decreases props.len(),
{
    if props.len() == 0 {
        Map::empty()
    } else {
        let m = twitter_of(props.drop_last());
        let p = props.last().0;
        if !starts_with(p, "og:"@) && starts_with(p, "twitter:"@) {
            m.insert(p.skip(8), props.last().1)
        } else {
            m
        }
    }
}

/// The plain meta map built from `property` pairs whose key carries neither prefix.
pub open spec fn plain_meta_of(props: Seq<(Seq<char>, Seq<char>)>) -> Map<Seq<char>, Seq<char>>
    decreases props.len(),
{
    if props.len() == 0 {
        Map::empty()
    } else {
        let m = plain_meta_of(props.drop_last());
        let p = props.last().0;
        if !starts_with(p, "og:"@) && !starts_with(p, "twitter:"@) {
            m.insert(p, props.last().1)
        } else {
            m
        }
    }
}

/// The meta map: the plain `property` pairs, then each `name` pair whose key is not there yet.
pub open spec fn meta_of(
    props: Seq<(Seq<char>, Seq<char>)>,
    names: Seq<(Seq<char>, Seq<char>)>,
) -> Map<Seq<char>, Seq<char>>
    decreases names.len(),
{
    if names.len() == 0 {
        plain_meta_of(props)
    } else {
        let m = meta_of(props, names.drop_last());
        let n = names.last().0;
        if m.dom().contains(n) {
            m
        } else {
            m.insert(n, names.last().1)
        }
    }
}

/// A lightweight extractor of page metadata from HTML text.
pub struct MetadataParser;

impl MetadataParser {
    /// The metadata of a page: its title, and the Open Graph, Twitter Card and plain meta values
    /// of its meta tags (by `property`, then by `name` for keys not yet present).
    pub fn parse(html: &str) -> (r: HtmlMetadata)
        ensures
            r.wf(),
            opt_view(r.title) == title_of(html@),
            text_map(r.og@) == og_of(meta_tags(html@, 0, "property"@)),
            text_map(r.twitter@) == twitter_of(meta_tags(html@, 0, "property"@)),
            text_map(r.meta@) == meta_of(meta_tags(html@, 0, "property"@), meta_tags(html@, 0, "name"@)),
    {
        let h = chars_of(html);
        let mut md = HtmlMetadata::new();
        md.title = Self::extract_title(h.as_slice());
        let props = Self::extract_meta_tags(h.as_slice());
        let ghost pv = pair_views(props@);
        let ogp = chars_of("og:");
        let twp = chars_of("twitter:");
        proof {
            reveal_strlit("og:");
            reveal_strlit("twitter:");
            assert(text_map(md.og@) =~= og_of(pv.take(0)));
            assert(text_map(md.twitter@) =~= twitter_of(pv.take(0)));
            assert(text_map(md.meta@) =~= plain_meta_of(pv.take(0)));
        }
        let mut i: usize = 0;
        while i < props.len()
            invariant
                i <= props@.len(),
                pv == pair_views(props@),
                md.wf(),
                ogp@ == "og:"@,
                twp@ == "twitter:"@,
                "og:"@.len() == 3,
                "twitter:"@.len() == 8,
                opt_view(md.title) == title_of(html@),
                text_map(md.og@) == og_of(pv.take(i as int)),
                text_map(md.twitter@) == twitter_of(pv.take(i as int)),
                text_map(md.meta@) == plain_meta_of(pv.take(i as int)),
            decreases props@.len() - i,
        {
            let pc = chars_of(props[i].0.as_str());
            let c = props[i].1.clone();
            let ghost t = pv.take(i + 1);
            assert(t.drop_last() =~= pv.take(i as int));
            assert(t.last() == pv[i as int]);
            if starts_with_exec(pc.as_slice(), ogp.as_slice()) {
                let k = skip_exec(pc.as_slice(), 3);
                let ks = string_of(k.as_slice());
                proof {
                    lemma_text_map_insert(md.og@, ks@, c);
                }
                md.og.insert(ks, c);
            } else if starts_with_exec(pc.as_slice(), twp.as_slice()) {
                let k = skip_exec(pc.as_slice(), 8);
                let ks = string_of(k.as_slice());
                proof {
                    lemma_text_map_insert(md.twitter@, ks@, c);
                }
                md.twitter.insert(ks, c);
            } else {
                let ks = props[i].0.clone();
                proof {
                    lemma_text_map_insert(md.meta@, ks@, c);
                }
                md.meta.insert(ks, c);
            }
            i += 1;
        }
        let names = Self::extract_named_meta_tags(h.as_slice());
        let ghost nv = pair_views(names@);
        assert(pv.take(props@.len() as int) =~= pv);
        assert(text_map(md.meta@) == meta_of(pv, nv.take(0)));
        let mut j: usize = 0;
        while j < names.len()
            invariant
                j <= names@.len(),
                pv == pair_views(props@),
                nv == pair_views(names@),
                md.wf(),
                opt_view(md.title) == title_of(html@),
                text_map(md.og@) == og_of(pv),
                text_map(md.twitter@) == twitter_of(pv),
                text_map(md.meta@) == meta_of(pv, nv.take(j as int)),
            decreases names@.len() - j,
        {
            let ghost t = nv.take(j + 1);
            assert(t.drop_last() =~= nv.take(j as int));
            assert(t.last() == nv[j as int]);
            if !md.meta.contains_key(names[j].0.as_str()) {
                let k = names[j].0.clone();
                let c = names[j].1.clone();
                proof {
                    lemma_text_map_insert(md.meta@, k@, c);
                }
                md.meta.insert(k, c);
            }
            j += 1;
        }
        assert(nv.take(names@.len() as int) =~= nv);
        md
    }

    /// The page title (see `title_of`).
    fn extract_title(h: &[char]) -> (r: Option<String>)
        ensures
            opt_view(r) == title_of(h@),
    {
        let open = chars_of("<title>");
        let close = chars_of("</title>");
        proof {
            reveal_strlit("<title>");
        }
        match ci_find_from(h, open.as_slice(), 0) {
            None => None,
            Some(st) => {
                assert(st + open@.len() <= h@.len());
                assert(h@.len() == h.len());
                let s = st + 7;
                match ci_find_from(h, close.as_slice(), s) {
                    None => None,
                    Some(e) => {
                        let inner = subrange_exec(h, s, e);
                        let t = trim_exec(inner.as_slice());
                        Some(Self::decode_html_entities(t.as_slice()))
                    },
                }
            },
        }
    }

    /// The (property, content) pairs of the meta tags.
    fn extract_meta_tags(h: &[char]) -> (r: Vec<(String, String)>)
        ensures
            pair_views(r@) == meta_tags(h@, 0, "property"@),
    {
        let attr = chars_of("property");
        Self::meta_tags_with(h, attr.as_slice())
    }

    /// The (name, content) pairs of the meta tags.
    fn extract_named_meta_tags(h: &[char]) -> (r: Vec<(String, String)>)
        ensures
            pair_views(r@) == meta_tags(h@, 0, "name"@),
    {
        let attr = chars_of("name");
        Self::meta_tags_with(h, attr.as_slice())
    }

    fn meta_tags_with(h: &[char], attr: &[char]) -> (r: Vec<(String, String)>)
        ensures
            pair_views(r@) == meta_tags(h@, 0, attr@),
    {
        let open = chars_of("<meta ");
        let content = chars_of("content");
        let gt = ['>'];
        assert(gt@ =~= seq!['>']);
        let mut out: Vec<(String, String)> = Vec::new();
        let mut pos: usize = 0;
        assert(pair_views(out@) =~= Seq::empty());
        assert(pair_views(out@) + meta_tags(h@, 0, attr@) =~= meta_tags(h@, 0, attr@));
        loop
            invariant
                pos <= h@.len(),
                open@ == "<meta "@,
                content@ == "content"@,
                gt@ == seq!['>'],
                pair_views(out@) + meta_tags(h@, pos as int, attr@) == meta_tags(h@, 0, attr@),
            ensures
                pair_views(out@) == meta_tags(h@, 0, attr@),
            decreases h@.len() - pos,
        {
            match ci_find_from(h, open.as_slice(), pos) {
                None => {
                    assert(pair_views(out@) + seq![] =~= pair_views(out@));
                    break;
                },
                Some(s) => {
                    match find_from(h, &gt, s) {
                        None => {
                            assert(pair_views(out@) + seq![] =~= pair_views(out@));
                            break;
                        },
                        Some(e) => {
                            let tag = subrange_exec(h, s, e);
                            let a = Self::extract_attribute(tag.as_slice(), attr);
                            let c = Self::extract_attribute(tag.as_slice(), content.as_slice());
                            let ghost rest = meta_tags(h@, e + 1, attr@);
                            let ghost before = pair_views(out@);
                            match (a, c) {
                                (Some(a), Some(c)) => {
                                    out.push((a, c));
                                    assert(pair_views(out@) =~= before.push((a@, c@)));
                                    assert(before + (seq![(a@, c@)] + rest) =~= pair_views(out@) + rest);
                                },
                                _ => {},
                            }
                            assert(e + gt@.len() <= h@.len());
                            assert(h@.len() == h.len());
                            pos = e + 1;
                        },
                    }
                },
            }
        }
        out
    }

    /// The value of attribute `name` in `tag` (see `attribute_of`).
    fn extract_attribute(tag: &[char], name: &[char]) -> (r: Option<String>)
        ensures
            opt_view(r) == attribute_of(tag@, name@),
    {
        let mut pat = take_exec(name, name.len());
        pat.push('=');
        pat.push('"');
        assert(pat@ =~= name@ + seq!['=', '"']);
        match ci_find_from(tag, pat.as_slice(), 0) {
            None => None,
            Some(st) => {
                assert(st + pat@.len() <= tag@.len());
                assert(tag@.len() == tag.len());
                let vs = st + pat.len();
                let quote = ['"'];
                assert(quote@ =~= seq!['"']);
                match find_from(tag, &quote, vs) {
                    None => None,
                    Some(ve) => {
                        let v = subrange_exec(tag, vs, ve);
                        Some(Self::decode_html_entities(v.as_slice()))
                    },
                }
            },
        }
    }

    /// The text with the common HTML entities decoded (see `decode_entities`).
    fn decode_html_entities(text: &[char]) -> (r: String)
        ensures
            r@ == decode_entities(text@),
    {
        let amp = chars_of("&amp;");
        let lt = chars_of("&lt;");
        let gt = chars_of("&gt;");
        let quot = chars_of("&quot;");
        let n39 = chars_of("&#39;");
        let apos = chars_of("&apos;");
        let c_amp = chars_of("&");
        let c_lt = chars_of("<");
        let c_gt = chars_of(">");
        let c_quot = chars_of("\"");
        let c_apos = chars_of("'");
        proof {
            reveal_strlit("&amp;");
            reveal_strlit("&lt;");
            reveal_strlit("&gt;");
            reveal_strlit("&quot;");
            reveal_strlit("&#39;");
            reveal_strlit("&apos;");
        }
        let a = replace_all_exec(text, amp.as_slice(), c_amp.as_slice());
        let b = replace_all_exec(a.as_slice(), lt.as_slice(), c_lt.as_slice());
        let c = replace_all_exec(b.as_slice(), gt.as_slice(), c_gt.as_slice());
        let d = replace_all_exec(c.as_slice(), quot.as_slice(), c_quot.as_slice());
        let e = replace_all_exec(d.as_slice(), n39.as_slice(), c_apos.as_slice());
        let f = replace_all_exec(e.as_slice(), apos.as_slice(), c_apos.as_slice());
        string_of(f.as_slice())
    }
}


#[verifier::external_type_specification]
#[verifier::external_body]
pub struct ExInstant(std::time::Instant);

/// `Instant::clone`; nothing is stated of the copy.
pub assume_specification[<std::time::Instant as core::clone::Clone>::clone](i: &std::time::Instant) -> std::time::Instant;

/// The current instant of the monotonic clock (`Instant::now`); nothing is stated of it.
#[verifier::external_body]
pub(crate) fn instant_now() -> std::time::Instant {
    std::time::Instant::now()
}

/// The time elapsed since `at` (`Instant::elapsed`); it depends on the clock, so nothing is
/// stated of it.
#[verifier::external_body]
pub(crate) fn elapsed_since(at: &std::time::Instant) -> std::time::Duration {
    at.elapsed()
}

/// The whole nanoseconds a duration holds, as `Duration::as_nanos` gives them.
pub uninterp spec fn nanos_of(d: std::time::Duration) -> u128;

/// The length of `d` in nanoseconds (`Duration::as_nanos`), named by `nanos_of`.
#[verifier::external_body]
pub(crate) fn duration_nanos(d: std::time::Duration) -> (r: u128)
    ensures
        r == nanos_of(d),
{
    d.as_nanos()
}

/// The default time to live of a cached preview, one hour, in nanoseconds.
pub const DEFAULT_TTL_NANOS: u128 = 3_600_000_000_000;

/// A preview with the instant it was cached.
#[derive(Debug, Clone)]
pub struct CachedPreview {
    /// The preview
    pub preview: LinkPreview,
    /// When it was cached
    pub cached_at: std::time::Instant,
}

impl CachedPreview {
    /// Caches `preview` now.
    pub fn new(preview: LinkPreview) -> (r: Self)
        ensures
            r.preview == preview,
    {
        CachedPreview { preview, cached_at: instant_now() }
    }

    /// Whether more than `ttl` has passed since the preview was cached: the clock's elapsed time
    /// compared with the time to live (see `time::outlived`).
    pub fn is_expired(&self, ttl: std::time::Duration) -> (r: bool)
        ensures
            exists|elapsed: u128| r == #[trigger] crate::time::past_ttl(elapsed, nanos_of(ttl)),
    {
        self.expired_after(duration_nanos(ttl))
    }

    /// Whether more than `ttl_nanos` nanoseconds have passed since the preview was cached, as
    /// the clock says.
    fn expired_after(&self, ttl_nanos: u128) -> (r: bool)
        ensures
            exists|elapsed: u128| r == #[trigger] crate::time::past_ttl(elapsed, ttl_nanos),
    {
        let elapsed = duration_nanos(elapsed_since(&self.cached_at));
        crate::time::outlived(elapsed, ttl_nanos)
    }

    /// The preview, when it has not outlived a time to live of `ttl_nanos` after
    /// `elapsed_nanos` nanoseconds in the cache; `None` once it has.
    pub fn fresh(&self, elapsed_nanos: u128, ttl_nanos: u128) -> (r: Option<&LinkPreview>)
        ensures
            r == (if elapsed_nanos > ttl_nanos {
                None
            } else {
                Some(&self.preview)
            }),
    {
        if crate::time::outlived(elapsed_nanos, ttl_nanos) {
            None
        } else {
            Some(&self.preview)
        }
    }
}

/// The entries of `m` that have not outlived `ttl` nanoseconds, each after the time
/// `elapsed` gives for its URL.
pub open spec fn unexpired(m: Map<Seq<char>, LinkPreview>, elapsed: Map<Seq<char>, u128>, ttl: u128) -> Map<
    Seq<char>,
    LinkPreview,
> {
    m.restrict(m.dom().filter(|k: Seq<char>| !(elapsed[k] > ttl)))
}

/// A cache of previews by URL, whose entries expire after a time to live.
#[derive(Debug, Clone)]
pub struct PreviewCache {
    cache: KeyedMap<CachedPreview>,
    ttl_nanos: u128,
}

impl PreviewCache {
    /// The cached previews by URL.
    pub closed spec fn view(&self) -> Map<Seq<char>, LinkPreview> {
        self.cache@.map_values(|c: CachedPreview| c.preview)
    }

    /// The time to live in nanoseconds.
    pub closed spec fn ttl(&self) -> u128 {
        self.ttl_nanos
    }

    /// Each URL is held once.
    pub closed spec fn wf(&self) -> bool {
        self.cache.wf()
    }

    /// An empty cache whose entries live one hour.
    pub fn new() -> (r: Self)
        ensures
            r.wf(),
            r@ == Map::<Seq<char>, LinkPreview>::empty(),
            r.ttl() == DEFAULT_TTL_NANOS,
    {
        let r = PreviewCache { cache: KeyedMap::new(), ttl_nanos: DEFAULT_TTL_NANOS };
        assert(r@ =~= Map::<Seq<char>, LinkPreview>::empty());
        r
    }

    /// An empty cache whose entries live `ttl`.
    pub fn with_ttl(ttl: std::time::Duration) -> (r: Self)
        ensures
            r.wf(),
            r@ == Map::<Seq<char>, LinkPreview>::empty(),
            r.ttl() == nanos_of(ttl),
    {
        let r = PreviewCache { cache: KeyedMap::new(), ttl_nanos: duration_nanos(ttl) };
        assert(r@ =~= Map::<Seq<char>, LinkPreview>::empty());
        r
    }

    /// The cached preview of `url`, after dropping expired entries; `None` when there is none
    /// or it has expired. For a cached URL the result is the fresh-or-expired decision
    /// (`CachedPreview::fresh`) for some clock reading; nothing is added or changed.
    pub fn get(&mut self, url: &str) -> (r: Option<&LinkPreview>)
        requires
            old(self).wf(),
        ensures
            final(self).wf(),
            final(self).ttl() == old(self).ttl(),
            exists|elapsed: Map<Seq<char>, u128>| final(self)@ == #[trigger] unexpired(
                old(self)@,
                elapsed,
                old(self).ttl(),
            ),
            !old(self)@.contains_key(url@) ==> r is None,
            match r {
                Some(p) => final(self)@.contains_key(url@) && final(self)@[url@] == *p,
                None => true,
            },
            old(self)@.contains_key(url@) ==> exists|elapsed: u128| r == (if #[trigger] crate::time::past_ttl(
                elapsed,
                old(self).ttl(),
            ) {
                None
            } else {
                Some(&old(self)@[url@])
            }),
    {
        let ghost before = self@;
        self.cleanup_expired();
        match self.cache.get(url) {
            Some(entry) => {
                assert(self@.contains_key(url@) && self@[url@] == entry.preview);
                let elapsed = duration_nanos(elapsed_since(&entry.cached_at));
                let r = entry.fresh(elapsed, self.ttl_nanos);
                proof {
                    let rd = choose|el: Map<Seq<char>, u128>| self@ == #[trigger] unexpired(before, el, self.ttl_nanos);
                    assert(unexpired(before, rd, self.ttl_nanos).contains_key(url@));
                    assert(before[url@] == entry.preview);
                    assert(r == (if crate::time::past_ttl(elapsed, self.ttl_nanos) {
                        None
                    } else {
                        Some(&before[url@])
                    }));
                }
                r
            },
            None => {
                proof {
                    if before.contains_key(url@) {
                        let rd = choose|el: Map<Seq<char>, u128>| self@ == #[trigger] unexpired(before, el, self.ttl_nanos);
                        assert(!unexpired(before, rd, self.ttl_nanos).contains_key(url@));
                        assert(rd[url@] > self.ttl_nanos);
                        let w: Option<&LinkPreview> = if crate::time::past_ttl(rd[url@], self.ttl_nanos) {
                            None
                        } else {
                            Some(&before[url@])
                        };
                        assert(w is None);
                    }
                }
                None
            },
        }
    }

    /// Caches `preview` for `url` now, replacing what was cached for it.
    pub fn insert(&mut self, url: &str, preview: LinkPreview)
        requires
            old(self).wf(),
        ensures
            final(self).wf(),
            final(self).ttl() == old(self).ttl(),
            final(self)@ == old(self)@.insert(url@, preview),
    {
        let entry = CachedPreview::new(preview);
        self.cache.insert(owned(url), entry);
        assert(self@ =~= old(self)@.insert(url@, preview));
    }

    /// Drops the entries that have outlived the time to live, each after the time the clock
    /// gives for it; the others stay as they were.
    pub fn cleanup_expired(&mut self)
        requires
            old(self).wf(),
        ensures
            final(self).wf(),
            final(self).ttl() == old(self).ttl(),
            exists|elapsed: Map<Seq<char>, u128>| final(self)@ == #[trigger] unexpired(
                old(self)@,
                elapsed,
                old(self).ttl(),
            ),
    {
        let ghost orig = self.cache@;
        let ghost ttl = self.ttl_nanos;
        let ghost mut readings: Map<Seq<char>, u128> = Map::empty();
        let ghost mut done: Set<Seq<char>> = Set::empty();
        let mut entries = self.cache.take_entries();
        let ghost es = entry_views(entries@);
        proof {
            assert forall|j: int| 0 <= j < entries@.len() implies orig.contains_key(
                #[trigger] entries@[j].0@,
            ) && orig[entries@[j].0@] == entries@[j].1 by {
                assert(es[j] == (entries@[j].0@, entries@[j].1));
                lemma_map_of_entry(es, j);
            }
            assert forall|k: Seq<char>| orig.contains_key(k) implies exists|j: int|
                0 <= j < entries@.len() && #[trigger] entries@[j].0@ == k by {
                crate::keyed_map::lemma_map_of_dom(es, k);
                let j = choose|j: int| 0 <= j < es.len() && #[trigger] es[j].0 == k;
                assert(es[j] == (entries@[j].0@, entries@[j].1));
            }
            assert(self.cache@ =~= orig.restrict(done.filter(|k: Seq<char>| !(readings[k] > ttl))));
        }
        while entries.len() > 0
            invariant
                self.cache.wf(),
                self.ttl_nanos == ttl,
                ttl == old(self).ttl_nanos,
                keys_unique(entry_views(entries@)),
                forall|j: int| 0 <= j < entries@.len() ==> orig.contains_key(#[trigger] entries@[j].0@)
                    && orig[entries@[j].0@] == entries@[j].1,
                forall|j: int| 0 <= j < entries@.len() ==> !done.contains(#[trigger] entries@[j].0@),
                forall|k: Seq<char>| orig.contains_key(k) ==> done.contains(k) || exists|j: int|
                    0 <= j < entries@.len() && #[trigger] entries@[j].0@ == k,
                done.subset_of(orig.dom()),
                self.cache@ == orig.restrict(done.filter(|k: Seq<char>| !(readings[k] > ttl))),
            decreases entries@.len(),
        {
            let ghost before = entries@;
            let ghost cache_before = self.cache@;
            let ghost done_before = done;
            let ghost rd_before = readings;
            let (k, e) = entries.pop().unwrap();
            assert(before[before.len() - 1] == (k, e));
            let elapsed = duration_nanos(elapsed_since(&e.cached_at));
            let keep = e.fresh(elapsed, self.ttl_nanos).is_some();
            proof {
                readings = readings.insert(k@, elapsed);
                done = done.insert(k@);
            }
            if keep {
                self.cache.insert(k, e);
            }
            proof {
                assert forall|j: int| 0 <= j < entries@.len() implies orig.contains_key(#[trigger] entries@[j].0@)
                    && orig[entries@[j].0@] == entries@[j].1 by {
                    assert(entries@[j] == before[j]);
                }
                assert(keys_unique(entry_views(entries@))) by {
                    assert forall|i: int, j: int| 0 <= i < j < entry_views(entries@).len() implies
                        #[trigger] entry_views(entries@)[i].0 != #[trigger] entry_views(entries@)[j].0 by {
                        assert(entry_views(entries@)[i] == entry_views(before)[i]);
                        assert(entry_views(entries@)[j] == entry_views(before)[j]);
                    }
                }
                assert forall|j: int| 0 <= j < entries@.len() implies !done.contains(#[trigger] entries@[j].0@) by {
                    assert(entries@[j] == before[j]);
                    assert(entry_views(before)[j].0 != entry_views(before)[before.len() - 1].0);
                }
                assert forall|kk: Seq<char>| orig.contains_key(kk) implies done.contains(kk) || exists|j: int|
                    0 <= j < entries@.len() && #[trigger] entries@[j].0@ == kk by {
                    if !done.contains(kk) {
                        let j = choose|j: int| 0 <= j < before.len() && #[trigger] before[j].0@ == kk;
                        assert(j != before.len() - 1);
                        assert(entries@[j] == before[j]);
                    }
                }
                assert forall|kk: Seq<char>| done_before.contains(kk) implies readings[kk] == rd_before[kk] by {
                    assert(kk != k@);
                }
                assert(self.cache@ =~= orig.restrict(done.filter(|kk: Seq<char>| !(readings[kk] > ttl))));
            }
        }
        proof {
            assert(done =~= orig.dom());
            assert(self@ =~= unexpired(old(self)@, readings, ttl));
        }
    }

    /// Drops every entry.
    pub fn clear(&mut self)
        ensures
            final(self).wf(),
            final(self).ttl() == old(self).ttl(),
            final(self)@ == Map::<Seq<char>, LinkPreview>::empty(),
    {
        self.cache.clear();
        assert(self@ =~= Map::<Seq<char>, LinkPreview>::empty());
    }

    /// The number of cached URLs.
    pub fn len(&self) -> (r: usize)
        requires
            self.wf(),
        ensures
            r == self@.dom().len(),
    {
        assert(self@.dom() =~= self.cache@.dom());
        self.cache.len()
    }

    /// Whether nothing is cached.
    pub fn is_empty(&self) -> (r: bool)
        ensures
            r == (self@ == Map::<Seq<char>, LinkPreview>::empty()),
    {
        let r = self.cache.is_empty();
        proof {
            if !r {
                assert(!(self.cache@ =~= Map::<Seq<char>, CachedPreview>::empty()));
                let k = choose|k: Seq<char>| #[trigger] self.cache@.dom().contains(k);
                assert(self@.dom().contains(k));
            } else {
                assert(self@ =~= Map::<Seq<char>, LinkPreview>::empty());
            }
        }
        r
    }
}

impl Default for PreviewCache {
    fn default() -> (r: Self)
        ensures
            r.wf(),
            r@ == Map::<Seq<char>, LinkPreview>::empty(),
    {
        PreviewCache::new()
    }
}

} // verus!
