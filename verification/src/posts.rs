//! Rich text with facets (links, mentions, hashtags) located by byte ranges, and post references.
use vstd::prelude::*;
use crate::text::{
    byte_to_char, char_index, chars_before_byte, chars_of, concat2, contains, occurs, decimal, decimal_string, is_boundary,
    lemma_boundary_char, lemma_byte_to_char, lemma_utf8_concat, lemma_utf8_subrange,
    lemma_utf8_take_monotone, owned, skip_exec, starts_with, starts_with_exec, string_of,
    subrange_exec, take_exec, trim_start_set, trim_start_set_index, utf8_len, utf8_len_exec,
};

verus! {

/// Rich text errors.
#[derive(Debug)]
pub enum RichTextError {
    /// Invalid UTF-8 byte indices
    InvalidByteIndices(usize, usize),
    /// Invalid facet
    InvalidFacet(String),
}

impl RichTextError {
    /// The error message.
    pub fn to_string(&self) -> (r: String)
        ensures
            r@ == (match self {
                RichTextError::InvalidByteIndices(s, e) => "Invalid UTF-8 byte indices: start="@
                    + decimal(*s as nat) + ", end="@ + decimal(*e as nat),
                RichTextError::InvalidFacet(m) => "Invalid facet: "@ + m@,
            }),
    {
        match self {
            RichTextError::InvalidByteIndices(s, e) => {
                let a = decimal_string(*s as u64);
                let b = decimal_string(*e as u64);
                let mut r = concat2("Invalid UTF-8 byte indices: start=", a.as_str());
                r.append(", end=");
                r.append(b.as_str());
                r
            },
            RichTextError::InvalidFacet(m) => concat2("Invalid facet: ", m.as_str()),
        }
    }
}

/// Byte range of a facet in UTF-8 text.
#[derive(Debug, Clone, PartialEq, Eq)]
pub struct ByteSlice {
    /// Start position in UTF-8 bytes
    pub byte_start: usize,
    /// End position in UTF-8 bytes
    pub byte_end: usize,
}

/// Link feature.
#[derive(Debug, Clone, PartialEq, Eq)]
pub struct Link {
    /// URI of the link
    pub uri: String,
}

/// Mention feature.
#[derive(Debug, Clone, PartialEq, Eq)]
pub struct Mention {
    /// DID of the mentioned user
    pub did: String,
}

/// Tag (hashtag) feature.
#[derive(Debug, Clone, PartialEq, Eq)]
pub struct Tag {
    /// Tag name without the # symbol
    pub tag: String,
}

/// Facet feature types.
#[derive(Debug, Clone, PartialEq, Eq)]
pub enum FacetFeature {
    /// Link feature
    Link(Link),
    /// Mention feature
    Mention(Mention),
    /// Tag (hashtag) feature
    Tag(Tag),
}

/// A span of text with special meaning (link, mention, tag).
#[derive(Debug, Clone, PartialEq, Eq)]
pub struct Facet {
    /// Byte range of the facet in the text
    pub index: ByteSlice,
    /// Features of the span
    pub features: Vec<FacetFeature>,
}

/// A facet feature with its string seen as characters.
pub enum FeatureView {
    Link(Seq<char>),
    Mention(Seq<char>),
    Tag(Seq<char>),
}

/// A facet seen through its byte range and features.
pub struct FacetView {
    pub start: int,
    pub end: int,
    pub features: Seq<FeatureView>,
}

pub open spec fn feature_view(f: FacetFeature) -> FeatureView {
    match f {
        FacetFeature::Link(l) => FeatureView::Link(l.uri@),
        FacetFeature::Mention(m) => FeatureView::Mention(m.did@),
        FacetFeature::Tag(t) => FeatureView::Tag(t.tag@),
    }
}

pub open spec fn facet_view(f: Facet) -> FacetView {
    FacetView {
        start: f.index.byte_start as int,
        end: f.index.byte_end as int,
        features: f.features@.map_values(|x: FacetFeature| feature_view(x)),
    }
}

pub open spec fn facet_views(s: Seq<Facet>) -> Seq<FacetView> {
    s.map_values(|f: Facet| facet_view(f))
}

/// Characters that are dropped from the end of a detected link.
pub open spec fn is_link_tail(c: char) -> bool {
    c == '.' || c == ',' || c == ';' || c == '!' || c == '?' || c == ')' || c == ']' || c == '}'
}

/// A detected link with trailing punctuation removed; a closing parenthesis stays when the link
/// holds an opening one.
pub open spec fn strip_link_tail(u: Seq<char>) -> Seq<char>
    decreases u.len(),
{
    if u.len() > 0 && is_link_tail(u.last()) && !(u.last() == ')' && u.contains('(')) {
        strip_link_tail(u.drop_last())
    } else {
        u
    }
}

/// The URI of a link: `https://` is put in front when it has no `http://` or `https://` scheme.
pub open spec fn link_uri(url: Seq<char>) -> Seq<char> {
    if !starts_with(url, "http://"@) && !starts_with(url, "https://"@) {
        "https://"@ + url
    } else {
        url
    }
}

/// The characters between two byte boundaries of `text`.
pub open spec fn span_text(text: Seq<char>, s: int, e: int) -> Seq<char> {
    text.subrange(byte_to_char(text, s), byte_to_char(text, e))
}

/// The link facet of a match spanning bytes `s..e`: its range covers the link as written,
/// from `s` to the end of the link once trailing punctuation is stripped.
pub open spec fn link_facet(text: Seq<char>, s: int, e: int) -> FacetView {
    let m = span_text(text, s, e);
    let url = strip_link_tail(m);
    FacetView { start: s, end: s + utf8_len(url), features: seq![FeatureView::Link(link_uri(url))] }
}

/// The facet of a mention (`sigil` `@`) or hashtag (`sigil` `#`) match spanning bytes `s..e`:
/// leading spaces and opening parentheses are skipped, then the sigils, which give the name.
pub open spec fn sigil_facet(text: Seq<char>, s: int, e: int, mention: bool) -> FacetView {
    let full = span_text(text, s, e);
    let body = trim_start_set(full, seq![' ', '(']);
    let name = trim_start_set(body, if mention { seq!['@'] } else { seq!['#'] });
    let start = s + (utf8_len(full) - utf8_len(body));
    FacetView {
        start,
        end: start + utf8_len(body),
        features: seq![
            if mention {
                FeatureView::Mention("did:placeholder:"@ + name)
            } else {
                FeatureView::Tag(name)
            },
        ],
    }
}

/// Detected matches, as byte spans, that lie on character boundaries of `text`.
pub open spec fn spans_ok(text: Seq<char>, spans: Seq<Option<(usize, usize)>>) -> bool {
    forall|i: int|
        0 <= i < spans.len() ==> (#[trigger] spans[i] matches Some((s, e)) ==> s <= e && is_boundary(
            text,
            s as int,
        ) && is_boundary(text, e as int))
}

/// The link facets of the matches, in order (absent captures give nothing).
pub open spec fn link_facets(text: Seq<char>, spans: Seq<Option<(usize, usize)>>) -> Seq<FacetView>
    decreases spans.len(),
{
    if spans.len() == 0 {
        seq![]
    } else {
        let rest = link_facets(text, spans.drop_last());
        match spans.last() {
            Some((s, e)) => rest.push(link_facet(text, s as int, e as int)),
            None => rest,
        }
    }
}

/// A link stripped of its trailing punctuation is empty or ends in a character that is not
/// stripped.
proof fn lemma_strip_link_tail_end(u: Seq<char>)
    ensures
        strip_link_tail(u).len() == 0 || !is_link_tail(strip_link_tail(u).last()) || (strip_link_tail(
            u,
        ).last() == ')' && strip_link_tail(u).contains('(')),
    decreases u.len(),
{
    if u.len() > 0 && is_link_tail(u.last()) && !(u.last() == ')' && u.contains('(')) {
        lemma_strip_link_tail_end(u.drop_last());
    }
}

/// A detected link never ends in punctuation: the URI of every link facet is non-empty and its
/// last character is none of `.` `,` `;` `!` `?` `]` `}`, and a `)` only when the URI holds a
/// `(`.
pub proof fn law_link_uris_end_without_punctuation(text: Seq<char>, spans: Seq<Option<(usize, usize)>>)
    ensures
        forall|i: int|
            0 <= i < link_facets(text, spans).len() ==> (#[trigger] link_facets(text, spans)[i]).features.len() == 1
                && (link_facets(text, spans)[i].features[0] matches FeatureView::Link(u) && u.len() > 0 && u.last()
                != '.' && u.last() != ',' && u.last() != ';' && u.last() != '!' && u.last() != '?' && u.last()
                != ']' && u.last() != '}' && (u.last() == ')' ==> u.contains('('))),
    decreases spans.len(),
{
    reveal_strlit("https://");
    reveal_strlit("http://");
    if spans.len() > 0 {
        law_link_uris_end_without_punctuation(text, spans.drop_last());
        match spans.last() {
            Some((s, e)) => {
                let f = link_facet(text, s as int, e as int);
                let m = span_text(text, s as int, e as int);
                let url = strip_link_tail(m);
                lemma_strip_link_tail_end(m);
                let uri = link_uri(url);
                if !starts_with(url, "http://"@) && !starts_with(url, "https://"@) {
                    assert(uri == "https://"@ + url);
                    if url.len() > 0 {
                        assert(uri.last() == url.last());
                        if url.contains('(') {
                            let k = choose|k: int| 0 <= k < url.len() && url[k] == '(';
                            assert(uri[8 + k] == '(');
                        }
                    } else {
                        assert(uri.last() == '/');
                    }
                } else {
                    assert(uri == url);
                    assert(url.len() > 0) by {
                        if url.len() == 0 {
                            if starts_with(url, "http://"@) {
                                assert(crate::text::matches_at(url, "http://"@, 0));
                            } else {
                                assert(crate::text::matches_at(url, "https://"@, 0));
                            }
                        }
                    }
                }
                let all = link_facets(text, spans);
                let rest = link_facets(text, spans.drop_last());
                assert(all == rest.push(f));
                assert forall|i: int| 0 <= i < all.len() implies (#[trigger] all[i]).features.len() == 1 && (
                all[i].features[0] matches FeatureView::Link(u) && u.len() > 0 && u.last() != '.' && u.last()
                    != ',' && u.last() != ';' && u.last() != '!' && u.last() != '?' && u.last() != ']' && u.last()
                    != '}' && (u.last() == ')' ==> u.contains('('))) by {
                    if i < rest.len() {
                        assert(all[i] == rest[i]);
                    } else {
                        assert(all[i] == f);
                        assert(f.features[0] == FeatureView::Link(uri));
                    }
                }
            },
            None => {},
        }
    }
}

/// The mention or hashtag facets of the matches, in order.
pub open spec fn sigil_facets(text: Seq<char>, spans: Seq<Option<(usize, usize)>>, mention: bool) -> Seq<
    FacetView,
>
    decreases spans.len(),
{
    if spans.len() == 0 {
        seq![]
    } else {
        let rest = sigil_facets(text, spans.drop_last(), mention);
        match spans.last() {
            Some((s, e)) => rest.push(sigil_facet(text, s as int, e as int, mention)),
            None => rest,
        }
    }
}

/// `s` with `f` placed after every element whose start is at most `f`'s start, counting from
/// the end (one step of a stable insertion sort).
pub open spec fn insert_by_start(s: Seq<FacetView>, f: FacetView) -> Seq<FacetView>
    decreases s.len(),
{
    if s.len() == 0 || s.last().start <= f.start {
        s.push(f)
    } else {
        insert_by_start(s.drop_last(), f).push(s.last())
    }
}

/// `s` stably sorted by start.
pub open spec fn sort_by_start(s: Seq<FacetView>) -> Seq<FacetView>
    decreases s.len(),
{
    if s.len() == 0 {
        s
    } else {
        insert_by_start(sort_by_start(s.drop_last()), s.last())
    }
}

/// Starts never decrease along `s`.
pub open spec fn sorted_by_start(s: Seq<FacetView>) -> bool {
    forall|i: int, j: int| 0 <= i <= j < s.len() ==> #[trigger] s[i].start <= #[trigger] s[j].start
}

proof fn lemma_insert_by_start_sorted(s: Seq<FacetView>, f: FacetView)
    requires
        sorted_by_start(s),
    ensures
        sorted_by_start(insert_by_start(s, f)),
        insert_by_start(s, f).len() == s.len() + 1,
        forall|i: int| 0 <= i < insert_by_start(s, f).len() ==> (#[trigger] insert_by_start(s, f)[i] == f
            || s.contains(insert_by_start(s, f)[i])),
    decreases s.len(),
{
    if s.len() == 0 || s.last().start <= f.start {
        let t = s.push(f);
        assert forall|i: int| 0 <= i < t.len() implies (#[trigger] t[i] == f || s.contains(t[i])) by {
            if i < s.len() {
                assert(t[i] == s[i]);
            }
        }
    } else {
        let d = s.drop_last();
        assert(sorted_by_start(d)) by {
            assert forall|i: int, j: int| 0 <= i <= j < d.len() implies #[trigger] d[i].start
                <= #[trigger] d[j].start by {
                assert(d[i] == s[i] && d[j] == s[j]);
            }
        }
        lemma_insert_by_start_sorted(d, f);
        let u = insert_by_start(d, f);
        let t = u.push(s.last());
        assert forall|i: int| 0 <= i < t.len() implies (#[trigger] t[i] == f || s.contains(t[i])) by {
            if i < u.len() {
                assert(t[i] == u[i]);
                if u[i] != f {
                    let k = choose|k: int| 0 <= k < d.len() && d[k] == u[i];
                    assert(s[k] == u[i]);
                }
            } else {
                assert(s[s.len() - 1] == t[i]);
            }
        }
        assert forall|i: int, j: int| 0 <= i <= j < t.len() implies #[trigger] t[i].start
            <= #[trigger] t[j].start by {
            if j == t.len() - 1 && i < j {
                assert(t[i] == u[i]);
                if u[i] == f {
                } else {
                    let k = choose|k: int| 0 <= k < d.len() && d[k] == u[i];
                    assert(s[k] == d[k]);
                }
            } else if j < t.len() - 1 {
                assert(t[i] == u[i] && t[j] == u[j]);
            }
        }
    }
}

/// A stably sorted sequence is sorted.
pub proof fn lemma_sort_by_start_sorted(s: Seq<FacetView>)
    ensures
        sorted_by_start(sort_by_start(s)),
        sort_by_start(s).len() == s.len(),
    decreases s.len(),
{
    if s.len() > 0 {
        lemma_sort_by_start_sorted(s.drop_last());
        lemma_insert_by_start_sorted(sort_by_start(s.drop_last()), s.last());
    }
}

/// Inserting at the first position from the end past which every start is larger gives
/// `insert_by_start`.
proof fn lemma_insert_at(s: Seq<FacetView>, f: FacetView, j: int)
    requires
        0 <= j <= s.len(),
        j == 0 || s[j - 1].start <= f.start,
        forall|k: int| j <= k < s.len() ==> #[trigger] s[k].start > f.start,
    ensures
        insert_by_start(s, f) == s.insert(j, f),
    decreases s.len() - j,
{
    if j == s.len() {
        assert(s.insert(j, f) =~= s.push(f));
    } else {
        let d = s.drop_last();
        assert forall|k: int| j <= k < d.len() implies #[trigger] d[k].start > f.start by {
            assert(d[k] == s[k]);
        }
        if j > 0 {
            assert(d[j - 1] == s[j - 1]);
        }
        lemma_insert_at(d, f, j);
        assert(s.last().start > f.start);
        assert(d.insert(j, f).push(s.last()) =~= s.insert(j, f));
    }
}

fn sort_facets(v: Vec<Facet>) -> (r: Vec<Facet>)
    ensures
        facet_views(r@) == sort_by_start(facet_views(v@)),
{
    let ghost all = facet_views(v@);
    let mut src = v;
    let mut out: Vec<Facet> = Vec::new();
    let mut taken: usize = 0;
    let n = src.len();
    assert(facet_views(out@) =~= sort_by_start(all.take(0)));
    assert(facet_views(src@) =~= all.skip(0));
    while src.len() > 0
        invariant
            taken + src@.len() == all.len(),
            all.len() == n,
            facet_views(src@) == all.skip(taken as int),
            facet_views(out@) == sort_by_start(all.take(taken as int)),
        decreases src.len(),
    {
        let ghost before = src@;
        let f = src.remove(0);
        proof {
            assert(facet_view(f) == facet_views(before)[0]);
            assert(facet_view(f) == all[taken as int]);
            assert(facet_views(src@) =~= facet_views(before).skip(1));
            assert(all.skip(taken as int).skip(1) =~= all.skip(taken + 1));
        }
        let mut j: usize = out.len();
        while j > 0 && out[j - 1].index.byte_start > f.index.byte_start
            invariant
                j <= out@.len(),
                forall|k: int| j <= k < out@.len() ==> #[trigger] facet_views(out@)[k].start
                    > facet_view(f).start,
            decreases j,
        {
            j -= 1;
        }
        proof {
            let ov = facet_views(out@);
            if j > 0 {
                assert(ov[j - 1].start == out@[j - 1].index.byte_start);
            }
            lemma_insert_at(ov, facet_view(f), j as int);
            assert(all.take(taken + 1).drop_last() =~= all.take(taken as int));
            assert(all.take(taken + 1).last() == all[taken as int]);
        }
        let ghost ov = facet_views(out@);
        out.insert(j, f);
        assert(facet_views(out@) =~= ov.insert(j as int, facet_view(f)));
        taken += 1;
    }
    assert(all.take(all.len() as int) =~= all);
    out
}

/// The spans of capture group `group` in each successive match of the regular expression
/// `pattern` over `text`, as the regex crate computes them.
pub uninterp spec fn capture_spans(pattern: Seq<char>, text: Seq<char>, group: nat) -> Seq<
    Option<(usize, usize)>,
>;

/// `regex::Regex::new(pattern)` then `captures_iter(text)`, giving for each match the byte span
/// of capture group `group` (`Captures::get`, `Match::start`, `Match::end`); an invalid pattern
/// gives no match. The regex documentation guarantees that every offset lies on a character
/// boundary of the text and that a match's start is at most its end; which matches are found
/// is named, not stated.
#[verifier::external_body]
fn regex_capture_spans(pattern: &str, text: &str, group: usize) -> (r: Vec<Option<(usize, usize)>>)
    ensures
        r@ == capture_spans(pattern@, text@, group as nat),
        spans_ok(text@, r@),
{
    match regex::Regex::new(pattern) {
        Ok(re) => {
            let mut spans = Vec::new();
            for caps in re.captures_iter(text) {
                spans.push(match caps.get(group) {
                    Some(m) => Some((m.start(), m.end())),
                    None => None,
                });
            }
            spans
        },
        Err(_) => Vec::new(),
    }
}

/// The pattern of links: `http(s)://` URLs and bare domain names, after a start, whitespace or
/// an opening parenthesis (capture group 1 is the link).
pub const LINK_PATTERN: &'static str = r"(?:^|\s|\()(https?://[^\s]+|(?:[a-z0-9](?:[a-z0-9-]{0,61}[a-z0-9])?\.)+[a-z]{2,}(?:/[^\s]*)?)";

/// The pattern of mentions: `@handle` after a start, whitespace or an opening parenthesis.
pub const MENTION_PATTERN: &'static str = r"(?:^|\s|\()@([a-zA-Z0-9][a-zA-Z0-9.-]*[a-zA-Z0-9])";

/// The pattern of hashtags: `#tag` after a start, whitespace or an opening parenthesis.
pub const TAG_PATTERN: &'static str = r"(?:^|\s|\()#([a-zA-Z][a-zA-Z0-9_]*)";

/// The facets of `text`: its links, mentions and hashtags (as the patterns match them), stably
/// sorted by start.
pub open spec fn facets_of(text: Seq<char>) -> Seq<FacetView> {
    sort_by_start(
        link_facets(text, capture_spans(LINK_PATTERN@, text, 1)) + sigil_facets(
            text,
            capture_spans(MENTION_PATTERN@, text, 0),
            true,
        ) + sigil_facets(text, capture_spans(TAG_PATTERN@, text, 0), false),
    )
}

/// The characters between two boundaries, with their character indices.
fn span_chars(text: &[char], s: usize, e: usize) -> (r: Vec<char>)
    requires
        s <= e,
        is_boundary(text@, s as int),
        is_boundary(text@, e as int),
    ensures
        r@ == span_text(text@, s as int, e as int),
        utf8_len(r@) == e - s,
{
    let ks = char_index(text, s);
    let ke = char_index(text, e);
    if ke < ks {
        proof {
            lemma_utf8_take_monotone(text@, ke as int, ks as int);
        }
    }
    proof {
        lemma_utf8_subrange(text@, ks as int, ke as int);
    }
    subrange_exec(text, ks, ke)
}

/// The link facets of the given matches of `text` (see `link_facets`).
pub fn link_facets_from_spans(text: &str, spans: &[Option<(usize, usize)>]) -> (r: Vec<Facet>)
    requires
        spans_ok(text@, spans@),
    ensures
        facet_views(r@) == link_facets(text@, spans@),
{
    let t = chars_of(text);
    let mut out: Vec<Facet> = Vec::new();
    let mut i: usize = 0;
    assert(facet_views(out@) =~= link_facets(t@, spans@.take(0)));
    while i < spans.len()
        invariant
            i <= spans@.len(),
            t@ == text@,
            spans_ok(text@, spans@),
            facet_views(out@) == link_facets(t@, spans@.take(i as int)),
        decreases spans@.len() - i,
    {
        assert(spans@.take(i + 1).drop_last() =~= spans@.take(i as int));
        assert(spans@.take(i + 1).last() == spans@[i as int]);
        match spans[i] {
            Some((s, e)) => {
                assert(spans@[i as int] matches Some((s, e)));
                let m = span_chars(t.as_slice(), s, e);
                proof {
                    lemma_boundary_char(t@, e as int);
                }
                let mut n: usize = m.len();
                assert(m@.take(n as int) =~= m@);
                while n > 0 && is_link_tail_exec(m[n - 1]) && !(m[n - 1] == ')' && has_char_before(
                    m.as_slice(),
                    n,
                    '(',
                ))
                    invariant
                        n <= m@.len(),
                        strip_link_tail(m@) == strip_link_tail(m@.take(n as int)),
                    decreases n,
                {
                    assert(m@.take(n as int).last() == m@[n - 1]);
                    assert(m@.take(n as int).drop_last() =~= m@.take(n - 1));
                    n -= 1;
                }
                proof {
                    let u = m@.take(n as int);
                    if n > 0 {
                        assert(u.last() == m@[n - 1]);
                    }
                    assert(strip_link_tail(u) == u);
                    assert(m@ =~= u + m@.skip(n as int));
                    lemma_utf8_concat(u, m@.skip(n as int));
                }
                let url = take_exec(m.as_slice(), n);
                let ul = utf8_len_exec(url.as_slice());
                assert(ul <= e - s);
                let start = s;
                let end = s + ul;
                let us = string_of(url.as_slice());
                let uri = link_uri_exec(us.as_str());
                let f = Facet {
                    index: ByteSlice { byte_start: start, byte_end: end },
                    features: vec![FacetFeature::Link(Link { uri })],
                };
                let ghost prev = facet_views(out@);
                out.push(f);
                assert(f.features@.map_values(|x: FacetFeature| feature_view(x)) =~= seq![
                    FeatureView::Link(link_uri(url@)),
                ]);
                assert(facet_views(out@) =~= prev.push(facet_view(f)));
            },
            None => {},
        }
        i += 1;
    }
    assert(spans@.take(spans@.len() as int) =~= spans@);
    out
}

fn is_link_tail_exec(c: char) -> (r: bool)
    ensures
        r == is_link_tail(c),
{
    c == '.' || c == ',' || c == ';' || c == '!' || c == '?' || c == ')' || c == ']' || c == '}'
}

fn has_char_before(s: &[char], n: usize, c: char) -> (r: bool)
    requires
        n <= s.len(),
    ensures
        r == s@.take(n as int).contains(c),
{
    let mut i: usize = 0;
    while i < n
        invariant
            i <= n <= s.len(),
            forall|j: int| 0 <= j < i ==> s@[j] != c,
        decreases n - i,
    {
        if s[i] == c {
            assert(s@.take(n as int)[i as int] == c);
            return true;
        }
        i += 1;
    }
    assert forall|j: int| 0 <= j < n implies s@.take(n as int)[j] != c by {
        assert(s@.take(n as int)[j] == s@[j]);
    }
    false
}

fn link_uri_exec(url: &str) -> (r: String)
    ensures
        r@ == link_uri(url@),
{
    let u = chars_of(url);
    let http = chars_of("http://");
    let https = chars_of("https://");
    if !starts_with_exec(u.as_slice(), http.as_slice()) && !starts_with_exec(u.as_slice(), https.as_slice()) {
        concat2("https://", url)
    } else {
        owned(url)
    }
}

/// The mention (`mention`) or hashtag facets of the given matches of `text` (see
/// `sigil_facets`).
pub fn sigil_facets_from_spans(text: &str, spans: &[Option<(usize, usize)>], mention: bool) -> (r: Vec<
    Facet,
>)
    requires
        spans_ok(text@, spans@),
    ensures
        facet_views(r@) == sigil_facets(text@, spans@, mention),
{
    let t = chars_of(text);
    let lead = [' ', '('];
    let sig = if mention {
        ['@']
    } else {
        ['#']
    };
    assert(lead@ =~= seq![' ', '(']);
    assert(sig@ =~= (if mention {
        seq!['@']
    } else {
        seq!['#']
    }));
    let mut out: Vec<Facet> = Vec::new();
    let mut i: usize = 0;
    assert(facet_views(out@) =~= sigil_facets(t@, spans@.take(0), mention));
    while i < spans.len()
        invariant
            i <= spans@.len(),
            t@ == text@,
            lead@ == seq![' ', '('],
            sig@ == (if mention {
                seq!['@']
            } else {
                seq!['#']
            }),
            spans_ok(text@, spans@),
            facet_views(out@) == sigil_facets(t@, spans@.take(i as int), mention),
        decreases spans@.len() - i,
    {
        assert(spans@.take(i + 1).drop_last() =~= spans@.take(i as int));
        assert(spans@.take(i + 1).last() == spans@[i as int]);
        match spans[i] {
            Some((s, e)) => {
                assert(spans@[i as int] matches Some((s, e)));
                let full = span_chars(t.as_slice(), s, e);
                proof {
                    lemma_boundary_char(t@, e as int);
                }
                let a = trim_start_set_index(full.as_slice(), &lead);
                let body = skip_exec(full.as_slice(), a);
                let b = trim_start_set_index(body.as_slice(), &sig);
                let name = skip_exec(body.as_slice(), b);
                proof {
                    assert(full@ =~= full@.take(a as int) + body@);
                    lemma_utf8_concat(full@.take(a as int), body@);
                }
                let bl = utf8_len_exec(body.as_slice());
                let start = s + ((e - s) - bl);
                let end = start + bl;
                let ns = string_of(name.as_slice());
                let feature = if mention {
                    FacetFeature::Mention(Mention { did: concat2("did:placeholder:", ns.as_str()) })
                } else {
                    FacetFeature::Tag(Tag { tag: ns })
                };
                let ghost fv = feature_view(feature);
                let f = Facet { index: ByteSlice { byte_start: start, byte_end: end }, features: vec![feature] };
                let ghost prev = facet_views(out@);
                out.push(f);
                assert(f.features@.map_values(|x: FacetFeature| feature_view(x)) =~= seq![fv]);
                assert(facet_views(out@) =~= prev.push(facet_view(f)));
            },
            None => {},
        }
        i += 1;
    }
    assert(spans@.take(spans@.len() as int) =~= spans@);
    out
}

/// Links found in `text`.
fn detect_links(text: &str) -> (r: Vec<Facet>)
    ensures
        facet_views(r@) == link_facets(text@, capture_spans(LINK_PATTERN@, text@, 1)),
{
    let spans = regex_capture_spans(LINK_PATTERN, text, 1);
    link_facets_from_spans(text, spans.as_slice())
}

/// Mentions found in `text`.
fn detect_mentions(text: &str) -> (r: Vec<Facet>)
    ensures
        facet_views(r@) == sigil_facets(text@, capture_spans(MENTION_PATTERN@, text@, 0), true),
{
    let spans = regex_capture_spans(MENTION_PATTERN, text, 0);
    sigil_facets_from_spans(text, spans.as_slice(), true)
}

/// Hashtags found in `text`.
fn detect_tags(text: &str) -> (r: Vec<Facet>)
    ensures
        facet_views(r@) == sigil_facets(text@, capture_spans(TAG_PATTERN@, text@, 0), false),
{
    let spans = regex_capture_spans(TAG_PATTERN, text, 0);
    sigil_facets_from_spans(text, spans.as_slice(), false)
}

fn append_facets(a: &mut Vec<Facet>, b: Vec<Facet>)
    ensures
        facet_views(final(a)@) == facet_views(old(a)@) + facet_views(b@),
{
    let mut b = b;
    let ghost a0 = facet_views(a@);
    let ghost bv = facet_views(b@);
    a.append(&mut b);
    assert(facet_views(a@) =~= a0 + bv);
}

/// The facets of `text` with their positions (see `facets_of`).
pub fn facets_in(text: &str) -> (r: Vec<Facet>)
    ensures
        facet_views(r@) == facets_of(text@),
{
    let mut all = detect_links(text);
    append_facets(&mut all, detect_mentions(text));
    append_facets(&mut all, detect_tags(text));
    sort_facets(all)
}

/// Rich text with detected facets.
#[derive(Debug, Clone, PartialEq, Eq)]
pub struct RichText {
    /// The text content
    pub text: String,
    /// Detected facets
    pub facets: Option<Vec<Facet>>,
}

impl RichText {
    /// Rich text with no facets.
    pub fn new(text: &str) -> (r: Self)
        ensures
            r.text@ == text@,
            r.facets is None,
    {
        RichText { text: owned(text), facets: None }
    }

    /// Detects the links, mentions and hashtags of the text and keeps them sorted by start;
    /// when none is found the facets stay as they were.
    pub fn detect_facets(&mut self)
        ensures
            final(self).text == old(self).text,
            facets_of(old(self).text@).len() > 0 ==> (final(self).facets matches Some(f) && facet_views(
                f@,
            ) == facets_of(old(self).text@)),
            facets_of(old(self).text@).len() == 0 ==> final(self).facets == old(self).facets,
    {
        let facets = facets_in(self.text.as_str());
        if facets.len() > 0 {
            self.facets = Some(facets);
        }
    }

    /// The text content.
    pub fn text(&self) -> (r: &str)
        ensures
            r@ == self.text@,
    {
        self.text.as_str()
    }

    /// The facets, if any were detected.
    pub fn facets(&self) -> (r: Option<&[Facet]>)
        ensures
            match self.facets {
                Some(f) => r matches Some(x) && x@ == f@,
                None => r is None,
            },
    {
        match &self.facets {
            Some(f) => Some(f.as_slice()),
            None => None,
        }
    }

    /// The text between two byte offsets; an error unless both are character boundaries with
    /// the start not after the end.
    pub fn substring(&self, byte_start: usize, byte_end: usize) -> (r: Result<&str, RichTextError>)
        ensures
            match r {
                Ok(s) => is_boundary(self.text@, byte_start as int) && is_boundary(
                    self.text@,
                    byte_end as int,
                ) && byte_start <= byte_end && s@ == span_text(
                    self.text@,
                    byte_start as int,
                    byte_end as int,
                ),
                Err(e) => !(is_boundary(self.text@, byte_start as int) && is_boundary(
                    self.text@,
                    byte_end as int,
                ) && byte_start <= byte_end) && e == RichTextError::InvalidByteIndices(
                    byte_start,
                    byte_end,
                ),
            },
    {
        let t = chars_of(self.text.as_str());
        match (chars_before_byte(t.as_slice(), byte_start), chars_before_byte(t.as_slice(), byte_end)) {
            (Some(a), Some(b)) => {
                proof {
                    lemma_byte_to_char(t@, a as int);
                    lemma_byte_to_char(t@, b as int);
                    if b < a {
                        lemma_utf8_take_monotone(t@, b as int, a as int);
                    } else {
                        lemma_utf8_take_monotone(t@, a as int, b as int);
                    }
                }
                if a <= b {
                    Ok(self.text.as_str().substring_char(a, b))
                } else {
                    Err(RichTextError::InvalidByteIndices(byte_start, byte_end))
                }
            },
            _ => Err(RichTextError::InvalidByteIndices(byte_start, byte_end)),
        }
    }
}

/// Strong reference to a post (URI + CID).
#[derive(Debug, Clone, PartialEq, Eq)]
pub struct StrongRef {
    /// URI of the post
    pub uri: String,
    /// CID of the post
    pub cid: String,
}

/// Reply reference: the root post of the thread and the immediate parent.
#[derive(Debug, Clone, PartialEq, Eq)]
pub struct ReplyRef {
    /// Root post of the thread
    pub root: StrongRef,
    /// Immediate parent post
    pub parent: StrongRef,
}

impl ReplyRef {
    /// A reply to a top-level post: root and parent are the same post.
    pub fn to_post(uri: &str, cid: &str) -> (r: Self)
        ensures
            r.root.uri@ == uri@ && r.root.cid@ == cid@,
            r.parent.uri@ == uri@ && r.parent.cid@ == cid@,
    {
        ReplyRef {
            root: StrongRef { uri: owned(uri), cid: owned(cid) },
            parent: StrongRef { uri: owned(uri), cid: owned(cid) },
        }
    }

    /// A reply within a thread.
    pub fn in_thread(root_uri: &str, root_cid: &str, parent_uri: &str, parent_cid: &str) -> (r: Self)
        ensures
            r.root.uri@ == root_uri@ && r.root.cid@ == root_cid@,
            r.parent.uri@ == parent_uri@ && r.parent.cid@ == parent_cid@,
    {
        ReplyRef {
            root: StrongRef { uri: owned(root_uri), cid: owned(root_cid) },
            parent: StrongRef { uri: owned(parent_uri), cid: owned(parent_cid) },
        }
    }

    /// Whether root and parent are the same post.
    pub fn is_top_level_reply(&self) -> (r: bool)
        ensures
            r == (self.root.uri@ == self.parent.uri@ && self.root.cid@ == self.parent.cid@),
    {
        self.root.uri == self.parent.uri && self.root.cid == self.parent.cid
    }

    /// The root post's URI.
    pub fn root_uri(&self) -> (r: &str)
        ensures
            r@ == self.root.uri@,
    {
        self.root.uri.as_str()
    }

    /// The parent post's URI.
    pub fn parent_uri(&self) -> (r: &str)
        ensures
            r@ == self.parent.uri@,
    {
        self.parent.uri.as_str()
    }
}

/// Aspect ratio of an image.
#[derive(Debug, Clone, PartialEq)]
pub struct AspectRatio {
    /// Width
    pub width: u32,
    /// Height
    pub height: u32,
}

/// Response from creating a post.
#[derive(Debug, Clone, PartialEq)]
pub struct CreatePostResponse {
    /// URI of the created post
    pub uri: String,
    /// CID of the created post
    pub cid: String,
}

/// Maximum length of a post, in graphemes.
pub const MAX_POST_LENGTH: usize = 300;

/// Maximum number of images in a post.
pub const MAX_IMAGES_PER_POST: usize = 4;

/// Post composer errors.
#[derive(Debug)]
pub enum PostError {
    /// XRPC error
    Xrpc(String),
    /// No active session
    NoSession,
    /// Serialization error
    Serialization(serde_json::Error),
    /// Text too long
    TextTooLong { actual: usize, max: usize },
    /// Too many images
    TooManyImages { count: usize },
    /// Image processing error
    ImageError(String),
    /// Invalid language code
    InvalidLanguage(String),
    /// Neither text nor images
    EmptyPost,
    /// Post not found
    NotFound(String),
    /// Not the post's author
    NotAuthorized,
    /// Invalid post URI
    InvalidUri(String),
}

impl PostError {
    /// The error message (that of a serialization error is serde_json's).
    pub fn to_string(&self) -> (r: String)
        ensures
            match self {
                PostError::Xrpc(m) => r@ == "XRPC error: "@ + m@,
                PostError::NoSession => r@ == "No active session"@,
                PostError::Serialization(_) => true,
                PostError::TextTooLong { actual, max } => r@ == "Text exceeds maximum length of "@
                    + decimal(*max as nat) + " characters (got "@ + decimal(*actual as nat) + ")"@,
                PostError::TooManyImages { count } => r@ == "Too many images: "@ + decimal(*count as nat)
                    + " (maximum is 4)"@,
                PostError::ImageError(m) => r@ == "Image processing error: "@ + m@,
                PostError::InvalidLanguage(m) => r@ == "Invalid language code: "@ + m@,
                PostError::EmptyPost => r@ == "Post cannot be empty (no text and no images)"@,
                PostError::NotFound(m) => r@ == "Post not found: "@ + m@,
                PostError::NotAuthorized => r@ == "Not authorized to delete this post"@,
                PostError::InvalidUri(m) => r@ == "Invalid post URI: "@ + m@,
            },
    {
        match self {
            PostError::Xrpc(m) => concat2("XRPC error: ", m.as_str()),
            PostError::NoSession => owned("No active session"),
            PostError::Serialization(e) => {
                let m = crate::json::json_error_message(e);
                concat2("Serialization error: ", m.as_str())
            },
            PostError::TextTooLong { actual, max } => {
                let a = decimal_string(*max as u64);
                let b = decimal_string(*actual as u64);
                let mut r = concat2("Text exceeds maximum length of ", a.as_str());
                r.append(" characters (got ");
                r.append(b.as_str());
                r.append(")");
                r
            },
            PostError::TooManyImages { count } => {
                let a = decimal_string(*count as u64);
                let mut r = concat2("Too many images: ", a.as_str());
                r.append(" (maximum is 4)");
                r
            },
            PostError::ImageError(m) => concat2("Image processing error: ", m.as_str()),
            PostError::InvalidLanguage(m) => concat2("Invalid language code: ", m.as_str()),
            PostError::EmptyPost => owned("Post cannot be empty (no text and no images)"),
            PostError::NotFound(m) => concat2("Post not found: ", m.as_str()),
            PostError::NotAuthorized => owned("Not authorized to delete this post"),
            PostError::InvalidUri(m) => concat2("Invalid post URI: ", m.as_str()),
        }
    }
}

/// The grapheme count of a post text and whether it is within the limit.
pub fn validate_text_length(text: &str) -> (r: (usize, bool))
    ensures
        r.0 == crate::editor::grapheme_count(text@),
        r.1 == (crate::editor::grapheme_count(text@) <= MAX_POST_LENGTH),
{
    let count = crate::editor::count_graphemes(text);
    (count, count <= MAX_POST_LENGTH)
}

/// How many graphemes may still be added to a post text (negative when it is too long); past
/// `i32::MAX` graphemes the result stays at `i32::MIN`.
pub fn chars_remaining(text: &str) -> (r: i32)
    ensures
        crate::editor::grapheme_count(text@) <= i32::MAX ==> r == MAX_POST_LENGTH
            - crate::editor::grapheme_count(text@),
        crate::editor::grapheme_count(text@) > i32::MAX ==> r == i32::MIN,
{
    let count = crate::editor::count_graphemes(text);
    if count <= i32::MAX as usize {
        300 - (count as i32)
    } else {
        i32::MIN
    }
}

/// What deleting a post refuses, or the (repo, collection, record key) it deletes: the URI must
/// start with `at://`, have three `/`-separated parts after it, and name the post collection.
pub open spec fn delete_target_spec(uri: Seq<char>) -> Result<(Seq<char>, Seq<char>, Seq<char>), Seq<char>> {
    let parts = crate::text::at_uri_parts(uri);
    if !starts_with(uri, "at://"@) {
        Err("URI must start with 'at://': "@ + uri)
    } else if parts.len() != 3 {
        Err("Invalid AT-URI format, expected 'at://repo/collection/rkey': "@ + uri)
    } else if parts[1] != "app.bsky.feed.post"@ {
        Err("URI must be for app.bsky.feed.post collection, got: "@ + parts[1])
    } else {
        Ok((parts[0], parts[1], parts[2]))
    }
}

/// The (repo, collection, record key) of a post to delete, refusing what deleting refuses.
pub fn delete_target(uri: &str) -> (r: Result<(String, String, String), PostError>)
    ensures
        match delete_target_spec(uri@) {
            Ok((a, b, c)) => r matches Ok((x, y, z)) && x@ == a && y@ == b && z@ == c,
            Err(m) => r matches Err(PostError::InvalidUri(x)) && x@ == m,
        },
{
    let u = chars_of(uri);
    let p = chars_of("at://");
    if !starts_with_exec(u.as_slice(), p.as_slice()) {
        return Err(PostError::InvalidUri(concat2("URI must start with 'at://': ", uri)));
    }
    let parts = crate::text::at_uri_parts_exec(uri);
    if parts.len() != 3 {
        return Err(PostError::InvalidUri(
            concat2("Invalid AT-URI format, expected 'at://repo/collection/rkey': ", uri),
        ));
    }
    let collection = string_of(parts[1].as_slice());
    if !crate::text::str_eq(collection.as_str(), "app.bsky.feed.post") {
        return Err(PostError::InvalidUri(
            concat2("URI must be for app.bsky.feed.post collection, got: ", collection.as_str()),
        ));
    }
    Ok((string_of(parts[0].as_slice()), collection, string_of(parts[2].as_slice())))
}


/// The error a failed deletion of `uri` is reported as, from the failure's message: a missing
/// record (the message holds `RecordNotFound` or `not found`) as not found, a refusal
/// (`NotAuthorized`, `not authorized` or `permission`) as not authorized, anything else as an
/// XRPC error carrying the message.
pub fn delete_error(uri: &str, message: &str) -> (r: PostError)
    ensures
        (occurs(message@, "RecordNotFound"@) || occurs(message@, "not found"@)) ==> (r matches PostError::NotFound(
            u,
        ) && u@ == uri@),
        !(occurs(message@, "RecordNotFound"@) || occurs(message@, "not found"@)) && (occurs(
            message@,
            "NotAuthorized"@,
        ) || occurs(message@, "not authorized"@) || occurs(message@, "permission"@)) ==> r is NotAuthorized,
        !(occurs(message@, "RecordNotFound"@) || occurs(message@, "not found"@)) && !(occurs(
            message@,
            "NotAuthorized"@,
        ) || occurs(message@, "not authorized"@) || occurs(message@, "permission"@)) ==> (r matches PostError::Xrpc(
            m,
        ) && m@ == message@),
{
    let m = chars_of(message);
    let p1 = chars_of("RecordNotFound");
    let p2 = chars_of("not found");
    if contains(m.as_slice(), p1.as_slice()) || contains(m.as_slice(), p2.as_slice()) {
        return PostError::NotFound(owned(uri));
    }
    let p3 = chars_of("NotAuthorized");
    let p4 = chars_of("not authorized");
    let p5 = chars_of("permission");
    if contains(m.as_slice(), p3.as_slice()) || contains(m.as_slice(), p4.as_slice()) || contains(
        m.as_slice(),
        p5.as_slice(),
    ) {
        return PostError::NotAuthorized;
    }
    PostError::Xrpc(owned(message))
}

/// Checks a post before it is created: refused when its text has more than `MAX_POST_LENGTH`
/// graphemes, then when it has neither text nor an embed.
pub fn check_post_content(text: &str, has_embed: bool) -> (r: Result<(), PostError>)
    ensures
        crate::editor::grapheme_count(text@) > MAX_POST_LENGTH ==> (r matches Err(
            PostError::TextTooLong { actual, max },
        ) && actual == crate::editor::grapheme_count(text@) && max == MAX_POST_LENGTH),
        crate::editor::grapheme_count(text@) <= MAX_POST_LENGTH && text@.len() == 0 && !has_embed
            ==> r matches Err(PostError::EmptyPost),
        crate::editor::grapheme_count(text@) <= MAX_POST_LENGTH && (text@.len() > 0 || has_embed) ==> r is Ok,
{
    let count = crate::editor::count_graphemes(text);
    if count > MAX_POST_LENGTH {
        return Err(PostError::TextTooLong { actual: count, max: MAX_POST_LENGTH });
    }
    if text.is_empty() && !has_embed {
        return Err(PostError::EmptyPost);
    }
    Ok(())
}

/// Checks the number of images of a post: at most `MAX_IMAGES_PER_POST`.
pub fn check_image_count(count: usize) -> (r: Result<(), PostError>)
    ensures
        count <= MAX_IMAGES_PER_POST ==> r is Ok,
        count > MAX_IMAGES_PER_POST ==> (r matches Err(PostError::TooManyImages { count: c }) && c == count),
{
    if count > MAX_IMAGES_PER_POST {
        Err(PostError::TooManyImages { count })
    } else {
        Ok(())
    }
}

/// Reply errors.
#[derive(Debug)]
pub enum ReplyError {
    /// XRPC error
    Xrpc(String),
    /// Post not found
    NotFound(String),
    /// No active session
    NoSession,
    /// Serialization error
    Serialization(serde_json::Error),
    /// Invalid URI
    InvalidUri(String),
    /// Invalid CID
    InvalidCid(String),
    /// Replies not allowed
    NotAllowed(String),
}

impl ReplyError {
    /// The error message (that of a serialization error is serde_json's).
    pub fn to_string(&self) -> (r: String)
        ensures
            match self {
                ReplyError::Xrpc(m) => r@ == "XRPC error: "@ + m@,
                ReplyError::NotFound(m) => r@ == "Post not found: "@ + m@,
                ReplyError::NoSession => r@ == "No active session"@,
                ReplyError::Serialization(_) => true,
                ReplyError::InvalidUri(m) => r@ == "Invalid URI: "@ + m@,
                ReplyError::InvalidCid(m) => r@ == "Invalid CID: "@ + m@,
                ReplyError::NotAllowed(m) => r@ == "Replies not allowed: "@ + m@,
            },
    {
        match self {
            ReplyError::Xrpc(m) => concat2("XRPC error: ", m.as_str()),
            ReplyError::NotFound(m) => concat2("Post not found: ", m.as_str()),
            ReplyError::NoSession => owned("No active session"),
            ReplyError::Serialization(e) => {
                let m = crate::json::json_error_message(e);
                concat2("Serialization error: ", m.as_str())
            },
            ReplyError::InvalidUri(m) => concat2("Invalid URI: ", m.as_str()),
            ReplyError::InvalidCid(m) => concat2("Invalid CID: ", m.as_str()),
            ReplyError::NotAllowed(m) => concat2("Replies not allowed: ", m.as_str()),
        }
    }
}

/// Checks a reply before it is created: its text cannot be empty.
pub fn check_reply_text(text: &str) -> (r: Result<(), ReplyError>)
    ensures
        text@.len() > 0 ==> r is Ok,
        text@.len() == 0 ==> (r matches Err(ReplyError::InvalidUri(m)) && m@ == "Reply text cannot be empty"@),
{
    if text.is_empty() {
        Err(ReplyError::InvalidUri(owned("Reply text cannot be empty")))
    } else {
        Ok(())
    }
}

/// The line shown above a reply being written: the parent post, and the thread's root when
/// the parent is not the root.
pub fn reply_context(reply_ref: &ReplyRef) -> (r: String)
    ensures
        (reply_ref.root.uri@ == reply_ref.parent.uri@ && reply_ref.root.cid@ == reply_ref.parent.cid@) ==> r@
            == "Replying to "@ + reply_ref.parent.uri@,
        !(reply_ref.root.uri@ == reply_ref.parent.uri@ && reply_ref.root.cid@ == reply_ref.parent.cid@) ==> r@
            == "Replying to "@ + reply_ref.parent.uri@ + " (in thread "@ + reply_ref.root.uri@ + ")"@,
{
    let mut r = concat2("Replying to ", reply_ref.parent_uri());
    if !reply_ref.is_top_level_reply() {
        r.append(" (in thread ");
        r.append(reply_ref.root_uri());
        r.append(")");
    }
    r
}

} // verus!
