//! Search: the parameters of actor and post searches, the checks applied to their queries, and
//! the ranking of actor results by relevance.
use vstd::prelude::*;
use crate::json::json_error_message;
use crate::profiles::ProfileViewBasic;
use crate::text::{
    chars_of, concat2, find, first_match_from, has_ws, is_ws, is_ws_exec, lemma_first_match_unique,
    lowercase, matches_at, occurs, owned, skip_exec, starts_with, starts_with_exec, str_eq,
    string_of, string_views, to_lowercase, trim, trim_end_char, trim_end_char_exec, trim_exec,
    trim_start, trim_start_index, contains,
};

verus! {

/// Search errors.
#[derive(Debug)]
pub enum SearchError {
    /// API error
    ApiError(String),
    /// Parse error
    ParseError(serde_json::Error),
    /// Invalid query
    InvalidQuery(String),
}

impl SearchError {
    /// The error message (that of a parse error is serde_json's).
    pub fn to_string(&self) -> (r: String)
        ensures
            match self {
                SearchError::ApiError(m) => r@ == "API error: "@ + m@,
                SearchError::ParseError(_) => true,
                SearchError::InvalidQuery(m) => r@ == "Invalid query: "@ + m@,
            },
    {
        match self {
            SearchError::ApiError(m) => concat2("API error: ", m.as_str()),
            SearchError::ParseError(e) => {
                let m = json_error_message(e);
                concat2("Parse error: ", m.as_str())
            },
            SearchError::InvalidQuery(m) => concat2("Invalid query: ", m.as_str()),
        }
    }
}

/// Parameters of an actor search.
#[derive(Debug, Clone)]
pub struct ActorSearchParams {
    /// Search query
    pub query: String,
    /// Pagination cursor
    pub cursor: Option<String>,
    /// Maximum number of results
    pub limit: u32,
}

impl Default for ActorSearchParams {
    fn default() -> (r: Self)
        ensures
            r.query@ == Seq::<char>::empty(),
            r.cursor is None,
            r.limit == 0,
    {
        ActorSearchParams { query: String::new(), cursor: None, limit: 0 }
    }
}

/// Parameters of an actor typeahead search.
#[derive(Debug, Clone)]
pub struct ActorTypeaheadParams {
    /// Search query (prefix)
    pub query: String,
    /// Maximum number of results
    pub limit: u32,
}

impl Default for ActorTypeaheadParams {
    fn default() -> (r: Self)
        ensures
            r.query@ == Seq::<char>::empty(),
            r.limit == 0,
    {
        ActorTypeaheadParams { query: String::new(), limit: 0 }
    }
}

/// The query that a search sends: the trimmed query, refused when it is empty.
pub fn checked_query(query: &str) -> (r: Result<String, SearchError>)
    ensures
        match r {
            Ok(q) => trim(query@).len() > 0 && q@ == trim(query@),
            Err(e) => trim(query@).len() == 0 && (e matches SearchError::InvalidQuery(m)
                && m@ == "Query cannot be empty"@),
        },
{
    let q = chars_of(query);
    let t = trim_exec(q.as_slice());
    if t.len() == 0 {
        Err(SearchError::InvalidQuery(owned("Query cannot be empty")))
    } else {
        Ok(string_of(t.as_slice()))
    }
}

/// The query of a typeahead search: trimmed, lower-cased, with trailing dots removed (so that
/// going from `foo` to `foo.` keeps the results).
pub fn typeahead_query(query: &str) -> (r: String)
    ensures
        r@ == trim_end_char(lowercase(trim(query@)), '.'),
{
    let q = chars_of(query);
    let t = string_of(trim_exec(q.as_slice()).as_slice());
    let lower = to_lowercase(t.as_str());
    let lc = chars_of(lower.as_str());
    let stripped = trim_end_char_exec(lc.as_slice(), '.');
    string_of(stripped.as_slice())
}

/// Score of a lower-cased handle against a query: exact 1000, prefix 500, containing 100.
pub open spec fn handle_score(h: Seq<char>, q: Seq<char>) -> u32 {
    if h == q {
        1000
    } else if starts_with(h, q) {
        500
    } else if occurs(h, q) {
        100
    } else {
        0
    }
}

/// Score of a lower-cased display name against a query: exact 800, prefix 400, containing 50.
pub open spec fn name_score(n: Option<Seq<char>>, q: Seq<char>) -> u32 {
    match n {
        Some(x) => if x == q {
            800
        } else if starts_with(x, q) {
            400
        } else if occurs(x, q) {
            50
        } else {
            0
        },
        None => 0,
    }
}

/// The relevance of a profile to a query, from its lower-cased handle and display name.
pub open spec fn score_of(p: ProfileViewBasic, q: Seq<char>) -> u32 {
    (handle_score(lowercase(p.handle@), q) + name_score(
        match p.display_name {
            Some(n) => Some(lowercase(n@)),
            None => None,
        },
        q,
    )) as u32
}

/// `s` with `x` placed after every element whose score is at least `x`'s, counting from the end
/// (one step of a stable insertion sort by decreasing score).
pub open spec fn insert_desc(s: Seq<(u32, ProfileViewBasic)>, x: (u32, ProfileViewBasic)) -> Seq<
    (u32, ProfileViewBasic),
>
    decreases s.len(),
{
    if s.len() == 0 || s.last().0 >= x.0 {
        s.push(x)
    } else {
        insert_desc(s.drop_last(), x).push(s.last())
    }
}

/// `s` stably sorted by decreasing score.
pub open spec fn sort_desc(s: Seq<(u32, ProfileViewBasic)>) -> Seq<(u32, ProfileViewBasic)>
    decreases s.len(),
{
    if s.len() == 0 {
        s
    } else {
        insert_desc(sort_desc(s.drop_last()), s.last())
    }
}

/// The profiles paired with their scores.
pub open spec fn scored(s: Seq<ProfileViewBasic>, q: Seq<char>) -> Seq<(u32, ProfileViewBasic)> {
    s.map_values(|p: ProfileViewBasic| (score_of(p, q), p))
}

/// Profiles ranked by relevance: stably sorted by decreasing score.
pub open spec fn ranked(s: Seq<ProfileViewBasic>, q: Seq<char>) -> Seq<ProfileViewBasic> {
    sort_desc(scored(s, q)).map_values(|x: (u32, ProfileViewBasic)| x.1)
}

/// Scores never increase along `s`.
pub open spec fn sorted_desc(s: Seq<(u32, ProfileViewBasic)>) -> bool {
    forall|i: int, j: int| 0 <= i <= j < s.len() ==> #[trigger] s[i].0 >= #[trigger] s[j].0
}

proof fn lemma_insert_desc_at(s: Seq<(u32, ProfileViewBasic)>, x: (u32, ProfileViewBasic), j: int)
    requires
        0 <= j <= s.len(),
        j == 0 || s[j - 1].0 >= x.0,
        forall|k: int| j <= k < s.len() ==> #[trigger] s[k].0 < x.0,
    ensures
        insert_desc(s, x) == s.insert(j, x),
    decreases s.len() - j,
{
    if j == s.len() {
        assert(s.insert(j, x) =~= s.push(x));
    } else {
        let d = s.drop_last();
        assert forall|k: int| j <= k < d.len() implies #[trigger] d[k].0 < x.0 by {
            assert(d[k] == s[k]);
        }
        if j > 0 {
            assert(d[j - 1] == s[j - 1]);
        }
        lemma_insert_desc_at(d, x, j);
        assert(d.insert(j, x).push(s.last()) =~= s.insert(j, x));
    }
}

proof fn lemma_insert_desc_sorted(s: Seq<(u32, ProfileViewBasic)>, x: (u32, ProfileViewBasic))
    requires
        sorted_desc(s),
    ensures
        sorted_desc(insert_desc(s, x)),
        insert_desc(s, x).to_multiset() == s.to_multiset().insert(x),
    decreases s.len(),
{
    broadcast use vstd::seq_lib::group_to_multiset_ensures;
    if s.len() == 0 || s.last().0 >= x.0 {
        let t = s.push(x);
        assert forall|i: int, j: int| 0 <= i <= j < t.len() implies #[trigger] t[i].0 >= #[trigger] t[j].0 by {
            if j == t.len() - 1 && i < j {
                assert(t[i] == s[i]);
            } else if j < t.len() - 1 {
                assert(t[i] == s[i] && t[j] == s[j]);
            }
        }
    } else {
        let d = s.drop_last();
        assert(sorted_desc(d)) by {
            assert forall|i: int, j: int| 0 <= i <= j < d.len() implies #[trigger] d[i].0 >= #[trigger] d[j].0 by {
                assert(d[i] == s[i] && d[j] == s[j]);
            }
        }
        lemma_insert_desc_sorted(d, x);
        let u = insert_desc(d, x);
        let t = u.push(s.last());
        assert(s =~= d.push(s.last()));
        assert forall|i: int| 0 <= i < u.len() implies #[trigger] u[i].0 >= s.last().0 by {
            assert(u.to_multiset().count(u[i]) > 0);
            if u[i] != x {
                assert(d.to_multiset().count(u[i]) > 0);
                let k = choose|k: int| 0 <= k < d.len() && d[k] == u[i];
                assert(s[k] == d[k]);
            }
        }
        assert forall|i: int, j: int| 0 <= i <= j < t.len() implies #[trigger] t[i].0 >= #[trigger] t[j].0 by {
            if j == t.len() - 1 && i < j {
                assert(t[i] == u[i]);
            } else if j < t.len() - 1 {
                assert(t[i] == u[i] && t[j] == u[j]);
            }
        }
    }
}

/// Ranking sorts by decreasing score and keeps every scored profile, each as often as before.
pub proof fn law_rank_sorted_permutation(s: Seq<(u32, ProfileViewBasic)>)
    ensures
        sorted_desc(sort_desc(s)),
        sort_desc(s).to_multiset() == s.to_multiset(),
    decreases s.len(),
{
    broadcast use vstd::seq_lib::group_to_multiset_ensures;
    if s.len() > 0 {
        law_rank_sorted_permutation(s.drop_last());
        lemma_insert_desc_sorted(sort_desc(s.drop_last()), s.last());
        assert(s =~= s.drop_last().push(s.last()));
    }
}

/// The first whitespace-separated word of `s`.
pub open spec fn first_word(s: Seq<char>) -> Seq<char> {
    let t = trim_start(s);
    t.take(word_end(t, 0))
}

/// Index of the first whitespace character of `t` at or after `i` (or its length).
pub open spec fn word_end(t: Seq<char>, i: int) -> int
    decreases t.len() - i,
{
    if i < 0 || i >= t.len() || is_ws(t[i]) {
        if i < 0 { 0 } else if i > t.len() { t.len() as int } else { i }
    } else {
        word_end(t, i + 1)
    }
}

/// Ranking of actor search results.
pub struct SearchRanking;

impl SearchRanking {
    /// The profiles with repeated handles removed, the first of each kept, in order.
    pub fn deduplicate_by_handle(profiles: Vec<ProfileViewBasic>) -> (r: Vec<ProfileViewBasic>)
        ensures
            r@ == dedup_by_handle(profiles@),
    {
        let ghost ps = profiles@;
        let mut seen: Vec<String> = Vec::new();
        let mut out: Vec<ProfileViewBasic> = Vec::new();
        let mut src = profiles;
        let mut taken: usize = 0;
        let n = src.len();
        assert(ps.take(0) =~= Seq::<ProfileViewBasic>::empty());
        assert(src@ =~= ps.skip(0));
        while src.len() > 0
            invariant
                taken + src@.len() == ps.len(),
                ps.len() == n,
                src@ == ps.skip(taken as int),
                out@ == dedup_by_handle(ps.take(taken as int)),
                string_views(seen@) == handles(out@),
            decreases src.len(),
        {
            let ghost before = src@;
            let p = src.remove(0);
            proof {
                assert(p == ps[taken as int]);
                assert(src@ =~= ps.skip(taken + 1));
                assert(ps.take(taken + 1).drop_last() =~= ps.take(taken as int));
                assert(ps.take(taken + 1).last() == p);
                lemma_dedup_handles(ps.take(taken as int));
            }
            assert(string_views(seen@).contains(p.handle@) <==> handles(ps.take(taken as int)).contains(
                p.handle@,
            )) by {
                let hs = handles(ps.take(taken as int));
                let hd = handles(dedup_by_handle(ps.take(taken as int)));
                assert(hd.to_set().contains(p.handle@) == hd.contains(p.handle@));
                assert(hs.to_set().contains(p.handle@) == hs.contains(p.handle@));
            }
            match crate::text::position_of(seen.as_slice(), p.handle.as_str()) {
                Some(_) => {},
                None => {
                    let h = p.handle.clone();
                    let ghost o = out@;
                    seen.push(h);
                    out.push(p);
                    assert(string_views(seen@) =~= handles(o).push(p.handle@));
                    assert(handles(out@) =~= handles(o).push(p.handle@));
                },
            }
            taken += 1;
        }
        assert(ps.take(ps.len() as int) =~= ps);
        out
    }

    /// The profiles ranked by relevance to `query` (lower-cased): stably sorted by decreasing
    /// score (see `score_of`).
    pub fn rank_by_relevance(profiles: Vec<ProfileViewBasic>, query: &str) -> (r: Vec<ProfileViewBasic>)
        ensures
            r@ == ranked(profiles@, lowercase(query@)),
    {
        let q = to_lowercase(query);
        let ghost ps = profiles@;
        let mut items: Vec<(u32, ProfileViewBasic)> = Vec::new();
        let mut src = profiles;
        let mut taken: usize = 0;
        let n = src.len();
        assert(src@ =~= ps.skip(0));
        assert(items@ =~= scored(ps, q@).take(0));
        while src.len() > 0
            invariant
                taken + src@.len() == ps.len(),
                ps.len() == n,
                src@ == ps.skip(taken as int),
                items@ == scored(ps, q@).take(taken as int),
            decreases src.len(),
        {
            let p = src.remove(0);
            assert(p == ps[taken as int]);
            assert(src@ =~= ps.skip(taken + 1));
            let name: Option<&str> = match &p.display_name {
                Some(x) => Some(x.as_str()),
                None => None,
            };
            let s = Self::calculate_score(p.handle.as_str(), name, q.as_str());
            let ghost before = items@;
            items.push((s, p));
            assert(items@ =~= scored(ps, q@).take(taken + 1));
            taken += 1;
        }
        assert(scored(ps, q@).take(ps.len() as int) =~= scored(ps, q@));
        let sorted = rank_scored(items);
        let mut out: Vec<ProfileViewBasic> = Vec::new();
        let mut rest = sorted;
        let ghost all = rest@;
        let mut k: usize = 0;
        let m = rest.len();
        assert(rest@ =~= all.skip(0));
        assert(out@ =~= all.take(0).map_values(|x: (u32, ProfileViewBasic)| x.1));
        while rest.len() > 0
            invariant
                k + rest@.len() == all.len(),
                all.len() == m,
                rest@ == all.skip(k as int),
                out@ == all.take(k as int).map_values(|x: (u32, ProfileViewBasic)| x.1),
            decreases rest.len(),
        {
            let x = rest.remove(0);
            assert(x == all[k as int]);
            assert(rest@ =~= all.skip(k + 1));
            out.push(x.1);
            assert(out@ =~= all.take(k + 1).map_values(|x: (u32, ProfileViewBasic)| x.1));
            k += 1;
        }
        assert(all.take(all.len() as int) =~= all);
        out
    }

    /// The relevance of a handle and display name to a query (already lower-cased): the
    /// handle and display name are lower-cased and scored (see `score_from_lowered`).
    pub fn calculate_score(handle: &str, display_name: Option<&str>, query: &str) -> (r: u32)
        ensures
            r == handle_score(lowercase(handle@), query@) + name_score(
                match display_name {
                    Some(n) => Some(lowercase(n@)),
                    None => None,
                },
                query@,
            ),
    {
        let h = to_lowercase(handle);
        let n: Option<String> = match display_name {
            Some(x) => Some(to_lowercase(x)),
            None => None,
        };
        let nr: Option<&str> = match &n {
            Some(x) => Some(x.as_str()),
            None => None,
        };
        score_from_lowered(h.as_str(), nr, query)
    }
}

/// The handles of the profiles.
pub open spec fn handles(s: Seq<ProfileViewBasic>) -> Seq<Seq<char>> {
    s.map_values(|p: ProfileViewBasic| p.handle@)
}

/// The profiles whose handle did not occur before them, in order.
pub open spec fn dedup_by_handle(s: Seq<ProfileViewBasic>) -> Seq<ProfileViewBasic>
    decreases s.len(),
{
    if s.len() == 0 {
        s
    } else {
        let d = dedup_by_handle(s.drop_last());
        if handles(s.drop_last()).contains(s.last().handle@) {
            d
        } else {
            d.push(s.last())
        }
    }
}

proof fn lemma_push_to_set(s: Seq<Seq<char>>, x: Seq<char>)
    ensures
        s.push(x).to_set() == s.to_set().insert(x),
        s.no_duplicates() && !s.contains(x) ==> s.push(x).no_duplicates(),
{
    let t = s.push(x);
    assert forall|y: Seq<char>| t.contains(y) <==> (s.contains(y) || y == x) by {
        if t.contains(y) {
            let i = choose|i: int| 0 <= i < t.len() && t[i] == y;
            if i < s.len() {
                assert(s[i] == y);
            }
        }
        if s.contains(y) {
            let i = choose|i: int| 0 <= i < s.len() && s[i] == y;
            assert(t[i] == y);
        }
        if y == x {
            assert(t[s.len() as int] == x);
        }
    }
    assert(t.to_set() =~= s.to_set().insert(x));
    if s.no_duplicates() && !s.contains(x) {
        assert forall|i: int, j: int| 0 <= i < t.len() && 0 <= j < t.len() && i != j implies t[i] != t[j] by {
            if i == s.len() {
                assert(s[j] == t[j]);
            } else if j == s.len() {
                assert(s[i] == t[i]);
            } else {
                assert(s[i] == t[i] && s[j] == t[j]);
            }
        }
    }
}

/// Deduplicated profiles have the same set of handles as the input, each once.
pub proof fn lemma_dedup_handles(s: Seq<ProfileViewBasic>)
    ensures
        handles(dedup_by_handle(s)).to_set() == handles(s).to_set(),
        handles(dedup_by_handle(s)).no_duplicates(),
    decreases s.len(),
{
    if s.len() == 0 {
        assert(handles(dedup_by_handle(s)) =~= Seq::<Seq<char>>::empty());
    } else {
        let d = s.drop_last();
        lemma_dedup_handles(d);
        let h = s.last().handle@;
        assert(handles(s) =~= handles(d).push(h));
        lemma_push_to_set(handles(d), h);
        let r = dedup_by_handle(d);
        if !handles(d).contains(h) {
            assert(handles(r.push(s.last())) =~= handles(r).push(h));
            assert(!handles(r).contains(h)) by {
                if handles(r).contains(h) {
                    assert(handles(r).to_set().contains(h));
                    assert(handles(d).to_set().contains(h));
                }
            }
            lemma_push_to_set(handles(r), h);
        } else {
            assert(handles(d).to_set().contains(h));
            assert(handles(d).to_set().insert(h) =~= handles(d).to_set());
        }
    }
}

/// Deduplicating keeps one profile for each handle: the handles left are those of the input,
/// each once.
pub proof fn law_dedup_one_per_handle(s: Seq<ProfileViewBasic>)
    ensures
        handles(dedup_by_handle(s)).to_set() == handles(s).to_set(),
        handles(dedup_by_handle(s)).no_duplicates(),
{
    lemma_dedup_handles(s);
}

/// The score of a lower-cased handle and display name against a query (see `handle_score`
/// and `name_score`).
pub fn score_from_lowered(handle: &str, name: Option<&str>, query: &str) -> (r: u32)
    ensures
        r == handle_score(handle@, query@) + name_score(
            match name {
                Some(n) => Some(n@),
                None => None,
            },
            query@,
        ),
{
    let q = chars_of(query);
    let h = chars_of(handle);
    let hs: u32 = if str_eq(handle, query) {
        1000
    } else if starts_with_exec(h.as_slice(), q.as_slice()) {
        500
    } else if contains(h.as_slice(), q.as_slice()) {
        100
    } else {
        0
    };
    let ns: u32 = match name {
        Some(x) => {
            let xc = chars_of(x);
            if str_eq(x, query) {
                800
            } else if starts_with_exec(xc.as_slice(), q.as_slice()) {
                400
            } else if contains(xc.as_slice(), q.as_slice()) {
                50
            } else {
                0
            }
        },
        None => 0,
    };
    hs + ns
}

/// Scored profiles stably sorted by decreasing score (see `sort_desc`).
pub fn rank_scored(items: Vec<(u32, ProfileViewBasic)>) -> (r: Vec<(u32, ProfileViewBasic)>)
    ensures
        r@ == sort_desc(items@),
{
    let ghost all = items@;
    let mut src = items;
    let mut out: Vec<(u32, ProfileViewBasic)> = Vec::new();
    let mut taken: usize = 0;
    let n = src.len();
    assert(out@ =~= sort_desc(all.take(0)));
    assert(src@ =~= all.skip(0));
    while src.len() > 0
        invariant
            taken + src@.len() == all.len(),
            all.len() == n,
            src@ == all.skip(taken as int),
            out@ == sort_desc(all.take(taken as int)),
        decreases src.len(),
    {
        let x = src.remove(0);
        assert(x == all[taken as int]);
        assert(src@ =~= all.skip(taken + 1));
        let mut j: usize = out.len();
        while j > 0 && out[j - 1].0 < x.0
            invariant
                j <= out@.len(),
                forall|k: int| j <= k < out@.len() ==> #[trigger] out@[k].0 < x.0,
            decreases j,
        {
            j -= 1;
        }
        proof {
            lemma_insert_desc_at(out@, x, j as int);
            assert(all.take(taken + 1).drop_last() =~= all.take(taken as int));
            assert(all.take(taken + 1).last() == all[taken as int]);
        }
        out.insert(j, x);
        taken += 1;
    }
    assert(all.take(all.len() as int) =~= all);
    out
}

/// Post search result ordering.
#[derive(Debug, Clone, Copy, PartialEq, Eq)]
pub enum PostSearchSort {
    /// Top (most relevant) posts first
    Top,
    /// Latest posts first
    Latest,
}

impl Default for PostSearchSort {
    fn default() -> (r: Self)
        ensures
            r == PostSearchSort::Top,
    {
        PostSearchSort::Top
    }
}

impl PostSearchSort {
    /// The API name of the ordering.
    pub fn as_str(&self) -> (r: &'static str)
        ensures
            r@ == (match self {
                PostSearchSort::Top => "top"@,
                PostSearchSort::Latest => "latest"@,
            }),
    {
        match self {
            PostSearchSort::Top => "top",
            PostSearchSort::Latest => "latest",
        }
    }
}

/// Parameters of a post search.
#[derive(Debug, Clone)]
pub struct PostSearchParams {
    /// Search query (may hold `from:handle`)
    pub query: String,
    /// Pagination cursor
    pub cursor: Option<String>,
    /// Maximum number of results
    pub limit: u32,
    /// Result ordering
    pub sort: PostSearchSort,
}

impl Default for PostSearchParams {
    fn default() -> (r: Self)
        ensures
            r.query@ == Seq::<char>::empty(),
            r.cursor is None,
            r.limit == 25,
            r.sort == PostSearchSort::Top,
    {
        PostSearchParams { query: String::new(), cursor: None, limit: 25, sort: PostSearchSort::Top }
    }
}

/// The word after the first `from:` in a query, if there is one.
pub open spec fn user_filter_of(q: Seq<char>) -> Option<Seq<char>> {
    if !occurs(q, "from:"@) {
        None
    } else {
        let w = first_word(q.skip(crate::text::find_spec(q, "from:"@) + 5));
        if w.len() > 0 {
            Some(w)
        } else {
            None
        }
    }
}

impl PostSearchParams {
    /// A search for `query` with the default limit and ordering.
    pub fn new(query: &str) -> (r: Self)
        ensures
            r.query@ == query@,
            r.cursor is None,
            r.limit == 25,
            r.sort == PostSearchSort::Top,
    {
        PostSearchParams { query: owned(query), cursor: None, limit: 25, sort: PostSearchSort::Top }
    }

    /// The same search with another ordering.
    pub fn with_sort(self, sort: PostSearchSort) -> (r: Self)
        ensures
            r.sort == sort,
            r.query == self.query,
            r.cursor == self.cursor,
            r.limit == self.limit,
    {
        let mut s = self;
        s.sort = sort;
        s
    }

    /// The same search with another limit.
    pub fn with_limit(self, limit: u32) -> (r: Self)
        ensures
            r.limit == limit,
            r.query == self.query,
            r.cursor == self.cursor,
            r.sort == self.sort,
    {
        let mut s = self;
        s.limit = limit;
        s
    }

    /// The same search with another cursor.
    pub fn with_cursor(self, cursor: Option<String>) -> (r: Self)
        ensures
            r.cursor == cursor,
            r.query == self.query,
            r.limit == self.limit,
            r.sort == self.sort,
    {
        let mut s = self;
        s.cursor = cursor;
        s
    }

    /// Whether the query holds `from:`.
    pub fn has_user_filter(&self) -> (r: bool)
        ensures
            r == occurs(self.query@, "from:"@),
    {
        let q = chars_of(self.query.as_str());
        let p = chars_of("from:");
        contains(q.as_slice(), p.as_slice())
    }

    /// The handle after the first `from:` (its first whitespace-separated word), if any.
    pub fn extract_user_filter(&self) -> (r: Option<String>)
        ensures
            match user_filter_of(self.query@) {
                Some(w) => r matches Some(x) && x@ == w,
                None => r is None,
            },
    {
        let q = chars_of(self.query.as_str());
        let p = chars_of("from:");
        proof {
            reveal_strlit("from:");
        }
        match find(q.as_slice(), p.as_slice()) {
            None => None,
            Some(i) => {
                assert(matches_at(q@, p@, i as int));
                assert(q@.len() == q.len());
                let after = skip_exec(q.as_slice(), i + 5);
                let w = first_word_exec(after.as_slice());
                if w.len() > 0 {
                    Some(string_of(w.as_slice()))
                } else {
                    None
                }
            },
        }
    }
}

/// The first whitespace-separated word of `s`.
fn first_word_exec(s: &[char]) -> (r: Vec<char>)
    ensures
        r@ == first_word(s@),
{
    let a = trim_start_index(s);
    let t = skip_exec(s, a);
    let mut j: usize = 0;
    while j < t.len() && !is_ws_exec(t[j])
        invariant
            j <= t@.len(),
            word_end(t@, 0) == word_end(t@, j as int),
        decreases t@.len() - j,
    {
        j += 1;
    }
    crate::text::take_exec(t.as_slice(), j)
}

/// The query of a search restricted to posts by `handle`.
pub fn user_search_query(handle: &str, query: &str) -> (r: String)
    ensures
        r@ == "from:"@ + handle@ + " "@ + query@,
{
    let mut r = concat2("from:", handle);
    r.append(" ");
    r.append(query);
    r
}


/// What to do next while collecting search results page by page.
#[derive(Debug, Clone, PartialEq, Eq)]
pub enum PagerStep {
    /// Fetch the page at this cursor
    Fetch(String),
    /// Stop; keep at most the wanted number of results
    Stop,
}

/// The step after a page of results was fetched, `held` results being held with it: stop on
/// an empty page, at the last page, or once `max_results` are held; else fetch the next page.
pub fn pager_step(held: usize, max_results: usize, page_was_empty: bool, cursor: Option<String>) -> (r: PagerStep)
    ensures
        page_was_empty ==> r == PagerStep::Stop,
        !page_was_empty && cursor is None ==> r == PagerStep::Stop,
        !page_was_empty && cursor is Some && held >= max_results ==> r == PagerStep::Stop,
        !page_was_empty && cursor is Some && held < max_results ==> r == PagerStep::Fetch(cursor.unwrap()),
{
    if page_was_empty {
        return PagerStep::Stop;
    }
    match cursor {
        Some(c) => if held < max_results {
            PagerStep::Fetch(c)
        } else {
            PagerStep::Stop
        },
        None => PagerStep::Stop,
    }
}


/// A page of accounts found by a search.
#[derive(Debug, Clone)]
pub struct ActorSearchResponse {
    /// The accounts
    pub actors: Vec<crate::profiles::ProfileView>,
    /// Cursor of the next page
    pub cursor: Option<String>,
}

/// Accounts found while typing.
#[derive(Debug, Clone)]
pub struct ActorTypeaheadResponse {
    /// The accounts
    pub actors: Vec<ProfileViewBasic>,
}

/// A page of posts found by a search.
#[derive(Debug, Clone)]
pub struct PostSearchResponse {
    /// The posts
    pub posts: Vec<crate::feeds::PostView>,
    /// Cursor of the next page
    pub cursor: Option<String>,
    /// Total number of hits
    pub hits_total: Option<u32>,
}

} // verus!
