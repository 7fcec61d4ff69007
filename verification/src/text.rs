//! Character-level text helpers shared by the library.
use vstd::prelude::*;

verus! {

/// Appends one character to a `String` (std's `String::push`).
#[verifier::external_body]
pub(crate) fn push_char(s: &mut String, c: char)
    ensures
        final(s)@ == old(s)@.push(c),
{
    s.push(c);
}

/// The characters of `s`, in order.
pub fn chars_of(s: &str) -> (v: Vec<char>)
    ensures
        v@ == s@,
{
    let mut v: Vec<char> = Vec::new();
    for c in it: s.chars()
        invariant
            v@ == it.seq().take(it.index() as int),
            it.seq() == s@,
    {
        v.push(c);
    }
    v
}

/// The string made of the characters of `v`.
pub fn string_of(v: &[char]) -> (s: String)
    ensures
        s@ == v@,
{
    let mut s = String::new();
    let mut i: usize = 0;
    while i < v.len()
        invariant
            i <= v.len(),
            s@ == v@.take(i as int),
        decreases v.len() - i,
    {
        push_char(&mut s, v[i]);
        assert(v@.take(i as int).push(v@[i as int]) =~= v@.take(i + 1));
        i += 1;
    }
    assert(v@.take(v.len() as int) =~= v@);
    s
}

} // verus!

verus! {

/// `p` occurs in `s` starting at index `i`.
pub open spec fn matches_at(s: Seq<char>, p: Seq<char>, i: int) -> bool {
    &&& 0 <= i
    &&& i + p.len() <= s.len()
    &&& forall|k: int| 0 <= k < p.len() ==> #[trigger] s[i + k] == p[k]
}

/// `p` occurs somewhere in `s`.
pub open spec fn occurs(s: Seq<char>, p: Seq<char>) -> bool {
    exists|i: int| matches_at(s, p, i)
}

/// `i` is the first index at or after `from` where `p` occurs in `s`.
pub open spec fn first_match_from(s: Seq<char>, p: Seq<char>, from: int, i: int) -> bool {
    &&& from <= i
    &&& matches_at(s, p, i)
    &&& forall|j: int| from <= j < i ==> !matches_at(s, p, j)
}

/// `p` occurs in `s` at some index at or after `from`.
pub open spec fn occurs_from(s: Seq<char>, p: Seq<char>, from: int) -> bool {
    exists|i: int| from <= i && matches_at(s, p, i)
}

/// Index of the first occurrence of `p` in `s` at or after `from` (meaningful when one exists).
pub open spec fn find_from_spec(s: Seq<char>, p: Seq<char>, from: int) -> int {
    choose|i: int| first_match_from(s, p, from, i)
}

/// Index of the first occurrence of `p` in `s` (meaningful when `occurs(s, p)`).
pub open spec fn find_spec(s: Seq<char>, p: Seq<char>) -> int {
    find_from_spec(s, p, 0)
}

/// `s` begins with `p`.
pub open spec fn starts_with(s: Seq<char>, p: Seq<char>) -> bool {
    matches_at(s, p, 0)
}

/// `s` ends with `p`.
pub open spec fn ends_with(s: Seq<char>, p: Seq<char>) -> bool {
    p.len() <= s.len() && matches_at(s, p, s.len() - p.len())
}

/// The first match at or after `from` is unique.
pub proof fn lemma_first_match_unique(s: Seq<char>, p: Seq<char>, from: int, i: int)
    requires
        first_match_from(s, p, from, i),
    ensures
        find_from_spec(s, p, from) == i,
        occurs_from(s, p, from),
{
    let k = find_from_spec(s, p, from);
    assert(first_match_from(s, p, from, k));
}

/// A first match exists whenever some match exists at or after `from`.
pub proof fn lemma_first_match_exists(s: Seq<char>, p: Seq<char>, from: int)
    requires
        occurs_from(s, p, from),
    ensures
        first_match_from(s, p, from, find_from_spec(s, p, from)),
    decreases s.len() - from,
{
    if matches_at(s, p, from) {
        assert(first_match_from(s, p, from, from));
        lemma_first_match_unique(s, p, from, from);
    } else {
        let w = choose|i: int| from <= i && matches_at(s, p, i);
        assert(from + 1 <= w);
        assert(occurs_from(s, p, from + 1));
        lemma_first_match_exists(s, p, from + 1);
        let k = find_from_spec(s, p, from + 1);
        assert(first_match_from(s, p, from, k));
        lemma_first_match_unique(s, p, from, k);
    }
}

/// Whether `p` occurs in `s` at index `i` (checked character by character).
pub fn matches_at_exec(s: &[char], p: &[char], i: usize) -> (r: bool)
    ensures
        r == matches_at(s@, p@, i as int),
{
    if i > s.len() || p.len() > s.len() - i {
        return false;
    }
    let mut k: usize = 0;
    while k < p.len()
        invariant
            k <= p.len(),
            i + p.len() <= s.len(),
            forall|j: int| 0 <= j < k ==> #[trigger] s@[i + j] == p@[j],
        decreases p.len() - k,
    {
        if s[i + k] != p[k] {
            assert(s@[i + k as int] != p@[k as int]);
            return false;
        }
        k += 1;
    }
    true
}

/// The first index at or after `from` where `p` occurs in `s`.
pub fn find_from(s: &[char], p: &[char], from: usize) -> (r: Option<usize>)
    ensures
        match r {
            Some(i) => first_match_from(s@, p@, from as int, i as int)
                && i == find_from_spec(s@, p@, from as int),
            None => !occurs_from(s@, p@, from as int),
        },
{
    if from > s.len() {
        return None;
    }
    let mut i: usize = from;
    while i < s.len()
        invariant
            from <= i <= s.len(),
            forall|j: int| from <= j < i ==> !matches_at(s@, p@, j),
        decreases s.len() - i,
    {
        if matches_at_exec(s, p, i) {
            proof {
                lemma_first_match_unique(s@, p@, from as int, i as int);
            }
            return Some(i);
        }
        i += 1;
    }
    if matches_at_exec(s, p, i) {
        proof {
            lemma_first_match_unique(s@, p@, from as int, i as int);
        }
        return Some(i);
    }
    proof {
        assert forall|j: int| from <= j implies !matches_at(s@, p@, j) by {
            if j >= i {
                assert(j + p@.len() > s@.len());
            }
        }
    }
    None
}

/// The first index where `p` occurs in `s`.
pub fn find(s: &[char], p: &[char]) -> (r: Option<usize>)
    ensures
        match r {
            Some(i) => first_match_from(s@, p@, 0, i as int) && i == find_spec(s@, p@),
            None => !occurs(s@, p@),
        },
{
    let r = find_from(s, p, 0);
    proof {
        if r.is_none() {
            assert forall|i: int| !matches_at(s@, p@, i) by {
                if matches_at(s@, p@, i) {
                    assert(0 <= i);
                }
            }
        }
    }
    r
}

/// Whether `p` occurs in `s`.
pub fn contains(s: &[char], p: &[char]) -> (r: bool)
    ensures
        r == occurs(s@, p@),
{
    find(s, p).is_some()
}

/// Whether `s` begins with `p`.
pub fn starts_with_exec(s: &[char], p: &[char]) -> (r: bool)
    ensures
        r == starts_with(s@, p@),
{
    matches_at_exec(s, p, 0)
}

/// Whether `s` ends with `p`.
pub fn ends_with_exec(s: &[char], p: &[char]) -> (r: bool)
    ensures
        r == ends_with(s@, p@),
{
    if p.len() > s.len() {
        false
    } else {
        matches_at_exec(s, p, s.len() - p.len())
    }
}

} // verus!

verus! {

/// Unicode `White_Space`, the property that `char::is_whitespace` tests.
pub open spec fn is_ws(c: char) -> bool {
    let u = c as u32;
    ||| 0x09 <= u <= 0x0d
    ||| u == 0x20
    ||| u == 0x85
    ||| u == 0xa0
    ||| u == 0x1680
    ||| 0x2000 <= u <= 0x200a
    ||| u == 0x2028
    ||| u == 0x2029
    ||| u == 0x202f
    ||| u == 0x205f
    ||| u == 0x3000
}

/// Whether `c` is a Unicode whitespace character.
pub fn is_ws_exec(c: char) -> (r: bool)
    ensures
        r == is_ws(c),
{
    let u = c as u32;
    (0x09 <= u && u <= 0x0d) || u == 0x20 || u == 0x85 || u == 0xa0 || u == 0x1680 || (0x2000
        <= u && u <= 0x200a) || u == 0x2028 || u == 0x2029 || u == 0x202f || u == 0x205f || u
        == 0x3000
}

/// Some character of `s` is whitespace.
pub open spec fn has_ws(s: Seq<char>) -> bool {
    exists|i: int| 0 <= i < s.len() && is_ws(#[trigger] s[i])
}

/// Whether some character of `s` is whitespace.
pub fn has_ws_exec(s: &[char]) -> (r: bool)
    ensures
        r == has_ws(s@),
{
    let mut i: usize = 0;
    while i < s.len()
        invariant
            i <= s.len(),
            forall|j: int| 0 <= j < i ==> !is_ws(#[trigger] s@[j]),
        decreases s.len() - i,
    {
        if is_ws_exec(s[i]) {
            return true;
        }
        i += 1;
    }
    false
}

/// `s` without its leading whitespace.
pub open spec fn trim_start(s: Seq<char>) -> Seq<char>
    decreases s.len(),
{
    if s.len() > 0 && is_ws(s[0]) {
        trim_start(s.drop_first())
    } else {
        s
    }
}

/// `s` without its trailing whitespace.
pub open spec fn trim_end(s: Seq<char>) -> Seq<char>
    decreases s.len(),
{
    if s.len() > 0 && is_ws(s.last()) {
        trim_end(s.drop_last())
    } else {
        s
    }
}

/// `s` without leading and trailing whitespace (as `str::trim`).
pub open spec fn trim(s: Seq<char>) -> Seq<char> {
    trim_end(trim_start(s))
}

/// Index of the first non-whitespace character (or the length).
pub fn trim_start_index(s: &[char]) -> (r: usize)
    ensures
        r <= s.len(),
        trim_start(s@) == s@.skip(r as int),
{
    let mut i: usize = 0;
    assert(s@.skip(0) =~= s@);
    while i < s.len() && is_ws_exec(s[i])
        invariant
            i <= s.len(),
            trim_start(s@) == trim_start(s@.skip(i as int)),
        decreases s.len() - i,
    {
        assert(s@.skip(i as int).drop_first() =~= s@.skip(i + 1));
        i += 1;
    }
    proof {
        lemma_trim_start_stop(s@, i as int);
    }
    i
}

proof fn lemma_trim_start_stop(s: Seq<char>, i: int)
    requires
        0 <= i <= s.len(),
        i < s.len() ==> !is_ws(s[i]),
    ensures
        trim_start(s.skip(i)) == s.skip(i),
{
}

/// Index just past the last non-whitespace character at or after `lo` (or `lo`).
pub fn trim_end_index(s: &[char], lo: usize) -> (r: usize)
    requires
        lo <= s.len(),
    ensures
        lo <= r <= s.len(),
        trim_end(s@.subrange(lo as int, s.len() as int)) == s@.subrange(lo as int, r as int),
{
    let mut j: usize = s.len();
    while j > lo && is_ws_exec(s[j - 1])
        invariant
            lo <= j <= s.len(),
            trim_end(s@.subrange(lo as int, s.len() as int)) == trim_end(
                s@.subrange(lo as int, j as int),
            ),
        decreases j,
    {
        assert(s@.subrange(lo as int, j as int).drop_last() =~= s@.subrange(
            lo as int,
            j - 1,
        ));
        j -= 1;
    }
    j
}

/// The characters of `s` with surrounding whitespace removed.
pub fn trim_exec(s: &[char]) -> (r: Vec<char>)
    ensures
        r@ == trim(s@),
{
    let a = trim_start_index(s);
    assert(s@.skip(a as int) =~= s@.subrange(a as int, s.len() as int));
    let b = trim_end_index(s, a);
    let mut r: Vec<char> = Vec::new();
    let mut k: usize = a;
    while k < b
        invariant
            a <= k <= b <= s.len(),
            r@ == s@.subrange(a as int, k as int),
        decreases b - k,
    {
        r.push(s[k]);
        assert(s@.subrange(a as int, k as int).push(s@[k as int]) =~= s@.subrange(
            a as int,
            k + 1,
        ));
        k += 1;
    }
    r
}

/// The part of `s` before its first character that lies in `stops`
/// (the first piece of `str::split` on those characters).
pub open spec fn prefix_until(s: Seq<char>, stops: Seq<char>) -> Seq<char>
    decreases s.len(),
{
    if s.len() == 0 || stops.contains(s[0]) {
        Seq::empty()
    } else {
        seq![s[0]] + prefix_until(s.drop_first(), stops)
    }
}

proof fn lemma_prefix_until_step(s: Seq<char>, stops: Seq<char>, i: int)
    requires
        0 <= i < s.len(),
        !stops.contains(s[i]),
    ensures
        s.take(i) + prefix_until(s.skip(i), stops) == s.take(i + 1) + prefix_until(
            s.skip(i + 1),
            stops,
        ),
{
    assert(s.skip(i).drop_first() =~= s.skip(i + 1));
    assert(s.skip(i)[0] == s[i]);
    assert(s.take(i) + (seq![s[i]] + prefix_until(s.skip(i + 1), stops)) =~= s.take(i + 1)
        + prefix_until(s.skip(i + 1), stops));
}

/// Whether `c` is one of `set`.
pub fn char_in(c: char, set: &[char]) -> (r: bool)
    ensures
        r == set@.contains(c),
{
    let mut i: usize = 0;
    while i < set.len()
        invariant
            i <= set.len(),
            forall|j: int| 0 <= j < i ==> set@[j] != c,
        decreases set.len() - i,
    {
        if set[i] == c {
            assert(set@[i as int] == c);
            return true;
        }
        i += 1;
    }
    false
}

/// The characters of `s[from..]` up to the first one in `stops`.
pub fn prefix_until_exec(s: &[char], from: usize, stops: &[char]) -> (r: Vec<char>)
    requires
        from <= s.len(),
    ensures
        r@ == prefix_until(s@.skip(from as int), stops@),
{
    let ghost t = s@.skip(from as int);
    let mut r: Vec<char> = Vec::new();
    let mut i: usize = from;
    assert(t.take(0) =~= r@);
    assert(t.skip(0) =~= t);
    while i < s.len() && !char_in(s[i], stops)
        invariant
            from <= i <= s.len(),
            t == s@.skip(from as int),
            r@ == t.take(i - from),
            prefix_until(t, stops@) == t.take(i - from) + prefix_until(t.skip(i - from), stops@),
        decreases s.len() - i,
    {
        proof {
            lemma_prefix_until_step(t, stops@, i - from);
        }
        r.push(s[i]);
        assert(t.take(i - from).push(s@[i as int]) =~= t.take(i - from + 1));
        i += 1;
    }
    proof {
        assert(t.take(i - from) + prefix_until(t.skip(i - from), stops@) =~= t.take(i - from));
    }
    r
}

} // verus!

verus! {

/// The ASCII digit for `d` (for `d < 10`).
pub open spec fn digit_char(d: nat) -> char {
    ((d + 48) as u32) as char
}

/// Decimal representation of `n`, as `u64::to_string` writes it.
pub open spec fn decimal(n: nat) -> Seq<char>
    decreases n,
{
    if n < 10 {
        seq![digit_char(n)]
    } else {
        decimal(n / 10).push(digit_char(n % 10))
    }
}

/// The decimal digits of `n`.
pub fn decimal_chars(n: u64) -> (r: Vec<char>)
    ensures
        r@ == decimal(n as nat),
    decreases n,
{
    let d = (n % 10) as u32;
    assert(d < 10);
    let c = char_from_digit(d);
    if n < 10 {
        let mut v: Vec<char> = Vec::new();
        v.push(c);
        assert(v@ =~= seq![digit_char(n as nat)]);
        v
    } else {
        let mut v = decimal_chars(n / 10);
        v.push(c);
        v
    }
}

/// The ASCII digit character for `d`.
fn char_from_digit(d: u32) -> (c: char)
    requires
        d < 10,
    ensures
        c == digit_char(d as nat),
{
    if d == 0 {
        '0'
    } else if d == 1 {
        '1'
    } else if d == 2 {
        '2'
    } else if d == 3 {
        '3'
    } else if d == 4 {
        '4'
    } else if d == 5 {
        '5'
    } else if d == 6 {
        '6'
    } else if d == 7 {
        '7'
    } else if d == 8 {
        '8'
    } else {
        '9'
    }
}

/// `n` written in decimal.
pub fn decimal_string(n: u64) -> (s: String)
    ensures
        s@ == decimal(n as nat),
{
    let v = decimal_chars(n);
    string_of(v.as_slice())
}

/// `c` is an ASCII digit.
pub open spec fn is_digit(c: char) -> bool {
    '0' <= c <= '9'
}

/// The number that the ASCII digits `d` denote.
pub open spec fn digits_value(d: Seq<char>) -> nat
    decreases d.len(),
{
    if d.len() == 0 {
        0
    } else {
        digits_value(d.drop_last()) * 10 + ((d.last() as u32) - 48) as nat
    }
}

/// All characters of `d` are ASCII digits.
pub open spec fn all_digits(d: Seq<char>) -> bool {
    forall|i: int| 0 <= i < d.len() ==> is_digit(#[trigger] d[i])
}

/// What `str::parse::<u32>` gives: an optional `+` then one or more ASCII digits
/// whose value fits in a `u32`.
pub open spec fn parse_u32_spec(s: Seq<char>) -> Option<u32> {
    let d = if s.len() > 0 && s[0] == '+' {
        s.drop_first()
    } else {
        s
    };
    if d.len() > 0 && all_digits(d) && digits_value(d) <= u32::MAX {
        Some(digits_value(d) as u32)
    } else {
        None
    }
}

proof fn lemma_digits_value_monotone(d: Seq<char>, i: int, j: int)
    requires
        0 <= i <= j <= d.len(),
        all_digits(d),
    ensures
        digits_value(d.take(i)) <= digits_value(d.take(j)),
    decreases j - i,
{
    if i < j {
        lemma_digits_value_monotone(d, i, j - 1);
        assert(d.take(j).drop_last() =~= d.take(j - 1));
    }
}

/// Parses `s` as a `u32` the way `str::parse::<u32>` does.
pub fn parse_u32(s: &[char]) -> (r: Option<u32>)
    ensures
        r == parse_u32_spec(s@),
{
    let start: usize = if s.len() > 0 && s[0] == '+' {
        1
    } else {
        0
    };
    let ghost d = if s@.len() > 0 && s@[0] == '+' {
        s@.drop_first()
    } else {
        s@
    };
    assert(d =~= s@.skip(start as int));
    if start >= s.len() {
        assert(d.len() == 0);
        return None;
    }
    let mut acc: u64 = 0;
    let mut i: usize = start;
    assert(d.take(0) =~= Seq::<char>::empty());
    while i < s.len()
        invariant
            start <= i <= s.len(),
            d == s@.skip(start as int),
            d == (if s@.len() > 0 && s@[0] == '+' {
                s@.drop_first()
            } else {
                s@
            }),
            all_digits(d.take(i - start)),
            acc == digits_value(d.take(i - start)),
            acc <= u32::MAX,
        decreases s.len() - i,
    {
        let c = s[i];
        assert(d[i - start] == c);
        if c < '0' || c > '9' {
            proof {
                assert(!is_digit(d[i - start]));
                assert(!all_digits(d));
            }
            return None;
        }
        let v = digit_value(c);
        let next = acc * 10 + v;
        proof {
            lemma_digits_take_step(d, i - start);
        }
        if next > 4294967295 {
            proof {
                lemma_overflow_none(d, i - start + 1);
            }
            return None;
        }
        acc = next;
        i += 1;
    }
    assert(d.take(i - start) =~= d);
    Some(acc as u32)
}

fn digit_value(c: char) -> (v: u64)
    requires
        is_digit(c),
    ensures
        v == ((c as u32) - 48) as nat,
        v < 10,
{
    (c as u32 - 48) as u64
}

proof fn lemma_digits_take_step(d: Seq<char>, k: int)
    requires
        0 <= k < d.len(),
        all_digits(d.take(k)),
        is_digit(d[k]),
    ensures
        all_digits(d.take(k + 1)),
        digits_value(d.take(k + 1)) == digits_value(d.take(k)) * 10 + ((d[k] as u32) - 48) as nat,
{
    assert(d.take(k + 1).drop_last() =~= d.take(k));
    assert forall|j: int| 0 <= j < k + 1 implies is_digit(#[trigger] d.take(k + 1)[j]) by {
        if j < k {
            assert(d.take(k + 1)[j] == d.take(k)[j]);
        }
    }
}

proof fn lemma_overflow_none(d: Seq<char>, k: int)
    requires
        0 < k <= d.len(),
        digits_value(d.take(k)) > u32::MAX,
    ensures
        !(all_digits(d) && digits_value(d) <= u32::MAX),
{
    if all_digits(d) {
        lemma_digits_value_monotone(d, k, d.len() as int);
        assert(d.take(d.len() as int) =~= d);
    }
}

/// The pieces of `s` between occurrences of `sep` (as `str::split` on one character).
pub open spec fn split_char(s: Seq<char>, sep: char) -> Seq<Seq<char>>
    decreases s.len(),
{
    if s.len() == 0 {
        seq![Seq::empty()]
    } else {
        let r = split_char(s.drop_last(), sep);
        if s.last() == sep {
            r.push(Seq::empty())
        } else {
            r.update(r.len() - 1, r.last().push(s.last()))
        }
    }
}

/// The views of a sequence of character vectors.
pub open spec fn views(v: Seq<Vec<char>>) -> Seq<Seq<char>> {
    v.map_values(|x: Vec<char>| x@)
}

pub proof fn lemma_split_char_nonempty(s: Seq<char>, sep: char)
    ensures
        split_char(s, sep).len() >= 1,
    decreases s.len(),
{
    if s.len() > 0 {
        lemma_split_char_nonempty(s.drop_last(), sep);
    }
}

/// The pieces of `s[from..]` between occurrences of `sep`.
pub fn split_char_exec(s: &[char], from: usize, sep: char) -> (r: Vec<Vec<char>>)
    requires
        from <= s.len(),
    ensures
        views(r@) == split_char(s@.skip(from as int), sep),
{
    let ghost t = s@.skip(from as int);
    let mut parts: Vec<Vec<char>> = Vec::new();
    let mut cur: Vec<char> = Vec::new();
    let mut i: usize = from;
    assert(t.take(0) =~= Seq::<char>::empty());
    assert(views(parts@).push(cur@) =~= split_char(t.take(0), sep));
    while i < s.len()
        invariant
            from <= i <= s.len(),
            t == s@.skip(from as int),
            views(parts@).push(cur@) == split_char(t.take(i - from), sep),
        decreases s.len() - i,
    {
        let c = s[i];
        assert(t.take(i - from + 1).drop_last() =~= t.take(i - from));
        assert(t.take(i - from + 1).last() == c);
        proof {
            lemma_split_char_nonempty(t.take(i - from), sep);
        }
        if c == sep {
            let done = cur;
            parts.push(done);
            cur = Vec::new();
            assert(views(parts@).push(cur@) =~= split_char(t.take(i - from), sep).push(
                Seq::empty(),
            ));
        } else {
            cur.push(c);
            let ghost r = split_char(t.take(i - from), sep);
            assert(views(parts@).push(cur@) =~= r.update(r.len() - 1, r.last().push(c)));
        }
        i += 1;
    }
    assert(t.take(i - from) =~= t);
    parts.push(cur);
    assert(views(parts@) =~= split_char(t, sep));
    parts
}

/// `s` lowercased as `str::to_lowercase` does it (Unicode case mapping).
pub uninterp spec fn lowercase(s: Seq<char>) -> Seq<char>;

/// `s` lowercased by std's `str::to_lowercase`; the result is named by `lowercase`.
#[verifier::external_body]
pub(crate) fn to_lowercase(s: &str) -> (r: String)
    ensures
        r@ == lowercase(s@),
{
    s.to_lowercase()
}

/// An owned copy of `s`.
pub fn owned(s: &str) -> (r: String)
    ensures
        r@ == s@,
{
    s.to_owned()
}

/// Whether two strings hold the same characters.
pub fn str_eq(a: &str, b: &str) -> (r: bool)
    ensures
        r == (a@ == b@),
{
    let x = owned(a);
    let y = owned(b);
    x == y
}

/// `a` followed by `b`.
pub fn concat2(a: &str, b: &str) -> (r: String)
    ensures
        r@ == a@ + b@,
{
    let mut s = owned(a);
    s.append(b);
    s
}

/// `a`, `b` and `c` in a row.
pub fn concat3(a: &str, b: &str, c: &str) -> (r: String)
    ensures
        r@ == a@ + b@ + c@,
{
    let mut s = owned(a);
    s.append(b);
    s.append(c);
    s
}

} // verus!

verus! {

/// The views of a sequence of strings.
pub open spec fn string_views(v: Seq<String>) -> Seq<Seq<char>> {
    v.map_values(|x: String| x@)
}

/// `parts` joined with `sep` between neighbours (as `[String]::join`).
pub open spec fn join(parts: Seq<Seq<char>>, sep: Seq<char>) -> Seq<char>
    decreases parts.len(),
{
    if parts.len() == 0 {
        Seq::empty()
    } else if parts.len() == 1 {
        parts[0]
    } else {
        join(parts.drop_last(), sep) + sep + parts.last()
    }
}

/// The strings of `parts` joined with `sep`.
pub fn join_strings(parts: &[String], sep: &str) -> (r: String)
    ensures
        r@ == join(string_views(parts@), sep@),
{
    let mut r = String::new();
    let ghost v = string_views(parts@);
    let mut i: usize = 0;
    assert(v.take(0) =~= Seq::<Seq<char>>::empty());
    while i < parts.len()
        invariant
            i <= parts.len(),
            v == string_views(parts@),
            r@ == join(v.take(i as int), sep@),
        decreases parts.len() - i,
    {
        assert(v.take(i + 1).drop_last() =~= v.take(i as int));
        assert(v.take(i + 1).last() == parts@[i as int]@);
        if i > 0 {
            r.append(sep);
        }
        r.append(parts[i].as_str());
        i += 1;
    }
    assert(v.take(i as int) =~= v);
    r
}

/// The first index of `x` in `v` (compared by characters).
pub fn position_of(v: &[String], x: &str) -> (r: Option<usize>)
    ensures
        match r {
            Some(i) => i < v@.len() && v@[i as int]@ == x@ && string_views(v@)[i as int] == x@
                && string_views(v@).contains(x@) && (forall|j: int|
                0 <= j < i ==> string_views(v@)[j] != x@),
            None => !string_views(v@).contains(x@),
        },
{
    let mut i: usize = 0;
    while i < v.len()
        invariant
            i <= v.len(),
            forall|j: int| 0 <= j < i ==> v@[j]@ != x@,
        decreases v.len() - i,
    {
        if str_eq(v[i].as_str(), x) {
            proof {
                assert(string_views(v@)[i as int] == x@);
                assert forall|j: int| 0 <= j < i implies string_views(v@)[j] != x@ by {
                    assert(string_views(v@)[j] == v@[j]@);
                }
            }
            return Some(i);
        }
        i += 1;
    }
    proof {
        if string_views(v@).contains(x@) {
            let k = choose|k: int| 0 <= k < string_views(v@).len() && string_views(v@)[k] == x@;
            assert(v@[k]@ == x@);
        }
    }
    None
}

} // verus!

verus! {

/// `s` with every leading repetition of `p` removed (as `str::trim_start_matches`).
pub open spec fn strip_all_prefix(s: Seq<char>, p: Seq<char>) -> Seq<char>
    decreases s.len(),
{
    if p.len() > 0 && starts_with(s, p) {
        strip_all_prefix(s.skip(p.len() as int), p)
    } else {
        s
    }
}

/// Index in `s` just past the leading repetitions of `p`.
pub fn strip_all_prefix_index(s: &[char], p: &[char]) -> (r: usize)
    ensures
        r <= s.len(),
        strip_all_prefix(s@, p@) == s@.skip(r as int),
{
    let mut i: usize = 0;
    assert(s@.skip(0) =~= s@);
    if p.len() == 0 {
        return 0;
    }
    while i < s.len() && matches_at_exec(s, p, i)
        invariant
            i <= s.len(),
            p@.len() > 0,
            strip_all_prefix(s@, p@) == strip_all_prefix(s@.skip(i as int), p@),
        decreases s.len() - i,
    {
        proof {
            assert forall|k: int| 0 <= k < p@.len() implies #[trigger] s@.skip(i as int)[0 + k]
                == p@[k] by {
                assert(s@[i + k] == p@[k]);
            }
            assert(starts_with(s@.skip(i as int), p@));
            assert(s@.skip(i as int).skip(p@.len() as int) =~= s@.skip(i + p@.len()));
        }
        i = i + p.len();
    }
    proof {
        if i < s.len() {
            if starts_with(s@.skip(i as int), p@) {
                assert forall|k: int| 0 <= k < p@.len() implies #[trigger] s@[i + k] == p@[k] by {
                    assert(s@.skip(i as int)[0 + k] == p@[k]);
                }
            }
        } else {
            assert(s@.skip(i as int).len() == 0);
        }
    }
    i
}

/// `s` without its leading characters that lie in `set` (as `str::trim_start_matches` with a
/// set of characters).
pub open spec fn trim_start_set(s: Seq<char>, set: Seq<char>) -> Seq<char>
    decreases s.len(),
{
    if s.len() > 0 && set.contains(s[0]) {
        trim_start_set(s.drop_first(), set)
    } else {
        s
    }
}

/// Index of the first character of `s` not in `set` (or the length).
pub fn trim_start_set_index(s: &[char], set: &[char]) -> (r: usize)
    ensures
        r <= s.len(),
        trim_start_set(s@, set@) == s@.skip(r as int),
{
    let mut i: usize = 0;
    assert(s@.skip(0) =~= s@);
    while i < s.len() && char_in(s[i], set)
        invariant
            i <= s.len(),
            trim_start_set(s@, set@) == trim_start_set(s@.skip(i as int), set@),
        decreases s.len() - i,
    {
        assert(s@.skip(i as int).drop_first() =~= s@.skip(i + 1));
        i += 1;
    }
    i
}

/// The `/`-separated pieces of an `at://` URI after its scheme.
pub open spec fn at_uri_parts(uri: Seq<char>) -> Seq<Seq<char>> {
    split_char(strip_all_prefix(uri, "at://"@), '/')
}

/// The `/`-separated pieces of `uri` once leading `at://` prefixes are removed.
pub fn at_uri_parts_exec(uri: &str) -> (r: Vec<Vec<char>>)
    ensures
        views(r@) == at_uri_parts(uri@),
{
    let s = chars_of(uri);
    let p = chars_of("at://");
    let start = strip_all_prefix_index(s.as_slice(), p.as_slice());
    split_char_exec(s.as_slice(), start, '/')
}

} // verus!

verus! {

/// Number of bytes in the UTF-8 encoding of `s` (what `str::len` returns).
pub open spec fn utf8_len(s: Seq<char>) -> nat {
    vstd::utf8::encode_utf8(s).len()
}

/// Number of bytes in the UTF-8 encoding of `c`.
pub open spec fn char_width(c: char) -> nat {
    vstd::utf8::encode_scalar(c as u32).len()
}

/// Encoding one more character appends its bytes.
pub proof fn lemma_utf8_push(s: Seq<char>, c: char)
    ensures
        vstd::utf8::encode_utf8(s.push(c)) == vstd::utf8::encode_utf8(s) + vstd::utf8::encode_scalar(c as u32),
        utf8_len(s.push(c)) == utf8_len(s) + char_width(c),
    decreases s.len(),
{
    if s.len() == 0 {
        assert(s.push(c).drop_first() =~= Seq::<char>::empty());
        assert(vstd::utf8::encode_utf8(s.push(c)) =~= vstd::utf8::encode_scalar(c as u32));
    } else {
        assert(s.push(c).drop_first() =~= s.drop_first().push(c));
        lemma_utf8_push(s.drop_first(), c);
        assert(vstd::utf8::encode_utf8(s.push(c)) =~= vstd::utf8::encode_utf8(s) + vstd::utf8::encode_scalar(c as u32));
    }
}

/// A character takes one to four bytes.
pub proof fn lemma_char_width_bounds(c: char)
    ensures
        1 <= char_width(c) <= 4,
        (c as u32) < 0x80 ==> char_width(c) == 1,
{
}

/// The UTF-8 width of `c`.
pub fn char_width_exec(c: char) -> (r: usize)
    ensures
        r == char_width(c),
        1 <= r <= 4,
{
    let u = c as u32;
    if u <= 0x7f {
        1
    } else if u <= 0x7ff {
        2
    } else if u <= 0xffff {
        3
    } else {
        4
    }
}

/// Byte length of the first `k` characters grows with `k`, by at least one per character.
pub proof fn lemma_utf8_take_monotone(s: Seq<char>, i: int, j: int)
    requires
        0 <= i <= j <= s.len(),
    ensures
        utf8_len(s.take(i)) + (j - i) <= utf8_len(s.take(j)),
    decreases j - i,
{
    if i < j {
        lemma_utf8_take_monotone(s, i, j - 1);
        assert(s.take(j) =~= s.take(j - 1).push(s[j - 1]));
        lemma_utf8_push(s.take(j - 1), s[j - 1]);
        lemma_char_width_bounds(s[j - 1]);
    }
}

/// The encoding of a concatenation is the concatenation of the encodings.
pub proof fn lemma_utf8_concat(a: Seq<char>, b: Seq<char>)
    ensures
        utf8_len(a + b) == utf8_len(a) + utf8_len(b),
    decreases b.len(),
{
    if b.len() == 0 {
        assert(a + b =~= a);
    } else {
        lemma_utf8_concat(a, b.drop_last());
        assert(a + b =~= (a + b.drop_last()).push(b.last()));
        assert(b =~= b.drop_last().push(b.last()));
        lemma_utf8_push(a + b.drop_last(), b.last());
        lemma_utf8_push(b.drop_last(), b.last());
    }
}

/// The bytes of the characters from `i` to `j` are the bytes up to `j` less those up to `i`.
pub proof fn lemma_utf8_subrange(s: Seq<char>, i: int, j: int)
    requires
        0 <= i <= j <= s.len(),
    ensures
        utf8_len(s.subrange(i, j)) == utf8_len(s.take(j)) - utf8_len(s.take(i)),
        utf8_len(s.take(i)) <= utf8_len(s.take(j)) <= utf8_len(s),
{
    assert(s.take(j) =~= s.take(i) + s.subrange(i, j));
    lemma_utf8_concat(s.take(i), s.subrange(i, j));
    assert(s =~= s.take(j) + s.skip(j));
    lemma_utf8_concat(s.take(j), s.skip(j));
}

/// The character index whose prefix takes `b` bytes (meaningful when `b` is a boundary).
pub open spec fn byte_to_char(s: Seq<char>, b: int) -> int {
    choose|k: int| 0 <= k <= s.len() && utf8_len(#[trigger] s.take(k)) == b
}

/// Different prefixes take different numbers of bytes.
pub proof fn lemma_byte_to_char(s: Seq<char>, k: int)
    requires
        0 <= k <= s.len(),
    ensures
        byte_to_char(s, utf8_len(s.take(k)) as int) == k,
        is_boundary(s, utf8_len(s.take(k)) as int),
{
    let b = utf8_len(s.take(k)) as int;
    assert(is_boundary(s, b));
    let k2 = byte_to_char(s, b);
    if k2 < k {
        lemma_utf8_take_monotone(s, k2, k);
    } else if k < k2 {
        lemma_utf8_take_monotone(s, k, k2);
    }
}

/// The boundary `b` is the byte length of the prefix up to `byte_to_char(s, b)`.
pub proof fn lemma_boundary_char(s: Seq<char>, b: int)
    requires
        is_boundary(s, b),
    ensures
        0 <= byte_to_char(s, b) <= s.len(),
        utf8_len(s.take(byte_to_char(s, b))) == b,
        0 <= b <= utf8_len(s),
{
    let k = byte_to_char(s, b);
    lemma_utf8_take_monotone(s, k, s.len() as int);
    assert(s.take(s.len() as int) =~= s);
}

/// The character index of a byte boundary.
pub fn char_index(text: &[char], b: usize) -> (k: usize)
    requires
        is_boundary(text@, b as int),
    ensures
        k <= text@.len(),
        k == byte_to_char(text@, b as int),
        utf8_len(text@.take(k as int)) == b,
{
    let k = chars_before_byte(text, b).unwrap();
    proof {
        lemma_byte_to_char(text@, k as int);
    }
    k
}

/// The UTF-8 length of `s`, summed over its characters.
pub fn utf8_len_exec(s: &[char]) -> (r: usize)
    requires
        utf8_len(s@) <= usize::MAX,
    ensures
        r == utf8_len(s@),
{
    let mut acc: usize = 0;
    let mut i: usize = 0;
    assert(s@.take(0) =~= Seq::<char>::empty());
    while i < s.len()
        invariant
            i <= s.len(),
            acc == utf8_len(s@.take(i as int)),
            utf8_len(s@) <= usize::MAX,
        decreases s.len() - i,
    {
        proof {
            assert(s@.take(i + 1) =~= s@.take(i as int).push(s@[i as int]));
            lemma_utf8_push(s@.take(i as int), s@[i as int]);
            lemma_utf8_take_monotone(s@, i + 1, s@.len() as int);
            assert(s@.take(s@.len() as int) =~= s@);
        }
        acc = acc + char_width_exec(s[i]);
        i += 1;
    }
    assert(s@.take(s@.len() as int) =~= s@);
    acc
}

/// `b` is a character boundary of `s`: the byte length of some prefix of it.
pub open spec fn is_boundary(s: Seq<char>, b: int) -> bool {
    exists|k: int| 0 <= k <= s.len() && utf8_len(#[trigger] s.take(k)) == b
}

/// The number of characters of `s` whose encoding takes exactly `b` bytes, if `b` is a boundary.
pub fn chars_before_byte(s: &[char], b: usize) -> (r: Option<usize>)
    ensures
        match r {
            Some(k) => k <= s.len() && utf8_len(s@.take(k as int)) == b,
            None => !is_boundary(s@, b as int),
        },
{
    let mut i: usize = 0;
    let mut acc: usize = 0;
    assert(s@.take(0) =~= Seq::<char>::empty());
    while i < s.len() && acc < b
        invariant
            i <= s.len(),
            acc == utf8_len(s@.take(i as int)),
            acc <= b,
        decreases s.len() - i,
    {
        let w = char_width_exec(s[i]);
        if w > b - acc {
            proof {
                assert(s@.take(i + 1) =~= s@.take(i as int).push(s@[i as int]));
                lemma_utf8_push(s@.take(i as int), s@[i as int]);
                assert forall|k: int| 0 <= k <= s@.len() implies utf8_len(#[trigger] s@.take(k)) != b by {
                    if k <= i {
                        lemma_utf8_take_monotone(s@, k, i as int);
                        if k < i {
                            lemma_utf8_take_monotone(s@, k, i as int);
                        }
                    } else {
                        lemma_utf8_take_monotone(s@, i + 1, k);
                    }
                    if k == i {
                    } else if k < i {
                        lemma_utf8_take_monotone(s@, k, i as int);
                    }
                }
            }
            return None;
        }
        proof {
            assert(s@.take(i + 1) =~= s@.take(i as int).push(s@[i as int]));
            lemma_utf8_push(s@.take(i as int), s@[i as int]);
        }
        acc = acc + w;
        i += 1;
    }
    if acc == b {
        Some(i)
    } else {
        proof {
            assert(i == s.len());
            assert forall|k: int| 0 <= k <= s@.len() implies utf8_len(#[trigger] s@.take(k)) != b by {
                lemma_utf8_take_monotone(s@, k, i as int);
            }
        }
        None
    }
}

} // verus!

verus! {

/// The part of `s` after the first occurrence of `p` (meaningful when `p` occurs).
pub open spec fn after_first(s: Seq<char>, p: Seq<char>) -> Seq<char> {
    s.skip(find_spec(s, p) + p.len())
}

/// `s` with every trailing `c` removed (as `str::trim_end_matches` with one character).
pub open spec fn trim_end_char(s: Seq<char>, c: char) -> Seq<char>
    decreases s.len(),
{
    if s.len() > 0 && s.last() == c {
        trim_end_char(s.drop_last(), c)
    } else {
        s
    }
}

/// The characters of `s` without trailing `c`s.
pub fn trim_end_char_exec(s: &[char], c: char) -> (r: Vec<char>)
    ensures
        r@ == trim_end_char(s@, c),
{
    let mut j: usize = s.len();
    assert(s@.take(s.len() as int) =~= s@);
    while j > 0 && s[j - 1] == c
        invariant
            j <= s.len(),
            trim_end_char(s@, c) == trim_end_char(s@.take(j as int), c),
        decreases j,
    {
        assert(s@.take(j as int).drop_last() =~= s@.take(j - 1));
        j -= 1;
    }
    let mut r: Vec<char> = Vec::new();
    let mut k: usize = 0;
    while k < j
        invariant
            k <= j <= s.len(),
            r@ == s@.take(k as int),
        decreases j - k,
    {
        r.push(s[k]);
        assert(s@.take(k as int).push(s@[k as int]) =~= s@.take(k + 1));
        k += 1;
    }
    r
}

/// The characters of `s` from index `from` on.
pub fn skip_exec(s: &[char], from: usize) -> (r: Vec<char>)
    requires
        from <= s.len(),
    ensures
        r@ == s@.skip(from as int),
{
    let mut r: Vec<char> = Vec::new();
    let mut k: usize = from;
    while k < s.len()
        invariant
            from <= k <= s.len(),
            r@ == s@.subrange(from as int, k as int),
        decreases s.len() - k,
    {
        r.push(s[k]);
        assert(s@.subrange(from as int, k as int).push(s@[k as int]) =~= s@.subrange(from as int, k + 1));
        k += 1;
    }
    r
}

/// The characters of `s` from index `lo` up to (not including) `hi`.
pub fn subrange_exec(s: &[char], lo: usize, hi: usize) -> (r: Vec<char>)
    requires
        lo <= hi <= s.len(),
    ensures
        r@ == s@.subrange(lo as int, hi as int),
{
    let mut r: Vec<char> = Vec::new();
    let mut k: usize = lo;
    while k < hi
        invariant
            lo <= k <= hi <= s.len(),
            r@ == s@.subrange(lo as int, k as int),
        decreases hi - k,
    {
        r.push(s[k]);
        assert(s@.subrange(lo as int, k as int).push(s@[k as int]) =~= s@.subrange(lo as int, k + 1));
        k += 1;
    }
    r
}

/// The first `n` characters of `s`.
pub fn take_exec(s: &[char], n: usize) -> (r: Vec<char>)
    requires
        n <= s.len(),
    ensures
        r@ == s@.take(n as int),
{
    let mut r: Vec<char> = Vec::new();
    let mut k: usize = 0;
    while k < n
        invariant
            k <= n <= s.len(),
            r@ == s@.take(k as int),
        decreases n - k,
    {
        r.push(s[k]);
        assert(s@.take(k as int).push(s@[k as int]) =~= s@.take(k + 1));
        k += 1;
    }
    r
}

/// The characters of `s` after the first occurrence of `p`, if `p` occurs.
pub fn after_first_exec(s: &[char], p: &[char]) -> (r: Option<Vec<char>>)
    ensures
        match r {
            Some(v) => occurs(s@, p@) && v@ == after_first(s@, p@),
            None => !occurs(s@, p@),
        },
{
    match find(s, p) {
        None => None,
        Some(i) => {
            proof {
                lemma_first_match_unique(s@, p@, 0, i as int);
                assert(matches_at(s@, p@, i as int));
                assert(i + p@.len() <= s@.len());
            }
            assert(p.len() <= s.len() - i);
            Some(skip_exec(s, i + p.len()))
        },
    }
}

} // verus!

verus! {

/// `c` with ASCII upper-case letters mapped to lower case.
pub open spec fn ascii_lower(c: char) -> char {
    if 'A' <= c <= 'Z' {
        ((c as u8) + 32) as u8 as char
    } else {
        c
    }
}

/// `c` lower-cased if it is an ASCII capital.
pub fn ascii_lower_exec(c: char) -> (r: char)
    ensures
        r == ascii_lower(c),
{
    if 'A' <= c && c <= 'Z' {
        let b: u8 = c as u8;
        (b + 32) as char
    } else {
        c
    }
}

/// `p` occurs in `s` at `i`, ignoring ASCII case in `s` (`p` is written in lower case).
pub open spec fn ci_matches_at(s: Seq<char>, p: Seq<char>, i: int) -> bool {
    &&& 0 <= i
    &&& i + p.len() <= s.len()
    &&& forall|k: int| 0 <= k < p.len() ==> ascii_lower(#[trigger] s[i + k]) == p[k]
}

/// `i` is the first index at or after `from` where `p` occurs in `s` ignoring ASCII case.
pub open spec fn ci_first_match_from(s: Seq<char>, p: Seq<char>, from: int, i: int) -> bool {
    &&& from <= i
    &&& ci_matches_at(s, p, i)
    &&& forall|j: int| from <= j < i ==> !ci_matches_at(s, p, j)
}

/// `p` occurs in `s` at or after `from`, ignoring ASCII case.
pub open spec fn ci_occurs_from(s: Seq<char>, p: Seq<char>, from: int) -> bool {
    exists|i: int| from <= i && ci_matches_at(s, p, i)
}

/// The first case-insensitive match of `p` in `s` at or after `from` (meaningful when one exists).
pub open spec fn ci_find_from_spec(s: Seq<char>, p: Seq<char>, from: int) -> int {
    choose|i: int| ci_first_match_from(s, p, from, i)
}

proof fn lemma_ci_first_match_unique(s: Seq<char>, p: Seq<char>, from: int, i: int)
    requires
        ci_first_match_from(s, p, from, i),
    ensures
        ci_find_from_spec(s, p, from) == i,
        ci_occurs_from(s, p, from),
{
    let k = ci_find_from_spec(s, p, from);
    assert(ci_first_match_from(s, p, from, k));
}

/// A first case-insensitive match exists whenever some match exists at or after `from`.
pub proof fn lemma_ci_first_match_exists(s: Seq<char>, p: Seq<char>, from: int)
    requires
        ci_occurs_from(s, p, from),
    ensures
        ci_first_match_from(s, p, from, ci_find_from_spec(s, p, from)),
    decreases s.len() - from,
{
    if ci_matches_at(s, p, from) {
        assert(ci_first_match_from(s, p, from, from));
        lemma_ci_first_match_unique(s, p, from, from);
    } else {
        let w = choose|i: int| from <= i && ci_matches_at(s, p, i);
        assert(from + 1 <= w);
        assert(ci_occurs_from(s, p, from + 1));
        lemma_ci_first_match_exists(s, p, from + 1);
        let k = ci_find_from_spec(s, p, from + 1);
        assert(ci_first_match_from(s, p, from, k));
        lemma_ci_first_match_unique(s, p, from, k);
    }
}

fn ci_matches_at_exec(s: &[char], p: &[char], i: usize) -> (r: bool)
    ensures
        r == ci_matches_at(s@, p@, i as int),
{
    if i > s.len() || p.len() > s.len() - i {
        return false;
    }
    let mut k: usize = 0;
    while k < p.len()
        invariant
            k <= p.len(),
            i + p.len() <= s.len(),
            forall|j: int| 0 <= j < k ==> ascii_lower(#[trigger] s@[i + j]) == p@[j],
        decreases p.len() - k,
    {
        if ascii_lower_exec(s[i + k]) != p[k] {
            assert(ascii_lower(s@[i + k as int]) != p@[k as int]);
            return false;
        }
        k += 1;
    }
    true
}

/// The first index at or after `from` where `p` occurs in `s`, ignoring ASCII case in `s`.
pub fn ci_find_from(s: &[char], p: &[char], from: usize) -> (r: Option<usize>)
    ensures
        match r {
            Some(i) => ci_first_match_from(s@, p@, from as int, i as int)
                && i == ci_find_from_spec(s@, p@, from as int),
            None => !ci_occurs_from(s@, p@, from as int),
        },
{
    if from > s.len() {
        return None;
    }
    let mut i: usize = from;
    while i < s.len()
        invariant
            from <= i <= s.len(),
            forall|j: int| from <= j < i ==> !ci_matches_at(s@, p@, j),
        decreases s.len() - i,
    {
        if ci_matches_at_exec(s, p, i) {
            proof {
                lemma_ci_first_match_unique(s@, p@, from as int, i as int);
            }
            return Some(i);
        }
        i += 1;
    }
    if ci_matches_at_exec(s, p, i) {
        proof {
            lemma_ci_first_match_unique(s@, p@, from as int, i as int);
        }
        return Some(i);
    }
    proof {
        assert forall|j: int| from <= j implies !ci_matches_at(s@, p@, j) by {
            if j >= i {
                assert(j + p@.len() > s@.len());
            }
        }
    }
    None
}

/// `s` with every non-overlapping occurrence of `p` (scanning left to right) replaced by `r`
/// (as `str::replace`, for a non-empty `p`).
pub open spec fn replace_all(s: Seq<char>, p: Seq<char>, r: Seq<char>) -> Seq<char>
    decreases s.len(),
{
    if p.len() == 0 || s.len() == 0 {
        s
    } else if matches_at(s, p, 0) {
        r + replace_all(s.skip(p.len() as int), p, r)
    } else {
        seq![s[0]] + replace_all(s.drop_first(), p, r)
    }
}

/// `s` with each occurrence of `p` replaced by `r`.
pub fn replace_all_exec(s: &[char], p: &[char], r: &[char]) -> (out: Vec<char>)
    requires
        p@.len() > 0,
    ensures
        out@ == replace_all(s@, p@, r@),
{
    let mut out: Vec<char> = Vec::new();
    let mut i: usize = 0;
    assert(s@.skip(0) =~= s@);
    while i < s.len()
        invariant
            i <= s.len(),
            p@.len() > 0,
            out@ + replace_all(s@.skip(i as int), p@, r@) == replace_all(s@, p@, r@),
        decreases s.len() - i,
    {
        let ghost rest = s@.skip(i as int);
        if matches_at_exec(s, p, i) {
            proof {
                assert forall|k: int| 0 <= k < p@.len() implies #[trigger] rest[0 + k] == p@[k] by {
                    assert(rest[0 + k] == s@[i + k]);
                }
                assert(matches_at(rest, p@, 0));
                assert(rest.skip(p@.len() as int) =~= s@.skip(i + p@.len()));
            }
            let mut k: usize = 0;
            let ghost out0 = out@;
            while k < r.len()
                invariant
                    k <= r.len(),
                    out@ == out0 + r@.take(k as int),
                decreases r.len() - k,
            {
                out.push(r[k]);
                assert(r@.take(k as int).push(r@[k as int]) =~= r@.take(k + 1));
                assert(out0 + r@.take(k + 1) =~= (out0 + r@.take(k as int)).push(r@[k as int]));
                k += 1;
            }
            assert(r@.take(r@.len() as int) =~= r@);
            assert(out0 + (r@ + replace_all(s@.skip(i + p@.len()), p@, r@)) =~= out@ + replace_all(
                s@.skip(i + p@.len()),
                p@,
                r@,
            ));
            i = i + p.len();
        } else {
            proof {
                if matches_at(rest, p@, 0) {
                    assert forall|k: int| 0 <= k < p@.len() implies #[trigger] s@[i + k] == p@[k] by {
                        assert(rest[0 + k] == s@[i + k]);
                    }
                }
                assert(rest.drop_first() =~= s@.skip(i + 1));
                assert(rest[0] == s@[i as int]);
            }
            let ghost out0 = out@;
            out.push(s[i]);
            assert(out0 + (seq![s@[i as int]] + replace_all(s@.skip(i + 1), p@, r@)) =~= out@ + replace_all(
                s@.skip(i + 1),
                p@,
                r@,
            ));
            i = i + 1;
        }
    }
    assert(out@ + replace_all(s@.skip(i as int), p@, r@) =~= out@);
    out
}

/// The length of `s` in bytes, that is of its UTF-8 encoding (`str::len`).
pub fn byte_len(s: &str) -> (r: usize)
    ensures
        r == utf8_len(s@),
{
    let b = s.as_bytes();
    b.len()
}

} // verus!

