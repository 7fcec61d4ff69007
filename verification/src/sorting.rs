//! Stable sorting of items by keys compared lexicographically (as strings are compared).
use vstd::prelude::*;

verus! {

/// `a` comes before or with `b` in lexicographic order (a proper prefix comes first).
pub open spec fn lex_le(a: Seq<i128>, b: Seq<i128>) -> bool
    decreases a.len(),
{
    if a.len() == 0 {
        true
    } else if b.len() == 0 {
        false
    } else if a[0] != b[0] {
        a[0] < b[0]
    } else {
        lex_le(a.drop_first(), b.drop_first())
    }
}

/// Whether `a` comes before or with `b` in lexicographic order.
pub fn lex_le_exec(a: &[i128], b: &[i128]) -> (r: bool)
    ensures
        r == lex_le(a@, b@),
{
    let mut i: usize = 0;
    assert(a@.skip(0) =~= a@);
    assert(b@.skip(0) =~= b@);
    while i < a.len() && i < b.len() && a[i] == b[i]
        invariant
            i <= a@.len(),
            i <= b@.len(),
            lex_le(a@, b@) == lex_le(a@.skip(i as int), b@.skip(i as int)),
        decreases a@.len() - i,
    {
        assert(a@.skip(i as int).drop_first() =~= a@.skip(i + 1));
        assert(b@.skip(i as int).drop_first() =~= b@.skip(i + 1));
        i += 1;
    }
    if i == a.len() {
        true
    } else if i == b.len() {
        false
    } else {
        a[i] < b[i]
    }
}

/// `s` with `x` placed after every element whose key comes before or with `x`'s, counting from
/// the end (one step of a stable insertion sort).
pub open spec fn insert_by_key<T>(s: Seq<(Seq<i128>, T)>, x: (Seq<i128>, T)) -> Seq<(Seq<i128>, T)>
    decreases s.len(),
{
    if s.len() == 0 || lex_le(s.last().0, x.0) {
        s.push(x)
    } else {
        insert_by_key(s.drop_last(), x).push(s.last())
    }
}

/// `s` stably sorted by key.
pub open spec fn sort_by_key<T>(s: Seq<(Seq<i128>, T)>) -> Seq<(Seq<i128>, T)>
    decreases s.len(),
{
    if s.len() == 0 {
        s
    } else {
        insert_by_key(sort_by_key(s.drop_last()), s.last())
    }
}

proof fn lemma_insert_by_key_at<T>(s: Seq<(Seq<i128>, T)>, x: (Seq<i128>, T), j: int)
    requires
        0 <= j <= s.len(),
        j == 0 || lex_le(s[j - 1].0, x.0),
        forall|k: int| j <= k < s.len() ==> !lex_le(#[trigger] s[k].0, x.0),
    ensures
        insert_by_key(s, x) == s.insert(j, x),
    decreases s.len() - j,
{
    if j == s.len() {
        assert(s.insert(j, x) =~= s.push(x));
    } else {
        let d = s.drop_last();
        assert forall|k: int| j <= k < d.len() implies !lex_le(#[trigger] d[k].0, x.0) by {
            assert(d[k] == s[k]);
        }
        if j > 0 {
            assert(d[j - 1] == s[j - 1]);
        }
        lemma_insert_by_key_at(d, x, j);
        assert(d.insert(j, x).push(s.last()) =~= s.insert(j, x));
    }
}

proof fn lemma_insert_by_key_values<T>(s: Seq<(Seq<i128>, T)>, x: (Seq<i128>, T))
    ensures
        values_of(insert_by_key(s, x)).to_multiset() == values_of(s).to_multiset().insert(x.1),
    decreases s.len(),
{
    broadcast use vstd::seq_lib::to_multiset_build;

    if s.len() == 0 || lex_le(s.last().0, x.0) {
        assert(values_of(s.push(x)) =~= values_of(s).push(x.1));
    } else {
        let d = s.drop_last();
        lemma_insert_by_key_values(d, x);
        assert(values_of(insert_by_key(d, x).push(s.last())) =~= values_of(insert_by_key(d, x)).push(
            s.last().1,
        ));
        assert(values_of(s) =~= values_of(d).push(s.last().1));
        assert(values_of(d).to_multiset().insert(x.1).insert(s.last().1) =~= values_of(
            d,
        ).to_multiset().insert(s.last().1).insert(x.1));
    }
}

/// Sorting by key keeps every item, as often as it occurred.
pub proof fn lemma_sort_by_key_perm<T>(s: Seq<(Seq<i128>, T)>)
    ensures
        values_of(sort_by_key(s)).to_multiset() == values_of(s).to_multiset(),
    decreases s.len(),
{
    broadcast use vstd::seq_lib::to_multiset_build;

    if s.len() > 0 {
        let d = s.drop_last();
        lemma_sort_by_key_perm(d);
        lemma_insert_by_key_values(sort_by_key(d), s.last());
        assert(values_of(s) =~= values_of(d).push(s.last().1));
    }
}

/// The items stably sorted by their keys (see `sort_by_key`).
pub fn sort_by_keys<T>(items: Vec<(Vec<i128>, T)>) -> (r: Vec<(Vec<i128>, T)>)
    ensures
        key_views(r@) == sort_by_key(key_views(items@)),
{
    let ghost all = key_views(items@);
    let mut src = items;
    let mut out: Vec<(Vec<i128>, T)> = Vec::new();
    let mut taken: usize = 0;
    let n = src.len();
    assert(key_views(out@) =~= sort_by_key(all.take(0)));
    assert(key_views(src@) =~= all.skip(0));
    while src.len() > 0
        invariant
            taken + src@.len() == all.len(),
            all.len() == n,
            key_views(src@) == all.skip(taken as int),
            key_views(out@) == sort_by_key(all.take(taken as int)),
        decreases src.len(),
    {
        let ghost before = src@;
        let x = src.remove(0);
        let ghost xv = (x.0@, x.1);
        proof {
            assert(xv == key_views(before)[0]);
            assert(xv == all[taken as int]);
            assert(key_views(src@) =~= key_views(before).skip(1));
            assert(all.skip(taken as int).skip(1) =~= all.skip(taken + 1));
        }
        let mut j: usize = out.len();
        while j > 0 && !lex_le_exec(out[j - 1].0.as_slice(), x.0.as_slice())
            invariant
                j <= out@.len(),
                xv.0 == x.0@,
                forall|k: int| j <= k < out@.len() ==> !lex_le(#[trigger] key_views(out@)[k].0, xv.0),
            decreases j,
        {
            assert(key_views(out@)[j - 1].0 == out@[j - 1].0@);
            j -= 1;
        }
        let ghost ov = key_views(out@);
        proof {
            if j > 0 {
                assert(ov[j - 1].0 == out@[j - 1].0@);
            }
            lemma_insert_by_key_at(ov, xv, j as int);
            assert(all.take(taken + 1).drop_last() =~= all.take(taken as int));
            assert(all.take(taken + 1).last() == all[taken as int]);
        }
        out.insert(j, x);
        assert(key_views(out@) =~= ov.insert(j as int, xv));
        taken += 1;
    }
    assert(all.take(all.len() as int) =~= all);
    out
}

/// The keys seen as sequences.
pub open spec fn key_views<T>(s: Seq<(Vec<i128>, T)>) -> Seq<(Seq<i128>, T)> {
    s.map_values(|e: (Vec<i128>, T)| (e.0@, e.1))
}

/// The character codes of a string, as a sorting key (strings then sort as `str` does).
pub open spec fn char_codes(s: Seq<char>) -> Seq<i128> {
    s.map_values(|c: char| (c as u32) as i128)
}

/// The character codes of `s`.
pub fn char_codes_exec(s: &str) -> (r: Vec<i128>)
    ensures
        r@ == char_codes(s@),
{
    let cs = crate::text::chars_of(s);
    let mut r: Vec<i128> = Vec::new();
    let mut i: usize = 0;
    while i < cs.len()
        invariant
            i <= cs@.len(),
            cs@ == s@,
            r@ == char_codes(cs@.take(i as int)),
        decreases cs@.len() - i,
    {
        let code: u32 = cs[i] as u32;
        r.push(code as i128);
        assert(char_codes(cs@.take(i + 1)) =~= char_codes(cs@.take(i as int)).push(code as i128));
        i += 1;
    }
    assert(cs@.take(cs@.len() as int) =~= cs@);
    r
}

/// The items of a keyed sequence, keys dropped.
pub open spec fn values_of<T>(s: Seq<(Seq<i128>, T)>) -> Seq<T> {
    s.map_values(|e: (Seq<i128>, T)| e.1)
}

/// The items of keyed pairs, keys dropped, in order.
pub fn drop_keys<T>(items: Vec<(Vec<i128>, T)>) -> (r: Vec<T>)
    ensures
        r@ == values_of(key_views(items@)),
{
    let ghost all = key_views(items@);
    let mut src = items;
    let mut out: Vec<T> = Vec::new();
    let mut k: usize = 0;
    let n = src.len();
    assert(key_views(src@) =~= all.skip(0));
    assert(out@ =~= values_of(all.take(0)));
    while src.len() > 0
        invariant
            k + src@.len() == all.len(),
            all.len() == n,
            key_views(src@) == all.skip(k as int),
            out@ == values_of(all.take(k as int)),
        decreases src.len(),
    {
        let ghost before = src@;
        let x = src.remove(0);
        proof {
            assert((x.0@, x.1) == key_views(before)[0]);
            assert(key_views(src@) =~= key_views(before).skip(1));
            assert(all.skip(k as int).skip(1) =~= all.skip(k + 1));
        }
        out.push(x.1);
        assert(out@ =~= values_of(all.take(k + 1)));
        k += 1;
    }
    assert(all.take(all.len() as int) =~= all);
    out
}


/// `s` is in order of its keys.
pub open spec fn sorted_by_key<T>(s: Seq<(Seq<i128>, T)>) -> bool {
    forall|i: int, j: int| 0 <= i < j < s.len() ==> lex_le(#[trigger] s[i].0, #[trigger] s[j].0)
}

/// Any two keys are ordered one way or the other.
pub proof fn lemma_lex_total(a: Seq<i128>, b: Seq<i128>)
    ensures
        lex_le(a, b) || lex_le(b, a),
    decreases a.len(),
{
    if a.len() > 0 && b.len() > 0 && a[0] == b[0] {
        lemma_lex_total(a.drop_first(), b.drop_first());
    }
}

/// The order of keys is transitive.
pub proof fn lemma_lex_trans(a: Seq<i128>, b: Seq<i128>, c: Seq<i128>)
    requires
        lex_le(a, b),
        lex_le(b, c),
    ensures
        lex_le(a, c),
    decreases a.len(),
{
    if a.len() > 0 && a[0] == b[0] && b[0] == c[0] {
        lemma_lex_trans(a.drop_first(), b.drop_first(), c.drop_first());
    }
}

proof fn lemma_insert_by_key_keys<T>(s: Seq<(Seq<i128>, T)>, x: (Seq<i128>, T), bound: Seq<i128>)
    requires
        forall|k: int| 0 <= k < s.len() ==> lex_le(#[trigger] s[k].0, bound),
        lex_le(x.0, bound),
    ensures
        forall|k: int| 0 <= k < insert_by_key(s, x).len() ==> lex_le(#[trigger] insert_by_key(s, x)[k].0, bound),
        insert_by_key(s, x).len() == s.len() + 1,
    decreases s.len(),
{
    if s.len() == 0 || lex_le(s.last().0, x.0) {
    } else {
        let d = s.drop_last();
        assert forall|k: int| 0 <= k < d.len() implies lex_le(#[trigger] d[k].0, bound) by {
            assert(d[k] == s[k]);
        }
        lemma_insert_by_key_keys(d, x, bound);
        let r = insert_by_key(d, x);
        assert forall|k: int| 0 <= k < insert_by_key(s, x).len() implies lex_le(
            #[trigger] insert_by_key(s, x)[k].0,
            bound,
        ) by {
            if k < r.len() {
                assert(insert_by_key(s, x)[k] == r[k]);
            } else {
                assert(insert_by_key(s, x)[k] == s.last());
            }
        }
    }
}

proof fn lemma_insert_by_key_sorted<T>(s: Seq<(Seq<i128>, T)>, x: (Seq<i128>, T))
    requires
        sorted_by_key(s),
    ensures
        sorted_by_key(insert_by_key(s, x)),
    decreases s.len(),
{
    let r = insert_by_key(s, x);
    if s.len() == 0 {
    } else if lex_le(s.last().0, x.0) {
        assert forall|i: int, j: int| 0 <= i < j < r.len() implies lex_le(#[trigger] r[i].0, #[trigger] r[j].0) by {
            if j == s.len() {
                if i < s.len() - 1 {
                    lemma_lex_trans(s[i].0, s.last().0, x.0);
                }
            } else {
                assert(r[i] == s[i] && r[j] == s[j]);
            }
        }
    } else {
        let d = s.drop_last();
        let last = s.last();
        lemma_lex_total(last.0, x.0);
        assert forall|i: int, j: int| 0 <= i < j < d.len() implies lex_le(#[trigger] d[i].0, #[trigger] d[j].0) by {
            assert(d[i] == s[i] && d[j] == s[j]);
        }
        lemma_insert_by_key_sorted(d, x);
        assert forall|k: int| 0 <= k < d.len() implies lex_le(#[trigger] d[k].0, last.0) by {
            assert(d[k] == s[k]);
            assert(s[k] == s[s.len() - 1] || k < s.len() - 1);
        }
        lemma_insert_by_key_keys(d, x, last.0);
        let q = insert_by_key(d, x);
        assert forall|i: int, j: int| 0 <= i < j < r.len() implies lex_le(#[trigger] r[i].0, #[trigger] r[j].0) by {
            assert(r[i] == q[i]);
            if j < q.len() {
                assert(r[j] == q[j]);
            } else {
                assert(r[j] == last);
            }
        }
    }
}

/// Sorting by key leaves the items in order of their keys.
pub proof fn lemma_sort_by_key_sorted<T>(s: Seq<(Seq<i128>, T)>)
    ensures
        sorted_by_key(sort_by_key(s)),
    decreases s.len(),
{
    if s.len() > 0 {
        lemma_sort_by_key_sorted(s.drop_last());
        lemma_insert_by_key_sorted(sort_by_key(s.drop_last()), s.last());
    }
}

proof fn lemma_insert_by_key_from<T>(s: Seq<(Seq<i128>, T)>, x: (Seq<i128>, T))
    ensures
        forall|k: int| 0 <= k < insert_by_key(s, x).len() ==> #[trigger] insert_by_key(s, x)[k] == x || s.contains(
            insert_by_key(s, x)[k],
        ),
    decreases s.len(),
{
    if s.len() == 0 || lex_le(s.last().0, x.0) {
        assert forall|k: int| 0 <= k < insert_by_key(s, x).len() implies #[trigger] insert_by_key(s, x)[k] == x
            || s.contains(insert_by_key(s, x)[k]) by {
            if k < s.len() {
                assert(insert_by_key(s, x)[k] == s[k]);
            }
        }
    } else {
        let d = s.drop_last();
        lemma_insert_by_key_from(d, x);
        let q = insert_by_key(d, x);
        assert forall|k: int| 0 <= k < insert_by_key(s, x).len() implies #[trigger] insert_by_key(s, x)[k] == x
            || s.contains(insert_by_key(s, x)[k]) by {
            if k < q.len() {
                assert(insert_by_key(s, x)[k] == q[k]);
                if q[k] != x {
                    let m = choose|m: int| 0 <= m < d.len() && d[m] == q[k];
                    assert(s[m] == d[m]);
                }
            } else {
                assert(insert_by_key(s, x)[k] == s[s.len() - 1]);
            }
        }
    }
}

/// Every item that sorting gives was among the items sorted.
pub proof fn lemma_sort_by_key_from<T>(s: Seq<(Seq<i128>, T)>)
    ensures
        forall|k: int| 0 <= k < sort_by_key(s).len() ==> s.contains(#[trigger] sort_by_key(s)[k]),
    decreases s.len(),
{
    if s.len() > 0 {
        let d = s.drop_last();
        lemma_sort_by_key_from(d);
        lemma_insert_by_key_from(sort_by_key(d), s.last());
        assert forall|k: int| 0 <= k < sort_by_key(s).len() implies s.contains(#[trigger] sort_by_key(s)[k]) by {
            let e = sort_by_key(s)[k];
            if e == s.last() {
                assert(s[s.len() - 1] == e);
            } else {
                let m = choose|m: int| 0 <= m < sort_by_key(d).len() && sort_by_key(d)[m] == e;
                let m2 = choose|m2: int| 0 <= m2 < d.len() && d[m2] == sort_by_key(d)[m];
                assert(s[m2] == d[m2]);
            }
        }
    }
}

/// The items paired with their keys.
pub open spec fn keyed_by<T>(s: Seq<T>, key: spec_fn(T) -> Seq<i128>) -> Seq<(Seq<i128>, T)> {
    s.map_values(|x: T| (key(x), x))
}

/// Sorting items by a key of each keeps every item, as often as it occurred, and leaves the keys
/// in order.
pub proof fn lemma_sorted_by<T>(s: Seq<T>, key: spec_fn(T) -> Seq<i128>)
    ensures
        values_of(sort_by_key(keyed_by(s, key))).to_multiset() == s.to_multiset(),
        values_of(sort_by_key(keyed_by(s, key))).len() == s.len(),
        forall|i: int, j: int|
            0 <= i < j < s.len() ==> lex_le(
                key(#[trigger] values_of(sort_by_key(keyed_by(s, key)))[i]),
                key(#[trigger] values_of(sort_by_key(keyed_by(s, key)))[j]),
            ),
{
    broadcast use vstd::seq_lib::to_multiset_len;

    let k = keyed_by(s, key);
    let p = sort_by_key(k);
    let r = values_of(p);
    lemma_sort_by_key_perm(k);
    assert(values_of(k) =~= s);
    lemma_sort_by_key_sorted(k);
    lemma_sort_by_key_from(k);
    assert(r.len() == s.len()) by {
        assert(r.to_multiset().len() == s.to_multiset().len());
    }
    assert(p.len() == r.len());
    assert forall|i: int, j: int| 0 <= i < j < s.len() implies lex_le(key(#[trigger] r[i]), key(#[trigger] r[j])) by {
        assert(k.contains(p[i]));
        assert(k.contains(p[j]));
        let a = choose|a: int| 0 <= a < k.len() && k[a] == p[i];
        let b = choose|b: int| 0 <= b < k.len() && k[b] == p[j];
        assert(p[i].0 == key(p[i].1));
        assert(p[j].0 == key(p[j].1));
    }
}

} // verus!
