use vstd::prelude::*;
use crate::torrent::TorrentInfo;

verus! {

broadcast use vstd::seq_lib::group_seq_properties;

/// The orders that the main list can be shown in; each is descending by its key.
#[derive(Clone, Copy, Debug, PartialEq, Eq, Structural)]
pub enum SortKey {
    DateAdded,
    Size,
    Ratio,
    Uploaded,
}

/// A named order of the main list.
#[derive(Clone, Debug)]
pub struct SortFunction {
    pub name: String,
    pub func: SortKey,
}

pub open spec fn key_of(t: TorrentInfo, k: SortKey) -> i64 {
    match k {
        SortKey::DateAdded => t.added_date,
        SortKey::Size => t.size_when_done,
        SortKey::Ratio => t.upload_ratio,
        SortKey::Uploaded => t.uploaded_ever,
    }
}

/// No element has a greater key than one before it.
pub open spec fn sorted_desc(s: Seq<TorrentInfo>, k: SortKey) -> bool {
    forall|i: int, j: int| 0 <= i < j < s.len() ==> key_of(s[j], k) <= key_of(s[i], k)
}

/// The position before which `x` is placed: the first element whose key is
/// below `x`'s, so that `x` comes after every element of equal key.
pub open spec fn insert_pos(x: TorrentInfo, s: Seq<TorrentInfo>, k: SortKey) -> int
    decreases s.len(),
{
    if s.len() == 0 {
        0
    } else if key_of(s[0], k) < key_of(x, k) {
        0
    } else {
        1 + insert_pos(x, s.drop_first(), k)
    }
}

pub open spec fn insert_desc(x: TorrentInfo, s: Seq<TorrentInfo>, k: SortKey) -> Seq<TorrentInfo> {
    s.insert(insert_pos(x, s, k), x)
}

/// Stable insertion sort, descending by key: elements of equal key keep the
/// order they had.
pub open spec fn sort_desc(s: Seq<TorrentInfo>, k: SortKey) -> Seq<TorrentInfo>
    decreases s.len(),
{
    if s.len() == 0 {
        s
    } else {
        insert_desc(s.last(), sort_desc(s.drop_last(), k), k)
    }
}

pub proof fn lemma_insert_pos(x: TorrentInfo, s: Seq<TorrentInfo>, k: SortKey)
    ensures
        0 <= insert_pos(x, s, k) <= s.len(),
        forall|m: int| 0 <= m < insert_pos(x, s, k) ==> key_of(x, k) <= key_of(#[trigger] s[m], k),
        insert_pos(x, s, k) < s.len() ==> key_of(s[insert_pos(x, s, k)], k) < key_of(x, k),
    decreases s.len(),
{
    if s.len() > 0 && key_of(s[0], k) >= key_of(x, k) {
        lemma_insert_pos(x, s.drop_first(), k);
        assert forall|m: int| 0 <= m < insert_pos(x, s, k) implies key_of(x, k) <= key_of(#[trigger] s[m], k) by {
            if m > 0 {
                assert(s[m] == s.drop_first()[m - 1]);
            }
        }
    }
}

pub proof fn lemma_insert_sorted(x: TorrentInfo, s: Seq<TorrentInfo>, k: SortKey)
    requires
        sorted_desc(s, k),
    ensures
        sorted_desc(insert_desc(x, s, k), k),
{
    lemma_insert_pos(x, s, k);
}

pub proof fn lemma_sort_sorted(s: Seq<TorrentInfo>, k: SortKey)
    ensures
        sorted_desc(sort_desc(s, k), k),
    decreases s.len(),
{
    if s.len() > 0 {
        lemma_sort_sorted(s.drop_last(), k);
        lemma_insert_sorted(s.last(), sort_desc(s.drop_last(), k), k);
    }
}

pub proof fn lemma_sort_permutes(s: Seq<TorrentInfo>, k: SortKey)
    ensures
        sort_desc(s, k).to_multiset() == s.to_multiset(),
        sort_desc(s, k).len() == s.len(),
    decreases s.len(),
{
    if s.len() > 0 {
        lemma_sort_permutes(s.drop_last(), k);
        let r = sort_desc(s.drop_last(), k);
        lemma_insert_pos(s.last(), r, k);
        vstd::seq_lib::to_multiset_insert(r, insert_pos(s.last(), r, k), s.last());
        vstd::seq_lib::to_multiset_build(s.drop_last(), s.last());
        assert(s.drop_last().push(s.last()) == s);
    }
}

/// An element no greater than everything before it goes to the end.
pub proof fn lemma_insert_last(x: TorrentInfo, s: Seq<TorrentInfo>, k: SortKey)
    requires
        forall|m: int| 0 <= m < s.len() ==> key_of(x, k) <= key_of(#[trigger] s[m], k),
    ensures
        insert_desc(x, s, k) == s.push(x),
{
    lemma_insert_pos(x, s, k);
    assert(insert_desc(x, s, k) =~= s.push(x));
}

/// Sorting leaves an already sorted sequence as it is.
pub proof fn lemma_sort_sorted_id(s: Seq<TorrentInfo>, k: SortKey)
    requires
        sorted_desc(s, k),
    ensures
        sort_desc(s, k) == s,
    decreases s.len(),
{
    if s.len() > 0 {
        let d = s.drop_last();
        assert(sorted_desc(d, k));
        lemma_sort_sorted_id(d, k);
        assert forall|m: int| 0 <= m < d.len() implies key_of(s.last(), k) <= key_of(#[trigger] d[m], k) by {
            assert(d[m] == s[m]);
        }
        lemma_insert_last(s.last(), d, k);
        assert(d.push(s.last()) =~= s);
    }
}

/// Sorting twice by the same key gives the order of sorting once.
pub proof fn lemma_sort_idempotent(s: Seq<TorrentInfo>, k: SortKey)
    ensures
        sort_desc(sort_desc(s, k), k) == sort_desc(s, k),
{
    lemma_sort_sorted(s, k);
    lemma_sort_sorted_id(sort_desc(s, k), k);
}

/// The key that `k` orders by.
pub fn sort_key(t: &TorrentInfo, k: SortKey) -> (r: i64)
    ensures
        r == key_of(*t, k),
{
    match k {
        SortKey::DateAdded => t.added_date,
        SortKey::Size => t.size_when_done,
        SortKey::Ratio => t.upload_ratio,
        SortKey::Uploaded => t.uploaded_ever,
    }
}

/// Orders `xs` descending by the key, keeping the given order among equal keys.
pub fn sort_torrents(xs: &mut Vec<TorrentInfo>, k: SortKey)
    ensures
        final(xs)@ == sort_desc(old(xs)@, k),
{
    let mut out: Vec<TorrentInfo> = Vec::new();
    let n = xs.len();
    let mut i: usize = 0;
    while i < n
        invariant
            n == xs@.len(),
            i <= n,
            out@ == sort_desc(xs@.subrange(0, i as int), k),
        decreases n - i,
    {
        let x = xs[i].duplicate();
        let kx = sort_key(&x, k);
        let mut j: usize = 0;
        while j < out.len() && sort_key(&out[j], k) >= kx
            invariant
                j <= out@.len(),
                kx == key_of(x, k),
                forall|m: int| 0 <= m < j ==> key_of(x, k) <= key_of(#[trigger] out@[m], k),
            decreases out@.len() - j,
        {
            j = j + 1;
        }
        proof {
            lemma_insert_pos(x, out@, k);
            let p = insert_pos(x, out@, k);
            if (j as int) < p {
                assert(key_of(x, k) <= key_of(out@[j as int], k));
            } else if p < j as int {
                assert(key_of(x, k) <= key_of(out@[p], k));
            }
            assert(xs@.subrange(0, i + 1).drop_last() == xs@.subrange(0, i as int));
        }
        out.insert(j, x);
        i = i + 1;
    }
    assert(xs@.subrange(0, n as int) == xs@);
    *xs = out;
}

} // verus!
