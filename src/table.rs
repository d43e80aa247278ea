use vstd::prelude::*;
use vstd::multiset::Multiset;
use crate::heap::{
    heap_items, stamp_heap, stamp_into_sorted_vec, stamp_le, stamp_len, stamp_lt, stamp_pop,
    stamp_push, Stamp,
};
use crate::text::{chars_of, contains_chars, has_substring, lower_of, lowercase, same_text};
use crate::torrent::{
    decodes_to, first_bad_cell, merged, row_ok, ParseError, RawField, TorrentInfo, TorrentStatus,
    ROW_ARITY,
};

verus! {

broadcast use vstd::seq_lib::group_seq_properties;

/// How many of the most recently added torrents the `Recent` filter shows.
pub const RECENT_LIMIT: usize = 120;

/// Which torrents the main list shows.
#[derive(Clone, Debug)]
pub enum Filter {
    ByStatus(TorrentStatus),
    ByDirectory(String),
    Recent,
    Active,
    All,
    Search(String),
    Error,
}

/// Whether `t` belongs in the list under filter `f`; `active` holds the ids
/// that the last partial update reported as recently active. `Recent` is not
/// a predicate: its list comes from the bounded most-recent query.
pub open spec fn matches_filter(t: TorrentInfo, f: Filter, active: Seq<i64>) -> bool {
    match f {
        Filter::ByStatus(s) => t.status == s,
        Filter::ByDirectory(d) => t.download_dir@ == d@,
        Filter::Recent => true,
        Filter::Active => active.contains(t.id),
        Filter::All => true,
        Filter::Search(text) => has_substring(lower_of(t.name@), lower_of(text@)),
        Filter::Error => t.error > 0,
    }
}

pub open spec fn keep(f: Filter, active: Seq<i64>) -> spec_fn(TorrentInfo) -> bool {
    |t: TorrentInfo| matches_filter(t, f, active)
}

pub open spec fn ids_unique(s: Seq<TorrentInfo>) -> bool {
    forall|i: int, j: int| 0 <= i < s.len() && 0 <= j < s.len() && i != j ==> s[i].id != s[j].id
}

pub open spec fn has_id(s: Seq<TorrentInfo>, id: i64) -> bool {
    exists|i: int| 0 <= i < s.len() && s[i].id == id
}

pub open spec fn index_of_id(s: Seq<TorrentInfo>, id: i64) -> int {
    choose|i: int| 0 <= i < s.len() && s[i].id == id
}

/// `s` after a report `t`: an entry of the same id is merged with it, else
/// `t` is appended.
pub open spec fn upserted(s: Seq<TorrentInfo>, t: TorrentInfo) -> Seq<TorrentInfo> {
    if has_id(s, t.id) {
        let i = index_of_id(s, t.id);
        s.update(i, merged(s[i], t))
    } else {
        s.push(t)
    }
}

/// `s` after `t` is stored as it is, replacing an entry of the same id.
pub open spec fn placed(s: Seq<TorrentInfo>, t: TorrentInfo) -> Seq<TorrentInfo> {
    if has_id(s, t.id) {
        s.update(index_of_id(s, t.id), t)
    } else {
        s.push(t)
    }
}

pub open spec fn upsert_all(s: Seq<TorrentInfo>, rows: Seq<TorrentInfo>) -> Seq<TorrentInfo>
    decreases rows.len(),
{
    if rows.len() == 0 {
        s
    } else {
        upserted(upsert_all(s, rows.drop_last()), rows.last())
    }
}

pub open spec fn place_all(s: Seq<TorrentInfo>, rows: Seq<TorrentInfo>) -> Seq<TorrentInfo>
    decreases rows.len(),
{
    if rows.len() == 0 {
        s
    } else {
        placed(place_all(s, rows.drop_last()), rows.last())
    }
}

pub open spec fn kept_after(removed: Seq<i64>) -> spec_fn(TorrentInfo) -> bool {
    |t: TorrentInfo| !removed.contains(t.id)
}

pub open spec fn without_ids(s: Seq<TorrentInfo>, removed: Seq<i64>) -> Seq<TorrentInfo> {
    s.filter(kept_after(removed))
}

/// `r` is a most-recent query of `s` for `n` entries: at most `n` of them,
/// newest first, all live, no id twice, and no entry left out is newer than
/// one taken.
pub open spec fn recent_of(s: Seq<TorrentInfo>, n: nat, r: Seq<TorrentInfo>) -> bool {
    &&& r.len() == if n < s.len() { n as int } else { s.len() as int }
    &&& forall|i: int, j: int| 0 <= i < j < r.len() ==> r[j].added_date <= r[i].added_date
    &&& forall|k: int| 0 <= k < r.len() ==> s.contains(#[trigger] r[k])
    &&& forall|k: int, l: int| 0 <= k < l < r.len() ==> r[k].id != r[l].id
    &&& forall|i: int| #![trigger s[i]]
        0 <= i < s.len() && (forall|k: int| 0 <= k < r.len() ==> r[k].id != s[i].id)
            ==> forall|k: int| 0 <= k < r.len() ==> s[i].added_date <= #[trigger] r[k].added_date
}

/// The heap entry for the table entry at position `i`.
pub open spec fn stamp_of(s: Seq<TorrentInfo>, i: int) -> Stamp {
    (s[i].added_date, i as u64)
}

/// The error that `TorrentInfo::new` gives for a row it refuses.
pub open spec fn row_error(row: Seq<RawField>, e: ParseError) -> bool {
    if row.len() < ROW_ARITY {
        e == ParseError::RowTooShort(row.len() as usize)
    } else {
        e matches ParseError::FieldType(k) && first_bad_cell(row, k as int)
    }
}

/// Rows after the header row all decode.
pub open spec fn batch_ok(table: Seq<Vec<RawField>>) -> bool {
    forall|k: int| 1 <= k < table.len() ==> #[trigger] row_ok(table[k]@)
}

/// `v` is the decoding of every row after the header row.
pub open spec fn batch_decodes_to(table: Seq<Vec<RawField>>, v: Seq<TorrentInfo>) -> bool {
    &&& v.len() == if table.len() == 0 { 0 } else { table.len() - 1 }
    &&& forall|k: int| 0 <= k < v.len() ==> #[trigger] decodes_to(table[k + 1]@, v[k])
}

/// Decodes a table as the service sends it: the first row names the columns
/// and is skipped; every later row must decode, or the whole batch is refused.
pub fn decode_batch(table: &Vec<Vec<RawField>>) -> (r: Result<Vec<TorrentInfo>, ParseError>)
    ensures
        r is Ok <==> batch_ok(table@),
        r matches Ok(v) ==> batch_decodes_to(table@, v@),
        r matches Err(e) ==> exists|k: int|
            1 <= k < table@.len() && !row_ok(#[trigger] table@[k]@) && row_error(table@[k]@, e),
{
    let mut out: Vec<TorrentInfo> = Vec::new();
    if table.len() == 0 {
        return Ok(out);
    }
    let mut k: usize = 1;
    while k < table.len()
        invariant
            1 <= k <= table@.len(),
            out@.len() == k - 1,
            forall|j: int| 1 <= j < k ==> #[trigger] row_ok(table@[j]@),
            forall|j: int| 0 <= j < out@.len() ==> #[trigger] decodes_to(table@[j + 1]@, out@[j]),
        decreases table@.len() - k,
    {
        match TorrentInfo::new(&table[k]) {
            Ok(t) => {
                out.push(t);
            },
            Err(e) => {
                assert(!row_ok(table@[k as int]@) && row_error(table@[k as int]@, e));
                return Err(e);
            },
        }
        k = k + 1;
    }
    Ok(out)
}

fn contains_id(ids: &Vec<i64>, id: i64) -> (b: bool)
    ensures
        b == ids@.contains(id),
{
    let mut i: usize = 0;
    while i < ids.len()
        invariant
            i <= ids@.len(),
            forall|m: int| 0 <= m < i ==> ids@[m] != id,
        decreases ids@.len() - i,
    {
        if ids[i] == id {
            assert(ids@[i as int] == id);
            return true;
        }
        i = i + 1;
    }
    false
}

/// Whether `t` belongs in the list under `f`; `needle` is the lowercased
/// search text when `f` is a search.
fn entry_matches(t: &TorrentInfo, f: &Filter, active: &Vec<i64>, needle: &Vec<char>) -> (b: bool)
    requires
        f matches Filter::Search(text) ==> needle@ == lower_of(text@),
    ensures
        b == matches_filter(*t, *f, active@),
{
    match f {
        Filter::ByStatus(s) => t.status == *s,
        Filter::ByDirectory(d) => same_text(t.download_dir.as_str(), d.as_str()),
        Filter::Recent => true,
        Filter::Active => contains_id(active, t.id),
        Filter::All => true,
        Filter::Search(_) => {
            let name = lowercase(t.name.as_str());
            let hay = chars_of(name.as_str());
            contains_chars(&hay, needle)
        },
        Filter::Error => t.error > 0,
    }
}

/// The entries of `s` that filter `f` keeps, in table order.
pub fn filter_entries(s: &Vec<TorrentInfo>, f: &Filter, active: &Vec<i64>) -> (r: Vec<TorrentInfo>)
    ensures
        r@ == s@.filter(keep(*f, active@)),
{
    let needle = match f {
        Filter::Search(text) => {
            let l = lowercase(text.as_str());
            chars_of(l.as_str())
        },
        _ => Vec::new(),
    };
    let mut out: Vec<TorrentInfo> = Vec::new();
    let mut i: usize = 0;
    while i < s.len()
        invariant
            i <= s@.len(),
            f matches Filter::Search(text) ==> needle@ == lower_of(text@),
            out@ == s@.subrange(0, i as int).filter(keep(*f, active@)),
        decreases s@.len() - i,
    {
        let b = entry_matches(&s[i], f, active, &needle);
        proof {
            assert(s@.subrange(0, i + 1) == s@.subrange(0, i as int).push(s@[i as int]));
            s@.subrange(0, i as int).lemma_filter_push(s@[i as int], keep(*f, active@));
        }
        if b {
            out.push(s[i].duplicate());
        }
        i = i + 1;
    }
    assert(s@.subrange(0, s@.len() as int) == s@);
    out
}

proof fn lemma_remove_count(p: Multiset<Stamp>, x: Stamp, y: Stamp)
    ensures
        p.remove(x).count(y) == if y == x {
            if p.count(x) > 0 { p.count(x) - 1 } else { 0int }
        } else {
            p.count(y) as int
        },
{
    broadcast use vstd::multiset::group_multiset_axioms;
    assert(Multiset::singleton(x).count(x) == 1);
    if y != x {
        assert(Multiset::singleton(x).count(y) == 0);
    }
}

proof fn lemma_insert_count(p: Multiset<Stamp>, x: Stamp, y: Stamp)
    ensures
        p.insert(x).count(y) == if y == x { p.count(x) + 1 } else { p.count(y) },
{
    broadcast use vstd::multiset::group_multiset_axioms;
    assert(Multiset::singleton(x).count(x) == 1);
    if y != x {
        assert(Multiset::singleton(x).count(y) == 0);
    }
}

/// The entry of `s` with id `id`.
pub open spec fn entry(s: Seq<TorrentInfo>, id: i64) -> TorrentInfo {
    s[index_of_id(s, id)]
}

/// No two rows of a batch report the same id.
pub open spec fn rows_distinct(rows: Seq<TorrentInfo>) -> bool {
    forall|k: int, l: int| 0 <= k < l < rows.len() ==> rows[k].id != rows[l].id
}

pub open spec fn row_ids_contain(rows: Seq<TorrentInfo>, id: i64) -> bool {
    exists|k: int| 0 <= k < rows.len() && rows[k].id == id
}

proof fn lemma_entry_at(s: Seq<TorrentInfo>, i: int)
    requires
        ids_unique(s),
        0 <= i < s.len(),
    ensures
        has_id(s, s[i].id),
        index_of_id(s, s[i].id) == i,
        entry(s, s[i].id) == s[i],
{
    assert(has_id(s, s[i].id));
    let j = index_of_id(s, s[i].id);
    assert(s[j].id == s[i].id);
}

/// Removing ids takes exactly those ids out and leaves every other entry.
pub proof fn lemma_without_ids(s: Seq<TorrentInfo>, removed: Seq<i64>)
    requires
        ids_unique(s),
    ensures
        ids_unique(without_ids(s, removed)),
        forall|x: i64| removed.contains(x) ==> !has_id(without_ids(s, removed), x),
        forall|x: i64| !removed.contains(x) ==> (has_id(without_ids(s, removed), x) <==> has_id(s, x)),
        forall|x: i64| !removed.contains(x) && has_id(s, x) ==> entry(without_ids(s, removed), x) == entry(s, x),
    decreases s.len(),
{
    let w = without_ids(s, removed);
    if s.len() == 0 {
        reveal(Seq::filter);
    } else {
        let init = s.drop_last();
        let last = s.last();
        assert(init.push(last) == s);
        assert(ids_unique(init));
        lemma_without_ids(init, removed);
        init.lemma_filter_push(last, kept_after(removed));
        let wi = without_ids(init, removed);
        assert(!has_id(init, last.id));
        if !removed.contains(last.id) {
            assert(w == wi.push(last));
            assert(!has_id(wi, last.id));
            assert forall|i: int, j: int| 0 <= i < w.len() && 0 <= j < w.len() && i != j implies w[i].id != w[j].id by {
                if i == wi.len() {
                    assert(has_id(wi, w[j].id));
                } else if j == wi.len() {
                    assert(has_id(wi, w[i].id));
                }
            }
            assert forall|x: i64| !removed.contains(x) implies (has_id(w, x) <==> has_id(s, x)) by {
                if has_id(s, x) {
                    let i = choose|i: int| 0 <= i < s.len() && s[i].id == x;
                    if i < init.len() {
                        assert(init[i].id == x);
                        let j = choose|j: int| 0 <= j < wi.len() && wi[j].id == x;
                        assert(w[j].id == x);
                    } else {
                        assert(w[wi.len() as int].id == x);
                    }
                }
                if has_id(w, x) {
                    let j = choose|j: int| 0 <= j < w.len() && w[j].id == x;
                    if j < wi.len() {
                        assert(wi[j].id == x);
                        let i = choose|i: int| 0 <= i < init.len() && init[i].id == x;
                        assert(s[i].id == x);
                    } else {
                        assert(s[s.len() - 1].id == x);
                    }
                }
            }
            assert forall|x: i64| !removed.contains(x) && has_id(s, x) implies entry(w, x) == entry(s, x) by {
                let i = choose|i: int| 0 <= i < s.len() && s[i].id == x;
                lemma_entry_at(s, i);
                if i < init.len() {
                    assert(init[i].id == x);
                    lemma_entry_at(init, i);
                    let j = choose|j: int| 0 <= j < wi.len() && wi[j].id == x;
                    lemma_entry_at(wi, j);
                    assert(w[j] == wi[j]);
                    lemma_entry_at(w, j);
                } else {
                    lemma_entry_at(w, wi.len() as int);
                }
            }
            assert forall|x: i64| removed.contains(x) implies !has_id(w, x) by {
                if has_id(w, x) {
                    let j = choose|j: int| 0 <= j < w.len() && w[j].id == x;
                    if j < wi.len() {
                        assert(wi[j].id == x);
                    }
                }
            }
        } else {
            assert(w == wi);
            assert forall|x: i64| !removed.contains(x) implies (has_id(w, x) <==> has_id(s, x)) by {
                if has_id(s, x) {
                    let i = choose|i: int| 0 <= i < s.len() && s[i].id == x;
                    assert(i < init.len());
                    assert(init[i].id == x);
                }
                if has_id(init, x) {
                    let i = choose|i: int| 0 <= i < init.len() && init[i].id == x;
                    assert(s[i].id == x);
                }
            }
            assert forall|x: i64| !removed.contains(x) && has_id(s, x) implies entry(w, x) == entry(s, x) by {
                let i = choose|i: int| 0 <= i < s.len() && s[i].id == x;
                lemma_entry_at(s, i);
                assert(i < init.len());
                lemma_entry_at(init, i);
            }
        }
    }
}

/// One report: its id ends up present with the merged (or new) entry, and
/// no other id changes.
pub proof fn lemma_upserted(s: Seq<TorrentInfo>, t: TorrentInfo)
    requires
        ids_unique(s),
    ensures
        ids_unique(upserted(s, t)),
        has_id(upserted(s, t), t.id),
        entry(upserted(s, t), t.id) == if has_id(s, t.id) { merged(entry(s, t.id), t) } else { t },
        forall|x: i64| x != t.id ==> (has_id(upserted(s, t), x) <==> has_id(s, x)),
        forall|x: i64| x != t.id && has_id(s, x) ==> entry(upserted(s, t), x) == entry(s, x),
{
    let u = upserted(s, t);
    if has_id(s, t.id) {
        let i = index_of_id(s, t.id);
        assert(s[i].id == t.id);
        assert(u[i].id == t.id);
        assert(ids_unique(u));
        lemma_entry_at(u, i);
        assert forall|x: i64| x != t.id implies (has_id(u, x) <==> has_id(s, x)) by {
            if has_id(s, x) {
                let j = choose|j: int| 0 <= j < s.len() && s[j].id == x;
                assert(u[j].id == x);
            }
            if has_id(u, x) {
                let j = choose|j: int| 0 <= j < u.len() && u[j].id == x;
                assert(s[j].id == x);
            }
        }
        assert forall|x: i64| x != t.id && has_id(s, x) implies entry(u, x) == entry(s, x) by {
            let j = choose|j: int| 0 <= j < s.len() && s[j].id == x;
            lemma_entry_at(s, j);
            assert(u[j] == s[j]);
            lemma_entry_at(u, j);
        }
    } else {
        assert(ids_unique(u));
        lemma_entry_at(u, s.len() as int);
        assert forall|x: i64| x != t.id implies (has_id(u, x) <==> has_id(s, x)) by {
            if has_id(s, x) {
                let j = choose|j: int| 0 <= j < s.len() && s[j].id == x;
                assert(u[j].id == x);
            }
            if has_id(u, x) {
                let j = choose|j: int| 0 <= j < u.len() && u[j].id == x;
                assert(s[j].id == x);
            }
        }
        assert forall|x: i64| x != t.id && has_id(s, x) implies entry(u, x) == entry(s, x) by {
            let j = choose|j: int| 0 <= j < s.len() && s[j].id == x;
            lemma_entry_at(s, j);
            lemma_entry_at(u, j);
        }
    }
}

/// A batch of reports with distinct ids: each reported id ends up with its
/// merged (or new) entry; ids not reported keep theirs.
pub proof fn lemma_upsert_all(s: Seq<TorrentInfo>, rows: Seq<TorrentInfo>)
    requires
        ids_unique(s),
        rows_distinct(rows),
    ensures
        ids_unique(upsert_all(s, rows)),
        forall|k: int| #![trigger rows[k]] 0 <= k < rows.len() ==> has_id(upsert_all(s, rows), rows[k].id)
            && entry(upsert_all(s, rows), rows[k].id) == if has_id(s, rows[k].id) {
                merged(entry(s, rows[k].id), rows[k])
            } else {
                rows[k]
            },
        forall|x: i64| !row_ids_contain(rows, x) ==> (has_id(upsert_all(s, rows), x) <==> has_id(s, x)),
        forall|x: i64| !row_ids_contain(rows, x) && has_id(s, x) ==> entry(upsert_all(s, rows), x) == entry(s, x),
    decreases rows.len(),
{
    if rows.len() > 0 {
        let init = rows.drop_last();
        let last = rows.last();
        assert(rows_distinct(init));
        lemma_upsert_all(s, init);
        let mid = upsert_all(s, init);
        lemma_upserted(mid, last);
        assert(!row_ids_contain(init, last.id)) by {
            if row_ids_contain(init, last.id) {
                let k = choose|k: int| 0 <= k < init.len() && init[k].id == last.id;
                assert(rows[k].id == rows[rows.len() - 1].id);
            }
        }
        assert forall|k: int| #![trigger rows[k]] 0 <= k < rows.len() implies has_id(upsert_all(s, rows), rows[k].id)
            && entry(upsert_all(s, rows), rows[k].id) == if has_id(s, rows[k].id) {
                merged(entry(s, rows[k].id), rows[k])
            } else {
                rows[k]
            } by {
            if k < init.len() {
                assert(init[k] == rows[k]);
                assert(rows[k].id != last.id);
            }
        }
        assert forall|x: i64| !row_ids_contain(rows, x) implies !row_ids_contain(init, x) && x != last.id by {
            if row_ids_contain(init, x) {
                let k = choose|k: int| 0 <= k < init.len() && init[k].id == x;
                assert(rows[k].id == x);
            }
            assert(rows[rows.len() - 1].id == last.id);
        }
    }
}

/// A partial update, for a batch whose ids are distinct and not also listed
/// as removed: every removed id is absent afterwards, and every reported id
/// is present with the reported fields, its rates the mean of the previous
/// and reported rates when it was present before.
pub proof fn lemma_partial_update(s: Seq<TorrentInfo>, removed: Seq<i64>, rows: Seq<TorrentInfo>)
    requires
        ids_unique(s),
        rows_distinct(rows),
        forall|k: int| 0 <= k < rows.len() ==> !removed.contains(#[trigger] rows[k].id),
    ensures
        forall|x: i64| removed.contains(x) ==> !has_id(upsert_all(without_ids(s, removed), rows), x),
        forall|k: int| #![trigger rows[k]] 0 <= k < rows.len() ==> has_id(upsert_all(without_ids(s, removed), rows), rows[k].id)
            && entry(upsert_all(without_ids(s, removed), rows), rows[k].id) == if has_id(s, rows[k].id) {
                merged(entry(s, rows[k].id), rows[k])
            } else {
                rows[k]
            },
{
    lemma_without_ids(s, removed);
    let w = without_ids(s, removed);
    lemma_upsert_all(w, rows);
    assert forall|x: i64| removed.contains(x) implies !has_id(upsert_all(w, rows), x) by {
        if row_ids_contain(rows, x) {
            let k = choose|k: int| 0 <= k < rows.len() && rows[k].id == x;
            assert(!removed.contains(rows[k].id));
        }
    }
    assert forall|k: int| #![trigger rows[k]] 0 <= k < rows.len() implies has_id(upsert_all(w, rows), rows[k].id)
        && entry(upsert_all(w, rows), rows[k].id) == if has_id(s, rows[k].id) {
            merged(entry(s, rows[k].id), rows[k])
        } else {
            rows[k]
        } by {
        assert(!removed.contains(rows[k].id));
    }
}

/// Merging reports keeps ids unique.
pub proof fn lemma_upsert_all_unique(s: Seq<TorrentInfo>, rows: Seq<TorrentInfo>)
    requires
        ids_unique(s),
    ensures
        ids_unique(upsert_all(s, rows)),
    decreases rows.len(),
{
    if rows.len() > 0 {
        lemma_upsert_all_unique(s, rows.drop_last());
        lemma_upserted(upsert_all(s, rows.drop_last()), rows.last());
    }
}

/// An id that no report names keeps its entry, or stays absent.
pub proof fn lemma_upsert_all_untouched(s: Seq<TorrentInfo>, rows: Seq<TorrentInfo>, x: i64)
    requires
        ids_unique(s),
        !row_ids_contain(rows, x),
    ensures
        has_id(upsert_all(s, rows), x) <==> has_id(s, x),
        has_id(s, x) ==> entry(upsert_all(s, rows), x) == entry(s, x),
    decreases rows.len(),
{
    if rows.len() > 0 {
        let init = rows.drop_last();
        assert(!row_ids_contain(init, x)) by {
            if row_ids_contain(init, x) {
                let k = choose|k: int| 0 <= k < init.len() && init[k].id == x;
                assert(rows[k].id == x);
            }
        }
        assert(rows[rows.len() - 1].id != x);
        lemma_upsert_all_untouched(s, init, x);
        lemma_upsert_all_unique(s, init);
        lemma_upserted(upsert_all(s, init), rows.last());
    }
}

/// Reports after the last one naming an id leave that id's entry as the
/// last one made it.
proof fn lemma_upsert_all_after_last(s: Seq<TorrentInfo>, rows: Seq<TorrentInfo>, k: int)
    requires
        ids_unique(s),
        0 <= k < rows.len(),
        forall|j: int| k < j < rows.len() ==> rows[j].id != rows[k].id,
    ensures
        has_id(upsert_all(s, rows), rows[k].id),
        entry(upsert_all(s, rows), rows[k].id) == entry(upsert_all(s, rows.subrange(0, k + 1)), rows[k].id),
    decreases rows.len(),
{
    if rows.len() == k + 1 {
        assert(rows.subrange(0, k + 1) == rows);
        lemma_upsert_all_unique(s, rows.drop_last());
        lemma_upserted(upsert_all(s, rows.drop_last()), rows.last());
    } else {
        let init = rows.drop_last();
        assert(init.subrange(0, k + 1) == rows.subrange(0, k + 1));
        assert forall|j: int| k < j < init.len() implies init[j].id != init[k].id by {
            assert(init[j] == rows[j]);
        }
        lemma_upsert_all_after_last(s, init, k);
        lemma_upsert_all_unique(s, init);
        lemma_upserted(upsert_all(s, init), rows.last());
        assert(rows.last().id != rows[k].id);
    }
}

/// The table just before report `k` of a batch is merged in.
pub open spec fn before_row(s: Seq<TorrentInfo>, removed: Seq<i64>, rows: Seq<TorrentInfo>, k: int) -> Seq<TorrentInfo> {
    upsert_all(without_ids(s, removed), rows.subrange(0, k))
}

/// A partial update, for any batch whose reported ids are not also listed as
/// removed: every removed id is absent afterwards; each reported id is
/// present with the fields of its last report, its rates the mean of the
/// rates it had just before that report and the reported ones when it was
/// present then, else the reported ones; every id neither reported nor
/// removed keeps its entry.
pub proof fn lemma_partial_update_any(s: Seq<TorrentInfo>, removed: Seq<i64>, rows: Seq<TorrentInfo>)
    requires
        ids_unique(s),
        forall|k: int| 0 <= k < rows.len() ==> !removed.contains(#[trigger] rows[k].id),
    ensures
        forall|x: i64| removed.contains(x) ==> !has_id(upsert_all(without_ids(s, removed), rows), x),
        forall|k: int| #![trigger rows[k]]
            0 <= k < rows.len() && (forall|j: int| k < j < rows.len() ==> rows[j].id != rows[k].id) ==> {
                let before = before_row(s, removed, rows, k);
                &&& has_id(upsert_all(without_ids(s, removed), rows), rows[k].id)
                &&& entry(upsert_all(without_ids(s, removed), rows), rows[k].id) == if has_id(before, rows[k].id) {
                    merged(entry(before, rows[k].id), rows[k])
                } else {
                    rows[k]
                }
            },
        forall|x: i64| !removed.contains(x) && !row_ids_contain(rows, x) && has_id(s, x) ==> has_id(
            upsert_all(without_ids(s, removed), rows),
            x,
        ) && entry(upsert_all(without_ids(s, removed), rows), x) == entry(s, x),
{
    lemma_without_ids(s, removed);
    let w = without_ids(s, removed);
    assert forall|x: i64| removed.contains(x) implies !has_id(upsert_all(w, rows), x) by {
        if row_ids_contain(rows, x) {
            let k = choose|k: int| 0 <= k < rows.len() && rows[k].id == x;
            assert(!removed.contains(rows[k].id));
        }
        lemma_upsert_all_untouched(w, rows, x);
    }
    assert forall|k: int| #![trigger rows[k]]
        0 <= k < rows.len() && (forall|j: int| k < j < rows.len() ==> rows[j].id != rows[k].id) implies {
            let before = before_row(s, removed, rows, k);
            &&& has_id(upsert_all(w, rows), rows[k].id)
            &&& entry(upsert_all(w, rows), rows[k].id) == if has_id(before, rows[k].id) {
                merged(entry(before, rows[k].id), rows[k])
            } else {
                rows[k]
            }
        } by {
        lemma_upsert_all_after_last(w, rows, k);
        let t = rows.subrange(0, k + 1);
        assert(t.drop_last() == rows.subrange(0, k));
        assert(t.last() == rows[k]);
        lemma_upsert_all_unique(w, rows.subrange(0, k));
        lemma_upserted(upsert_all(w, rows.subrange(0, k)), rows[k]);
    }
    assert forall|x: i64| !removed.contains(x) && !row_ids_contain(rows, x) && has_id(s, x) implies has_id(
        upsert_all(w, rows),
        x,
    ) && entry(upsert_all(w, rows), x) == entry(s, x) by {
        lemma_upsert_all_untouched(w, rows, x);
    }
}

/// The authoritative set of torrents, keyed by id, in the order they were
/// first seen.
pub struct TorrentTable {
    entries: Vec<TorrentInfo>,
}

impl View for TorrentTable {
    type V = Seq<TorrentInfo>;

    closed spec fn view(&self) -> Seq<TorrentInfo> {
        self.entries@
    }
}

impl TorrentTable {
    pub open spec fn wf(&self) -> bool {
        ids_unique(self@)
    }

    pub fn new() -> (t: TorrentTable)
        ensures
            t@ == Seq::<TorrentInfo>::empty(),
            t.wf(),
    {
        TorrentTable { entries: Vec::new() }
    }

    pub fn entries(&self) -> (r: &Vec<TorrentInfo>)
        ensures
            r@ == self@,
    {
        &self.entries
    }

    pub fn len(&self) -> (r: usize)
        ensures
            r == self@.len(),
    {
        self.entries.len()
    }

    /// The position of the entry with this id.
    pub fn position_of(&self, id: i64) -> (r: Option<usize>)
        requires
            self.wf(),
        ensures
            r is None <==> !has_id(self@, id),
            r matches Some(i) ==> i < self@.len() && self@[i as int].id == id && i == index_of_id(
                self@,
                id,
            ),
    {
        let mut i: usize = 0;
        while i < self.entries.len()
            invariant
                i <= self@.len(),
                self.wf(),
                forall|m: int| 0 <= m < i ==> self@[m].id != id,
            decreases self@.len() - i,
        {
            if self.entries[i].id == id {
                proof {
                    assert(has_id(self@, id));
                    let j = index_of_id(self@, id);
                    assert(self@[j].id == id);
                }
                return Some(i);
            }
            i = i + 1;
        }
        None
    }

    /// Merges a report into the table: an entry of the same id is updated
    /// (rates smoothed), a new id is appended.
    pub fn upsert(&mut self, t: TorrentInfo)
        requires
            old(self).wf(),
        ensures
            final(self).wf(),
            final(self)@ == upserted(old(self)@, t),
    {
        match self.position_of(t.id) {
            Some(i) => {
                let mut e = self.entries[i].duplicate();
                e.update(&t);
                self.entries.set(i, e);
            },
            None => {
                self.entries.push(t);
            },
        }
    }

    /// Stores an entry as it is, replacing one of the same id.
    pub fn place(&mut self, t: TorrentInfo)
        requires
            old(self).wf(),
        ensures
            final(self).wf(),
            final(self)@ == placed(old(self)@, t),
    {
        match self.position_of(t.id) {
            Some(i) => {
                self.entries.set(i, t);
            },
            None => {
                self.entries.push(t);
            },
        }
    }

    /// Deletes every entry whose id is listed.
    pub fn remove_ids(&mut self, removed: &Vec<i64>)
        requires
            old(self).wf(),
        ensures
            final(self).wf(),
            final(self)@ == without_ids(old(self)@, removed@),
    {
        let s = &self.entries;
        let mut out: Vec<TorrentInfo> = Vec::new();
        let mut i: usize = 0;
        while i < s.len()
            invariant
                i <= s@.len(),
                ids_unique(s@),
                ids_unique(out@),
                forall|m: int, j: int|
                    0 <= m < out@.len() && i <= j < s@.len() ==> out@[m].id != s@[j].id,
                out@ == s@.subrange(0, i as int).filter(kept_after(removed@)),
            decreases s@.len() - i,
        {
            let b = contains_id(removed, s[i].id);
            proof {
                assert(s@.subrange(0, i + 1) == s@.subrange(0, i as int).push(s@[i as int]));
                s@.subrange(0, i as int).lemma_filter_push(s@[i as int], kept_after(removed@));
            }
            if !b {
                out.push(s[i].duplicate());
            }
            i = i + 1;
        }
        assert(s@.subrange(0, s@.len() as int) == s@);
        self.entries = out;
    }

    /// Merges a decoded batch: first the removed ids go, then each report is
    /// merged in order.
    pub fn merge_batch(&mut self, updated: &Vec<TorrentInfo>, removed: &Vec<i64>)
        requires
            old(self).wf(),
        ensures
            final(self).wf(),
            final(self)@ == upsert_all(without_ids(old(self)@, removed@), updated@),
    {
        self.remove_ids(removed);
        let ghost base = self@;
        let mut k: usize = 0;
        while k < updated.len()
            invariant
                k <= updated@.len(),
                self.wf(),
                self@ == upsert_all(base, updated@.subrange(0, k as int)),
            decreases updated@.len() - k,
        {
            proof {
                assert(updated@.subrange(0, k + 1).drop_last() == updated@.subrange(0, k as int));
            }
            self.upsert(updated[k].duplicate());
            k = k + 1;
        }
        assert(updated@.subrange(0, updated@.len() as int) == updated@);
    }

    /// Replaces the whole table by a fresh batch; a later duplicate of an id
    /// replaces the earlier one.
    pub fn replace_all(&mut self, fresh: &Vec<TorrentInfo>)
        ensures
            final(self).wf(),
            final(self)@ == place_all(Seq::<TorrentInfo>::empty(), fresh@),
    {
        self.entries = Vec::new();
        let mut k: usize = 0;
        while k < fresh.len()
            invariant
                k <= fresh@.len(),
                self.wf(),
                self@ == place_all(Seq::<TorrentInfo>::empty(), fresh@.subrange(0, k as int)),
            decreases fresh@.len() - k,
        {
            proof {
                assert(fresh@.subrange(0, k + 1).drop_last() == fresh@.subrange(0, k as int));
            }
            self.place(fresh[k].duplicate());
            k = k + 1;
        }
        assert(fresh@.subrange(0, fresh@.len() as int) == fresh@);
    }

    /// Replaces the table by a full batch from the service. A malformed row
    /// refuses the whole batch and leaves the table as it was.
    pub fn apply_full(&mut self, table: &Vec<Vec<RawField>>) -> (r: Result<(), ParseError>)
        requires
            old(self).wf(),
        ensures
            final(self).wf(),
            r is Ok <==> batch_ok(table@),
            r is Err ==> final(self)@ == old(self)@,
            r is Ok ==> exists|v: Seq<TorrentInfo>|
                batch_decodes_to(table@, v) && final(self)@ == place_all(Seq::<TorrentInfo>::empty(), v),
    {
        match decode_batch(table) {
            Ok(v) => {
                self.replace_all(&v);
                Ok(())
            },
            Err(e) => Err(e),
        }
    }

    /// Merges a partial batch from the service: removed ids go, updated rows
    /// are merged. A malformed row refuses the whole batch and leaves the
    /// table as it was. On success the decoded rows are handed back.
    pub fn apply_partial(&mut self, updated: &Vec<Vec<RawField>>, removed: &Vec<i64>) -> (r: Result<
        Vec<TorrentInfo>,
        ParseError,
    >)
        requires
            old(self).wf(),
        ensures
            final(self).wf(),
            r is Ok <==> batch_ok(updated@),
            r is Err ==> final(self)@ == old(self)@,
            r matches Ok(v) ==> batch_decodes_to(updated@, v@) && final(self)@ == upsert_all(
                without_ids(old(self)@, removed@),
                v@,
            ),
    {
        match decode_batch(updated) {
            Ok(v) => {
                self.merge_batch(&v, removed);
                Ok(v)
            },
            Err(e) => Err(e),
        }
    }
    /// The `n` entries with the greatest `added_date`, newest first. A heap
    /// holding at most `n + 1` entries is kept while the table is walked:
    /// after each push the least entry leaves once there are more than `n`.
    pub fn most_recent(&self, n: usize) -> (r: Vec<TorrentInfo>)
        requires
            self.wf(),
        ensures
            recent_of(self@, n as nat, r@),
    {
        broadcast use vstd::multiset::group_multiset_axioms, vstd::multiset::group_multiset_properties;
        let s = &self.entries;
        let len = s.len();
        let mut h = stamp_heap(n);
        let mut i: usize = 0;
        while i < len
            invariant
                len == s@.len(),
                i <= len,
                forall|y: Stamp| #[trigger] heap_items(h).contains(y) ==> y.1 < i && y.0 == s@[y.1 as int].added_date && heap_items(h).count(y) == 1,
                heap_items(h).len() == if i < n { i as int } else { n as int },
                forall|j: int| 0 <= j < i && !heap_items(h).contains(#[trigger] stamp_of(s@, j))
                    ==> forall|y: Stamp| heap_items(h).contains(y) ==> stamp_lt(stamp_of(s@, j), y),
                i <= n ==> forall|j: int| 0 <= j < i ==> heap_items(h).contains(#[trigger] stamp_of(s@, j)),
            decreases len - i,
        {
            let ghost before = heap_items(h);
            let st: Stamp = (s[i].added_date, i as u64);
            assert(st == stamp_of(s@, i as int));
            assert(!before.contains(st));
            stamp_push(&mut h, st);
            let ghost pushed = heap_items(h);
            assert(pushed.count(st) == 1);
            if stamp_len(&h) > n {
                let ghost p = heap_items(h);
                let popped = stamp_pop(&mut h);
                proof {
                    let x = popped->Some_0;
                    assert(p == pushed);
                    if x != st {
                        assert(before.contains(x));
                        assert(before.count(x) == 1);
                    }
                    assert(p.count(x) == 1);
                    assert(heap_items(h) == p.remove(x));
                    assert forall|y: Stamp| #[trigger] heap_items(h).contains(y) implies stamp_lt(x, y)
                        && p.contains(y) && heap_items(h).count(y) == 1 && y.1 < i + 1
                        && y.0 == s@[y.1 as int].added_date by {
                        lemma_remove_count(p, x, y);
                        assert(heap_items(h).count(y) > 0);
                        if y == x {
                            assert(p.count(x) == 1);
                            assert(heap_items(h).count(y) == 0);
                        }
                        assert(y != x);
                        assert(p.count(y) > 0);
                        assert(p.contains(y));
                        assert(stamp_le(x, y));
                        lemma_insert_count(before, st, y);
                        if y != st {
                            assert(before.contains(y));
                        }
                    }
                    assert forall|j: int| 0 <= j < i + 1 && !heap_items(h).contains(#[trigger] stamp_of(s@, j))
                        implies forall|y: Stamp| heap_items(h).contains(y) ==> stamp_lt(stamp_of(s@, j), y) by {
                        if stamp_of(s@, j) != x {
                            if j < i {
                                assert(!before.contains(stamp_of(s@, j)));
                                assert forall|y: Stamp| heap_items(h).contains(y) implies stamp_lt(stamp_of(s@, j), y) by {
                                    if y == st {
                                        assert(before.contains(x));
                                        assert(stamp_lt(stamp_of(s@, j), x));
                                    } else {
                                        assert(before.contains(y));
                                    }
                                }
                            } else {
                                assert(stamp_of(s@, j) == st);
                            }
                        }
                    }
                }
            } else {
                proof {
                    assert forall|y: Stamp| #[trigger] heap_items(h).contains(y) implies y.1 < i + 1 && y.0 == s@[y.1 as int].added_date && heap_items(h).count(y) == 1 by {
                        if y != st {
                            assert(before.contains(y));
                        }
                    }
                }
            }
            i = i + 1;
        }
        let v = stamp_into_sorted_vec(h);
        let ghost hv = heap_items(h);
        proof {
            assert forall|x: Stamp| v@.to_multiset().contains(x) implies v@.to_multiset().count(x) == 1 by {
                assert(hv.contains(x));
            }
            v@.lemma_multiset_has_no_duplicates_conv();
            assert forall|k: int| 0 <= k < v@.len() implies #[trigger] hv.contains(v@[k]) by {
                vstd::seq_lib::to_multiset_contains(v@, v@[k]);
            }
        }
        let mut r: Vec<TorrentInfo> = Vec::new();
        let mut k: usize = 0;
        while k < v.len()
            invariant
                k <= v@.len(),
                len == s@.len(),
                forall|m: int| 0 <= m < v@.len() ==> #[trigger] hv.contains(v@[m]),
                forall|y: Stamp| #[trigger] hv.contains(y) ==> y.1 < len && y.0 == s@[y.1 as int].added_date,
                r@.len() == k,
                forall|m: int| 0 <= m < k ==> r@[m] == s@[(#[trigger] v@[m]).1 as int],
            decreases v@.len() - k,
        {
            assert(hv.contains(v@[k as int]));
            let idx = v[k].1 as usize;
            r.push(s[idx].duplicate());
            k = k + 1;
        }
        proof {
            vstd::seq_lib::to_multiset_len(v@);
            assert forall|i: int, j: int| 0 <= i < j < r@.len() implies r@[j].added_date <= r@[i].added_date by {
                assert(stamp_le(v@[j], v@[i]));
                assert(hv.contains(v@[i]) && hv.contains(v@[j]));
            }
            assert forall|k: int| 0 <= k < r@.len() implies self@.contains(#[trigger] r@[k]) by {
                assert(hv.contains(v@[k]));
                assert(r@[k] == self@[v@[k].1 as int]);
            }
            assert forall|k: int, l: int| 0 <= k < l < r@.len() implies r@[k].id != r@[l].id by {
                assert(v@[k] != v@[l]);
                assert(hv.contains(v@[k]) && hv.contains(v@[l]));
                assert(v@[k].1 != v@[l].1);
            }
            assert forall|j: int| #![trigger self@[j]]
                0 <= j < self@.len() && (forall|k: int| 0 <= k < r@.len() ==> r@[k].id != self@[j].id)
                implies forall|k: int| 0 <= k < r@.len() ==> self@[j].added_date <= #[trigger] r@[k].added_date by {
                if hv.contains(stamp_of(s@, j)) {
                    vstd::seq_lib::to_multiset_contains(v@, stamp_of(s@, j));
                    let m = choose|m: int| 0 <= m < v@.len() && v@[m] == stamp_of(s@, j);
                    assert(r@[m].id == self@[j].id);
                } else {
                    assert forall|k: int| 0 <= k < r@.len() implies self@[j].added_date <= #[trigger] r@[k].added_date by {
                        assert(hv.contains(v@[k]));
                        assert(stamp_lt(stamp_of(s@, j), v@[k]));
                    }
                }
            }
        }
        r
    }
}

} // verus!
