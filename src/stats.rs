use vstd::prelude::*;
use crate::text::same_text;
use crate::torrent::{TorrentInfo, TorrentStatus};

verus! {

broadcast use vstd::seq_lib::group_seq_properties;

/// Counts over the whole table, recomputed on every reconciliation.
#[derive(Debug)]
pub struct TorrentGroupStats {
    pub num_total: u64,
    pub num_downloading: u64,
    pub num_queue_down: u64,
    pub num_queue_up: u64,
    pub num_seeding: u64,
    pub num_checking: u64,
    pub num_stopped: u64,
    pub num_queue_checking: u64,
    pub num_error: u64,
    /// Each download directory with the number of torrents in it, in the
    /// order the directories were first met.
    pub folders: Vec<(String, u64)>,
}

pub open spec fn status_is(st: TorrentStatus) -> spec_fn(TorrentInfo) -> bool {
    |t: TorrentInfo| t.status == st
}

pub open spec fn in_error() -> spec_fn(TorrentInfo) -> bool {
    |t: TorrentInfo| t.error != 0
}

pub open spec fn dir_is(d: Seq<char>) -> spec_fn(TorrentInfo) -> bool {
    |t: TorrentInfo| t.download_dir@ == d
}

pub open spec fn count_status(s: Seq<TorrentInfo>, st: TorrentStatus) -> nat {
    s.filter(status_is(st)).len()
}

/// `g` holds the counts of table `s`.
pub open spec fn stats_of(s: Seq<TorrentInfo>, g: TorrentGroupStats) -> bool {
    &&& g.num_total == s.len()
    &&& g.num_stopped == count_status(s, TorrentStatus::Paused)
    &&& g.num_queue_checking == count_status(s, TorrentStatus::VerifyQueued)
    &&& g.num_checking == count_status(s, TorrentStatus::Verifying)
    &&& g.num_queue_down == count_status(s, TorrentStatus::DownQueued)
    &&& g.num_downloading == count_status(s, TorrentStatus::Downloading)
    &&& g.num_queue_up == count_status(s, TorrentStatus::SeedQueued)
    &&& g.num_seeding == count_status(s, TorrentStatus::Seeding)
    &&& g.num_error == s.filter(in_error()).len()
    &&& folders_of(s, g.folders@)
}

/// `f` lists each directory of `s` once, with its count, and no other.
pub open spec fn folders_of(s: Seq<TorrentInfo>, f: Seq<(String, u64)>) -> bool {
    &&& forall|k: int, l: int| 0 <= k < l < f.len() ==> f[k].0@ != f[l].0@
    &&& forall|k: int| 0 <= k < f.len() ==> #[trigger] f[k].1 == s.filter(dir_is(f[k].0@)).len() && f[k].1 > 0
    &&& forall|i: int| 0 <= i < s.len() ==> exists|k: int| 0 <= k < f.len() && #[trigger] f[k].0@ == (
        #[trigger] s[i]).download_dir@
}

impl TorrentGroupStats {
    pub fn empty() -> (r: Self)
        ensures
            stats_of(Seq::<TorrentInfo>::empty(), r),
    {
        let r = TorrentGroupStats {
            num_total: 0,
            num_downloading: 0,
            num_queue_down: 0,
            num_queue_up: 0,
            num_checking: 0,
            num_queue_checking: 0,
            num_stopped: 0,
            num_seeding: 0,
            num_error: 0,
            folders: Vec::new(),
        };
        proof {
            reveal(Seq::filter);
        }
        r
    }
}

proof fn lemma_filter_none(s: Seq<TorrentInfo>, p: spec_fn(TorrentInfo) -> bool)
    requires
        forall|i: int| 0 <= i < s.len() ==> !p(#[trigger] s[i]),
    ensures
        s.filter(p).len() == 0,
    decreases s.len(),
{
    reveal(Seq::filter);
    if s.len() > 0 {
        lemma_filter_none(s.drop_last(), p);
    }
}

fn count_where_status(s: &Vec<TorrentInfo>, st: TorrentStatus) -> (r: u64)
    ensures
        r == count_status(s@, st),
{
    let mut c: u64 = 0;
    let mut i: usize = 0;
    while i < s.len()
        invariant
            i <= s@.len(),
            c == s@.subrange(0, i as int).filter(status_is(st)).len(),
        decreases s@.len() - i,
    {
        proof {
            assert(s@.subrange(0, i + 1) == s@.subrange(0, i as int).push(s@[i as int]));
            s@.subrange(0, i as int).lemma_filter_push(s@[i as int], status_is(st));
            s@.subrange(0, i as int).lemma_filter_len(status_is(st));
        }
        if s[i].status == st {
            c = c + 1;
        }
        i = i + 1;
    }
    assert(s@.subrange(0, s@.len() as int) == s@);
    c
}

fn count_errors(s: &Vec<TorrentInfo>) -> (r: u64)
    ensures
        r == s@.filter(in_error()).len(),
{
    let mut c: u64 = 0;
    let mut i: usize = 0;
    while i < s.len()
        invariant
            i <= s@.len(),
            c == s@.subrange(0, i as int).filter(in_error()).len(),
        decreases s@.len() - i,
    {
        proof {
            assert(s@.subrange(0, i + 1) == s@.subrange(0, i as int).push(s@[i as int]));
            s@.subrange(0, i as int).lemma_filter_push(s@[i as int], in_error());
            s@.subrange(0, i as int).lemma_filter_len(in_error());
        }
        if s[i].error != 0 {
            c = c + 1;
        }
        i = i + 1;
    }
    assert(s@.subrange(0, s@.len() as int) == s@);
    c
}

fn find_folder(f: &Vec<(String, u64)>, d: &String) -> (r: Option<usize>)
    ensures
        r matches Some(k) ==> k < f@.len() && f@[k as int].0@ == d@,
        r is None ==> forall|m: int| 0 <= m < f@.len() ==> f@[m].0@ != d@,
{
    let mut k: usize = 0;
    while k < f.len()
        invariant
            k <= f@.len(),
            forall|m: int| 0 <= m < k ==> f@[m].0@ != d@,
        decreases f@.len() - k,
    {
        if same_text(f[k].0.as_str(), d.as_str()) {
            return Some(k);
        }
        k = k + 1;
    }
    None
}

fn count_folders(s: &Vec<TorrentInfo>) -> (r: Vec<(String, u64)>)
    ensures
        folders_of(s@, r@),
{
    let mut f: Vec<(String, u64)> = Vec::new();
    let mut i: usize = 0;
    while i < s.len()
        invariant
            i <= s@.len(),
            folders_of(s@.subrange(0, i as int), f@),
        decreases s@.len() - i,
    {
        let ghost pre = s@.subrange(0, i as int);
        let ghost post = s@.subrange(0, i + 1);
        let ghost t = s@[i as int];
        let ghost old_f = f@;
        proof {
            assert(post == pre.push(t));
            pre.lemma_filter_len(dir_is(t.download_dir@));
        }
        match find_folder(&f, &s[i].download_dir) {
            Some(k) => {
                let d = f[k].0.clone();
                let c = f[k].1;
                f.set(k, (d, c + 1));
                proof {
                    assert forall|m: int| 0 <= m < f@.len() implies #[trigger] f@[m].1 == post.filter(dir_is(f@[m].0@)).len() by {
                        pre.lemma_filter_push(t, dir_is(f@[m].0@));
                        if m != k {
                            assert(old_f[m].0@ != old_f[k as int].0@);
                        }
                    }
                    assert(f@[k as int].0@ == post[i as int].download_dir@);
                    assert forall|a: int, b: int| 0 <= a < b < f@.len() implies f@[a].0@ != f@[b].0@ by {
                        assert(f@[a].0@ == old_f[a].0@ && f@[b].0@ == old_f[b].0@);
                    }
                }
            },
            None => {
                proof {
                    assert forall|j: int| 0 <= j < pre.len() implies !dir_is(t.download_dir@)(#[trigger] pre[j]) by {
                        let m = choose|m: int| 0 <= m < old_f.len() && #[trigger] old_f[m].0@ == pre[j].download_dir@;
                        assert(old_f[m].0@ != t.download_dir@);
                    }
                    lemma_filter_none(pre, dir_is(t.download_dir@));
                }
                f.push((s[i].download_dir.clone(), 1));
                proof {
                    assert forall|m: int| 0 <= m < f@.len() implies #[trigger] f@[m].1 == post.filter(dir_is(f@[m].0@)).len() by {
                        pre.lemma_filter_push(t, dir_is(f@[m].0@));
                    }
                    assert(f@[old_f.len() as int].0@ == post[i as int].download_dir@);
                }
            },
        }
        proof {
            assert forall|j: int| 0 <= j < post.len() implies exists|m: int| 0 <= m < f@.len() && #[trigger] f@[m].0@ == (
                #[trigger] post[j]).download_dir@ by {
                if j < pre.len() {
                    assert(post[j] == pre[j]);
                    let m = choose|m: int| 0 <= m < old_f.len() && #[trigger] old_f[m].0@ == pre[j].download_dir@;
                    assert(f@[m].0@ == old_f[m].0@);
                } else {
                    assert(post[j] == t);
                }
            }
        }
        i = i + 1;
    }
    assert(s@.subrange(0, s@.len() as int) == s@);
    f
}

/// Recomputes the group counts from the whole table.
pub fn update_torrent_stats(torrents: &Vec<TorrentInfo>) -> (r: TorrentGroupStats)
    ensures
        stats_of(torrents@, r),
{
    TorrentGroupStats {
        num_total: torrents.len() as u64,
        num_downloading: count_where_status(torrents, TorrentStatus::Downloading),
        num_queue_down: count_where_status(torrents, TorrentStatus::DownQueued),
        num_queue_up: count_where_status(torrents, TorrentStatus::SeedQueued),
        num_seeding: count_where_status(torrents, TorrentStatus::Seeding),
        num_checking: count_where_status(torrents, TorrentStatus::Verifying),
        num_stopped: count_where_status(torrents, TorrentStatus::Paused),
        num_queue_checking: count_where_status(torrents, TorrentStatus::VerifyQueued),
        num_error: count_errors(torrents),
        folders: count_folders(torrents),
    }
}

/// Byte and session counters of the remote service.
#[derive(Clone, Copy, Debug, PartialEq, Eq, Structural)]
pub struct Stats {
    pub upload_bytes: u64,
    pub download_bytes: u64,
    pub files_added: u64,
    pub session_count: u64,
    pub seconds_active: u64,
}

pub open spec fn zero_stats() -> Stats {
    Stats { upload_bytes: 0, download_bytes: 0, files_added: 0, session_count: 0, seconds_active: 0 }
}

impl Stats {
    pub fn empty() -> (r: Self)
        ensures
            r == zero_stats(),
    {
        Stats { upload_bytes: 0, download_bytes: 0, files_added: 0, session_count: 0, seconds_active: 0 }
    }
}

/// Throughput and torrent counts of the whole session.
#[derive(Clone, Copy, Debug, PartialEq, Eq, Structural)]
pub struct SessionStats {
    pub active_torrent_count: u64,
    pub download_speed: u64,
    pub paused_torrent_count: u64,
    pub torrent_count: u64,
    pub upload_speed: u64,
    pub current_stats: Stats,
    pub cumulative_stats: Stats,
}

impl SessionStats {
    pub fn empty() -> (r: Self)
        ensures
            r.active_torrent_count == 0 && r.download_speed == 0 && r.paused_torrent_count == 0,
            r.torrent_count == 0 && r.upload_speed == 0,
            r.current_stats == zero_stats() && r.cumulative_stats == zero_stats(),
    {
        SessionStats {
            active_torrent_count: 0,
            download_speed: 0,
            paused_torrent_count: 0,
            torrent_count: 0,
            upload_speed: 0,
            current_stats: Stats::empty(),
            cumulative_stats: Stats::empty(),
        }
    }
}

/// Free space left in a directory of the remote service.
#[derive(Clone, Debug)]
pub struct FreeSpace {
    pub path: Option<String>,
    pub size_bytes: u64,
}

/// Settings of the remote service that the client reads.
#[derive(Clone, Debug)]
pub struct Session {
    pub download_dir: String,
    pub version: String,
}

/// Samples kept for the traffic sparkline.
pub const HISTORY_CAPACITY: usize = 201;

/// The history after `sample` is taken in: newest at the front; once the
/// history is at its capacity the oldest sample at the back is dropped.
pub open spec fn with_sample(h: Seq<u64>, sample: u64) -> Seq<u64> {
    if h.len() >= HISTORY_CAPACITY {
        seq![sample] + h.drop_last()
    } else {
        seq![sample] + h
    }
}

/// Puts the newest sample at the front, dropping the oldest when full.
pub fn record_sample(history: &mut Vec<u64>, sample: u64)
    ensures
        final(history)@ == with_sample(old(history)@, sample),
{
    if history.len() >= HISTORY_CAPACITY {
        history.pop();
    }
    history.insert(0, sample);
    assert(history@ =~= with_sample(old(history)@, sample));
}

} // verus!
