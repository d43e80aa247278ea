use vstd::prelude::*;
use crate::config::{Action, Config, TrafficMonitorOptions};
use crate::format::{folder_label, process_folder};
use crate::sort::{lemma_sort_permutes, sort_desc, sort_torrents, SortFunction, SortKey};
use crate::stats::{
    record_sample, stats_of, with_sample, update_torrent_stats, FreeSpace, Session, SessionStats, TorrentGroupStats,
};
use crate::table::{
    decode_batch, filter_entries, keep, recent_of, Filter, TorrentTable, RECENT_LIMIT,
};
use crate::text::{chars_of, contains_text, has_substring, lex_lt, pop_char, push_char, same_text, sort_strings};
use crate::torrent::{RawField, TorrentInfo, TorrentStatus};
use crate::worker::{Key, TorrentCmd};

verus! {

broadcast use vstd::seq_lib::group_seq_properties;

/// The modal state of the interface.
#[derive(Clone, Copy, Debug, PartialEq, Eq, Structural)]
pub enum Transition {
    MainScreen,
    Action,
    Filter,
    Search,
    ConfirmRemove(bool),
    Move,
    Files,
    Help,
    /// Searching the list: direction (forward when set) and the row to go
    /// back to when the search is left.
    Find(bool, usize),
    ChooseSortFunc,
    Connection,
}

impl Transition {
    pub fn is_find(&self) -> (r: bool)
        ensures
            r == (*self is Find),
    {
        matches!(self, Transition::Find(_, _))
    }
}

/// What the main list shows for filter `f` over table `s`: the filtered
/// entries in the chosen order, or for `Recent` the most-recent query in it.
pub open spec fn view_of(s: Seq<TorrentInfo>, f: Filter, active: Seq<i64>, k: SortKey, v: Seq<TorrentInfo>) -> bool {
    match f {
        Filter::Recent => exists|r: Seq<TorrentInfo>| recent_of(s, RECENT_LIMIT as nat, r) && v == sort_desc(r, k),
        _ => v == sort_desc(s.filter(keep(f, active)), k),
    }
}

/// The commands a fresh selection of the first row sends, and the selection
/// it leaves.
pub open spec fn selects_first(v: Seq<TorrentInfo>, sel: Option<usize>, selected: Option<TorrentInfo>, cmds: Seq<TorrentCmd>) -> bool {
    if v.len() == 0 {
        sel is None && selected is None && cmds.len() == 1 && cmds[0] == TorrentCmd::Select(None)
    } else {
        sel == Some(0usize) && selected == Some(v[0]) && cmds.len() == 1 && cmds[0] == TorrentCmd::GetDetails(v[0].id)
    }
}

/// No two folders share a hotkey.
pub open spec fn keys_injective(m: Seq<(String, char, usize)>) -> bool {
    forall|k: int, l: int| 0 <= k < l < m.len() ==> m[k].1 != m[l].1
}

pub open spec fn key_taken(m: Seq<(String, char, usize)>, c: char) -> bool {
    exists|l: int| 0 <= l < m.len() && m[l].1 == c
}

/// Entry `k` of the mapping takes the first character of its folder's label
/// that no earlier entry took.
pub open spec fn key_first_free(m: Seq<(String, char, usize)>, k: int, base: Seq<char>) -> bool {
    let label = folder_label(m[k].0@, base);
    &&& (m[k].2 as int) < label.len()
    &&& label[m[k].2 as int] == m[k].1
    &&& forall|j: int| 0 <= j < m[k].2 ==> key_taken(m.subrange(0, k), #[trigger] label[j])
}

/// A search for `needle` forward from `start`: the first row at or after it
/// whose name holds the text.
pub open spec fn found_forward(v: Seq<TorrentInfo>, needle: Seq<char>, start: int, r: Option<usize>) -> bool {
    match r {
        Some(i) => start <= i < v.len() && has_substring(v[i as int].name@, needle) && forall|j: int|
            start <= j < i ==> !has_substring(#[trigger] v[j].name@, needle),
        None => forall|j: int| start <= j < v.len() ==> !has_substring(#[trigger] v[j].name@, needle),
    }
}

/// A search backward from row `top - 1` down to the first row.
pub open spec fn found_backward(v: Seq<TorrentInfo>, needle: Seq<char>, top: int, r: Option<usize>) -> bool {
    match r {
        Some(i) => 0 <= i < top && has_substring(v[i as int].name@, needle) && forall|j: int|
            i < j < top ==> !has_substring(#[trigger] v[j].name@, needle),
        None => forall|j: int| 0 <= j < top ==> !has_substring(#[trigger] v[j].name@, needle),
    }
}

/// Where a find starts: forward from the row before the origin, backward
/// from the origin (or the last row).
pub open spec fn find_result(v: Seq<TorrentInfo>, needle: Seq<char>, forward: bool, origin: usize, r: Option<usize>) -> bool {
    if forward {
        found_forward(v, needle, if origin > 0 { origin - 1 } else { 0 }, r)
    } else {
        found_backward(v, needle, if origin < v.len() { origin + 1 } else { v.len() as int }, r)
    }
}

/// The row a find for `needle` lands on, starting at `origin`.
pub fn find_match(v: &Vec<TorrentInfo>, needle: &str, forward: bool, origin: usize) -> (r: Option<usize>)
    ensures
        find_result(v@, needle@, forward, origin, r),
{
    if forward {
        let mut i: usize = if origin > 0 { origin - 1 } else { 0 };
        let ghost start = i as int;
        while i < v.len()
            invariant
                forward,
                start <= i,
                start == if origin > 0 { origin - 1 } else { 0 },
                forall|j: int| start <= j < i ==> !has_substring(#[trigger] v@[j].name@, needle@),
            decreases v@.len() - i,
        {
            if contains_text(v[i].name.as_str(), needle) {
                return Some(i);
            }
            i = i + 1;
        }
        None
    } else {
        let top: usize = if origin < v.len() { origin + 1 } else { v.len() };
        let mut i: usize = top;
        while i > 0
            invariant
                !forward,
                i <= top <= v@.len(),
                top == if origin < v@.len() { origin + 1 } else { v@.len() as int },
                forall|j: int| i <= j < top ==> !has_substring(#[trigger] v@[j].name@, needle@),
            decreases i,
        {
            if contains_text(v[i - 1].name.as_str(), needle) {
                return Some(i - 1);
            }
            i = i - 1;
        }
        None
    }
}

fn key_taken_exec(m: &Vec<(String, char, usize)>, c: char) -> (b: bool)
    ensures
        b == key_taken(m@, c),
{
    let mut l: usize = 0;
    while l < m.len()
        invariant
            l <= m@.len(),
            forall|j: int| 0 <= j < l ==> m@[j].1 != c,
        decreases m@.len() - l,
    {
        if m[l].1 == c {
            return true;
        }
        l = l + 1;
    }
    false
}

/// The first position at or after `i` of `label` whose character no entry
/// of `m` has taken, or -1.
pub open spec fn first_free(label: Seq<char>, m: Seq<(String, char, usize)>, i: int) -> int
    decreases label.len() - i,
{
    if i < 0 || i >= label.len() {
        -1
    } else if key_taken(m, label[i]) {
        first_free(label, m, i + 1)
    } else {
        i
    }
}

/// The hotkeys of `folders`, assigned greedily in order: each folder takes
/// the first character of its label that no earlier folder took, or none.
pub open spec fn greedy_keys(folders: Seq<String>, base: Seq<char>) -> Seq<(String, char, usize)>
    decreases folders.len(),
{
    if folders.len() == 0 {
        Seq::empty()
    } else {
        let m = greedy_keys(folders.drop_last(), base);
        let label = folder_label(folders.last()@, base);
        let i = first_free(label, m, 0);
        if i >= 0 {
            m.push((folders.last(), label[i], i as usize))
        } else {
            m
        }
    }
}

/// Assigns each folder a hotkey: walking the folders in name order, each
/// takes the first character of its label that is still free. A folder
/// whose label has no free character gets none.
pub fn folder_keys(folders: &Vec<String>, base_dir: &str) -> (m: Vec<(String, char, usize)>)
    ensures
        m@ == greedy_keys(folders@, base_dir@),
        keys_injective(m@),
        forall|k: int| 0 <= k < m@.len() ==> key_first_free(m@, k, base_dir@),
        forall|k: int| 0 <= k < m@.len() ==> folders@.contains(#[trigger] m@[k].0),
{
    let mut m: Vec<(String, char, usize)> = Vec::new();
    let mut f: usize = 0;
    while f < folders.len()
        invariant
            f <= folders@.len(),
            m@ == greedy_keys(folders@.subrange(0, f as int), base_dir@),
            keys_injective(m@),
            forall|k: int| 0 <= k < m@.len() ==> key_first_free(m@, k, base_dir@),
            forall|k: int| 0 <= k < m@.len() ==> folders@.contains(#[trigger] m@[k].0),
        decreases folders@.len() - f,
    {
        let label = process_folder(folders[f].as_str(), base_dir);
        let cs = chars_of(label.as_str());
        proof {
            assert(folders@.subrange(0, f + 1).drop_last() == folders@.subrange(0, f as int));
            assert(folders@.subrange(0, f + 1).last() == folders@[f as int]);
        }
        let mut i: usize = 0;
        while i < cs.len() && key_taken_exec(&m, cs[i])
            invariant
                i <= cs@.len(),
                forall|j: int| 0 <= j < i ==> key_taken(m@, #[trigger] cs@[j]),
                first_free(cs@, m@, 0) == first_free(cs@, m@, i as int),
            decreases cs@.len() - i,
        {
            i = i + 1;
        }
        if i < cs.len() {
            let ghost old_m = m@;
            let c = cs[i];
            m.push((folders[f].clone(), c, i));
            proof {
                assert(m@.subrange(0, old_m.len() as int) == old_m);
                assert forall|k: int| 0 <= k < m@.len() implies key_first_free(m@, k, base_dir@) by {
                    if k < old_m.len() {
                        assert(m@.subrange(0, k) == old_m.subrange(0, k));
                        assert(m@[k] == old_m[k]);
                        assert(key_first_free(old_m, k, base_dir@));
                    } else {
                        assert(m@[k].0@ == folders@[f as int]@);
                        assert(m@.subrange(0, k) == old_m);
                        assert(cs@ == folder_label(m@[k].0@, base_dir@));
                        assert(m@[k].2 == i && m@[k].1 == cs@[i as int]);
                        assert forall|j: int| 0 <= j < m@[k].2 implies key_taken(m@.subrange(0, k), #[trigger] folder_label(m@[k].0@, base_dir@)[j]) by {
                            assert(key_taken(old_m, cs@[j]));
                        }
                    }
                }
                assert forall|k: int, l: int| 0 <= k < l < m@.len() implies m@[k].1 != m@[l].1 by {
                    if l == old_m.len() {
                        if m@[k].1 == c {
                            assert(key_taken(old_m, c));
                        }
                    }
                }
                assert(folders@.contains(folders@[f as int]));
            }
        }
        f = f + 1;
    }
    assert(folders@.subrange(0, folders@.len() as int) == folders@);
    m
}

fn clone_filter(f: &Filter) -> (r: Filter)
    ensures
        r == *f,
{
    match f {
        Filter::ByStatus(s) => Filter::ByStatus(*s),
        Filter::ByDirectory(d) => Filter::ByDirectory(d.clone()),
        Filter::Recent => Filter::Recent,
        Filter::Active => Filter::Active,
        Filter::All => Filter::All,
        Filter::Search(t) => Filter::Search(t.clone()),
        Filter::Error => Filter::Error,
    }
}

/// The interface's model: the table, the derived list and everything the
/// renderer draws, and the modal state.
pub struct App {
    pub transition: Transition,
    pub prev_transition: Transition,
    pub torrents: TorrentTable,
    pub filtered_torrents: Vec<TorrentInfo>,
    /// Row highlighted in the main list.
    pub selected_index: Option<usize>,
    pub selected: Option<TorrentInfo>,
    /// Row highlighted in the filter list.
    pub filter_index: Option<usize>,
    pub free_space: u64,
    pub stats: SessionStats,
    pub groups: TorrentGroupStats,
    pub folder_mapping: Vec<(String, char, usize)>,
    pub current_filter: Filter,
    pub upload_data: Vec<u64>,
    pub num_active: usize,
    /// Ids the last partial update reported as recently active.
    pub active_ids: Vec<i64>,
    pub input: String,
    pub config: Config,
    pub err: Option<(String, String)>,
    pub sort_func: SortFunction,
    pub connection_idx: usize,
}

impl App {
    pub open spec fn wf(&self) -> bool {
        &&& self.torrents.wf()
        &&& self.connection_idx < self.config.connections@.len()
    }

    pub fn new(config: Config) -> (app: App)
        requires
            config.connections@.len() > 0,
        ensures
            app.wf(),
            app.transition == Transition::MainScreen,
            app.prev_transition == Transition::MainScreen,
            app.torrents@.len() == 0,
            app.filtered_torrents@.len() == 0,
            app.selected is None && app.selected_index is None,
            app.current_filter is Recent,
            app.sort_func.func == SortKey::DateAdded,
            app.sort_func.name@ == "Date Added"@,
            app.err is None,
            app.connection_idx == 0,
            app.config == config,
    {
        App {
            transition: Transition::MainScreen,
            prev_transition: Transition::MainScreen,
            torrents: TorrentTable::new(),
            filtered_torrents: Vec::new(),
            selected_index: None,
            selected: None,
            filter_index: None,
            free_space: 0,
            stats: SessionStats::empty(),
            groups: TorrentGroupStats::empty(),
            folder_mapping: Vec::new(),
            current_filter: Filter::Recent,
            upload_data: Vec::new(),
            num_active: 0,
            active_ids: Vec::new(),
            input: String::new(),
            config,
            err: None,
            sort_func: SortFunction { name: String::from_str("Date Added"), func: SortKey::DateAdded },
            connection_idx: 0,
        }
    }

    /// Forgets everything learnt from the service, for a switch of connection.
    pub fn reset(&mut self)
        requires
            old(self).wf(),
        ensures
            final(self).wf(),
            final(self).transition == Transition::MainScreen,
            final(self).torrents@.len() == 0,
            final(self).filtered_torrents@.len() == 0,
            final(self).selected is None && final(self).selected_index is None,
            final(self).current_filter is Recent,
            final(self).folder_mapping@.len() == 0,
            final(self).upload_data@.len() == 0,
            final(self).err is None,
            final(self).input@.len() == 0,
            final(self).config == old(self).config,
            final(self).connection_idx == old(self).connection_idx,
    {
        self.transition = Transition::MainScreen;
        self.prev_transition = Transition::MainScreen;
        self.filter_index = None;
        self.selected_index = None;
        self.torrents = TorrentTable::new();
        self.filtered_torrents = Vec::new();
        self.free_space = 0;
        self.stats = SessionStats::empty();
        self.groups = TorrentGroupStats::empty();
        self.selected = None;
        self.folder_mapping = Vec::new();
        self.upload_data = Vec::new();
        self.num_active = 0;
        self.active_ids = Vec::new();
        self.input = String::new();
        self.current_filter = Filter::Recent;
        self.err = None;
    }

    /// Selects the first row and asks for its details; with an empty list
    /// the selection is cleared and the worker told so.
    pub fn select_first_torrent(&mut self) -> (cmds: Vec<TorrentCmd>)
        ensures
            selects_first(old(self).filtered_torrents@, final(self).selected_index, final(self).selected, cmds@),
            *final(self) == (App { selected_index: final(self).selected_index, selected: final(self).selected, ..*old(self) }),
    {
        let mut cmds: Vec<TorrentCmd> = Vec::new();
        if self.filtered_torrents.len() > 0 {
            self.selected_index = Some(0);
            self.selected = Some(self.filtered_torrents[0].duplicate());
            cmds.push(TorrentCmd::GetDetails(self.filtered_torrents[0].id));
        } else {
            self.selected_index = None;
            self.selected = None;
            cmds.push(TorrentCmd::Select(None));
        }
        cmds
    }

    /// Rebuilds the main list from the table under the current filter and order.
    pub fn refresh_view(&mut self)
        requires
            old(self).wf(),
        ensures
            final(self).wf(),
            view_of(
                old(self).torrents@,
                old(self).current_filter,
                old(self).active_ids@,
                old(self).sort_func.func,
                final(self).filtered_torrents@,
            ),
            *final(self) == (App { filtered_torrents: final(self).filtered_torrents, ..*old(self) }),
    {
        let mut v = match &self.current_filter {
            Filter::Recent => self.torrents.most_recent(RECENT_LIMIT),
            f => filter_entries(self.torrents.entries(), f, &self.active_ids),
        };
        sort_torrents(&mut v, self.sort_func.func);
        self.filtered_torrents = v;
    }

    /// Makes `f` the active filter and rebuilds the list at once; the table
    /// itself is left as it is. The first row is selected.
    pub fn set_filter(&mut self, f: Filter) -> (cmds: Vec<TorrentCmd>)
        requires
            old(self).wf(),
        ensures
            final(self).wf(),
            final(self).torrents@ == old(self).torrents@,
            final(self).current_filter == f,
            view_of(old(self).torrents@, f, old(self).active_ids@, old(self).sort_func.func, final(self).filtered_torrents@),
            selects_first(final(self).filtered_torrents@, final(self).selected_index, final(self).selected, cmds@),
            *final(self) == (App {
                current_filter: f,
                filtered_torrents: final(self).filtered_torrents,
                selected_index: final(self).selected_index,
                selected: final(self).selected,
                ..*old(self)
            }),
    {
        self.current_filter = f;
        self.refresh_view();
        self.select_first_torrent()
    }

    /// Reorders the main list by `sort`; which rows it holds does not change.
    pub fn set_sort(&mut self, sort: SortFunction)
        requires
            old(self).wf(),
        ensures
            final(self).wf(),
            final(self).filtered_torrents@ == sort_desc(old(self).filtered_torrents@, sort.func),
            final(self).filtered_torrents@.to_multiset() == old(self).filtered_torrents@.to_multiset(),
            *final(self) == (App { filtered_torrents: final(self).filtered_torrents, sort_func: sort, ..*old(self) }),
    {
        proof {
            lemma_sort_permutes(self.filtered_torrents@, sort.func);
        }
        sort_torrents(&mut self.filtered_torrents, sort.func);
        self.sort_func = sort;
    }

    /// Keeps the first error until a successful update clears it.
    pub fn on_failure(&mut self, msg: String, details: String)
        ensures
            old(self).err is None ==> final(self).err == Some((msg, details)),
            old(self).err is Some ==> final(self).err == old(self).err,
            *final(self) == (App { err: final(self).err, ..*old(self) }),
    {
        if self.err.is_none() {
            self.err = Some((msg, details));
        }
    }

    /// The service's settings arrived: a connection without a download
    /// directory of its own takes the service's.
    pub fn on_session(&mut self, session: &Session)
        requires
            old(self).wf(),
        ensures
            final(self).wf(),
            final(self).config.connections@[old(self).connection_idx as int].download_dir@ == if old(self).config.connections@[old(self).connection_idx as int].download_dir@.len() == 0 {
                session.download_dir@
            } else {
                old(self).config.connections@[old(self).connection_idx as int].download_dir@
            },
            final(self).torrents == old(self).torrents,
            final(self).connection_idx == old(self).connection_idx,
    {
        let idx = self.connection_idx;
        if self.config.connections[idx].download_dir.unicode_len() == 0 {
            let mut c = self.config.connections[idx].clone();
            c.download_dir = session.download_dir.clone();
            self.config.connections.set(idx, c);
        }
    }

    /// A full table arrived: it replaces the table and the group counts, and
    /// the first data tick is asked for. A malformed batch changes nothing
    /// but the error shown.
    pub fn on_full(&mut self, table: &Vec<Vec<RawField>>) -> (cmds: Vec<TorrentCmd>)
        requires
            old(self).wf(),
        ensures
            final(self).wf(),
            !crate::table::batch_ok(table@) ==> final(self).filtered_torrents == old(self).filtered_torrents
                && final(self).selected_index == old(self).selected_index,
            crate::table::batch_ok(table@) ==> view_of(
                final(self).torrents@,
                final(self).current_filter,
                final(self).active_ids@,
                final(self).sort_func.func,
                final(self).filtered_torrents@,
            ),
            crate::table::batch_ok(table@) ==> cmds@.last() == TorrentCmd::Tick(0),
            crate::table::batch_ok(table@) && final(self).filtered_torrents@.len() == 0 ==> cmds@.len() == 1
                && final(self).selected is None && final(self).selected_index is None,
            crate::table::batch_ok(table@) && final(self).filtered_torrents@.len() > 0 ==> match old(self).selected_index {
                Some(i) if i < final(self).filtered_torrents@.len() => cmds@.len() == 1 && final(self).selected_index
                    == Some(i),
                _ => cmds@.len() == 2 && selects_first(
                    final(self).filtered_torrents@,
                    final(self).selected_index,
                    final(self).selected,
                    cmds@.subrange(0, 1),
                ),
            },
            crate::table::batch_ok(table@) ==> stats_of(final(self).torrents@, final(self).groups)
                && exists|v: Seq<TorrentInfo>|
                crate::table::batch_decodes_to(table@, v) && final(self).torrents@ == crate::table::place_all(
                    Seq::<TorrentInfo>::empty(),
                    v,
                ),
            !crate::table::batch_ok(table@) ==> final(self).torrents@ == old(self).torrents@ && cmds@.len() == 0,
    {
        let mut cmds: Vec<TorrentCmd> = Vec::new();
        let ghost before = self.torrents@;
        match self.torrents.apply_full(table) {
            Ok(()) => {
                self.groups = update_torrent_stats(self.torrents.entries());
                self.filter_index = Some(0);
                self.refresh_view();
                if self.filtered_torrents.len() == 0 {
                    self.selected_index = None;
                    self.selected = None;
                } else {
                    let stale = match self.selected_index {
                        Some(i) => i >= self.filtered_torrents.len(),
                        None => true,
                    };
                    if stale {
                        cmds = self.select_first_torrent();
                    }
                }
                let ghost first = cmds@;
                cmds.push(TorrentCmd::Tick(0));
                assert(cmds@.subrange(0, first.len() as int) == first);
            },
            Err(_) => {
                self.on_failure(
                    String::from_str("Malformed data"),
                    String::from_str("The service sent a torrent table of an unexpected shape."),
                );
            },
        }
        cmds
    }

    /// A partial update arrived. The batch is decoded first: a malformed one
    /// changes nothing but the error shown. Otherwise the error is cleared,
    /// statistics are taken in, removed ids leave the table, updated rows are
    /// merged, the group counts and the list are rebuilt, and the first row
    /// is selected when nothing valid is.
    pub fn on_partial(
        &mut self,
        torrents: &Vec<Vec<RawField>>,
        removed: &Vec<i64>,
        session_stats: Option<SessionStats>,
        free_space: Option<FreeSpace>,
    ) -> (cmds: Vec<TorrentCmd>)
        requires
            old(self).wf(),
        ensures
            final(self).wf(),
            !crate::table::batch_ok(torrents@) ==> final(self).torrents@ == old(self).torrents@
                && final(self).filtered_torrents == old(self).filtered_torrents && cmds@.len() == 0,
            crate::table::batch_ok(torrents@) ==> {
                &&& final(self).err is None
                &&& exists|v: Seq<TorrentInfo>|
                    crate::table::batch_decodes_to(torrents@, v) && final(self).torrents@
                        == crate::table::upsert_all(crate::table::without_ids(old(self).torrents@, removed@), v)
                &&& stats_of(final(self).torrents@, final(self).groups)
                &&& view_of(
                    final(self).torrents@,
                    final(self).current_filter,
                    final(self).active_ids@,
                    final(self).sort_func.func,
                    final(self).filtered_torrents@,
                )
                &&& final(self).current_filter == old(self).current_filter
                &&& final(self).num_active == if torrents@.len() == 0 { 0 } else { torrents@.len() - 1 }
                &&& session_stats matches Some(st) ==> final(self).stats == st && final(self).upload_data@ == with_sample(
                    old(self).upload_data@,
                    if old(self).config.traffic_monitor == TrafficMonitorOptions::Download {
                        st.download_speed
                    } else {
                        st.upload_speed
                    },
                )
                &&& session_stats is None ==> final(self).upload_data == old(self).upload_data
                &&& free_space matches Some(f) ==> final(self).free_space == f.size_bytes
                &&& match old(self).selected_index {
                    Some(i) if i < final(self).filtered_torrents@.len() => cmds@.len() == 0
                        && final(self).selected_index == Some(i),
                    _ => selects_first(final(self).filtered_torrents@, final(self).selected_index, final(self).selected, cmds@),
                }
            },
    {
        let decoded = match decode_batch(torrents) {
            Ok(v) => v,
            Err(_) => {
                self.on_failure(
                    String::from_str("Malformed data"),
                    String::from_str("The service sent a torrent table of an unexpected shape."),
                );
                return Vec::new();
            },
        };
        self.err = None;
        match session_stats {
            Some(s) => {
                let sample = if self.config.traffic_monitor == TrafficMonitorOptions::Download {
                    s.download_speed
                } else {
                    s.upload_speed
                };
                record_sample(&mut self.upload_data, sample);
                self.stats = s;
            },
            None => {},
        }
        match free_space {
            Some(f) => {
                self.free_space = f.size_bytes;
            },
            None => {},
        }
        self.torrents.merge_batch(&decoded, removed);
        let ghost merged_table = self.torrents@;
        self.num_active = decoded.len();
        let mut ids: Vec<i64> = Vec::new();
        let mut k: usize = 0;
        while k < decoded.len()
            invariant
                k <= decoded@.len(),
                ids@.len() == k,
            decreases decoded@.len() - k,
        {
            ids.push(decoded[k].id);
            k = k + 1;
        }
        self.active_ids = ids;
        self.groups = update_torrent_stats(self.torrents.entries());
        self.refresh_view();
        assert(crate::table::batch_decodes_to(torrents@, decoded@) && merged_table
            == crate::table::upsert_all(crate::table::without_ids(old(self).torrents@, removed@), decoded@));
        let stale = match self.selected_index {
            Some(i) => i >= self.filtered_torrents.len(),
            None => true,
        };
        if stale {
            self.select_first_torrent()
        } else {
            Vec::new()
        }
    }

    /// The row highlighted in the main list, if it exists.
    pub fn highlighted(&self) -> (r: Option<&TorrentInfo>)
        ensures
            r matches Some(t) ==> self.selected_index matches Some(i) && i < self.filtered_torrents@.len()
                && *t == self.filtered_torrents@[i as int],
            r is None ==> !(self.selected_index matches Some(i) && i < self.filtered_torrents@.len()),
    {
        match self.selected_index {
            Some(i) => {
                if i < self.filtered_torrents.len() {
                    Some(&self.filtered_torrents[i])
                } else {
                    None
                }
            },
            None => None,
        }
    }

    fn select_row(&mut self, i: usize) -> (cmds: Vec<TorrentCmd>)
        requires
            i < old(self).filtered_torrents@.len(),
        ensures
            final(self).selected_index == Some(i),
            final(self).selected == Some(old(self).filtered_torrents@[i as int]),
            cmds@ == seq![TorrentCmd::GetDetails(old(self).filtered_torrents@[i as int].id)],
            *final(self) == (App { selected_index: final(self).selected_index, selected: final(self).selected, ..*old(self) }),
    {
        self.selected_index = Some(i);
        self.selected = Some(self.filtered_torrents[i].duplicate());
        let mut cmds: Vec<TorrentCmd> = Vec::new();
        cmds.push(TorrentCmd::GetDetails(self.filtered_torrents[i].id));
        assert(cmds@ =~= seq![TorrentCmd::GetDetails(old(self).filtered_torrents@[i as int].id)]);
        cmds
    }

    /// Moves the highlight one row down, wrapping to the first row.
    pub fn move_down(&mut self) -> (cmds: Vec<TorrentCmd>)
        requires
            old(self).wf(),
        ensures
            final(self).wf(),
            final(self).torrents == old(self).torrents,
            final(self).filtered_torrents == old(self).filtered_torrents,
            match old(self).selected_index {
                Some(s) if s + 1 < old(self).filtered_torrents@.len() => final(self).selected_index == Some(
                    (s + 1) as usize,
                ) && cmds@ == seq![TorrentCmd::GetDetails(old(self).filtered_torrents@[s + 1].id)],
                _ => selects_first(old(self).filtered_torrents@, final(self).selected_index, final(self).selected, cmds@),
            },
    {
        match self.selected_index {
            Some(s) => {
                if s < self.filtered_torrents.len() && s + 1 < self.filtered_torrents.len() {
                    self.select_row(s + 1)
                } else {
                    self.select_first_torrent()
                }
            },
            None => self.select_first_torrent(),
        }
    }

    /// Moves the highlight one row up, wrapping to the last row.
    pub fn move_up(&mut self) -> (cmds: Vec<TorrentCmd>)
        requires
            old(self).wf(),
        ensures
            final(self).wf(),
            final(self).torrents == old(self).torrents,
            final(self).filtered_torrents == old(self).filtered_torrents,
            old(self).filtered_torrents@.len() == 0 ==> final(self).selected is None
                && cmds@ == seq![TorrentCmd::Select(None)],
            old(self).filtered_torrents@.len() > 0 ==> match old(self).selected_index {
                Some(s) => {
                    let cur = if s < old(self).filtered_torrents@.len() { s as int } else { old(self).filtered_torrents@.len() as int };
                    let to = if cur > 0 { cur - 1 } else { old(self).filtered_torrents@.len() - 1 };
                    final(self).selected_index == Some(to as usize) && cmds@ == seq![
                        TorrentCmd::GetDetails(old(self).filtered_torrents@[to].id),
                    ]
                },
                None => selects_first(old(self).filtered_torrents@, final(self).selected_index, final(self).selected, cmds@),
            },
    {
        let n = self.filtered_torrents.len();
        if n == 0 {
            self.selected = None;
            let mut cmds: Vec<TorrentCmd> = Vec::new();
            cmds.push(TorrentCmd::Select(None));
            assert(cmds@ =~= seq![TorrentCmd::Select(None)]);
            return cmds;
        }
        match self.selected_index {
            Some(s) => {
                let cur = if s < n { s } else { n };
                if cur > 0 {
                    self.select_row(cur - 1)
                } else {
                    self.select_row(n - 1)
                }
            },
            None => self.select_first_torrent(),
        }
    }

    /// A find keystroke: the search text is updated and the highlight moves
    /// to the row the find lands on, if any.
    pub fn find_step(&mut self, key: Key, forward: bool, origin: usize)
        requires
            old(self).wf(),
            key is Char || key is Backspace,
        ensures
            final(self).wf(),
            final(self).input@ == match key {
                Key::Char(c) => old(self).input@.push(c),
                _ => if old(self).input@.len() > 0 { old(self).input@.drop_last() } else { old(self).input@ },
            },
            exists|r: Option<usize>| find_result(old(self).filtered_torrents@, final(self).input@, forward, origin, r)
                && final(self).selected_index == match r {
                Some(i) => Some(i),
                None => old(self).selected_index,
            },
            final(self).torrents == old(self).torrents,
            final(self).filtered_torrents == old(self).filtered_torrents,
            final(self).transition == old(self).transition,
            final(self).config == old(self).config,
            final(self).connection_idx == old(self).connection_idx,
    {
        match key {
            Key::Char(c) => push_char(&mut self.input, c),
            _ => pop_char(&mut self.input),
        }
        let found = find_match(&self.filtered_torrents, self.input.as_str(), forward, origin);
        match found {
            Some(i) => {
                self.selected_index = Some(i);
            },
            None => {},
        }
    }

    /// Handles a key in the modal state the interface is in. `q` quits
    /// everywhere (`None`); otherwise the mode's handler runs and its
    /// commands for the worker come back. In the file tree only Esc and `d`
    /// are handled here; its movement keys belong to the tree widget.
    pub fn handle_key(&mut self, key: Key) -> (r: Option<Vec<TorrentCmd>>)
        requires
            old(self).wf(),
        ensures
            final(self).wf(),
            r is None <==> key == Key::Char('q'),
            r is None ==> *final(self) == *old(self),
            r matches Some(c) ==> key_post(*old(self), *final(self), key, c@),
    {
        if key == Key::Char('q') {
            return None;
        }
        let cmds = match self.transition {
            Transition::MainScreen => self.main_screen_key(key),
            Transition::Action => self.action_key(key),
            Transition::Filter => self.filter_key(key),
            Transition::Help => {
                if key == Key::F(1) || key == Key::Esc {
                    self.transition = self.prev_transition;
                }
                Vec::new()
            },
            Transition::Find(forward, origin) => self.find_key(key, forward, origin),
            Transition::Search => self.search_key(key),
            Transition::Move => self.move_key(key),
            Transition::ConfirmRemove(with_data) => self.confirm_remove_key(key, with_data),
            Transition::Files => {
                if key == Key::Esc || key == Key::Char('d') {
                    self.transition = Transition::MainScreen;
                }
                Vec::new()
            },
            Transition::ChooseSortFunc => self.sort_choice_key(key),
            Transition::Connection => self.connection_key(key),
        };
        Some(cmds)
    }

    /// Keys of the main list.
    pub fn main_screen_key(&mut self, key: Key) -> (cmds: Vec<TorrentCmd>)
        requires
            old(self).wf(),
        ensures
            final(self).wf(),
            main_screen_post(*old(self), *final(self), key, cmds@),
    {
        let mut cmds: Vec<TorrentCmd> = Vec::new();
        match key {
            Key::Char(' ') => {
                if self.selected.is_some() {
                    self.transition = Transition::Action;
                }
            },
            Key::F(1) => {
                self.prev_transition = self.transition;
                self.transition = Transition::Help;
            },
            Key::Char('c') => {
                self.transition = Transition::Connection;
            },
            Key::Down | Key::Char('j') => {
                cmds = self.move_down();
            },
            Key::Up | Key::Char('k') => {
                cmds = self.move_up();
            },
            Key::Char('f') => {
                calculate_folder_keys(self, None);
                self.transition = Transition::Filter;
            },
            Key::Char('s') => {
                self.transition = Transition::Search;
            },
            Key::Char('/') => {
                self.input = String::new();
                self.transition = Transition::Find(true, self.selected_index.unwrap_or(0));
            },
            Key::Char('?') => {
                self.input = String::new();
                self.transition = Transition::Find(false, self.selected_index.unwrap_or(0));
            },
            Key::Char('d') => {
                self.transition = Transition::Files;
            },
            Key::Char('S') => {
                self.transition = Transition::ChooseSortFunc;
            },
            Key::Esc => {
                if matches!(self.current_filter, Filter::Search(_)) {
                    cmds = self.set_filter(Filter::Recent);
                }
            },
            _ => {},
        }
        cmds
    }

    fn on_highlighted(&self, make: Key) -> (cmds: Vec<TorrentCmd>)
        ensures
            match self.highlighted_spec() {
                Some(t) => cmds@.len() == 1 && action_cmd(make, t.id, cmds@[0]),
                None => cmds@.len() == 0,
            },
    {
        let mut cmds: Vec<TorrentCmd> = Vec::new();
        match self.highlighted() {
            Some(t) => {
                let mut ids: Vec<i64> = Vec::new();
                ids.push(t.id);
                let c = match make {
                    Key::Char('s') => TorrentCmd::Start(ids),
                    Key::Char('S') => TorrentCmd::StartNow(ids),
                    Key::Char('p') => TorrentCmd::Stop(ids),
                    Key::Char('v') => TorrentCmd::Verify(ids),
                    Key::Char('k') => TorrentCmd::QueueMoveUp(ids),
                    Key::Char('j') => TorrentCmd::QueueMoveDown(ids),
                    Key::Char('K') => TorrentCmd::QueueMoveTop(ids),
                    _ => TorrentCmd::QueueMoveBottom(ids),
                };
                cmds.push(c);
            },
            None => {},
        }
        cmds
    }

    pub open spec fn highlighted_spec(&self) -> Option<TorrentInfo> {
        match self.selected_index {
            Some(i) => if i < self.filtered_torrents@.len() {
                Some(self.filtered_torrents@[i as int])
            } else {
                None
            },
            None => None,
        }
    }

    /// Keys of the action menu of the highlighted torrent.
    pub fn action_key(&mut self, key: Key) -> (cmds: Vec<TorrentCmd>)
        requires
            old(self).wf(),
        ensures
            final(self).wf(),
            action_post(*old(self), *final(self), key, cmds@),
    {
        let mut cmds: Vec<TorrentCmd> = Vec::new();
        match key {
            Key::Char(' ') | Key::Esc => {
                self.transition = Transition::MainScreen;
            },
            Key::Char('s') | Key::Char('S') | Key::Char('p') | Key::Char('v') | Key::Char('k') | Key::Char('j')
            | Key::Char('K') | Key::Char('J') => {
                cmds = self.on_highlighted(key);
                self.transition = Transition::MainScreen;
            },
            Key::Char('m') => {
                let dir = match self.highlighted() {
                    Some(t) => Some(t.download_dir.clone()),
                    None => None,
                };
                match dir {
                    Some(d) => {
                        calculate_folder_keys(self, Some(d));
                        self.transition = Transition::Move;
                    },
                    None => {},
                }
            },
            Key::Char('x') => {
                self.transition = Transition::ConfirmRemove(false);
            },
            Key::Char('X') => {
                self.transition = Transition::ConfirmRemove(true);
            },
            Key::Char(c) => {
                let target = match self.highlighted() {
                    Some(t) => Some(t.id),
                    None => None,
                };
                match target {
                    Some(id) => {
                        let mut idx: usize = 0;
                        while idx < self.config.actions.len()
                            invariant_except_break
                                cmds@.len() == 0,
                            invariant
                                idx <= self.config.actions@.len(),
                                forall|m: int| 0 <= m < idx ==> !shortcut_starts(#[trigger] self.config.actions@[m], c),
                            ensures
                                cmds@.len() <= 1,
                                cmds@.len() == 0 ==> forall|m: int|
                                    0 <= m < self.config.actions@.len() ==> !shortcut_starts(#[trigger] self.config.actions@[m], c),
                                cmds@.len() == 1 ==> first_action(self.config.actions@, c, id, cmds@[0]),
                            decreases self.config.actions@.len() - idx,
                        {
                            let sc = chars_of(self.config.actions[idx].shortcut.as_str());
                            if sc.len() > 0 && sc[0] == c {
                                cmds.push(TorrentCmd::Action(id, idx));
                                break;
                            }
                            idx = idx + 1;
                        }
                    },
                    None => {},
                }
                self.transition = Transition::MainScreen;
            },
            _ => {},
        }
        cmds
    }

    /// Keys of the filter menu: a folder hotkey filters by that folder, the
    /// status letters by status; the list is rebuilt and its first row
    /// selected.
    pub fn filter_key(&mut self, key: Key) -> (cmds: Vec<TorrentCmd>)
        requires
            old(self).wf(),
        ensures
            final(self).wf(),
            filter_post(*old(self), *final(self), key, cmds@),
    {
        match key {
            Key::Esc => {
                self.transition = Transition::MainScreen;
                Vec::new()
            },
            Key::Char(c) => {
                let mut found: Option<usize> = None;
                let mut k: usize = 0;
                while k < self.folder_mapping.len()
                    invariant_except_break
                        found is None,
                    invariant
                        k <= self.folder_mapping@.len(),
                        forall|m: int| 0 <= m < k ==> self.folder_mapping@[m].1 != c,
                    ensures
                        found matches Some(j) ==> first_key_entry(self.folder_mapping@, c, j as int),
                        found is None ==> forall|m: int| 0 <= m < self.folder_mapping@.len() ==> self.folder_mapping@[m].1 != c,
                    decreases self.folder_mapping@.len() - k,
                {
                    if self.folder_mapping[k].1 == c {
                        found = Some(k);
                        break;
                    }
                    k = k + 1;
                }
                match found {
                    Some(j) => {
                        let dir = self.folder_mapping[j].0.clone();
                        self.transition = Transition::MainScreen;
                        self.filter_index = if j <= usize::MAX - 12 { Some(12 + j) } else { None };
                        self.set_filter(Filter::ByDirectory(dir))
                    },
                    None => {
                        let (f, row) = match c {
                            'R' => (Some(Filter::Recent), 0usize),
                            'A' => (Some(Filter::Active), 1),
                            'P' => (Some(Filter::ByStatus(TorrentStatus::Paused)), 2),
                            'G' => (Some(Filter::ByStatus(TorrentStatus::VerifyQueued)), 3),
                            'C' => (Some(Filter::ByStatus(TorrentStatus::Verifying)), 4),
                            'Q' => (Some(Filter::ByStatus(TorrentStatus::DownQueued)), 5),
                            'D' => (Some(Filter::ByStatus(TorrentStatus::Downloading)), 6),
                            'U' => (Some(Filter::ByStatus(TorrentStatus::SeedQueued)), 7),
                            'S' => (Some(Filter::ByStatus(TorrentStatus::Seeding)), 8),
                            'E' => (Some(Filter::Error), 9),
                            'L' => (Some(Filter::All), 10),
                            _ => (None, 0),
                        };
                        match f {
                            Some(f) => {
                                self.transition = Transition::MainScreen;
                                self.filter_index = Some(row);
                                self.set_filter(f)
                            },
                            None => Vec::new(),
                        }
                    },
                }
            },
            _ => Vec::new(),
        }
    }

    /// Keys while finding in the list. Esc goes back to the row the find
    /// started from; Enter selects the highlighted row.
    pub fn find_key(&mut self, key: Key, forward: bool, origin: usize) -> (cmds: Vec<TorrentCmd>)
        requires
            old(self).wf(),
        ensures
            final(self).wf(),
            find_post(*old(self), *final(self), key, forward, origin, cmds@),
    {
        let mut cmds: Vec<TorrentCmd> = Vec::new();
        match key {
            Key::Esc => {
                self.input = String::new();
                self.transition = Transition::MainScreen;
                self.selected_index = Some(origin);
            },
            Key::Enter => {
                let t = match self.highlighted() {
                    Some(t) => Some(t.duplicate()),
                    None => None,
                };
                match t {
                    Some(t) => {
                        cmds.push(TorrentCmd::GetDetails(t.id));
                        self.selected = Some(t);
                        self.transition = Transition::MainScreen;
                        assert(cmds@ =~= seq![TorrentCmd::GetDetails(old(self).highlighted_spec()->Some_0.id)]);
                    },
                    None => {},
                }
            },
            Key::Char(_) | Key::Backspace => {
                self.find_step(key, forward, origin);
            },
            _ => {},
        }
        cmds
    }

    /// Keys while typing a search; Enter makes the text the filter, Esc
    /// drops a search filter.
    pub fn search_key(&mut self, key: Key) -> (cmds: Vec<TorrentCmd>)
        requires
            old(self).wf(),
        ensures
            final(self).wf(),
            search_post(*old(self), *final(self), key, cmds@),
    {
        let mut cmds: Vec<TorrentCmd> = Vec::new();
        match key {
            Key::Esc => {
                self.input = String::new();
                self.transition = Transition::MainScreen;
                if matches!(self.current_filter, Filter::Search(_)) {
                    cmds = self.set_filter(Filter::Recent);
                }
            },
            Key::Enter => {
                let text = self.input.clone();
                self.transition = Transition::MainScreen;
                cmds = self.set_filter(Filter::Search(text));
            },
            Key::Backspace => {
                pop_char(&mut self.input);
            },
            Key::Char(c) => {
                push_char(&mut self.input, c);
            },
            _ => {},
        }
        cmds
    }

    /// Keys of the move dialog: a folder hotkey moves the highlighted
    /// torrent to the first folder with that key.
    pub fn move_key(&mut self, key: Key) -> (cmds: Vec<TorrentCmd>)
        requires
            old(self).wf(),
        ensures
            final(self).wf(),
            move_post(*old(self), *final(self), key, cmds@),
    {
        let mut cmds: Vec<TorrentCmd> = Vec::new();
        match key {
            Key::Esc => {
                self.transition = Transition::MainScreen;
            },
            Key::Char(c) => {
                let target = match self.highlighted() {
                    Some(t) => Some(t.id),
                    None => None,
                };
                match target {
                    Some(id) => {
                        let mut found: Option<usize> = None;
                        let mut k: usize = 0;
                        while k < self.folder_mapping.len()
                            invariant_except_break
                                found is None,
                            invariant
                                k <= self.folder_mapping@.len(),
                                forall|m: int| 0 <= m < k ==> self.folder_mapping@[m].1 != c,
                            ensures
                                found matches Some(j) ==> first_key_entry(self.folder_mapping@, c, j as int),
                                found is None ==> forall|m: int|
                                    0 <= m < self.folder_mapping@.len() ==> self.folder_mapping@[m].1 != c,
                            decreases self.folder_mapping@.len() - k,
                        {
                            if self.folder_mapping[k].1 == c {
                                found = Some(k);
                                break;
                            }
                            k = k + 1;
                        }
                        match found {
                            Some(j) => {
                                let mut ids: Vec<i64> = Vec::new();
                                ids.push(id);
                                assert(ids@ =~= seq![id]);
                                cmds.push(TorrentCmd::Move(ids, self.folder_mapping[j].0.clone(), false));
                                self.transition = Transition::MainScreen;
                            },
                            None => {},
                        }
                    },
                    None => {},
                }
            },
            _ => {},
        }
        cmds
    }

    /// Keys of the removal confirmation.
    pub fn confirm_remove_key(&mut self, key: Key, with_data: bool) -> (cmds: Vec<TorrentCmd>)
        requires
            old(self).wf(),
        ensures
            final(self).wf(),
            confirm_remove_post(*old(self), *final(self), key, with_data, cmds@),
    {
        let mut cmds: Vec<TorrentCmd> = Vec::new();
        match key {
            Key::Char('n') | Key::Char('N') | Key::Esc => {
                self.transition = Transition::MainScreen;
            },
            Key::Char('y') => {
                match self.highlighted() {
                    Some(t) => {
                        let mut ids: Vec<i64> = Vec::new();
                        ids.push(t.id);
                        assert(ids@ =~= seq![t.id]);
                        cmds.push(TorrentCmd::Delete(ids, with_data));
                    },
                    None => {},
                }
                self.transition = Transition::MainScreen;
            },
            _ => {},
        }
        cmds
    }

    /// Keys of the order chooser.
    pub fn sort_choice_key(&mut self, key: Key) -> (cmds: Vec<TorrentCmd>)
        requires
            old(self).wf(),
        ensures
            final(self).wf(),
            sort_choice_post(*old(self), *final(self), key, cmds@),
    {
        let choice = match key {
            Key::Char('d') => Some(SortFunction { name: String::from_str("Date Added"), func: SortKey::DateAdded }),
            Key::Char('s') => Some(SortFunction { name: String::from_str("by size"), func: SortKey::Size }),
            Key::Char('r') => Some(SortFunction { name: String::from_str("by ratio"), func: SortKey::Ratio }),
            Key::Char('u') => Some(SortFunction { name: String::from_str("by uploaded"), func: SortKey::Uploaded }),
            _ => None,
        };
        match choice {
            Some(sf) => {
                self.set_sort(sf);
                self.transition = Transition::MainScreen;
            },
            None => {
                if key == Key::Esc {
                    self.transition = Transition::MainScreen;
                }
            },
        }
        Vec::new()
    }

    /// Keys of the connection chooser: digit `n` switches to the `n`-th
    /// connection, resetting everything learnt from the old one.
    pub fn connection_key(&mut self, key: Key) -> (cmds: Vec<TorrentCmd>)
        requires
            old(self).wf(),
        ensures
            final(self).wf(),
            connection_post(*old(self), *final(self), key, cmds@),
    {
        let mut cmds: Vec<TorrentCmd> = Vec::new();
        match key {
            Key::Esc => {
                self.transition = Transition::MainScreen;
            },
            Key::Char(c) => {
                if '1' <= c && c <= '9' {
                    let idx = (c as u32 - '1' as u32) as usize;
                    if idx < self.config.connections.len() {
                        self.reset();
                        self.connection_idx = idx;
                        cmds.push(TorrentCmd::Reconnect(idx));
                    }
                }
            },
            _ => {},
        }
        cmds
    }
}

/// `n` is `o` after `set_filter(f)` sent `c`: the table is untouched, the list
/// is rebuilt under `f` and its first row selected.
pub open spec fn set_filter_post(o: App, n: App, f: Filter, c: Seq<TorrentCmd>) -> bool {
    &&& view_of(o.torrents@, f, o.active_ids@, o.sort_func.func, n.filtered_torrents@)
    &&& selects_first(n.filtered_torrents@, n.selected_index, n.selected, c)
    &&& n == (App {
        current_filter: f,
        filtered_torrents: n.filtered_torrents,
        selected_index: n.selected_index,
        selected: n.selected,
        ..o
    })
}

pub open spec fn move_down_post(o: App, n: App, c: Seq<TorrentCmd>) -> bool {
    &&& n.torrents == o.torrents
    &&& n.filtered_torrents == o.filtered_torrents
    &&& match o.selected_index {
        Some(s) if s + 1 < o.filtered_torrents@.len() => n.selected_index == Some((s + 1) as usize)
            && c == seq![TorrentCmd::GetDetails(o.filtered_torrents@[s + 1].id)],
        _ => selects_first(o.filtered_torrents@, n.selected_index, n.selected, c),
    }
}

pub open spec fn move_up_post(o: App, n: App, c: Seq<TorrentCmd>) -> bool {
    &&& n.torrents == o.torrents
    &&& n.filtered_torrents == o.filtered_torrents
    &&& o.filtered_torrents@.len() == 0 ==> n.selected is None && c == seq![TorrentCmd::Select(None)]
    &&& o.filtered_torrents@.len() > 0 ==> match o.selected_index {
        Some(s) => {
            let cur = if s < o.filtered_torrents@.len() { s as int } else { o.filtered_torrents@.len() as int };
            let to = if cur > 0 { cur - 1 } else { o.filtered_torrents@.len() - 1 };
            n.selected_index == Some(to as usize) && c == seq![TorrentCmd::GetDetails(o.filtered_torrents@[to].id)]
        },
        None => selects_first(o.filtered_torrents@, n.selected_index, n.selected, c),
    }
}

/// The keys the main list reacts to.
pub open spec fn is_main_key(key: Key) -> bool {
    key == Key::Char(' ') || key == Key::F(1) || key == Key::Char('c') || key == Key::Down || key == Key::Char('j')
        || key == Key::Up || key == Key::Char('k') || key == Key::Char('f') || key == Key::Char('s') || key
        == Key::Char('/') || key == Key::Char('?') || key == Key::Char('d') || key == Key::Char('S') || key == Key::Esc
}

pub open spec fn main_screen_post(o: App, n: App, key: Key, c: Seq<TorrentCmd>) -> bool {
    &&& n.torrents@ == o.torrents@
    &&& key == Key::Char(' ') ==> c.len() == 0 && n == (App {
        transition: if o.selected is Some { Transition::Action } else { o.transition },
        ..o
    })
    &&& key == Key::F(1) ==> c.len() == 0 && n == (App { transition: Transition::Help, prev_transition: o.transition, ..o })
    &&& key == Key::Char('c') ==> c.len() == 0 && n == (App { transition: Transition::Connection, ..o })
    &&& key == Key::Char('f') ==> c.len() == 0 && n.transition == Transition::Filter && folder_keys_post(
        o,
        App { transition: o.transition, ..n },
        None,
    )
    &&& key == Key::Char('s') ==> c.len() == 0 && n == (App { transition: Transition::Search, ..o })
    &&& key == Key::Char('/') ==> c.len() == 0 && n.input@.len() == 0 && n == (App {
        transition: Transition::Find(true, match o.selected_index { Some(i) => i, None => 0 }),
        input: n.input,
        ..o
    })
    &&& key == Key::Char('?') ==> c.len() == 0 && n.input@.len() == 0 && n == (App {
        transition: Transition::Find(false, match o.selected_index { Some(i) => i, None => 0 }),
        input: n.input,
        ..o
    })
    &&& key == Key::Char('d') ==> c.len() == 0 && n == (App { transition: Transition::Files, ..o })
    &&& key == Key::Char('S') ==> c.len() == 0 && n == (App { transition: Transition::ChooseSortFunc, ..o })
    &&& (key == Key::Down || key == Key::Char('j')) ==> move_down_post(o, n, c)
    &&& (key == Key::Up || key == Key::Char('k')) ==> move_up_post(o, n, c)
    &&& key == Key::Esc ==> if o.current_filter is Search {
        set_filter_post(o, n, Filter::Recent, c)
    } else {
        c.len() == 0 && n == o
    }
    &&& !is_main_key(key) ==> c.len() == 0 && n == o
}

/// The action's shortcut begins with `ch`.
pub open spec fn shortcut_starts(a: Action, ch: char) -> bool {
    a.shortcut@.len() > 0 && a.shortcut@[0] == ch
}

/// `cmd` runs on torrent `id` the first action whose shortcut begins with `ch`.
pub open spec fn first_action(actions: Seq<Action>, ch: char, id: i64, cmd: TorrentCmd) -> bool {
    cmd matches TorrentCmd::Action(i, idx) && i == id && idx < actions.len() && shortcut_starts(actions[idx as int], ch)
        && forall|m: int| 0 <= m < idx ==> !shortcut_starts(#[trigger] actions[m], ch)
}

pub open spec fn action_post(o: App, n: App, key: Key, c: Seq<TorrentCmd>) -> bool {
    &&& n.torrents@ == o.torrents@
    &&& (key == Key::Char(' ') || key == Key::Esc) ==> c.len() == 0 && n == (App { transition: Transition::MainScreen, ..o })
    &&& key == Key::Char('x') ==> c.len() == 0 && n == (App { transition: Transition::ConfirmRemove(false), ..o })
    &&& key == Key::Char('X') ==> c.len() == 0 && n == (App { transition: Transition::ConfirmRemove(true), ..o })
    &&& is_queue_or_run_key(key) ==> n == (App { transition: Transition::MainScreen, ..o }) && match o.highlighted_spec() {
        Some(t) => c.len() == 1 && action_cmd(key, t.id, c[0]),
        None => c.len() == 0,
    }
    &&& key == Key::Char('m') ==> c.len() == 0 && match o.highlighted_spec() {
        Some(t) => n.transition == Transition::Move && folder_keys_post(
            o,
            App { transition: o.transition, ..n },
            Some(t.download_dir),
        ),
        None => n == o,
    }
    &&& (key matches Key::Char(ch) && !is_queue_or_run_key(key) && ch != ' ' && ch != 'm' && ch != 'x' && ch != 'X')
        ==> n == (App { transition: Transition::MainScreen, ..o }) && match o.highlighted_spec() {
        Some(t) => c.len() <= 1 && (c.len() == 1 ==> first_action(o.config.actions@, key->Char_0, t.id, c[0]))
            && (c.len() == 0 ==> forall|m: int|
            0 <= m < o.config.actions@.len() ==> !shortcut_starts(#[trigger] o.config.actions@[m], key->Char_0)),
        None => c.len() == 0,
    }
    &&& !(key is Char) && key != Key::Esc ==> c.len() == 0 && n == o
}

/// Entry `j` is the first of the mapping with hotkey `ch`.
pub open spec fn first_key_entry(m: Seq<(String, char, usize)>, ch: char, j: int) -> bool {
    0 <= j < m.len() && m[j].1 == ch && forall|l: int| 0 <= l < j ==> m[l].1 != ch
}

pub open spec fn filter_post(o: App, n: App, key: Key, c: Seq<TorrentCmd>) -> bool {
    &&& n.torrents@ == o.torrents@
    &&& key == Key::Esc ==> c.len() == 0 && n == (App { transition: Transition::MainScreen, ..o })
    &&& key matches Key::Char(ch) ==> if key_taken(o.folder_mapping@, ch) {
        exists|j: int|
            first_key_entry(o.folder_mapping@, ch, j) && set_filter_post(
                App { transition: Transition::MainScreen, filter_index: n.filter_index, ..o },
                n,
                Filter::ByDirectory(o.folder_mapping@[j].0),
                c,
            )
    } else if status_letter(ch) is Some {
        set_filter_post(
            App { transition: Transition::MainScreen, filter_index: n.filter_index, ..o },
            n,
            status_letter(ch)->Some_0,
            c,
        )
    } else {
        c.len() == 0 && n == o
    }
    &&& !(key is Char) && key != Key::Esc ==> c.len() == 0 && n == o
}

pub open spec fn find_post(o: App, n: App, key: Key, forward: bool, origin: usize, c: Seq<TorrentCmd>) -> bool {
    &&& n.torrents@ == o.torrents@
    &&& key == Key::Esc ==> c.len() == 0 && n.input@.len() == 0 && n == (App {
        transition: Transition::MainScreen,
        selected_index: Some(origin),
        input: n.input,
        ..o
    })
    &&& key == Key::Enter ==> match o.highlighted_spec() {
        Some(t) => c == seq![TorrentCmd::GetDetails(t.id)] && n == (App {
            transition: Transition::MainScreen,
            selected: Some(t),
            ..o
        }),
        None => c.len() == 0 && n == o,
    }
    &&& (key is Char || key is Backspace) ==> {
        &&& c.len() == 0
        &&& n.input@ == match key {
            Key::Char(ch) => o.input@.push(ch),
            _ => if o.input@.len() > 0 { o.input@.drop_last() } else { o.input@ },
        }
        &&& n.transition == o.transition
        &&& n.filtered_torrents == o.filtered_torrents
        &&& exists|r: Option<usize>|
            find_result(o.filtered_torrents@, n.input@, forward, origin, r) && n.selected_index == match r {
                Some(i) => Some(i),
                None => o.selected_index,
            }
    }
    &&& !(key is Char || key is Backspace || key == Key::Esc || key == Key::Enter) ==> c.len() == 0 && n == o
}

pub open spec fn search_post(o: App, n: App, key: Key, c: Seq<TorrentCmd>) -> bool {
    &&& n.torrents@ == o.torrents@
    &&& key == Key::Esc ==> n.input@.len() == 0 && n.transition == Transition::MainScreen && if o.current_filter is Search {
        set_filter_post(App { transition: Transition::MainScreen, input: n.input, ..o }, n, Filter::Recent, c)
    } else {
        c.len() == 0 && n == (App { transition: Transition::MainScreen, input: n.input, ..o })
    }
    &&& key == Key::Enter ==> set_filter_post(App { transition: Transition::MainScreen, ..o }, n, Filter::Search(o.input), c)
    &&& key == Key::Backspace ==> c.len() == 0 && n.input@ == (if o.input@.len() > 0 { o.input@.drop_last() } else { o.input@ })
        && n == (App { input: n.input, ..o })
    &&& key matches Key::Char(ch) ==> c.len() == 0 && n.input@ == o.input@.push(ch) && n == (App { input: n.input, ..o })
    &&& !(key is Char || key is Backspace || key == Key::Esc || key == Key::Enter) ==> c.len() == 0 && n == o
}

pub open spec fn move_post(o: App, n: App, key: Key, c: Seq<TorrentCmd>) -> bool {
    &&& n.torrents@ == o.torrents@
    &&& key == Key::Esc ==> c.len() == 0 && n == (App { transition: Transition::MainScreen, ..o })
    &&& key matches Key::Char(ch) ==> match o.highlighted_spec() {
        Some(t) => if key_taken(o.folder_mapping@, ch) {
            &&& n == (App { transition: Transition::MainScreen, ..o })
            &&& c.len() == 1
            &&& exists|j: int|
                first_key_entry(o.folder_mapping@, ch, j) && (c[0] matches TorrentCmd::Move(ids, to, false)
                    && ids@ == seq![t.id] && to == o.folder_mapping@[j].0)
        } else {
            c.len() == 0 && n == o
        },
        None => c.len() == 0 && n == o,
    }
    &&& !(key is Char) && key != Key::Esc ==> c.len() == 0 && n == o
}

pub open spec fn confirm_remove_post(o: App, n: App, key: Key, with_data: bool, c: Seq<TorrentCmd>) -> bool {
    &&& n.torrents@ == o.torrents@
    &&& (key == Key::Char('n') || key == Key::Char('N') || key == Key::Esc) ==> c.len() == 0 && n == (App {
        transition: Transition::MainScreen,
        ..o
    })
    &&& key == Key::Char('y') ==> n == (App { transition: Transition::MainScreen, ..o }) && match o.highlighted_spec() {
        Some(t) => c.len() == 1 && (c[0] matches TorrentCmd::Delete(ids, w) && ids@ == seq![t.id] && w == with_data),
        None => c.len() == 0,
    }
    &&& !(key == Key::Char('n') || key == Key::Char('N') || key == Key::Esc || key == Key::Char('y')) ==> c.len() == 0
        && n == o
}

pub open spec fn sort_choice_post(o: App, n: App, key: Key, c: Seq<TorrentCmd>) -> bool {
    &&& c.len() == 0
    &&& n.torrents@ == o.torrents@
    &&& sort_letter(key) matches Some(k) ==> n.transition == Transition::MainScreen && n.sort_func.func == k
        && n.filtered_torrents@ == sort_desc(o.filtered_torrents@, k)
    &&& sort_letter(key) is None ==> if key == Key::Esc {
        n == (App { transition: Transition::MainScreen, ..o })
    } else {
        n == o
    }
}

pub open spec fn connection_post(o: App, n: App, key: Key, c: Seq<TorrentCmd>) -> bool {
    if key == Key::Esc {
        c.len() == 0 && n == (App { transition: Transition::MainScreen, ..o })
    } else if key matches Key::Char(ch) && '1' <= ch <= '9' && (ch as u32 - '1' as u32) < o.config.connections@.len() {
        let idx = (key->Char_0 as u32 - '1' as u32) as usize;
        &&& n.connection_idx == idx
        &&& n.config == o.config
        &&& n.torrents@.len() == 0
        &&& n.filtered_torrents@.len() == 0
        &&& n.selected is None && n.selected_index is None
        &&& n.current_filter is Recent
        &&& n.transition == Transition::MainScreen
        &&& c == seq![TorrentCmd::Reconnect(idx)]
    } else {
        c.len() == 0 && n == o
    }
}

/// What a key does in the mode `o` is in.
pub open spec fn key_post(o: App, n: App, key: Key, c: Seq<TorrentCmd>) -> bool {
    match o.transition {
        Transition::MainScreen => main_screen_post(o, n, key, c),
        Transition::Action => action_post(o, n, key, c),
        Transition::Filter => filter_post(o, n, key, c),
        Transition::Help => c.len() == 0 && if key == Key::F(1) || key == Key::Esc {
            n == (App { transition: o.prev_transition, ..o })
        } else {
            n == o
        },
        Transition::Find(forward, origin) => find_post(o, n, key, forward, origin, c),
        Transition::Search => search_post(o, n, key, c),
        Transition::Move => move_post(o, n, key, c),
        Transition::ConfirmRemove(with_data) => confirm_remove_post(o, n, key, with_data, c),
        Transition::Files => c.len() == 0 && if key == Key::Esc || key == Key::Char('d') {
            n == (App { transition: Transition::MainScreen, ..o })
        } else {
            n == o
        },
        Transition::ChooseSortFunc => sort_choice_post(o, n, key, c),
        Transition::Connection => connection_post(o, n, key, c),
    }
}

/// Folder names that a skip leaves in.
pub open spec fn not_skipped(skip: Option<String>) -> spec_fn(String) -> bool {
    |d: String| match skip {
        Some(k) => d@ != k@,
        None => true,
    }
}

pub open spec fn folder_names(f: Seq<(String, u64)>) -> Seq<String> {
    f.map_values(|p: (String, u64)| p.0)
}

/// No name comes before one it orders after.
pub open spec fn names_ascending(names: Seq<String>) -> bool {
    forall|i: int, j: int| 0 <= i < j < names.len() ==> !lex_lt(names[j]@, names[i]@)
}

/// `n` is `o` with the hotkeys of its folders, less `skip`, in name order.
pub open spec fn folder_keys_post(o: App, n: App, skip: Option<String>) -> bool {
    &&& n == (App { folder_mapping: n.folder_mapping, ..o })
    &&& keys_injective(n.folder_mapping@)
    &&& exists|names: Seq<String>|
        names.to_multiset() == folder_names(o.groups.folders@).filter(not_skipped(skip)).to_multiset()
            && names_ascending(names) && n.folder_mapping@ == greedy_keys(
            names,
            o.config.connections@[o.connection_idx as int].download_dir@,
        )
}

/// Computes the hotkeys of the folders of the current groups, leaving
/// out `skip_folder`: the other folders, in name order, each take the first
/// free character of their label.
pub fn calculate_folder_keys(app: &mut App, skip_folder: Option<String>)
    requires
        old(app).wf(),
    ensures
        final(app).wf(),
        folder_keys_post(*old(app), *final(app), skip_folder),
{
    let ghost fs = folder_names(app.groups.folders@);
    let mut names: Vec<String> = Vec::new();
    let mut k: usize = 0;
    while k < app.groups.folders.len()
        invariant
            k <= app.groups.folders@.len(),
            fs == folder_names(app.groups.folders@),
            names@ == fs.subrange(0, k as int).filter(not_skipped(skip_folder)),
        decreases app.groups.folders@.len() - k,
    {
        proof {
            assert(fs.subrange(0, k + 1) == fs.subrange(0, k as int).push(app.groups.folders@[k as int].0));
            fs.subrange(0, k as int).lemma_filter_push(app.groups.folders@[k as int].0, not_skipped(skip_folder));
        }
        let skip = match &skip_folder {
            Some(s) => same_text(app.groups.folders[k].0.as_str(), s.as_str()),
            None => false,
        };
        if !skip {
            names.push(app.groups.folders[k].0.clone());
        }
        k = k + 1;
    }
    proof {
        assert(fs.subrange(0, fs.len() as int) == fs);
    }
    let ghost unsorted = names@;
    sort_strings(&mut names);
    let base = app.config.connections[app.connection_idx].download_dir.as_str();
    app.folder_mapping = folder_keys(&names, base);
    assert(names@.to_multiset() == fs.filter(not_skipped(skip_folder)).to_multiset());
    assert(names_ascending(names@));
    assert(app.folder_mapping@ == greedy_keys(names@, old(app).config.connections@[old(app).connection_idx as int].download_dir@));
}

/// The filter a status letter of the filter menu stands for.
pub open spec fn status_letter(c: char) -> Option<Filter> {
    if c == 'R' {
        Some(Filter::Recent)
    } else if c == 'A' {
        Some(Filter::Active)
    } else if c == 'P' {
        Some(Filter::ByStatus(TorrentStatus::Paused))
    } else if c == 'G' {
        Some(Filter::ByStatus(TorrentStatus::VerifyQueued))
    } else if c == 'C' {
        Some(Filter::ByStatus(TorrentStatus::Verifying))
    } else if c == 'Q' {
        Some(Filter::ByStatus(TorrentStatus::DownQueued))
    } else if c == 'D' {
        Some(Filter::ByStatus(TorrentStatus::Downloading))
    } else if c == 'U' {
        Some(Filter::ByStatus(TorrentStatus::SeedQueued))
    } else if c == 'S' {
        Some(Filter::ByStatus(TorrentStatus::Seeding))
    } else if c == 'E' {
        Some(Filter::Error)
    } else if c == 'L' {
        Some(Filter::All)
    } else {
        None
    }
}

/// The order a letter of the order chooser stands for.
pub open spec fn sort_letter(k: Key) -> Option<SortKey> {
    if k == Key::Char('d') {
        Some(SortKey::DateAdded)
    } else if k == Key::Char('s') {
        Some(SortKey::Size)
    } else if k == Key::Char('r') {
        Some(SortKey::Ratio)
    } else if k == Key::Char('u') {
        Some(SortKey::Uploaded)
    } else {
        None
    }
}

/// The action-menu keys that start, stop, verify or requeue a torrent.
pub open spec fn is_queue_or_run_key(k: Key) -> bool {
    k == Key::Char('s') || k == Key::Char('S') || k == Key::Char('p') || k == Key::Char('v') || k == Key::Char('k')
        || k == Key::Char('j') || k == Key::Char('K') || k == Key::Char('J')
}

/// The command an action-menu key sends for torrent `id`.
pub open spec fn action_cmd(k: Key, id: i64, c: TorrentCmd) -> bool {
    match c {
        TorrentCmd::Start(ids) => k == Key::Char('s') && ids@ == seq![id],
        TorrentCmd::StartNow(ids) => k == Key::Char('S') && ids@ == seq![id],
        TorrentCmd::Stop(ids) => k == Key::Char('p') && ids@ == seq![id],
        TorrentCmd::Verify(ids) => k == Key::Char('v') && ids@ == seq![id],
        TorrentCmd::QueueMoveUp(ids) => k == Key::Char('k') && ids@ == seq![id],
        TorrentCmd::QueueMoveDown(ids) => k == Key::Char('j') && ids@ == seq![id],
        TorrentCmd::QueueMoveTop(ids) => k == Key::Char('K') && ids@ == seq![id],
        TorrentCmd::QueueMoveBottom(ids) => !(k == Key::Char('s') || k == Key::Char('S') || k == Key::Char('p')
            || k == Key::Char('v') || k == Key::Char('k') || k == Key::Char('j') || k == Key::Char('K'))
            && ids@ == seq![id],
        _ => false,
    }
}

} // verus!
