use vstd::prelude::*;
use crate::config::{Action, Connection};
use crate::stats::{FreeSpace, Session, SessionStats};
use crate::torrent::{int_cell, RawField};
use crate::tree::Node;

verus! {

/// A key as the terminal reports it.
#[derive(Clone, Copy, Debug, PartialEq, Eq, Structural)]
pub enum Key {
    Char(char),
    F(u8),
    Up,
    Down,
    Left,
    Right,
    Enter,
    Esc,
    Backspace,
    Other,
}

/// A request from the interface to the worker that talks to the service.
#[derive(Clone, Debug)]
pub enum TorrentCmd {
    Tick(u64),
    Action(i64, usize),
    GetDetails(i64),
    Select(Option<i64>),
    QueueMoveUp(Vec<i64>),
    QueueMoveDown(Vec<i64>),
    QueueMoveTop(Vec<i64>),
    QueueMoveBottom(Vec<i64>),
    Delete(Vec<i64>, bool),
    Start(Vec<i64>),
    StartNow(Vec<i64>),
    Stop(Vec<i64>),
    Verify(Vec<i64>),
    Reannounce(Vec<i64>),
    Move(Vec<i64>, String, bool),
    /// Download directory, file name, metainfo, whether to add it paused.
    AddTorrent(Option<String>, Option<String>, Option<String>, bool),
    Reconnect(usize),
}

/// What the worker and the input sampler hand to the interface.
#[derive(Clone, Debug)]
pub enum TorrentUpdate {
    Full(Vec<Vec<RawField>>),
    Partial {
        torrents: Vec<Vec<RawField>>,
        removed: Vec<i64>,
        tick: u64,
        session_stats: Option<SessionStats>,
        free_space: Option<FreeSpace>,
    },
    Input(Key),
    UiTick,
    Failure { msg: String, details: String },
    Session(Session),
}

/// Arguments of an add-torrent request; absent fields are left out.
#[derive(Clone, Debug)]
pub struct TorrentAdd {
    pub cookies: Option<String>,
    pub download_dir: Option<String>,
    pub filename: Option<String>,
    pub labels: Option<Vec<String>>,
    pub metainfo: Option<String>,
    pub paused: Option<bool>,
    pub peer_limit: Option<i64>,
    pub bandwith_priority: Option<i64>,
    pub files_wanted: Option<Vec<i64>>,
    pub files_unwanted: Option<Vec<i64>>,
    pub priority_high: Option<Vec<i64>>,
    pub priority_low: Option<Vec<i64>>,
    pub priority_normal: Option<Vec<i64>>,
}

/// One call to the remote service.
#[derive(Clone, Debug)]
pub enum RemoteCall {
    GetSession,
    GetAllTorrents,
    GetRecentTorrents,
    GetSessionStats,
    GetFreeSpace(String),
    GetTorrentDetails(i64),
    QueueMoveUp(Vec<i64>),
    QueueMoveDown(Vec<i64>),
    QueueMoveTop(Vec<i64>),
    QueueMoveBottom(Vec<i64>),
    Remove(Vec<i64>, bool),
    Start(Vec<i64>),
    StartNow(Vec<i64>),
    Stop(Vec<i64>),
    Verify(Vec<i64>),
    Reannounce(Vec<i64>),
    SetLocation(Vec<i64>, String, bool),
    Add(TorrentAdd),
}

/// What the calls of one data tick brought back.
#[derive(Clone, Debug)]
pub struct TickReport {
    pub torrents: Vec<Vec<RawField>>,
    pub removed: Vec<RawField>,
    pub session_stats: Option<SessionStats>,
    pub free_space: Option<FreeSpace>,
}

/// Every cell is an integer id.
pub open spec fn ids_ok(cells: Seq<RawField>) -> bool {
    forall|i: int| 0 <= i < cells.len() ==> #[trigger] cells[i] is Int
}

/// Reads the list of removed ids; a cell that is not an integer refuses it.
pub fn decode_ids(cells: &Vec<RawField>) -> (r: Option<Vec<i64>>)
    ensures
        r is Some <==> ids_ok(cells@),
        r matches Some(v) ==> v@.len() == cells@.len() && forall|i: int|
            0 <= i < v@.len() ==> v@[i] == int_cell(#[trigger] cells@[i]),
{
    let mut v: Vec<i64> = Vec::new();
    let mut i: usize = 0;
    while i < cells.len()
        invariant
            i <= cells@.len(),
            v@.len() == i,
            forall|j: int| 0 <= j < i ==> #[trigger] cells@[j] is Int && v@[j] == int_cell(cells@[j]),
        decreases cells@.len() - i,
    {
        match &cells[i] {
            RawField::Int(x) => v.push(*x),
            _ => return None,
        }
        i = i + 1;
    }
    Some(v)
}

pub open spec fn malformed_ids_detail() -> Seq<char> {
    "the list of removed torrents holds something other than ids"@
}

/// Where the worker stands towards the service.
#[derive(Clone, Copy, Debug, PartialEq, Eq, Structural)]
pub enum WorkerPhase {
    Connecting,
    Steady,
}

/// Free space is asked for on every this many data ticks.
pub const FREE_SPACE_EVERY: u64 = 60;

/// The decisions of the background worker; the calls themselves are made by
/// its caller, which hands the outcomes back.
pub struct Worker {
    pub phase: WorkerPhase,
    pub details_id: Option<i64>,
    pub connection: Connection,
    pub connections: Vec<Connection>,
}

pub open spec fn ids_call(cmd: TorrentCmd, call: RemoteCall) -> bool {
    match cmd {
        TorrentCmd::QueueMoveUp(ids) => call matches RemoteCall::QueueMoveUp(x) && x@ == ids@,
        TorrentCmd::QueueMoveDown(ids) => call matches RemoteCall::QueueMoveDown(x) && x@ == ids@,
        TorrentCmd::QueueMoveTop(ids) => call matches RemoteCall::QueueMoveTop(x) && x@ == ids@,
        TorrentCmd::QueueMoveBottom(ids) => call matches RemoteCall::QueueMoveBottom(x) && x@ == ids@,
        TorrentCmd::Delete(ids, with_data) => call matches RemoteCall::Remove(x, w) && x@ == ids@ && w == with_data,
        TorrentCmd::Start(ids) => call matches RemoteCall::Start(x) && x@ == ids@,
        TorrentCmd::StartNow(ids) => call matches RemoteCall::StartNow(x) && x@ == ids@,
        TorrentCmd::Stop(ids) => call matches RemoteCall::Stop(x) && x@ == ids@,
        TorrentCmd::Verify(ids) => call matches RemoteCall::Verify(x) && x@ == ids@,
        TorrentCmd::Reannounce(ids) => call matches RemoteCall::Reannounce(x) && x@ == ids@,
        TorrentCmd::Move(ids, to, move_data) => call matches RemoteCall::SetLocation(x, t, m) && x@ == ids@ && t == to
            && m == move_data,
        TorrentCmd::AddTorrent(dir, file, meta, paused) => call matches RemoteCall::Add(a) && a == (TorrentAdd {
            cookies: None,
            download_dir: dir,
            filename: file,
            labels: None,
            metainfo: meta,
            paused: Some(paused),
            peer_limit: None,
            bandwith_priority: None,
            files_wanted: None,
            files_unwanted: None,
            priority_high: None,
            priority_low: None,
            priority_normal: None,
        }),
        _ => false,
    }
}

/// The calls of one data tick: recently changed torrents and session
/// statistics always, free space on every sixtieth tick, and the details of
/// the selected torrent when one is selected.
pub open spec fn tick_calls(i: u64, dir: Seq<char>, details_id: Option<i64>, calls: Seq<RemoteCall>) -> bool {
    let base = seq![RemoteCall::GetRecentTorrents, RemoteCall::GetSessionStats];
    let with_space = if i % FREE_SPACE_EVERY == 0 {
        calls.len() >= 3 && (calls[2] matches RemoteCall::GetFreeSpace(p) && p@ == dir)
    } else {
        true
    };
    let n: int = if i % FREE_SPACE_EVERY == 0 { 3 } else { 2 };
    &&& calls.subrange(0, 2) == base
    &&& with_space
    &&& calls.len() == n + if details_id is Some { 1int } else { 0int }
    &&& details_id matches Some(id) ==> calls[n] == RemoteCall::GetTorrentDetails(id)
}

fn clone_ids(ids: &Vec<i64>) -> (r: Vec<i64>)
    ensures
        r@ == ids@,
{
    let mut r: Vec<i64> = Vec::new();
    let mut i: usize = 0;
    while i < ids.len()
        invariant
            i <= ids@.len(),
            r@ == ids@.subrange(0, i as int),
        decreases ids@.len() - i,
    {
        r.push(ids[i]);
        i = i + 1;
    }
    r
}

fn clone_opt(s: &Option<String>) -> (r: Option<String>)
    ensures
        r == *s,
{
    match s {
        Some(x) => Some(x.clone()),
        None => None,
    }
}

fn clone_connection(c: &Connection) -> (r: Connection)
    ensures
        r == *c,
{
    Connection {
        name: c.name.clone(),
        username: c.username.clone(),
        password: c.password.clone(),
        url: c.url.clone(),
        download_dir: c.download_dir.clone(),
        local_download_dir: c.local_download_dir.clone(),
    }
}

impl Worker {
    /// A worker about to connect with the connection at `idx`.
    pub fn new(connections: Vec<Connection>, idx: usize) -> (w: Worker)
        requires
            idx < connections@.len(),
        ensures
            w.phase == WorkerPhase::Connecting,
            w.details_id is None,
            w.connection == connections@[idx as int],
            w.connections == connections,
    {
        let connection = clone_connection(&connections[idx]);
        Worker { phase: WorkerPhase::Connecting, details_id: None, connection, connections }
    }

    /// The calls that (re)connecting makes: session settings, then the full table.
    pub fn connect_calls(&self) -> (r: Vec<RemoteCall>)
        ensures
            r@ == seq![RemoteCall::GetSession, RemoteCall::GetAllTorrents],
    {
        let mut r: Vec<RemoteCall> = Vec::new();
        r.push(RemoteCall::GetSession);
        r.push(RemoteCall::GetAllTorrents);
        assert(r@ =~= seq![RemoteCall::GetSession, RemoteCall::GetAllTorrents]);
        r
    }

    /// Decides what a command asks of the service, and updates the worker's
    /// own state for it.
    pub fn on_command(&mut self, cmd: &TorrentCmd) -> (r: Vec<RemoteCall>)
        ensures
            final(self).connections == old(self).connections,
            match *cmd {
                TorrentCmd::Select(m) => r@.len() == 0 && final(self).details_id == m
                    && final(self).phase == old(self).phase && final(self).connection == old(self).connection,
                TorrentCmd::Reconnect(idx) => if idx < old(self).connections@.len() {
                    &&& final(self).phase == WorkerPhase::Connecting
                    &&& final(self).details_id is None
                    &&& final(self).connection == old(self).connections@[idx as int]
                    &&& r@ == seq![RemoteCall::GetSession, RemoteCall::GetAllTorrents]
                } else {
                    r@.len() == 0 && *final(self) == *old(self)
                },
                TorrentCmd::GetDetails(id) => r@ == seq![RemoteCall::GetTorrentDetails(id)]
                    && final(self).details_id == Some(id) && final(self).phase == old(self).phase
                    && final(self).connection == old(self).connection,
                TorrentCmd::Action(id, _) => r@ == seq![RemoteCall::GetTorrentDetails(id)] && *final(self) == *old(self),
                TorrentCmd::Tick(i) => tick_calls(i, old(self).connection.download_dir@, old(self).details_id, r@)
                    && *final(self) == *old(self),
                _ => r@.len() == 1 && ids_call(*cmd, r@[0]) && *final(self) == *old(self),
            },
    {
        let mut r: Vec<RemoteCall> = Vec::new();
        match cmd {
            TorrentCmd::Select(m) => {
                self.details_id = *m;
            },
            TorrentCmd::Reconnect(idx) => {
                if *idx < self.connections.len() {
                    self.connection = clone_connection(&self.connections[*idx]);
                    self.details_id = None;
                    self.phase = WorkerPhase::Connecting;
                    r = self.connect_calls();
                }
            },
            TorrentCmd::GetDetails(id) => {
                self.details_id = Some(*id);
                r.push(RemoteCall::GetTorrentDetails(*id));
            },
            TorrentCmd::Action(id, _) => {
                r.push(RemoteCall::GetTorrentDetails(*id));
            },
            TorrentCmd::Tick(i) => {
                r.push(RemoteCall::GetRecentTorrents);
                r.push(RemoteCall::GetSessionStats);
                if *i % FREE_SPACE_EVERY == 0 {
                    r.push(RemoteCall::GetFreeSpace(self.connection.download_dir.clone()));
                }
                match self.details_id {
                    Some(id) => r.push(RemoteCall::GetTorrentDetails(id)),
                    None => {},
                }
                assert(r@.subrange(0, 2) =~= seq![RemoteCall::GetRecentTorrents, RemoteCall::GetSessionStats]);
            },
            TorrentCmd::QueueMoveUp(ids) => r.push(RemoteCall::QueueMoveUp(clone_ids(ids))),
            TorrentCmd::QueueMoveDown(ids) => r.push(RemoteCall::QueueMoveDown(clone_ids(ids))),
            TorrentCmd::QueueMoveTop(ids) => r.push(RemoteCall::QueueMoveTop(clone_ids(ids))),
            TorrentCmd::QueueMoveBottom(ids) => r.push(RemoteCall::QueueMoveBottom(clone_ids(ids))),
            TorrentCmd::Delete(ids, with_data) => r.push(RemoteCall::Remove(clone_ids(ids), *with_data)),
            TorrentCmd::Start(ids) => r.push(RemoteCall::Start(clone_ids(ids))),
            TorrentCmd::StartNow(ids) => r.push(RemoteCall::StartNow(clone_ids(ids))),
            TorrentCmd::Stop(ids) => r.push(RemoteCall::Stop(clone_ids(ids))),
            TorrentCmd::Verify(ids) => r.push(RemoteCall::Verify(clone_ids(ids))),
            TorrentCmd::Reannounce(ids) => r.push(RemoteCall::Reannounce(clone_ids(ids))),
            TorrentCmd::Move(ids, to, move_data) => {
                r.push(RemoteCall::SetLocation(clone_ids(ids), to.clone(), *move_data))
            },
            TorrentCmd::AddTorrent(dir, file, meta, paused) => {
                r.push(
                    RemoteCall::Add(
                        TorrentAdd {
                            cookies: None,
                            download_dir: clone_opt(dir),
                            filename: clone_opt(file),
                            labels: None,
                            metainfo: clone_opt(meta),
                            paused: Some(*paused),
                            peer_limit: None,
                            bandwith_priority: None,
                            files_wanted: None,
                            files_unwanted: None,
                            priority_high: None,
                            priority_low: None,
                            priority_normal: None,
                        },
                    ),
                )
            },
        }
        r
    }

    /// The session settings arrived: a connection without a download
    /// directory of its own takes the service's.
    pub fn on_session(&mut self, session: &Session)
        ensures
            final(self).connection.download_dir@ == if old(self).connection.download_dir@.len() == 0 {
                session.download_dir@
            } else {
                old(self).connection.download_dir@
            },
            final(self).phase == old(self).phase,
            final(self).details_id == old(self).details_id,
            final(self).connections == old(self).connections,
    {
        if self.connection.download_dir.unicode_len() == 0 {
            self.connection.download_dir = session.download_dir.clone();
        }
    }

    /// The full table arrived: the worker is connected.
    pub fn on_connected(&mut self)
        ensures
            final(self).phase == WorkerPhase::Steady,
            final(self).details_id == old(self).details_id,
            final(self).connection == old(self).connection,
            final(self).connections == old(self).connections,
    {
        self.phase = WorkerPhase::Steady;
    }

    /// A call failed. Nothing is retried now: the worker keeps its state and
    /// the next tick asks again. The interface is told with an error update.
    pub fn on_failure(&self, details: String) -> (u: TorrentUpdate)
        ensures
            u matches TorrentUpdate::Failure { msg, details: d } && msg@ == failure_message() && d@ == details@,
            failure_message().len() > 0,
    {
        let msg = String::from_str("Communication failed");
        proof {
            reveal_strlit("Communication failed");
        }
        TorrentUpdate::Failure { msg, details }
    }

    /// The end of a data tick. When every call succeeded and the removed
    /// ids read as ids, the interface gets one partial update; otherwise it
    /// gets an error update and no partial update, and the worker, whose
    /// state does not change, goes on with the next command.
    pub fn finish_tick(&self, tick: u64, outcome: Result<TickReport, String>) -> (u: TorrentUpdate)
        ensures
            outcome matches Err(e) ==> (u matches TorrentUpdate::Failure { msg, details } && msg@
                == failure_message() && details@ == e@),
            outcome matches Ok(rep) ==> if ids_ok(rep.removed@) {
                u matches TorrentUpdate::Partial { torrents, removed, tick: t, session_stats, free_space } && torrents
                    == rep.torrents && removed@.len() == rep.removed@.len() && (forall|i: int|
                    0 <= i < removed@.len() ==> removed@[i] == int_cell(#[trigger] rep.removed@[i])) && t == tick
                    && session_stats == rep.session_stats && free_space == rep.free_space
            } else {
                u matches TorrentUpdate::Failure { msg, details } && msg@ == failure_message() && details@
                    == malformed_ids_detail()
            },
            failure_message().len() > 0,
    {
        proof {
            reveal_strlit("Communication failed");
        }
        match outcome {
            Err(e) => self.on_failure(e),
            Ok(rep) => match decode_ids(&rep.removed) {
                Some(removed) => TorrentUpdate::Partial {
                    torrents: rep.torrents,
                    removed,
                    tick,
                    session_stats: rep.session_stats,
                    free_space: rep.free_space,
                },
                None => {
                    let details = String::from_str("the list of removed torrents holds something other than ids");
                    self.on_failure(details)
                },
            },
        }
    }

    /// Connecting failed: the interface is told to check the connection.
    pub fn on_connect_failure(&self, error: &str) -> (u: TorrentUpdate)
        ensures
            u matches TorrentUpdate::Failure { msg, details } && msg@ == connect_failure_message()
                && details@ == connect_failure_hint() + error@,
    {
        let msg = String::from_str("Can't connect to transmission!");
        let hint = String::from_str("Please, check connection string and restart the app:\n\n");
        let details = hint.concat(error);
        TorrentUpdate::Failure { msg, details }
    }
}

pub open spec fn failure_message() -> Seq<char> {
    "Communication failed"@
}

pub open spec fn connect_failure_message() -> Seq<char> {
    "Can't connect to transmission!"@
}

pub open spec fn connect_failure_hint() -> Seq<char> {
    "Please, check connection string and restart the app:\n\n"@
}

/// Interval of the interface tick, in milliseconds.
pub const UI_TICK_MS: u64 = 200;

/// When the input sampler emits ticks. Times are milliseconds on a clock the
/// caller reads.
pub struct Ticker {
    pub last_ui: u64,
    pub last_data: u64,
    pub refresh_ms: u64,
    /// Number of the next data tick; it grows only when a tick was delivered.
    pub next: u64,
}

/// What the sampler does at one moment.
#[derive(Clone, Copy, Debug, PartialEq, Eq, Structural)]
pub struct TickAction {
    pub ui_tick: bool,
    pub data_tick: Option<u64>,
}

impl Ticker {
    pub fn new(now: u64, refresh_ms: u64) -> (t: Ticker)
        ensures
            t.last_ui == now && t.last_data == now && t.refresh_ms == refresh_ms && t.next == 0,
    {
        Ticker { last_ui: now, last_data: now, refresh_ms, next: 0 }
    }

    /// How long input may be waited for before the next interface tick is due.
    pub fn poll_timeout(&self, now: u64) -> (r: u64)
        ensures
            r == if now >= self.last_ui && now - self.last_ui < UI_TICK_MS {
                UI_TICK_MS - (now - self.last_ui)
            } else {
                0
            },
    {
        if now >= self.last_ui && now - self.last_ui < UI_TICK_MS {
            UI_TICK_MS - (now - self.last_ui)
        } else {
            0
        }
    }

    /// The ticks due at `now`; the clocks of due ticks restart at `now`.
    pub fn on_time(&mut self, now: u64) -> (a: TickAction)
        ensures
            a.ui_tick == (now >= old(self).last_ui && now - old(self).last_ui >= UI_TICK_MS),
            final(self).last_ui == if a.ui_tick { now } else { old(self).last_ui },
            (now >= old(self).last_data && now - old(self).last_data >= old(self).refresh_ms) ==> a.data_tick
                == Some(old(self).next) && final(self).last_data == now,
            !(now >= old(self).last_data && now - old(self).last_data >= old(self).refresh_ms) ==> a.data_tick
                is None && final(self).last_data == old(self).last_data,
            final(self).next == old(self).next,
            final(self).refresh_ms == old(self).refresh_ms,
    {
        let ui_tick = now >= self.last_ui && now - self.last_ui >= UI_TICK_MS;
        if ui_tick {
            self.last_ui = now;
        }
        let data_tick = if now >= self.last_data && now - self.last_data >= self.refresh_ms {
            self.last_data = now;
            Some(self.next)
        } else {
            None
        };
        TickAction { ui_tick, data_tick }
    }

    /// A data tick reached the worker: the next one gets the next number. A
    /// tick that could not be delivered is skipped, not counted.
    pub fn delivered(&mut self)
        ensures
            final(self).next == if old(self).next < u64::MAX { old(self).next + 1 } else { old(self).next as int },
            final(self).last_ui == old(self).last_ui,
            final(self).last_data == old(self).last_data,
            final(self).refresh_ms == old(self).refresh_ms,
    {
        if self.next < u64::MAX {
            self.next = self.next + 1;
        }
    }
}

/// `s` with every occurrence of `from` replaced by `to`, scanning left to
/// right for non-overlapping matches. An empty `from` matches at every
/// character boundary, so `to` goes before, between and after the characters.
pub open spec fn replace_all(s: Seq<char>, from: Seq<char>, to: Seq<char>) -> Seq<char>
    decreases s.len(),
{
    if from.len() == 0 {
        if s.len() == 0 {
            to
        } else {
            to + seq![s[0]] + replace_all(s.drop_first(), from, to)
        }
    } else if s.len() < from.len() {
        s
    } else if s.subrange(0, from.len() as int) == from {
        to + replace_all(s.subrange(from.len() as int, s.len() as int), from, to)
    } else {
        seq![s[0]] + replace_all(s.drop_first(), from, to)
    }
}

/// Relies on str::replace: each non-overlapping occurrence of `from`, left to
/// right, is replaced by `to`.
#[verifier::external_body]
pub fn replace_text(s: &str, from: &str, to: &str) -> (r: String)
    ensures
        r@ == replace_all(s@, from@, to@),
{
    s.replace(from, to)
}

/// The place a torrent's data is seen at from this machine: when the
/// connection names a local root, the remote root in the path is replaced by it.
pub fn local_location(download_dir: &str, connection: &Connection) -> (r: String)
    ensures
        r@ == if connection.local_download_dir@.len() > 0 {
            replace_all(download_dir@, connection.download_dir@, connection.local_download_dir@)
        } else {
            download_dir@
        },
{
    if connection.local_download_dir.unicode_len() > 0 {
        replace_text(download_dir, connection.download_dir.as_str(), connection.local_download_dir.as_str())
    } else {
        String::from_str(download_dir)
    }
}

/// Where an action on a torrent with a single top-level entry may point:
/// inside that entry, below the torrent's location. The caller uses it when
/// it exists on disk, else the location itself.
pub fn action_candidate(location: &str, tree: &Vec<Node>) -> (r: Option<String>)
    ensures
        tree@.len() == 1 ==> (r matches Some(p) && p@ == location@ + "/"@ + tree@[0].path@),
        tree@.len() != 1 ==> r is None,
{
    if tree.len() == 1 {
        Some(String::from_str(location).concat("/").concat(tree[0].path.as_str()))
    } else {
        None
    }
}

/// The facts about a torrent that an action's arguments can name.
pub struct ActionContext {
    pub location: String,
    pub id: String,
    pub hash: String,
    pub download_dir: String,
    pub name: String,
}

pub open spec fn filled_arg(a: Seq<char>, c: ActionContext) -> Seq<char> {
    replace_all(
        replace_all(
            replace_all(
                replace_all(replace_all(a, "{location}"@, c.location@), "{id}"@, c.id@),
                "{hash}"@,
                c.hash@,
            ),
            "{download_dir}"@,
            c.download_dir@,
        ),
        "{name}"@,
        c.name@,
    )
}

/// The arguments of `action` with its placeholders filled in, in order.
pub fn action_args(action: &Action, c: &ActionContext) -> (r: Vec<String>)
    ensures
        r@.len() == action.args@.len(),
        forall|k: int| 0 <= k < r@.len() ==> #[trigger] r@[k]@ == filled_arg(action.args@[k]@, *c),
{
    let mut r: Vec<String> = Vec::new();
    let mut k: usize = 0;
    while k < action.args.len()
        invariant
            k <= action.args@.len(),
            r@.len() == k,
            forall|m: int| 0 <= m < k ==> #[trigger] r@[m]@ == filled_arg(action.args@[m]@, *c),
        decreases action.args@.len() - k,
    {
        let a0 = &action.args[k];
        let a1 = replace_text(a0.as_str(), "{location}", c.location.as_str());
        let a2 = replace_text(a1.as_str(), "{id}", c.id.as_str());
        let a3 = replace_text(a2.as_str(), "{hash}", c.hash.as_str());
        let a4 = replace_text(a3.as_str(), "{download_dir}", c.download_dir.as_str());
        let a5 = replace_text(a4.as_str(), "{name}", c.name.as_str());
        r.push(a5);
        k = k + 1;
    }
    r
}

} // verus!
