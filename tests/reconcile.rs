use transg::config::empty_config;
use transg::sort::{sort_torrents, SortFunction, SortKey};
use transg::state::{App, Transition};
use transg::stats::{record_sample, update_torrent_stats, HISTORY_CAPACITY};
use transg::table::{decode_batch, Filter, TorrentTable};
use transg::torrent::{ParseError, RawField, TorrentInfo, TorrentStatus};
use transg::worker::{Key, TorrentCmd};

fn status_code(s: TorrentStatus) -> i64 {
    match s {
        TorrentStatus::Paused => 0,
        TorrentStatus::VerifyQueued => 1,
        TorrentStatus::Verifying => 2,
        TorrentStatus::DownQueued => 3,
        TorrentStatus::Downloading => 4,
        TorrentStatus::SeedQueued => 5,
        TorrentStatus::Seeding => 6,
    }
}

fn row(id: i64, name: &str, status: TorrentStatus, added: i64, rate_down: i64, dir: &str) -> Vec<RawField> {
    vec![
        RawField::Int(id),
        RawField::Text(name.to_string()),
        RawField::Int(status_code(status)),
        RawField::Thousandths(500),
        RawField::Int(0),
        RawField::Text(String::new()),
        RawField::Int(-1),
        RawField::Int(0),
        RawField::Flag(false),
        RawField::Flag(false),
        RawField::Int(1),
        RawField::Int(3),
        RawField::Int(rate_down),
        RawField::Int(10),
        RawField::Int(0),
        RawField::Int(1000 * id),
        RawField::Text(dir.to_string()),
        RawField::Int(5 * id),
        RawField::Thousandths(1500),
        RawField::Int(added),
    ]
}

fn header() -> Vec<RawField> {
    vec![RawField::Text("id".to_string()), RawField::Text("name".to_string())]
}

fn table(rows: Vec<Vec<RawField>>) -> Vec<Vec<RawField>> {
    let mut t = vec![header()];
    t.extend(rows);
    t
}

fn ids(v: &[TorrentInfo]) -> Vec<i64> {
    v.iter().map(|t| t.id).collect()
}

#[test]
fn full_update_of_empty_table_selects_nothing() {
    let mut app = App::new(empty_config());
    let cmds = app.on_full(&vec![]);
    assert!(app.filtered_torrents.is_empty());
    assert!(app.selected.is_none());
    assert!(app.selected_index.is_none());
    assert!(!cmds.iter().any(|c| matches!(c, TorrentCmd::GetDetails(_))));
    assert!(matches!(cmds.as_slice(), [TorrentCmd::Tick(0)]));
}

#[test]
fn partial_update_removes_listed_ids() {
    let mut app = App::new(empty_config());
    app.on_full(&table(vec![
        row(1, "one", TorrentStatus::Paused, 100, 0, "/d"),
        row(2, "two", TorrentStatus::Paused, 200, 0, "/d"),
    ]));
    app.set_filter(Filter::All);
    let cmds = app.on_partial(&table(vec![]), &vec![1], None, None);
    assert_eq!(ids(app.torrents.entries()), vec![2]);
    assert_eq!(ids(&app.filtered_torrents), vec![2]);
    assert!(cmds.is_empty() || matches!(cmds.as_slice(), [TorrentCmd::GetDetails(2)]));
}

#[test]
fn status_filter_keeps_only_that_status() {
    let mut app = App::new(empty_config());
    app.on_full(&table(vec![
        row(1, "a", TorrentStatus::Downloading, 1, 0, "/d"),
        row(2, "b", TorrentStatus::Paused, 2, 0, "/d"),
        row(3, "c", TorrentStatus::Downloading, 3, 0, "/d"),
        row(4, "d", TorrentStatus::Paused, 4, 0, "/d"),
        row(5, "e", TorrentStatus::Downloading, 5, 0, "/d"),
    ]));
    let before = ids(app.torrents.entries());
    app.set_filter(Filter::ByStatus(TorrentStatus::Downloading));
    assert_eq!(app.filtered_torrents.len(), 3);
    assert!(app.filtered_torrents.iter().all(|t| t.status == TorrentStatus::Downloading));
    assert_eq!(ids(app.torrents.entries()), before);
}

#[test]
fn find_forward_moves_to_first_match() {
    let mut app = App::new(empty_config());
    app.on_full(&table(vec![
        row(1, "alpha", TorrentStatus::Paused, 300, 0, "/d"),
        row(2, "beta", TorrentStatus::Paused, 200, 0, "/d"),
        row(3, "gamma", TorrentStatus::Paused, 100, 0, "/d"),
    ]));
    app.set_filter(Filter::All);
    let names: Vec<&str> = app.filtered_torrents.iter().map(|t| t.name.as_str()).collect();
    assert_eq!(names, vec!["alpha", "beta", "gamma"]);
    app.handle_key(Key::Char('/'));
    assert_eq!(app.transition, Transition::Find(true, 0));
    app.handle_key(Key::Char('g'));
    assert_eq!(app.selected_index, Some(2));
    app.handle_key(Key::Esc);
    assert_eq!(app.selected_index, Some(0));
    assert_eq!(app.transition, Transition::MainScreen);
}

#[test]
fn rates_are_smoothed_on_merge() {
    let mut t = TorrentTable::new();
    t.apply_full(&table(vec![row(7, "x", TorrentStatus::Seeding, 1, 100, "/d")])).unwrap();
    let merged = t.apply_partial(&table(vec![row(7, "y", TorrentStatus::Paused, 1, 200, "/e")]), &vec![]);
    assert!(merged.is_ok());
    let e = &t.entries()[0];
    assert_eq!(e.rate_download, 150);
    assert_eq!(e.rate_upload, 10);
    assert_eq!(e.name, "y");
    assert_eq!(e.status, TorrentStatus::Paused);
    assert_eq!(e.download_dir, "/e");
}

#[test]
fn new_rows_are_inserted_unsmoothed() {
    let mut t = TorrentTable::new();
    t.apply_partial(&table(vec![row(3, "n", TorrentStatus::Seeding, 1, 80, "/d")]), &vec![]).unwrap();
    assert_eq!(t.entries()[0].rate_download, 80);
    assert_eq!(t.len(), 1);
}

#[test]
fn malformed_batch_changes_nothing() {
    let mut t = TorrentTable::new();
    t.apply_full(&table(vec![row(1, "a", TorrentStatus::Paused, 1, 0, "/d")])).unwrap();
    let mut bad = row(2, "b", TorrentStatus::Paused, 2, 0, "/d");
    bad[1] = RawField::Int(5);
    let r = t.apply_partial(&table(vec![bad]), &vec![1]);
    assert!(matches!(r, Err(ParseError::FieldType(1))));
    assert_eq!(ids(t.entries()), vec![1]);
}

#[test]
fn short_row_is_refused() {
    let r = TorrentInfo::new(&vec![RawField::Int(1), RawField::Null, RawField::Null]);
    assert!(matches!(r, Err(ParseError::RowTooShort(3))));
    let r = decode_batch(&table(vec![vec![RawField::Int(1)]]));
    assert!(matches!(r, Err(ParseError::RowTooShort(1))));
}

#[test]
fn bad_status_code_is_refused() {
    let mut r = row(1, "a", TorrentStatus::Paused, 1, 0, "/d");
    r[2] = RawField::Int(9);
    assert!(matches!(TorrentInfo::new(&r), Err(ParseError::FieldType(2))));
    assert!(TorrentStatus::try_from(9).is_err());
    assert_eq!(TorrentStatus::try_from(4), Ok(TorrentStatus::Downloading));
}

#[test]
fn fractions_scale_to_thousandths() {
    let mut r = row(1, "a", TorrentStatus::Paused, 1, 0, "/d");
    r[3] = RawField::Int(1);
    let t = TorrentInfo::new(&r).unwrap();
    assert_eq!(t.percent_done, 1000);
    assert_eq!(t.upload_ratio, 1500);
}

#[test]
fn most_recent_is_bounded_and_newest_first() {
    let mut t = TorrentTable::new();
    t.apply_full(&table(vec![
        row(1, "a", TorrentStatus::Paused, 100, 0, "/d"),
        row(2, "b", TorrentStatus::Paused, 300, 0, "/d"),
        row(3, "c", TorrentStatus::Paused, 200, 0, "/d"),
        row(4, "d", TorrentStatus::Paused, 50, 0, "/d"),
    ]))
    .unwrap();
    let r = t.most_recent(2);
    assert_eq!(ids(&r), vec![2, 3]);
    let all = t.most_recent(10);
    assert_eq!(ids(&all), vec![2, 3, 1, 4]);
    assert!(t.most_recent(0).is_empty());
}

#[test]
fn filter_switch_keeps_table() {
    let mut app = App::new(empty_config());
    app.on_full(&table(vec![
        row(1, "a", TorrentStatus::Paused, 100, 0, "/d"),
        row(2, "b", TorrentStatus::Seeding, 300, 0, "/e"),
    ]));
    let before = ids(app.torrents.entries());
    app.set_filter(Filter::ByDirectory("/e".to_string()));
    assert_eq!(ids(&app.filtered_torrents), vec![2]);
    app.set_filter(Filter::Error);
    assert!(app.filtered_torrents.is_empty());
    assert!(app.selected.is_none());
    assert_eq!(ids(app.torrents.entries()), before);
}

#[test]
fn search_filter_ignores_case() {
    let mut app = App::new(empty_config());
    app.on_full(&table(vec![
        row(1, "Ubuntu ISO", TorrentStatus::Paused, 100, 0, "/d"),
        row(2, "Debian", TorrentStatus::Seeding, 300, 0, "/e"),
    ]));
    app.set_filter(Filter::Search("ubuntu".to_string()));
    assert_eq!(ids(&app.filtered_torrents), vec![1]);
}

#[test]
fn sorting_twice_is_sorting_once() {
    let mut t = TorrentTable::new();
    t.apply_full(&table(vec![
        row(1, "a", TorrentStatus::Paused, 100, 0, "/d"),
        row(2, "b", TorrentStatus::Paused, 100, 0, "/d"),
        row(3, "c", TorrentStatus::Paused, 300, 0, "/d"),
    ]))
    .unwrap();
    let mut v: Vec<TorrentInfo> = t.entries().clone();
    sort_torrents(&mut v, SortKey::DateAdded);
    assert_eq!(ids(&v), vec![3, 1, 2]);
    let once = ids(&v);
    sort_torrents(&mut v, SortKey::DateAdded);
    assert_eq!(ids(&v), once);
    sort_torrents(&mut v, SortKey::Size);
    assert_eq!(ids(&v), vec![3, 2, 1]);
}

#[test]
fn set_sort_reorders_view() {
    let mut app = App::new(empty_config());
    app.on_full(&table(vec![
        row(1, "a", TorrentStatus::Paused, 300, 0, "/d"),
        row(2, "b", TorrentStatus::Paused, 200, 0, "/d"),
    ]));
    app.set_filter(Filter::All);
    app.set_sort(SortFunction { name: "by size".to_string(), func: SortKey::Size });
    assert_eq!(ids(&app.filtered_torrents), vec![2, 1]);
    app.set_sort(SortFunction { name: "by size".to_string(), func: SortKey::Size });
    assert_eq!(ids(&app.filtered_torrents), vec![2, 1]);
}

#[test]
fn group_stats_count_statuses_and_folders() {
    let mut t = TorrentTable::new();
    let mut errored = row(3, "c", TorrentStatus::Seeding, 1, 0, "/e");
    errored[4] = RawField::Int(2);
    t.apply_full(&table(vec![
        row(1, "a", TorrentStatus::Paused, 1, 0, "/d"),
        row(2, "b", TorrentStatus::Downloading, 1, 0, "/d"),
        errored,
    ]))
    .unwrap();
    let g = update_torrent_stats(t.entries());
    assert_eq!(g.num_total, 3);
    assert_eq!(g.num_stopped, 1);
    assert_eq!(g.num_downloading, 1);
    assert_eq!(g.num_seeding, 1);
    assert_eq!(g.num_error, 1);
    assert_eq!(g.folders, vec![("/d".to_string(), 2), ("/e".to_string(), 1)]);
}

#[test]
fn history_keeps_newest_first_and_is_bounded() {
    let mut h: Vec<u64> = Vec::new();
    for i in 0..(HISTORY_CAPACITY as u64 + 5) {
        record_sample(&mut h, i);
    }
    assert_eq!(h.len(), HISTORY_CAPACITY);
    assert_eq!(h[0], HISTORY_CAPACITY as u64 + 4);
}

#[test]
fn error_overlay_keeps_first_error() {
    let mut app = App::new(empty_config());
    app.on_failure("first".to_string(), "a".to_string());
    app.on_failure("second".to_string(), "b".to_string());
    assert_eq!(app.err, Some(("first".to_string(), "a".to_string())));
    app.on_partial(&table(vec![]), &vec![], None, None);
    assert!(app.err.is_none());
}

#[test]
fn quit_key_quits_everywhere() {
    let mut app = App::new(empty_config());
    assert!(app.handle_key(Key::Char('q')).is_none());
    app.handle_key(Key::Char('s'));
    assert_eq!(app.transition, Transition::Search);
    assert!(app.handle_key(Key::Char('q')).is_none());
}

#[test]
fn merge_keeps_the_entry_id() {
    let mut a = TorrentInfo::new(&row(1, "a", TorrentStatus::Paused, 1, 100, "/d")).unwrap();
    let b = TorrentInfo::new(&row(2, "b", TorrentStatus::Seeding, 2, 300, "/e")).unwrap();
    a.update(&b);
    assert_eq!(a.id, 1);
    assert_eq!(a.name, "b");
    assert_eq!(a.rate_download, 200);
}

#[test]
fn repeated_id_in_one_batch_merges_in_order() {
    let mut t = TorrentTable::new();
    t.apply_full(&table(vec![row(4, "x", TorrentStatus::Seeding, 1, 100, "/d")])).unwrap();
    t.apply_partial(
        &table(vec![row(4, "y", TorrentStatus::Seeding, 1, 200, "/d"), row(4, "z", TorrentStatus::Paused, 1, 50, "/d")]),
        &vec![],
    )
    .unwrap();
    assert_eq!(t.len(), 1);
    assert_eq!(t.entries()[0].rate_download, 100);
    assert_eq!(t.entries()[0].name, "z");
}

#[test]
fn status_error_text() {
    assert_eq!(TorrentStatus::try_from(-1), Err("Can't construct TorrentStatus"));
}
