use transg::config::empty_config;
use transg::format::{
    extract_domain_name, format_download_speed, format_eta, format_size, format_status, format_tracker_url,
    process_folder, utf8_split, utf8_truncate,
};
use transg::rpc::{auth_header, File, HttpError};
use transg::tree::build_tree;
use transg::stats::Session;
use transg::torrent::{RawField, TorrentStatus};
use transg::worker::{
    action_args, action_candidate, local_location, ActionContext, RemoteCall, TickAction, TickReport, Ticker, TorrentCmd, TorrentUpdate, Worker,
    WorkerPhase,
};
use transg::config::Action;

fn steady_worker() -> Worker {
    let mut w = Worker::new(empty_config().connections, 0);
    w.on_session(&Session { download_dir: "/srv".to_string(), version: "4".to_string() });
    w.on_connected();
    w
}

#[test]
fn failed_call_reports_and_worker_carries_on() {
    let mut w = steady_worker();
    let u = w.on_failure("timeout".to_string());
    match u {
        TorrentUpdate::Failure { msg, details } => {
            assert!(!msg.is_empty());
            assert_eq!(msg, "Communication failed");
            assert_eq!(details, "timeout");
        }
        _ => panic!("expected a failure update"),
    }
    assert_eq!(w.phase, WorkerPhase::Steady);
    let calls = w.on_command(&TorrentCmd::Tick(1));
    assert!(matches!(calls.as_slice(), [RemoteCall::GetRecentTorrents, RemoteCall::GetSessionStats]));
}

#[test]
fn tick_plan_adds_free_space_and_details() {
    let mut w = steady_worker();
    w.on_command(&TorrentCmd::GetDetails(9));
    let calls = w.on_command(&TorrentCmd::Tick(60));
    assert_eq!(calls.len(), 4);
    assert!(matches!(&calls[2], RemoteCall::GetFreeSpace(p) if p == "/srv"));
    assert!(matches!(calls[3], RemoteCall::GetTorrentDetails(9)));
    w.on_command(&TorrentCmd::Select(None));
    assert_eq!(w.on_command(&TorrentCmd::Tick(61)).len(), 2);
}

#[test]
fn reconnect_restarts_connecting() {
    let mut w = steady_worker();
    let calls = w.on_command(&TorrentCmd::Reconnect(0));
    assert_eq!(w.phase, WorkerPhase::Connecting);
    assert!(w.details_id.is_none());
    assert!(matches!(calls.as_slice(), [RemoteCall::GetSession, RemoteCall::GetAllTorrents]));
    assert!(w.on_command(&TorrentCmd::Reconnect(5)).is_empty());
}

#[test]
fn connect_failure_explains() {
    let w = steady_worker();
    match w.on_connect_failure("refused") {
        TorrentUpdate::Failure { msg, details } => {
            assert_eq!(msg, "Can't connect to transmission!");
            assert!(details.ends_with("refused"));
        }
        _ => panic!("expected a failure update"),
    }
}

#[test]
fn session_dir_only_fills_empty_dir() {
    let mut w = steady_worker();
    w.on_session(&Session { download_dir: "/other".to_string(), version: "4".to_string() });
    assert_eq!(w.connection.download_dir, "/srv");
}

#[test]
fn ticker_paces_ticks() {
    let mut t = Ticker::new(0, 1200);
    assert_eq!(t.poll_timeout(50), 150);
    assert_eq!(t.on_time(100), TickAction { ui_tick: false, data_tick: None });
    assert_eq!(t.on_time(200), TickAction { ui_tick: true, data_tick: None });
    assert_eq!(t.on_time(1200), TickAction { ui_tick: true, data_tick: Some(0) });
    t.delivered();
    assert_eq!(t.on_time(2400).data_tick, Some(1));
    assert_eq!(t.on_time(2500).data_tick, None);
}

#[test]
fn action_arguments_are_filled() {
    let action = Action {
        description: "open".to_string(),
        shortcut: "o".to_string(),
        cmd: "xdg-open".to_string(),
        args: vec!["{location}".to_string(), "--id={id}".to_string(), "{name}-{hash}".to_string()],
    };
    let c = ActionContext {
        location: "/mnt/x".to_string(),
        id: "5".to_string(),
        hash: "abc".to_string(),
        download_dir: "/srv/x".to_string(),
        name: "film".to_string(),
    };
    assert_eq!(action_args(&action, &c), vec!["/mnt/x", "--id=5", "film-abc"]);
}

#[test]
fn local_location_maps_roots() {
    let mut conn = empty_config().connections[0].clone();
    conn.download_dir = "/srv".to_string();
    assert_eq!(local_location("/srv/films", &conn), "/srv/films");
    conn.local_download_dir = "/mnt/nas".to_string();
    assert_eq!(local_location("/srv/films", &conn), "/mnt/nas/films");
}

#[test]
fn auth_header_encodes_credentials() {
    assert_eq!(auth_header("user", "pass"), Some("Basic dXNlcjpwYXNz".to_string()));
    assert_eq!(auth_header("", "pass"), None);
}

#[test]
fn http_error_message() {
    assert_eq!(HttpError::new("Forbidden.").message(), "Http Error: Forbidden.");
}

#[test]
fn sizes_are_formatted() {
    assert_eq!(format_size(0), "");
    assert_eq!(format_size(1024), "1.0K");
    assert_eq!(format_size(1_500_000), "1.4M");
    assert_eq!(format_size(3_000_000_000), "2.8G");
    assert_eq!(format_size(2_000_000_000_000), "1.8T");
    assert_eq!(format_size(256), "0.2K");
}

#[test]
fn speeds_are_formatted() {
    assert_eq!(format_download_speed(0, true), "");
    assert_eq!(format_download_speed(2048, false), "  2.0 K/s");
    assert_eq!(format_download_speed(2_097_152, false), "  2.0 M/s");
    assert_eq!(format_download_speed(204_800_000, false), "195.3 M/s");
}

#[test]
fn etas_are_formatted() {
    assert_eq!(format_eta(-1), "");
    assert_eq!(format_eta(-2), "∞");
    assert_eq!(format_eta(90061), "1d 1h");
    assert_eq!(format_eta(3700), "1h 1m");
    assert_eq!(format_eta(61), "1m 1s");
    assert_eq!(format_eta(5), "5s");
}

#[test]
fn statuses_have_glyphs() {
    assert_eq!(format_status(&TorrentStatus::Downloading, 0), " ⇣");
    assert_eq!(format_status(&TorrentStatus::Paused, 0), " ⏸ ");
    assert_eq!(format_status(&TorrentStatus::Seeding, 3), " ⁈");
}

#[test]
fn folders_are_shortened() {
    assert_eq!(process_folder("/data/movies/action", "/data"), "movies/action");
    assert_eq!(process_folder("/data/a/b/c", "/data"), "b/c");
    assert_eq!(process_folder("/data", "/data"), "data");
    assert_eq!(process_folder("/other", "/data"), "other");
}

#[test]
fn utf8_helpers_cut_on_characters() {
    assert_eq!(utf8_split("héllo", 2), ("hé".to_string(), "llo".to_string()));
    assert_eq!(utf8_split("ab", 5), ("ab".to_string(), String::new()));
    let mut s = "héllo".to_string();
    utf8_truncate(&mut s, 3);
    assert_eq!(s, "h");
    let mut t = "abc".to_string();
    utf8_truncate(&mut t, 10);
    assert_eq!(t, "abc");
}

#[test]
fn tracker_hosts() {
    assert_eq!(format_tracker_url("https://tracker.example.org/announce"), "tracker.example.org");
    assert_eq!(format_tracker_url("udp://open.tracker:80/x"), "open.tracker:80");
    assert_eq!(format_tracker_url("ftp://x/y"), "");
    assert_eq!(extract_domain_name("host/path"), "host");
}

#[test]
fn file_tree_groups_by_segment() {
    let f = |name: &str, length: u64, done: u64| File { name: name.to_string(), length, bytes_completed: done };
    let files = vec![f("b", 5, 5), f("a/y", 20, 0), f("a/x", 10, 5), f("c/z", 7, 1)];
    let tree = build_tree(&files);
    let names: Vec<&str> = tree.iter().map(|n| n.name.as_str()).collect();
    assert_eq!(names, vec!["a", "b", "c"]);
    assert_eq!((tree[0].size, tree[0].downloaded), (30, 5));
    let kids: Vec<(&str, &str)> = tree[0].children.iter().map(|n| (n.name.as_str(), n.path.as_str())).collect();
    assert_eq!(kids, vec![("x", "a/x"), ("y", "a/y")]);
    assert!(tree[1].children.is_empty());
    assert!(tree[2].children.is_empty());
    assert_eq!(tree[2].path, "c");
}

#[test]
fn action_candidate_needs_single_entry() {
    let one = build_tree(&[File { name: "film/a.mkv".to_string(), length: 1, bytes_completed: 1 }]);
    assert_eq!(action_candidate("/mnt", &one), Some("/mnt/film".to_string()));
    let none = build_tree(&[]);
    assert_eq!(action_candidate("/mnt", &none), None);
}

#[test]
fn negative_values_are_formatted() {
    assert_eq!(format_size(-1024), "-1.0K");
    assert_eq!(format_download_speed(-2048, false), " -2.0 K/s");
    assert_eq!(format_eta(-100), "-40s");
    assert_eq!(format_eta(-60), "0s");
}

#[test]
fn tick_outcome_decides_the_update() {
    let w = steady_worker();
    let report = |removed: Vec<RawField>| TickReport { torrents: vec![], removed, session_stats: None, free_space: None };
    match w.finish_tick(3, Ok(report(vec![RawField::Int(7)]))) {
        TorrentUpdate::Partial { removed, tick, .. } => {
            assert_eq!(removed, vec![7]);
            assert_eq!(tick, 3);
        }
        _ => panic!("expected a partial update"),
    }
    assert!(matches!(w.finish_tick(3, Ok(report(vec![RawField::Text("x".to_string())]))), TorrentUpdate::Failure { .. }));
    match w.finish_tick(4, Err("timeout".to_string())) {
        TorrentUpdate::Failure { msg, details } => {
            assert_eq!(msg, "Communication failed");
            assert_eq!(details, "timeout");
        }
        _ => panic!("expected a failure update"),
    }
}
