use transg::config::empty_config;
use transg::state::{folder_keys, App, Transition};
use transg::table::Filter;
use transg::torrent::{RawField, TorrentStatus};
use transg::worker::{Key, TorrentCmd};

fn row(id: i64, name: &str, added: i64, dir: &str) -> Vec<RawField> {
    let mut r = vec![RawField::Int(id), RawField::Text(name.to_string()), RawField::Int(0)];
    r.push(RawField::Int(0));
    r.push(RawField::Int(0));
    r.push(RawField::Text(String::new()));
    for _ in 6..8 {
        r.push(RawField::Int(0));
    }
    r.push(RawField::Flag(false));
    r.push(RawField::Flag(false));
    for _ in 10..16 {
        r.push(RawField::Int(0));
    }
    r.push(RawField::Text(dir.to_string()));
    r.push(RawField::Int(0));
    r.push(RawField::Int(0));
    r.push(RawField::Int(added));
    r
}

fn loaded_app() -> App {
    let mut app = App::new(empty_config());
    app.on_full(&vec![
        vec![],
        row(1, "alpha", 300, "/data/movies"),
        row(2, "beta", 200, "/data/music"),
        row(3, "gamma", 100, "/data/movies"),
    ]);
    app.set_filter(Filter::All);
    app
}

#[test]
fn folder_hotkeys_are_distinct() {
    let folders = vec!["/d/abc".to_string(), "/d/alpha".to_string(), "/d/b".to_string()];
    let m = folder_keys(&folders, "/d");
    assert_eq!(m.len(), 3);
    assert_eq!((m[0].1, m[0].2), ('a', 0));
    assert_eq!((m[1].1, m[1].2), ('l', 1));
    assert_eq!((m[2].1, m[2].2), ('b', 0));
    for i in 0..m.len() {
        for j in (i + 1)..m.len() {
            assert_ne!(m[i].1, m[j].1);
        }
    }
}

#[test]
fn folder_without_free_key_gets_none() {
    let folders = vec!["/d/aab".to_string(), "/d/ab".to_string(), "/d/ba".to_string()];
    let m = folder_keys(&folders, "/d");
    assert_eq!(m.len(), 2);
    assert_eq!((m[0].1, m[0].2), ('a', 0));
    assert_eq!((m[1].1, m[1].2), ('b', 1));
    assert!(!m.iter().any(|e| e.0 == "/d/ba"));
}

#[test]
fn filter_menu_hotkeys() {
    let mut app = loaded_app();
    app.handle_key(Key::Char('f'));
    assert_eq!(app.transition, Transition::Filter);
    assert_eq!(app.folder_mapping.len(), 2);
    let key = app.folder_mapping.iter().find(|m| m.0 == "/data/music").unwrap().1;
    let cmds = app.handle_key(Key::Char(key)).unwrap();
    assert_eq!(app.transition, Transition::MainScreen);
    assert!(matches!(app.current_filter, Filter::ByDirectory(ref d) if d == "/data/music"));
    assert_eq!(app.filtered_torrents.len(), 1);
    assert!(matches!(cmds.as_slice(), [TorrentCmd::GetDetails(2)]));
    app.handle_key(Key::Char('f'));
    app.handle_key(Key::Char('P'));
    assert!(matches!(app.current_filter, Filter::ByStatus(TorrentStatus::Paused)));
    assert_eq!(app.filtered_torrents.len(), 3);
}

#[test]
fn navigation_wraps_and_fetches_details() {
    let mut app = loaded_app();
    assert_eq!(app.selected_index, Some(0));
    let cmds = app.handle_key(Key::Down).unwrap();
    assert_eq!(app.selected_index, Some(1));
    assert!(matches!(cmds.as_slice(), [TorrentCmd::GetDetails(2)]));
    app.handle_key(Key::Down);
    let cmds = app.handle_key(Key::Down).unwrap();
    assert_eq!(app.selected_index, Some(0));
    assert!(matches!(cmds.as_slice(), [TorrentCmd::GetDetails(1)]));
    let cmds = app.handle_key(Key::Up).unwrap();
    assert_eq!(app.selected_index, Some(2));
    assert!(matches!(cmds.as_slice(), [TorrentCmd::GetDetails(3)]));
}

#[test]
fn action_menu_sends_commands_for_selection() {
    let mut app = loaded_app();
    app.handle_key(Key::Char(' '));
    assert_eq!(app.transition, Transition::Action);
    let cmds = app.handle_key(Key::Char('p')).unwrap();
    assert!(matches!(cmds.as_slice(), [TorrentCmd::Stop(ids)] if ids == &vec![1]));
    assert_eq!(app.transition, Transition::MainScreen);
    app.handle_key(Key::Char(' '));
    app.handle_key(Key::Char('X'));
    assert_eq!(app.transition, Transition::ConfirmRemove(true));
    let cmds = app.handle_key(Key::Char('y')).unwrap();
    assert!(matches!(cmds.as_slice(), [TorrentCmd::Delete(ids, true)] if ids == &vec![1]));
}

#[test]
fn move_dialog_hides_current_folder() {
    let mut app = loaded_app();
    app.handle_key(Key::Char(' '));
    app.handle_key(Key::Char('m'));
    assert_eq!(app.transition, Transition::Move);
    assert_eq!(app.folder_mapping.len(), 1);
    assert_eq!(app.folder_mapping[0].0, "/data/music");
    let key = app.folder_mapping[0].1;
    let cmds = app.handle_key(Key::Char(key)).unwrap();
    assert!(matches!(cmds.as_slice(), [TorrentCmd::Move(ids, to, false)] if ids == &vec![1] && to == "/data/music"));
}

#[test]
fn search_mode_sets_and_drops_filter() {
    let mut app = loaded_app();
    app.handle_key(Key::Char('s'));
    for c in "ETA".chars() {
        app.handle_key(Key::Char(c));
    }
    app.handle_key(Key::Backspace);
    app.handle_key(Key::Enter);
    assert!(matches!(app.current_filter, Filter::Search(ref t) if t == "ET"));
    assert_eq!(app.filtered_torrents.len(), 1);
    app.handle_key(Key::Esc);
    assert!(matches!(app.current_filter, Filter::Recent));
}

#[test]
fn help_returns_to_previous_state() {
    let mut app = loaded_app();
    app.handle_key(Key::F(1));
    assert_eq!(app.transition, Transition::Help);
    app.handle_key(Key::Esc);
    assert_eq!(app.transition, Transition::MainScreen);
}

#[test]
fn sort_chooser_reorders() {
    let mut app = loaded_app();
    app.handle_key(Key::Char('S'));
    assert_eq!(app.transition, Transition::ChooseSortFunc);
    app.handle_key(Key::Char('s'));
    assert_eq!(app.transition, Transition::MainScreen);
    assert_eq!(app.sort_func.name, "by size");
}

#[test]
fn connection_switch_resets_state() {
    let mut config = empty_config();
    let mut second = config.connections[0].clone();
    second.name = "other".to_string();
    config.connections.push(second);
    let mut app = App::new(config);
    app.on_full(&vec![vec![], row(1, "alpha", 300, "/x")]);
    app.handle_key(Key::Char('c'));
    let cmds = app.handle_key(Key::Char('2')).unwrap();
    assert_eq!(app.connection_idx, 1);
    assert_eq!(app.torrents.len(), 0);
    assert!(matches!(cmds.as_slice(), [TorrentCmd::Reconnect(1)]));
}

#[test]
fn find_backward_searches_upwards() {
    let mut app = loaded_app();
    app.handle_key(Key::Down);
    app.handle_key(Key::Down);
    app.handle_key(Key::Char('?'));
    assert_eq!(app.transition, Transition::Find(false, 2));
    app.handle_key(Key::Char('a'));
    assert_eq!(app.selected_index, Some(2));
    app.handle_key(Key::Char('l'));
    assert_eq!(app.selected_index, Some(0));
    let cmds = app.handle_key(Key::Enter).unwrap();
    assert!(matches!(cmds.as_slice(), [TorrentCmd::GetDetails(1)]));
}

#[test]
fn folder_hotkeys_follow_name_order() {
    let mut app = App::new(empty_config());
    app.on_full(&vec![vec![], row(1, "x", 1, "/ab"), row(2, "y", 2, "/aa")]);
    app.handle_key(Key::Char('f'));
    let mut m = app.folder_mapping.clone();
    m.sort();
    assert_eq!(m, vec![("/aa".to_string(), 'a', 0), ("/ab".to_string(), 'b', 1)]);
}
