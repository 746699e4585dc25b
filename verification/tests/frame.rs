use mtorrent_gui::frame::FrameActions;
use mtorrent_gui::listener::SnapshotAction;
use mtorrent_gui::tasks::MtorrentApp;
use std::path::PathBuf;

fn listed(count: usize) -> MtorrentApp {
    let mut app = MtorrentApp::with_peer_id([1u8; 20], PathBuf::from("/data"), None, None);
    for _ in 0..count {
        app.add_new_task();
    }
    app
}

fn run(app: &mut MtorrentApp, actions: &FrameActions) -> Vec<(usize, String)> {
    app.update(actions, &|id: usize| id, log::Level::Debug, false)
        .into_iter()
        .map(|order| (order.listener.callback, order.metainfo_uri))
        .collect()
}

#[test]
fn row_of_a_new_task() {
    let rows = listed(2).rows();
    assert_eq!(rows.len(), 2);
    let row = &rows[1];
    assert_eq!(row.heading, "Task 2");
    assert_eq!(row.uri_input, "");
    assert_eq!(row.share_text, "0.0%");
    assert_eq!((row.share.significand, row.share.scale), (0, 0));
    assert_eq!(row.status_line, "Status: Idle | Downloaded: 0 B / 0 B (0 KiB)");
    assert_eq!(row.peers_table, "peers_table_1");
    assert!(!row.is_downloading);
    assert!(!row.shows_peers());
}

#[test]
fn row_of_a_download() {
    let mut app = listed(1);
    let mut actions = FrameActions::new();
    actions.start(0, "x/film.torrent".to_string(), Some(PathBuf::from("/out")));
    assert_eq!(run(&mut app, &actions), [(1, "x/film.torrent".to_string())]);
    let value = serde_json::from_str::<serde_json::Value>(
        r#"{"bytes": {"total": 4096000, "downloaded": 1536000},
            "peers": {"1.2.3.4:5": {"client": "c", "origin": "o",
                "download": {"bytesReceived": 1536}, "upload": {"bytesSent": 20480}}}}"#,
    )
    .unwrap();
    app.apply_json(1, &value);
    let rows = app.rows();
    let row = &rows[0];
    assert_eq!(row.heading, "film");
    assert!(row.is_downloading);
    assert_eq!(row.share_text, "37.5%");
    assert_eq!(
        row.status_line,
        "Status: Downloading | Downloaded: 1.5 MB / 3.9 MB (1 500 KiB)"
    );
    assert!(row.shows_peers());
    assert_eq!(row.peers.len(), 1);
    assert_eq!(row.peers[0].addr, "1.2.3.4:5");
    assert_eq!(row.peers[0].client, "c");
    assert_eq!(row.peers[0].origin, "o");
    assert_eq!(row.peers[0].downloaded, "1.5 KB");
    assert_eq!(row.peers[0].uploaded, "20 KB");
}

#[test]
fn dialogs_open_only_when_they_make_sense() {
    let mut app = listed(2);
    let mut actions = FrameActions::new();
    actions.start(0, "x".to_string(), Some(PathBuf::from("/out")));
    run(&mut app, &actions);
    let rows = app.rows();
    let (busy, idle) = (&rows[0], &rows[1]);
    assert!(!busy.asks_for_file(true));
    assert!(idle.asks_for_file(true));
    assert!(!idle.asks_for_file(false));
    assert!(!busy.can_start());
    assert!(idle.can_start());
    assert!(!busy.asks_for_folder(true, "x"));
    assert!(idle.asks_for_folder(true, "x"));
    assert!(!idle.asks_for_folder(true, ""));
    assert!(!idle.asks_for_folder(false, "x"));
}

#[test]
fn quiet_frame() {
    let mut app = listed(2);
    assert!(run(&mut app, &FrameActions::new()).is_empty());
    assert_eq!(app.active_downloads.len(), 2);
    assert_eq!(app.next_id, 3);
}

#[test]
fn task_is_not_started_without_a_folder() {
    let mut app = listed(1);
    let mut actions = FrameActions::new();
    actions.start(0, "x".to_string(), None);
    assert!(run(&mut app, &actions).is_empty());
    assert!(app.active_downloads[0].canceller.is_none());
}

#[test]
fn last_removal_counts() {
    let mut app = listed(3);
    let mut actions = FrameActions::new();
    actions.remove(0);
    actions.remove(2);
    run(&mut app, &actions);
    let left: Vec<usize> = app.active_downloads.iter().map(|task| task.id).collect();
    assert_eq!(left, [1, 2]);
}

#[test]
fn indices_count_after_the_removal() {
    let mut app = listed(4);
    let mut actions = FrameActions::new();
    actions.start(1, "a".to_string(), Some(PathBuf::from("/a")));
    actions.start(3, "b".to_string(), Some(PathBuf::from("/b")));
    actions.start(2, "c".to_string(), Some(PathBuf::from("/c")));
    actions.stop(0);
    actions.remove(0);
    let orders = run(&mut app, &actions);
    assert_eq!(orders, [(3, "a".to_string()), (4, "c".to_string())]);
    assert_eq!(app.active_downloads[0].id, 2);
    assert_eq!(app.active_downloads[0].progress.status, "Stopped");
    assert_eq!(app.active_downloads[1].output_dir, PathBuf::from("/a"));
    assert_eq!(app.active_downloads[2].output_dir, PathBuf::from("/c"));
}

#[test]
fn stopping_wins_over_starting() {
    let mut app = listed(1);
    let mut actions = FrameActions::new();
    actions.start(0, "a".to_string(), Some(PathBuf::from("/a")));
    actions.stop(0);
    assert_eq!(run(&mut app, &actions).len(), 1);
    assert!(app.active_downloads[0].canceller.is_none());
    assert_eq!(app.active_downloads[0].progress.status, "Stopped");
    assert_eq!(app.active_downloads[0].uri, "a");
}

#[test]
fn started_tasks_share_the_tokens_of_their_downloads() {
    let mut app = listed(3);
    let mut actions = FrameActions::new();
    actions.start(0, "a".to_string(), Some(PathBuf::from("/a")));
    actions.start(1, "b".to_string(), Some(PathBuf::from("/b")));
    actions.start(0, "c".to_string(), Some(PathBuf::from("/c")));
    actions.start(2, "d".to_string(), Some(PathBuf::from("/d")));
    actions.stop(2);
    let mut orders = app.update(&actions, &|id: usize| id, log::Level::Debug, false);
    assert_eq!(orders.len(), 4);
    assert!(matches!(orders[0].listener.on_snapshot(), SnapshotAction::Stop));
    assert!(matches!(orders[1].listener.on_snapshot(), SnapshotAction::Deliver { dump: None }));
    assert!(matches!(orders[2].listener.on_snapshot(), SnapshotAction::Deliver { dump: None }));
    assert!(matches!(orders[3].listener.on_snapshot(), SnapshotAction::Stop));
    app.stop_download(0);
    assert!(matches!(orders[1].listener.on_snapshot(), SnapshotAction::Deliver { dump: None }));
    assert!(matches!(orders[2].listener.on_snapshot(), SnapshotAction::Stop));
}

#[test]
fn frame_leaves_other_downloads_running() {
    let mut app = listed(3);
    let mut actions = FrameActions::new();
    actions.start(2, "a".to_string(), Some(PathBuf::from("/a")));
    let mut orders = app.update(&actions, &|id: usize| id, log::Level::Debug, false);
    let mut actions = FrameActions::new();
    actions.remove(0);
    actions.start(0, "b".to_string(), Some(PathBuf::from("/b")));
    actions.stop(7);
    app.update(&actions, &|id: usize| id, log::Level::Debug, false);
    app.set_uri_input(1, "c".to_string());
    assert_eq!(app.active_downloads[1].uri, "a");
    assert!(matches!(orders[0].listener.on_snapshot(), SnapshotAction::Deliver { dump: None }));
    app.remove_task(1);
    assert!(matches!(orders[0].listener.on_snapshot(), SnapshotAction::Stop));
}
