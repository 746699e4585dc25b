use mtorrent_gui::listener::SnapshotAction;
use mtorrent_gui::tasks::{DownloadTask, MtorrentApp};
use std::path::PathBuf;

const LINK: &str = "magnet:?xt=urn:btih:1EBD3DBFBB25C1333F51C99C7EE670FC2A1727C9";

fn app_with_tasks(count: usize) -> MtorrentApp {
    let mut app = MtorrentApp::with_peer_id(
        [7u8; 20],
        PathBuf::from("/data"),
        None,
        Some("eth0".to_string()),
    );
    for _ in 0..count {
        app.add_new_task();
    }
    app
}

fn ids(app: &MtorrentApp) -> Vec<usize> {
    app.active_downloads.iter().map(|task: &DownloadTask| task.id).collect()
}

#[test]
fn app_starts_without_tasks() {
    let app = MtorrentApp::new(PathBuf::from("/data"), None, None);
    assert!(app.active_downloads.is_empty());
    assert_eq!(app.next_id, 1);
    assert_eq!(app.cli_arg, None);
    assert_eq!(app.net_if, None);
    assert_eq!(app.local_data_dir, PathBuf::from("/data"));
}

#[test]
fn peer_id_begins_with_the_name_of_the_client() {
    let one = MtorrentApp::new(PathBuf::new(), None, None);
    let other = MtorrentApp::new(PathBuf::new(), None, None);
    assert_eq!(&one.peer_id[..7], b"-mt0056");
    assert!(one.peer_id.iter().all(|byte| (33..=126).contains(byte)));
    assert_ne!(one.peer_id, other.peer_id);
}

#[test]
fn argument_becomes_a_task() {
    let app = MtorrentApp::new(PathBuf::new(), Some("a.torrent".to_string()), None);
    assert_eq!(ids(&app), [1]);
    assert_eq!(app.next_id, 2);
    assert_eq!(app.active_downloads[0].new_uri_input, "a.torrent");
    assert_eq!(app.active_downloads[0].name, "Task 1");
    assert_eq!(app.cli_arg, None);
}

#[test]
fn new_task_is_idle() {
    let app = app_with_tasks(12);
    let task = &app.active_downloads[11];
    assert_eq!(task.id, 12);
    assert_eq!(task.name, "Task 12");
    assert_eq!(task.uri, "");
    assert_eq!(task.new_uri_input, "");
    assert_eq!(task.output_dir, PathBuf::new());
    assert!(task.canceller.is_none());
    assert_eq!(task.progress.status, "Idle");
}

#[test]
fn numbers_are_not_used_again() {
    let mut app = app_with_tasks(3);
    app.remove_task(2);
    app.remove_task(0);
    app.add_new_task();
    assert_eq!(ids(&app), [2, 4]);
    app.remove_task(17);
    assert_eq!(ids(&app), [2, 4]);
    app.remove_task(1);
    assert_eq!(ids(&app), [2]);
}

#[test]
fn stopping_drops_the_canceller() {
    let mut app = app_with_tasks(2);
    let order = app.start_download(
        1,
        LINK.to_string(),
        PathBuf::from("/out"),
        &|id: usize| move |_: serde_json::Value| assert_eq!(id, 2),
        log::Level::Debug,
        false,
    );
    let mut listener = order.unwrap().listener;
    assert!(app.active_downloads[1].canceller.is_some());
    assert!(matches!(listener.on_snapshot(), SnapshotAction::Deliver { dump: None }));
    app.stop_download(5);
    assert!(matches!(listener.on_snapshot(), SnapshotAction::Deliver { dump: None }));
    app.stop_download(1);
    assert!(app.active_downloads[1].canceller.is_none());
    assert_eq!(app.active_downloads[1].progress.status, "Stopped");
    assert_eq!(app.active_downloads[0].progress.status, "Idle");
    assert!(matches!(listener.on_snapshot(), SnapshotAction::Stop));
}

#[test]
fn removing_and_restarting_stop_the_old_download() {
    let mut app = app_with_tasks(2);
    let mut start = |app: &mut MtorrentApp, index: usize| {
        app.start_download(
            index,
            LINK.to_string(),
            PathBuf::from("/out"),
            &|_: usize| |_: serde_json::Value| {},
            log::Level::Debug,
            false,
        )
        .unwrap()
        .listener
    };
    let mut first = start(&mut app, 0);
    let mut second = start(&mut app, 0);
    assert!(matches!(first.on_snapshot(), SnapshotAction::Stop));
    assert!(matches!(second.on_snapshot(), SnapshotAction::Deliver { dump: None }));
    app.remove_task(0);
    assert!(matches!(second.on_snapshot(), SnapshotAction::Stop));
    let mut third = start(&mut app, 0);
    app.on_exit();
    assert!(matches!(third.on_snapshot(), SnapshotAction::Stop));
    assert_eq!(app.active_downloads[0].progress.status, "Stopped");
}

#[test]
fn exit_stops_all_tasks() {
    let mut app = app_with_tasks(4);
    app.on_exit();
    for task in &app.active_downloads {
        assert!(task.canceller.is_none());
        assert_eq!(task.progress.status, "Stopped");
    }
    assert_eq!(ids(&app), [1, 2, 3, 4]);
}

#[test]
fn started_task_is_named_after_the_torrent() {
    let mut app = app_with_tasks(3);
    let sources = [
        (format!("{LINK}&dn=Some.Film%5B1%5D"), "Some.Film[1]"),
        ("/home/user/ubuntu.iso.torrent".to_string(), "ubuntu.iso"),
        (LINK.to_string(), "Download 3"),
    ];
    for (index, (uri, name)) in sources.iter().enumerate() {
        let order = app
            .start_download(
                index,
                uri.clone(),
                PathBuf::from("/out"),
                &|id: usize| id,
                log::Level::Debug,
                true,
            )
            .unwrap();
        let task = &app.active_downloads[index];
        assert_eq!(task.name, *name);
        assert_eq!(task.uri, *uri);
        assert_eq!(task.output_dir, PathBuf::from("/out"));
        assert_eq!(task.progress.status, "Loading...");
        assert!(task.canceller.is_some());
        assert_eq!(order.metainfo_uri, *uri);
        assert_eq!(order.listener.callback, task.id);
        let dump = order.listener.dump_cfg.unwrap();
        assert_eq!((dump.level, dump.ticks), (log::Level::Debug, 0));
    }
}

#[test]
fn order_says_how_to_download() {
    let mut app = app_with_tasks(1);
    let order = app
        .start_download_named(
            0,
            "x".to_string(),
            PathBuf::from("/out"),
            None,
            &|id: usize| id,
            log::Level::Debug,
            false,
        )
        .unwrap();
    assert_eq!(app.active_downloads[0].name, "Download 1");
    assert_eq!(order.config.local_peer_id, [7u8; 20]);
    assert_eq!(order.config.output_dir, PathBuf::from("/out"));
    assert_eq!(order.config.config_dir, PathBuf::from("/data"));
    assert!(order.config.use_upnp);
    assert_eq!(order.config.pwp_port, None);
    assert_eq!(order.config.bind_interface, Some("eth0".to_string()));
    assert!(order.listener.dump_cfg.is_none());
}

#[test]
fn absent_task_is_not_started() {
    let mut app = app_with_tasks(1);
    let order = app.start_download(
        1,
        LINK.to_string(),
        PathBuf::from("/out"),
        &|id: usize| id,
        log::Level::Debug,
        true,
    );
    assert!(order.is_none());
    assert_eq!(app.active_downloads[0].name, "Task 1");
    assert_eq!(app.active_downloads[0].progress.status, "Idle");
}

#[test]
fn snapshot_reaches_only_its_task() {
    let mut app = app_with_tasks(3);
    let value =
        serde_json::from_str::<serde_json::Value>(r#"{"bytes": {"total": 9, "downloaded": 4}}"#)
            .unwrap();
    app.apply_json(2, &value);
    let totals: Vec<u64> = app.active_downloads.iter().map(|t| t.progress.total_bytes).collect();
    assert_eq!(totals, [0, 9, 0]);
    assert_eq!(app.active_downloads[1].progress.status, "Downloading");
    app.remove_task(1);
    app.apply_json(2, &value);
    assert!(app.active_downloads.iter().all(|t| t.progress.status == "Idle"));
}

#[test]
fn typed_source_is_kept() {
    let mut app = app_with_tasks(2);
    app.set_uri_input(1, "b.torrent".to_string());
    app.set_uri_input(2, "c.torrent".to_string());
    assert_eq!(app.active_downloads[0].new_uri_input, "");
    assert_eq!(app.active_downloads[1].new_uri_input, "b.torrent");
}

#[test]
fn removing_a_new_task_gives_the_list_back() {
    let mut app = app_with_tasks(2);
    app.add_new_task();
    app.remove_task(2);
    assert_eq!(ids(&app), [1, 2]);
    assert_eq!(app.next_id, 4);
}

#[test]
fn stopped_task_can_be_stopped_and_started_again() {
    let mut app = app_with_tasks(1);
    app.stop_download(0);
    app.stop_download(0);
    assert_eq!(app.active_downloads[0].progress.status, "Stopped");
    let order = app.start_download(
        0,
        LINK.to_string(),
        PathBuf::from("/out"),
        &|id: usize| id,
        log::Level::Debug,
        false,
    );
    assert!(order.is_some());
    assert!(app.active_downloads[0].canceller.is_some());
    assert_eq!(app.active_downloads[0].progress.status, "Loading...");
}
