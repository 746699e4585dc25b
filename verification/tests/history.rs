use mtorrent_gui::listener::{Listener, SnapshotAction};
use mtorrent_gui::tasks::{DownloadOrder, MtorrentApp};
use std::path::PathBuf;

fn listed(count: usize) -> MtorrentApp {
    let mut app = MtorrentApp::with_peer_id([1u8; 20], PathBuf::from("/data"), None, None);
    for _ in 0..count {
        app.add_new_task();
    }
    app
}

fn start(app: &mut MtorrentApp, index: usize) -> DownloadOrder<usize> {
    app.start_download(
        index,
        "x".to_string(),
        PathBuf::from("/x"),
        &|id: usize| id,
        log::Level::Debug,
        false,
    )
    .unwrap()
}

/// The download reports to its listener, which hands the report on unless it was cancelled.
fn report(app: &mut MtorrentApp, listener: &mut Listener<usize>) -> bool {
    match listener.on_snapshot() {
        SnapshotAction::Stop => false,
        SnapshotAction::Deliver { .. } => {
            app.apply_json(listener.callback, &serde_json::Value::Null);
            true
        }
    }
}

#[test]
fn restart_cancels_the_earlier_download_only() {
    let mut app = listed(2);
    let mut bystander = start(&mut app, 1);
    let mut earlier = start(&mut app, 0);
    let mut later = start(&mut app, 0);
    assert!(!report(&mut app, &mut earlier.listener));
    assert_eq!(app.active_downloads[0].progress.status, "Loading...");
    assert!(report(&mut app, &mut later.listener));
    assert_eq!(app.active_downloads[0].progress.status, "Downloading");
    assert!(report(&mut app, &mut bystander.listener));
    drop(earlier);
    assert!(report(&mut app, &mut later.listener));
}

#[test]
fn stopped_task_stays_stopped_until_it_is_started() {
    let mut app = listed(3);
    let mut first = start(&mut app, 1);
    assert!(report(&mut app, &mut first.listener));
    app.stop_download(1);
    for _ in 0..3 {
        assert!(!report(&mut app, &mut first.listener));
        assert_eq!(app.active_downloads[1].progress.status, "Stopped");
    }
    let mut other = start(&mut app, 2);
    app.remove_task(0);
    app.add_new_task();
    app.set_uri_input(0, "y".to_string());
    assert!(report(&mut app, &mut other.listener));
    assert!(!report(&mut app, &mut first.listener));
    assert_eq!(app.active_downloads[0].progress.status, "Stopped");
    let mut second = start(&mut app, 0);
    assert!(!report(&mut app, &mut first.listener));
    assert!(report(&mut app, &mut second.listener));
    assert_eq!(app.active_downloads[0].progress.status, "Downloading");
}

#[test]
fn removal_cancels_the_download_for_good() {
    let mut app = listed(2);
    let mut removed = start(&mut app, 0);
    let mut kept = start(&mut app, 1);
    app.remove_task(0);
    assert!(!report(&mut app, &mut removed.listener));
    assert!(report(&mut app, &mut kept.listener));
    let mut again = start(&mut app, 0);
    assert!(!report(&mut app, &mut removed.listener));
    assert!(!report(&mut app, &mut kept.listener));
    assert!(report(&mut app, &mut again.listener));
}

#[test]
fn exit_cancels_all_downloads() {
    let mut app = listed(2);
    let mut one = start(&mut app, 0);
    let mut other = start(&mut app, 1);
    app.on_exit();
    assert!(!report(&mut app, &mut one.listener));
    assert!(!report(&mut app, &mut other.listener));
}
