use mtorrent_gui::listener::{listener_with_canceller, SnapshotAction};
use mtorrent_gui::progress::DownloadProgress;
use mtorrent_gui::snapshot::snapshot_value;
use mtorrent::utils::listener::{
    BytesSnapshot, MetainfoSnapshot, PiecesSnapshot, RequestsSnapshot, StateSnapshot,
};
use mtorrent::utils::re_exports::mtorrent_core::pwp::{PeerOrigin, PeerState};
use std::cell::RefCell;
use std::collections::BTreeMap;

#[test]
fn listener_goes_on_until_its_canceller_is_dropped() {
    let (mut listener, canceller) =
        listener_with_canceller(|_: serde_json::Value| {}, log::Level::Debug, false);
    assert!(matches!(listener.on_snapshot(), SnapshotAction::Deliver { dump: None }));
    assert!(matches!(listener.on_snapshot(), SnapshotAction::Deliver { dump: None }));
    drop(canceller);
    assert!(matches!(listener.on_snapshot(), SnapshotAction::Stop));
    assert!(matches!(listener.on_snapshot(), SnapshotAction::Stop));
}

#[test]
fn every_tenth_snapshot_is_dumped() {
    let (mut listener, _canceller) =
        listener_with_canceller(|_: serde_json::Value| {}, log::Level::Info, true);
    for n in 1..=100usize {
        let dumped = match listener.on_snapshot() {
            SnapshotAction::Deliver { dump } => dump,
            SnapshotAction::Stop => panic!("stopped"),
        };
        assert_eq!(dumped, if n % 10 == 0 { Some(log::Level::Info) } else { None });
    }
}

#[test]
fn decision_by_number_of_holders() {
    let (mut listener, canceller) =
        listener_with_canceller(|_: serde_json::Value| {}, log::Level::Warn, true);
    drop(canceller);
    listener.dump_cfg.as_mut().unwrap().ticks = 9;
    assert!(matches!(listener.on_snapshot_held_by(1), SnapshotAction::Stop));
    assert_eq!(listener.dump_cfg.as_ref().unwrap().ticks, 9);
    assert!(matches!(
        listener.on_snapshot_held_by(2),
        SnapshotAction::Deliver { dump: Some(log::Level::Warn) }
    ));
    assert_eq!(listener.dump_cfg.as_ref().unwrap().ticks, 10);
    assert!(matches!(listener.on_snapshot_held_by(3), SnapshotAction::Deliver { dump: None }));
}

#[test]
fn counter_starts_over_after_its_largest_value() {
    let (mut listener, _canceller) =
        listener_with_canceller(|_: serde_json::Value| {}, log::Level::Warn, true);
    listener.dump_cfg.as_mut().unwrap().ticks = usize::MAX;
    assert!(matches!(
        listener.on_snapshot(),
        SnapshotAction::Deliver { dump: Some(log::Level::Warn) }
    ));
    assert_eq!(listener.dump_cfg.as_ref().unwrap().ticks, 0);
}

#[test]
fn snapshots_are_handed_to_the_callback() {
    let received: RefCell<Vec<serde_json::Value>> = RefCell::new(Vec::new());
    let (listener, _canceller) = listener_with_canceller(
        |value: serde_json::Value| received.borrow_mut().push(value),
        log::Level::Debug,
        false,
    );
    let mut peer = PeerState::default();
    peer.download.bytes_received = 11;
    peer.upload.bytes_sent = 12;
    peer.origin = PeerOrigin::Dht;
    let mut peers = BTreeMap::new();
    peers.insert("1.2.3.4:5".parse().unwrap(), &peer);
    peers.insert("[fe80::1]:6".parse().unwrap(), &peer);
    listener.deliver(&StateSnapshot {
        peers,
        pieces: PiecesSnapshot::default(),
        bytes: BytesSnapshot { total: 70, downloaded: 30 },
        requests: RequestsSnapshot::default(),
        metainfo: MetainfoSnapshot::default(),
    });
    assert_eq!(received.borrow().len(), 1);

    let mut progress = DownloadProgress::default();
    progress.apply_json(&received.borrow()[0]);
    assert_eq!((progress.total_bytes, progress.downloaded_bytes), (70, 30));
    assert_eq!(progress.status, "Downloading");
    assert_eq!(progress.peers.len(), 2);
    assert_eq!(progress.peers[0].addr, "1.2.3.4:5");
    assert_eq!(progress.peers[1].addr, "[fe80::1]:6");
    for shown in &progress.peers {
        assert_eq!(shown.client, "n/a");
        assert_eq!(shown.origin, "Dht");
        assert_eq!((shown.downloaded, shown.uploaded), (11, 12));
    }
}

#[test]
fn engine_snapshot_leaves_nothing_of_the_past() {
    let state = StateSnapshot {
        peers: BTreeMap::new(),
        pieces: PiecesSnapshot::default(),
        bytes: BytesSnapshot::default(),
        requests: RequestsSnapshot::default(),
        metainfo: MetainfoSnapshot::default(),
    };
    let value = snapshot_value(&state);
    let mut progress = DownloadProgress { total_bytes: 5, ..DownloadProgress::default() };
    progress.apply_json(&value);
    assert_eq!((progress.total_bytes, progress.downloaded_bytes), (0, 0));
    assert!(progress.peers.is_empty());
}

#[test]
fn canceller_cancels_its_own_listener_only() {
    let (mut one, canceller_of_one) =
        listener_with_canceller(|_: serde_json::Value| {}, log::Level::Debug, false);
    let (mut other, canceller_of_other) =
        listener_with_canceller(|_: serde_json::Value| {}, log::Level::Debug, false);
    drop(canceller_of_one);
    assert!(matches!(one.on_snapshot(), SnapshotAction::Stop));
    assert!(matches!(other.on_snapshot(), SnapshotAction::Deliver { dump: None }));
    drop(one);
    assert!(matches!(other.on_snapshot(), SnapshotAction::Deliver { dump: None }));
    drop(canceller_of_other);
    assert!(matches!(other.on_snapshot(), SnapshotAction::Stop));
}
