use mtorrent_gui::progress::{ByteCounts, DownloadProgress, PeerSnapshot, Snapshot};
use mtorrent_gui::snapshot::{delivered_value, read_snapshot};

fn document(text: &str) -> serde_json::Value {
    serde_json::from_str::<serde_json::Value>(text).unwrap()
}

fn full_document() -> serde_json::Value {
    document(
        r#"{
            "bytes": {"total": 2000, "downloaded": 500},
            "peers": {
                "9.9.9.9:2": {"client": "abc", "origin": "dht",
                    "download": {"bytesReceived": 7}, "upload": {"bytesSent": 8}},
                "1.1.1.1:1": {"download": {}, "upload": 3, "client": 5},
                "5.5.5.5:5": "not an object"
            }
        }"#,
    )
}

#[test]
fn progress_starts_idle() {
    let progress = DownloadProgress::default();
    assert_eq!(progress.total_bytes, 0);
    assert_eq!(progress.downloaded_bytes, 0);
    assert!(progress.peers.is_empty());
    assert_eq!(progress.status, "Idle");
}

#[test]
fn document_is_read() {
    let snapshot = read_snapshot(&full_document());
    let bytes = snapshot.bytes.unwrap();
    assert_eq!((bytes.total, bytes.downloaded), (Some(2000), Some(500)));
    let peers = snapshot.peers.unwrap();
    assert_eq!(peers.len(), 2);
    assert_eq!(peers[0].addr, "1.1.1.1:1");
    assert_eq!(peers[0].client, None);
    assert_eq!(peers[0].origin, None);
    assert_eq!(peers[0].bytes_received, None);
    assert_eq!(peers[0].bytes_sent, None);
    assert_eq!(peers[1].addr, "9.9.9.9:2");
    assert_eq!(peers[1].client, Some("abc".to_string()));
    assert_eq!(peers[1].origin, Some("dht".to_string()));
    assert_eq!(peers[1].bytes_received, Some(7));
    assert_eq!(peers[1].bytes_sent, Some(8));
}

#[test]
fn peers_come_in_order_of_their_addresses() {
    let snapshot = read_snapshot(&document(r#"{"peers": {"b": {}, "aa": {}, "a": {}, "B": {}}}"#));
    let addresses: Vec<String> = snapshot.peers.unwrap().into_iter().map(|p| p.addr).collect();
    assert_eq!(addresses, ["B", "a", "aa", "b"]);
}

#[test]
fn full_snapshot_is_taken_over() {
    let mut progress = DownloadProgress::default();
    progress.apply_json(&full_document());
    assert_eq!(progress.total_bytes, 2000);
    assert_eq!(progress.downloaded_bytes, 500);
    assert_eq!(progress.status, "Downloading");
    assert_eq!(progress.peers.len(), 2);
    assert_eq!(progress.peers[0].addr, "1.1.1.1:1");
    assert_eq!(progress.peers[0].client, "n/a");
    assert_eq!(progress.peers[0].origin, "");
    assert_eq!(progress.peers[0].downloaded, 0);
    assert_eq!(progress.peers[0].uploaded, 0);
    assert_eq!(progress.peers[1].client, "abc");
    assert_eq!(progress.peers[1].origin, "dht");
    assert_eq!(progress.peers[1].downloaded, 7);
    assert_eq!(progress.peers[1].uploaded, 8);
}

#[test]
fn missing_parts_are_kept() {
    let mut progress = DownloadProgress::default();
    progress.apply_json(&full_document());
    progress.apply_json(&document(r#"{"bytes": {"total": 3000, "downloaded": 600}}"#));
    assert_eq!((progress.total_bytes, progress.downloaded_bytes), (3000, 600));
    assert_eq!(progress.peers.len(), 2);
    progress.apply_json(&document(r#"{"peers": {}}"#));
    assert_eq!((progress.total_bytes, progress.downloaded_bytes), (3000, 600));
    assert!(progress.peers.is_empty());
    progress.apply_json(&document(r#"{"peers": []}"#));
    assert_eq!(progress.status, "Downloading");
}

#[test]
fn odd_counters_count_as_zero() {
    for text in [
        r#"{"bytes": null}"#,
        r#"{"bytes": []}"#,
        r#"{"bytes": {}}"#,
        r#"{"bytes": {"total": -1, "downloaded": 1.5}}"#,
        r#"{"bytes": {"total": "12", "downloaded": {}}}"#,
    ] {
        let mut progress = DownloadProgress::default();
        progress.apply_json(&full_document());
        progress.apply_json(&document(text));
        assert_eq!((progress.total_bytes, progress.downloaded_bytes), (0, 0), "{text}");
    }
}

#[test]
fn same_snapshot_again_changes_nothing() {
    let mut once = DownloadProgress::default();
    once.apply_json(&full_document());
    let mut twice = DownloadProgress::default();
    twice.apply_json(&full_document());
    twice.apply_json(&full_document());
    assert_eq!(format!("{once:?}"), format!("{twice:?}"));
}

#[test]
fn plain_snapshot_is_taken_over() {
    let mut progress = DownloadProgress::default();
    progress.apply_snapshot(&Snapshot {
        bytes: Some(ByteCounts { total: None, downloaded: Some(3) }),
        peers: Some(vec![PeerSnapshot {
            addr: "x".to_string(),
            client: None,
            origin: Some("pex".to_string()),
            bytes_received: Some(1),
            bytes_sent: None,
        }]),
    });
    assert_eq!((progress.total_bytes, progress.downloaded_bytes), (0, 3));
    assert_eq!(progress.peers[0].client, "n/a");
    assert_eq!(progress.peers[0].origin, "pex");
    assert_eq!((progress.peers[0].downloaded, progress.peers[0].uploaded), (1, 0));
    progress.apply_snapshot(&Snapshot { bytes: None, peers: None });
    assert_eq!((progress.total_bytes, progress.downloaded_bytes), (0, 3));
    assert_eq!(progress.peers.len(), 1);
}

#[test]
fn failed_conversion_is_delivered_as_its_text() {
    let error = serde_json::from_str::<serde_json::Value>("{").unwrap_err();
    let text = error.to_string();
    let value = delivered_value(Err(error));
    assert_eq!(value.as_str(), Some(text.as_str()));

    let mut progress = DownloadProgress::default();
    progress.apply_json(&full_document());
    progress.set_status("Loading...");
    progress.apply_json(&value);
    assert_eq!((progress.total_bytes, progress.downloaded_bytes), (2000, 500));
    assert_eq!(progress.peers.len(), 2);
    assert_eq!(progress.status, "Downloading");
}

#[test]
fn converted_snapshot_is_delivered_as_it_is() {
    assert_eq!(delivered_value(Ok(full_document())), full_document());
}

#[test]
fn full_snapshot_replaces_everything() {
    let mut fresh = DownloadProgress::default();
    let mut used = DownloadProgress::default();
    used.apply_json(&document(
        r#"{"bytes": {"total": 1, "downloaded": 1}, "peers": {"z": {}, "y": {}, "x": {}}}"#,
    ));
    used.set_status("Stopped");
    fresh.apply_json(&full_document());
    used.apply_json(&full_document());
    assert_eq!(format!("{fresh:?}"), format!("{used:?}"));
}
