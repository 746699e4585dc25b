//! Progress of one download, and how a snapshot of the download changes it.
use vstd::prelude::*;

verus! {

/// A peer that takes part in a download.
#[derive(Debug)]
pub struct PeerInfo {
    pub addr: String,
    pub client: String,
    pub origin: String,
    pub downloaded: u64,
    pub uploaded: u64,
}

/// What a [`PeerInfo`] holds.
pub struct PeerInfoView {
    pub addr: Seq<char>,
    pub client: Seq<char>,
    pub origin: Seq<char>,
    pub downloaded: u64,
    pub uploaded: u64,
}

impl View for PeerInfo {
    type V = PeerInfoView;

    open spec fn view(&self) -> PeerInfoView {
        PeerInfoView {
            addr: self.addr@,
            client: self.client@,
            origin: self.origin@,
            downloaded: self.downloaded,
            uploaded: self.uploaded,
        }
    }
}

/// How far a download has come.
#[derive(Debug)]
pub struct DownloadProgress {
    pub total_bytes: u64,
    pub downloaded_bytes: u64,
    pub peers: Vec<PeerInfo>,
    pub status: String,
}

/// What a [`DownloadProgress`] holds.
#[verifier::ext_equal]
pub struct DownloadProgressView {
    pub total_bytes: u64,
    pub downloaded_bytes: u64,
    pub peers: Seq<PeerInfoView>,
    pub status: Seq<char>,
}

impl View for DownloadProgress {
    type V = DownloadProgressView;

    open spec fn view(&self) -> DownloadProgressView {
        DownloadProgressView {
            total_bytes: self.total_bytes,
            downloaded_bytes: self.downloaded_bytes,
            peers: self.peers@.map_values(|peer: PeerInfo| peer@),
            status: self.status@,
        }
    }
}

/// A download of which nothing is known yet.
pub open spec fn idle_progress() -> DownloadProgressView {
    DownloadProgressView {
        total_bytes: 0,
        downloaded_bytes: 0,
        peers: Seq::empty(),
        status: "Idle"@,
    }
}

impl Default for DownloadProgress {
    fn default() -> (progress: Self)
        ensures
            progress@ == idle_progress(),
    {
        let progress = DownloadProgress {
            total_bytes: 0,
            downloaded_bytes: 0,
            peers: Vec::new(),
            status: "Idle".to_string(),
        };
        assert(progress@ =~= idle_progress());
        progress
    }
}

/// The byte counters that a snapshot gives.
#[derive(Clone, Copy, Debug)]
pub struct ByteCounts {
    pub total: Option<u64>,
    pub downloaded: Option<u64>,
}

/// What a snapshot tells of one peer.
#[derive(Debug)]
pub struct PeerSnapshot {
    pub addr: String,
    pub client: Option<String>,
    pub origin: Option<String>,
    pub bytes_received: Option<u64>,
    pub bytes_sent: Option<u64>,
}

/// What a [`PeerSnapshot`] holds.
#[verifier::ext_equal]
pub struct PeerSnapshotView {
    pub addr: Seq<char>,
    pub client: Option<Seq<char>>,
    pub origin: Option<Seq<char>>,
    pub bytes_received: Option<u64>,
    pub bytes_sent: Option<u64>,
}

/// An optional text as its characters.
pub open spec fn optional_chars(text: Option<String>) -> Option<Seq<char>> {
    match text {
        Some(found) => Some(found@),
        None => None,
    }
}

impl View for PeerSnapshot {
    type V = PeerSnapshotView;

    open spec fn view(&self) -> PeerSnapshotView {
        PeerSnapshotView {
            addr: self.addr@,
            client: optional_chars(self.client),
            origin: optional_chars(self.origin),
            bytes_received: self.bytes_received,
            bytes_sent: self.bytes_sent,
        }
    }
}

/// What a snapshot tells of a download: each part may be missing from it.
#[derive(Debug)]
pub struct Snapshot {
    pub bytes: Option<ByteCounts>,
    pub peers: Option<Vec<PeerSnapshot>>,
}

/// What a [`Snapshot`] holds.
#[verifier::ext_equal]
pub struct SnapshotView {
    pub bytes: Option<ByteCounts>,
    pub peers: Option<Seq<PeerSnapshotView>>,
}

impl View for Snapshot {
    type V = SnapshotView;

    open spec fn view(&self) -> SnapshotView {
        SnapshotView {
            bytes: self.bytes,
            peers: match self.peers {
                Some(peers) => Some(peers@.map_values(|peer: PeerSnapshot| peer@)),
                None => None,
            },
        }
    }
}

/// The value, or `default` where there is none.
pub open spec fn value_or<T>(value: Option<T>, default: T) -> T {
    match value {
        Some(found) => found,
        None => default,
    }
}

/// How a peer is shown: an unknown client as `n/a`, an unknown origin as nothing, an
/// unknown amount as zero.
pub open spec fn peer_shown(peer: PeerSnapshotView) -> PeerInfoView {
    PeerInfoView {
        addr: peer.addr,
        client: value_or(peer.client, "n/a"@),
        origin: value_or(peer.origin, ""@),
        downloaded: value_or(peer.bytes_received, 0),
        uploaded: value_or(peer.bytes_sent, 0),
    }
}

impl DownloadProgressView {
    /// The progress after a snapshot: what the snapshot has replaces what was known,
    /// what it lacks is kept, and the download is under way.
    pub open spec fn after(self, snapshot: SnapshotView) -> DownloadProgressView {
        DownloadProgressView {
            total_bytes: match snapshot.bytes {
                Some(bytes) => value_or(bytes.total, 0),
                None => self.total_bytes,
            },
            downloaded_bytes: match snapshot.bytes {
                Some(bytes) => value_or(bytes.downloaded, 0),
                None => self.downloaded_bytes,
            },
            peers: match snapshot.peers {
                Some(peers) => peers.map_values(|peer: PeerSnapshotView| peer_shown(peer)),
                None => self.peers,
            },
            status: "Downloading"@,
        }
    }

    /// The progress with another status.
    pub open spec fn with_status(self, status: Seq<char>) -> DownloadProgressView {
        DownloadProgressView { status, ..self }
    }
}

/// Law: the same snapshot again changes nothing.
pub proof fn snapshot_is_idempotent(progress: DownloadProgressView, snapshot: SnapshotView)
    ensures
        progress.after(snapshot).after(snapshot) == progress.after(snapshot),
{
}

/// Law: a snapshot with all parts replaces whatever was known before.
pub proof fn full_snapshot_replaces(
    one: DownloadProgressView,
    other: DownloadProgressView,
    snapshot: SnapshotView,
)
    requires
        snapshot.bytes is Some,
        snapshot.peers is Some,
    ensures
        one.after(snapshot) == other.after(snapshot),
{
}

/// Law: a snapshot that tells nothing changes the status alone.
pub proof fn empty_snapshot_keeps(progress: DownloadProgressView)
    ensures
        progress.after(SnapshotView { bytes: None, peers: None }) == progress.with_status(
            "Downloading"@,
        ),
{
}

fn text_or(text: &Option<String>, default: &str) -> (shown: String)
    ensures
        shown@ == value_or(optional_chars(*text), default@),
{
    match text {
        Some(found) => found.clone(),
        None => default.to_string(),
    }
}

fn number_or_zero(number: Option<u64>) -> (shown: u64)
    ensures
        shown == value_or(number, 0),
{
    match number {
        Some(found) => found,
        None => 0,
    }
}

impl DownloadProgress {
    /// Sets the status.
    pub fn set_status(&mut self, status: &str)
        ensures
            final(self)@ == old(self)@.with_status(status@),
            final(self).status@ == status@,
            final(self).total_bytes == old(self).total_bytes,
            final(self).downloaded_bytes == old(self).downloaded_bytes,
            final(self).peers == old(self).peers,
    {
        self.status = status.to_string();
        assert(self@ =~= old(self)@.with_status(status@));
    }

    /// Takes over what a snapshot tells.
    pub fn apply_snapshot(&mut self, snapshot: &Snapshot)
        ensures
            final(self)@ == old(self)@.after(snapshot@),
            final(self).status@ == "Downloading"@,
            snapshot.bytes matches Some(bytes) ==> {
                &&& bytes.total is Some ==> final(self).total_bytes == bytes.total->0
                &&& bytes.downloaded is Some ==> final(self).downloaded_bytes
                    == bytes.downloaded->0
            },
    {
        let ghost expected = old(self)@.after(snapshot@);
        if let Some(bytes) = &snapshot.bytes {
            self.total_bytes = number_or_zero(bytes.total);
            self.downloaded_bytes = number_or_zero(bytes.downloaded);
        }
        if let Some(peers) = &snapshot.peers {
            self.peers = shown_peers(peers);
        }
        self.status = "Downloading".to_string();
        assert(self@.peers =~= expected.peers);
    }
}

/// All peers of a snapshot as they are shown.
fn shown_peers(peers: &Vec<PeerSnapshot>) -> (shown: Vec<PeerInfo>)
    ensures
        shown@.map_values(|peer: PeerInfo| peer@) == peers@.map_values(
            |peer: PeerSnapshot| peer@,
        ).map_values(|peer: PeerSnapshotView| peer_shown(peer)),
{
    let mut shown: Vec<PeerInfo> = Vec::new();
    let mut i: usize = 0;
    while i < peers.len()
        invariant
            i <= peers@.len(),
            shown@.len() == i,
            forall|j: int|
                #![trigger shown@[j]]
                0 <= j < i ==> shown@[j]@ == peer_shown(peers@[j]@),
        decreases peers@.len() - i,
    {
        let peer = &peers[i];
        shown.push(
            PeerInfo {
                addr: peer.addr.clone(),
                client: text_or(&peer.client, "n/a"),
                origin: text_or(&peer.origin, ""),
                downloaded: number_or_zero(peer.bytes_received),
                uploaded: number_or_zero(peer.bytes_sent),
            },
        );
        i = i + 1;
    }
    assert(shown@.map_values(|peer: PeerInfo| peer@) =~= peers@.map_values(
        |peer: PeerSnapshot| peer@,
    ).map_values(|peer: PeerSnapshotView| peer_shown(peer)));
    shown
}

/// Law: what a peer and a progress are seen as is what their fields hold.
pub proof fn progress_shows_its_fields(progress: DownloadProgress, i: int)
    ensures
        progress@.total_bytes == progress.total_bytes,
        progress@.downloaded_bytes == progress.downloaded_bytes,
        progress@.status == progress.status@,
        progress@.peers.len() == progress.peers@.len(),
        0 <= i < progress.peers@.len() ==> {
            let shown = progress@.peers[i];
            let peer = progress.peers@[i];
            &&& shown.addr == peer.addr@
            &&& shown.client == peer.client@
            &&& shown.origin == peer.origin@
            &&& shown.downloaded == peer.downloaded
            &&& shown.uploaded == peer.uploaded
        },
{
}

/// Law: what a snapshot is seen as is what its fields hold.
pub proof fn snapshot_shows_its_fields(snapshot: Snapshot, i: int)
    ensures
        snapshot@.bytes == snapshot.bytes,
        snapshot.peers is None <==> snapshot@.peers is None,
        snapshot.peers matches Some(peers) ==> {
            &&& snapshot@.peers->0.len() == peers@.len()
            &&& 0 <= i < peers@.len() ==> {
                let shown = snapshot@.peers->0[i];
                let peer = peers@[i];
                &&& shown.addr == peer.addr@
                &&& peer.client matches Some(client) ==> shown.client == Some(client@)
                &&& peer.client is None ==> shown.client is None
                &&& peer.origin matches Some(origin) ==> shown.origin == Some(origin@)
                &&& peer.origin is None ==> shown.origin is None
                &&& shown.bytes_received == peer.bytes_received
                &&& shown.bytes_sent == peer.bytes_sent
            }
        },
{
}

/// Law: byte counters that a snapshot gives are taken over as they are, to the last byte; one
/// that it does not give next to the other is zero. A snapshot without counters keeps both.
pub proof fn counters_are_taken_over(progress: DownloadProgressView, snapshot: SnapshotView)
    ensures
        snapshot.bytes matches Some(bytes) ==> {
            &&& bytes.total matches Some(total) ==> progress.after(snapshot).total_bytes == total
            &&& bytes.total is None ==> progress.after(snapshot).total_bytes == 0
            &&& bytes.downloaded matches Some(downloaded) ==> progress.after(
                snapshot,
            ).downloaded_bytes == downloaded
            &&& bytes.downloaded is None ==> progress.after(snapshot).downloaded_bytes == 0
        },
        snapshot.bytes is None ==> {
            &&& progress.after(snapshot).total_bytes == progress.total_bytes
            &&& progress.after(snapshot).downloaded_bytes == progress.downloaded_bytes
        },
{
}

/// Law: the peers of a snapshot replace those that were known, one for one and in the same
/// order. What is told of a peer is taken over as it is; an unknown client is `n/a`, an
/// unknown origin nothing and an unknown amount zero. A snapshot without peers keeps them.
pub proof fn peers_are_taken_over(
    progress: DownloadProgressView,
    snapshot: SnapshotView,
    i: int,
)
    ensures
        snapshot.peers is None ==> progress.after(snapshot).peers == progress.peers,
        snapshot.peers matches Some(peers) ==> {
            &&& progress.after(snapshot).peers.len() == peers.len()
            &&& 0 <= i < peers.len() ==> {
                let shown = progress.after(snapshot).peers[i];
                let peer = peers[i];
                &&& shown.addr == peer.addr
                &&& peer.client matches Some(client) ==> shown.client == client
                &&& peer.client is None ==> shown.client == "n/a"@
                &&& peer.origin matches Some(origin) ==> shown.origin == origin
                &&& peer.origin is None ==> shown.origin.len() == 0
                &&& peer.bytes_received matches Some(received) ==> shown.downloaded == received
                &&& peer.bytes_received is None ==> shown.downloaded == 0
                &&& peer.bytes_sent matches Some(sent) ==> shown.uploaded == sent
                &&& peer.bytes_sent is None ==> shown.uploaded == 0
            }
        },
{
    reveal_strlit("");
}

/// Law: a download that reports is downloading, whatever it reported or said before.
pub proof fn reporting_is_downloading(progress: DownloadProgressView, snapshot: SnapshotView)
    ensures
        progress.after(snapshot).status == "Downloading"@,
{
}

/// Law: a status replaces the one before and nothing else.
pub proof fn status_is_replaced(
    progress: DownloadProgressView,
    first: Seq<char>,
    status: Seq<char>,
)
    ensures
        ({
            let after = progress.with_status(status);
            &&& after.status == status
            &&& progress.with_status(first).with_status(status) == after
            &&& after.total_bytes == progress.total_bytes
            &&& after.downloaded_bytes == progress.downloaded_bytes
            &&& after.peers == progress.peers
        }),
{
}

/// Law: nothing is known of an idle download.
pub proof fn idle_knows_nothing()
    ensures
        idle_progress().total_bytes == 0,
        idle_progress().downloaded_bytes == 0,
        idle_progress().peers.len() == 0,
        idle_progress().status == "Idle"@,
{
}

/// Law: after a call that takes a snapshot over, the counters are those of the snapshot, to
/// the last byte, the peers are as many as in the snapshot, and the download is under way.
pub proof fn call_takes_the_snapshot_over(progress: &mut DownloadProgress, snapshot: Snapshot)
    requires
        call_ensures(DownloadProgress::apply_snapshot, (progress, &snapshot), ()),
    ensures
        snapshot.bytes matches Some(bytes) ==> {
            &&& bytes.total matches Some(total) ==> final(progress).total_bytes == total
            &&& bytes.total is None ==> final(progress).total_bytes == 0
            &&& bytes.downloaded matches Some(downloaded) ==> final(progress).downloaded_bytes
                == downloaded
            &&& bytes.downloaded is None ==> final(progress).downloaded_bytes == 0
        },
        snapshot.bytes is None ==> {
            &&& final(progress).total_bytes == old(progress).total_bytes
            &&& final(progress).downloaded_bytes == old(progress).downloaded_bytes
        },
        snapshot.peers matches Some(peers) ==> final(progress).peers@.len() == peers@.len(),
        final(progress).status@ == "Downloading"@,
{
    let view = final(progress)@;
    assert(view == old(progress)@.after(snapshot@));
    assert(view.peers.len() == final(progress).peers@.len());
}

/// Law: a call that sets the status replaces it, and changes nothing else.
pub proof fn call_sets_the_status(progress: &mut DownloadProgress, status: &str)
    requires
        call_ensures(DownloadProgress::set_status, (progress, status), ()),
    ensures
        final(progress).status@ == status@,
        final(progress).total_bytes == old(progress).total_bytes,
        final(progress).downloaded_bytes == old(progress).downloaded_bytes,
        final(progress).peers == old(progress).peers,
{
}

} // verus!
