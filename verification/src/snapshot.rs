//! Reading the snapshot of a download from its JSON form.
use crate::json::{
    below, comes_before, document_is_object, entries, get, has_key, is_child, is_text, json_keys,
    json_text, json_unsigned, lookup, order_is_strict, rebuild, same_content, text_value, Path,
};
use crate::progress::{
    full_snapshot_replaces, optional_chars, peers_are_taken_over, ByteCounts, DownloadProgress,
    DownloadProgressView, PeerSnapshot, PeerSnapshotView, Snapshot, SnapshotView,
};
use mtorrent::utils::listener::StateSnapshot;
use vstd::prelude::*;
use vstd::string::to_string_from_display_ensures;

verus! {

/// What the document tells of the peer with address `addr`.
pub open spec fn peer_of(value: serde_json::Value, addr: Seq<char>) -> PeerSnapshotView {
    let at = seq!["peers"@, addr];
    PeerSnapshotView {
        addr,
        client: lookup(json_text(value), at.push("client"@)),
        origin: lookup(json_text(value), at.push("origin"@)),
        bytes_received: lookup(json_unsigned(value), at + seq!["download"@, "bytesReceived"@]),
        bytes_sent: lookup(json_unsigned(value), at + seq!["upload"@, "bytesSent"@]),
    }
}

/// The peer with address `addr` is described by an object.
pub open spec fn describes_peer(value: serde_json::Value, addr: Seq<char>) -> bool {
    json_keys(value).contains_key(seq!["peers"@, addr])
}

/// What a document tells of a download. Byte counters are there if the document has an
/// entry `bytes`, peers if its entry `peers` is an object; of that object only the
/// entries that are objects themselves describe a peer.
pub open spec fn snapshot_of(value: serde_json::Value) -> SnapshotView {
    SnapshotView {
        bytes: if has_key(value, "bytes"@) {
            Some(
                ByteCounts {
                    total: lookup(json_unsigned(value), seq!["bytes"@, "total"@]),
                    downloaded: lookup(json_unsigned(value), seq!["bytes"@, "downloaded"@]),
                },
            )
        } else {
            None
        },
        peers: match lookup(json_keys(value), seq!["peers"@]) {
            Some(addresses) => Some(
                addresses.filter(|addr: Seq<char>| describes_peer(value, addr)).map_values(
                    |addr: Seq<char>| peer_of(value, addr),
                ),
            ),
            None => None,
        },
    }
}

/// The peers of a snapshot come in the order of their addresses, none of them twice.
pub open spec fn peers_in_order(snapshot: SnapshotView) -> bool {
    snapshot.peers matches Some(peers) ==> forall|i: int, j: int|
        0 <= i < j < peers.len() ==> comes_before(#[trigger] peers[i].addr, #[trigger] peers[j].addr)
}

/// Law: a document tells nothing but what it holds.
pub proof fn snapshot_by_content(a: serde_json::Value, b: serde_json::Value)
    requires
        same_content(a, b),
    ensures
        snapshot_of(a) == snapshot_of(b),
{
    assert forall|addr: Seq<char>| #[trigger] describes_peer(a, addr) == describes_peer(b, addr) by {}
    assert forall|addr: Seq<char>| #[trigger] peer_of(a, addr) == peer_of(b, addr) by {}
    assert((|addr: Seq<char>| describes_peer(a, addr)) =~= (|addr: Seq<char>|
        describes_peer(b, addr)));
    assert((|addr: Seq<char>| peer_of(a, addr)) =~= (|addr: Seq<char>| peer_of(b, addr)));
}

/// Law: a document that is only a text tells nothing of a download.
pub proof fn text_tells_nothing(value: serde_json::Value, text: Seq<char>)
    requires
        is_text(value, text),
    ensures
        snapshot_of(value) == (SnapshotView { bytes: None, peers: None }),
{
}

/// Law: a snapshot that could not be turned into a document leaves the counters and the
/// peers as they are.
pub proof fn failed_conversion_keeps(
    error: serde_json::Error,
    value: serde_json::Value,
    progress: DownloadProgressView,
)
    requires
        is_delivered(Err(error), value),
    ensures
        progress.after(snapshot_of(value)) == progress.with_status("Downloading"@),
{
    let text = choose|text: String|
        #[trigger] to_string_from_display_ensures(&error, text) && is_text(value, text@);
    text_tells_nothing(value, text@);
}

/// Looking something up under a key is looking it up below that key.
proof fn lookup_below<V>(map: Map<Path, V>, key: Seq<char>, path: Path)
    ensures
        lookup(below(map, key), path) == lookup(map, seq![key] + path),
{
}

/// The number under `key`, if there is one.
fn number_at(value: &serde_json::Value, key: &str) -> (number: Option<u64>)
    ensures
        number == lookup(json_unsigned(*value), seq![key@]),
{
    proof {
        lookup_below(json_unsigned(*value), key@, Seq::empty());
        assert(seq![key@] + Seq::<Seq<char>>::empty() =~= seq![key@]);
    }
    match get(value, key) {
        Some(child) => child.as_u64(),
        None => None,
    }
}

/// The number under `inner` under `outer`, if there is one.
fn number_under(value: &serde_json::Value, outer: &str, inner: &str) -> (number: Option<u64>)
    ensures
        number == lookup(json_unsigned(*value), seq![outer@, inner@]),
{
    proof {
        lookup_below(json_unsigned(*value), outer@, seq![inner@]);
        assert(seq![outer@] + seq![inner@] =~= seq![outer@, inner@]);
    }
    match get(value, outer) {
        Some(child) => number_at(child, inner),
        None => None,
    }
}

/// The text under `key`, if there is one.
fn text_at(value: &serde_json::Value, key: &str) -> (text: Option<String>)
    ensures
        optional_chars(text) == lookup(json_text(*value), seq![key@]),
{
    proof {
        lookup_below(json_text(*value), key@, Seq::empty());
        assert(seq![key@] + Seq::<Seq<char>>::empty() =~= seq![key@]);
    }
    match get(value, key) {
        Some(child) => match child.as_str() {
            Some(text) => Some(text.to_string()),
            None => None,
        },
        None => None,
    }
}

/// Reads the description of one peer.
fn read_peer(addr: &String, description: &serde_json::Value) -> (peer: PeerSnapshot)
    ensures
        peer.addr@ == addr@,
        optional_chars(peer.client) == lookup(json_text(*description), seq!["client"@]),
        optional_chars(peer.origin) == lookup(json_text(*description), seq!["origin"@]),
        peer.bytes_received == lookup(
            json_unsigned(*description),
            seq!["download"@, "bytesReceived"@],
        ),
        peer.bytes_sent == lookup(json_unsigned(*description), seq!["upload"@, "bytesSent"@]),
{
    PeerSnapshot {
        addr: addr.clone(),
        client: text_at(description, "client"),
        origin: text_at(description, "origin"),
        bytes_received: number_under(description, "download", "bytesReceived"),
        bytes_sent: number_under(description, "upload", "bytesSent"),
    }
}

/// What the description of a peer holds is what the document holds at the peer's path.
proof fn description_in_document(
    value: serde_json::Value,
    peers: serde_json::Value,
    addr: Seq<char>,
    description: serde_json::Value,
)
    requires
        is_child(value, "peers"@, peers),
        is_child(peers, addr, description),
    ensures
        document_is_object(description) == describes_peer(value, addr),
        forall|path: Path|
            #![trigger lookup(json_text(description), path)]
            lookup(json_text(description), path) == lookup(
                json_text(value),
                seq!["peers"@, addr] + path,
            ),
        forall|path: Path|
            #![trigger lookup(json_unsigned(description), path)]
            lookup(json_unsigned(description), path) == lookup(
                json_unsigned(value),
                seq!["peers"@, addr] + path,
            ),
{
    assert forall|path: Path| #![trigger lookup(json_text(description), path)]
        lookup(json_text(description), path) == lookup(
        json_text(value),
        seq!["peers"@, addr] + path,
    ) by {
        assert(seq!["peers"@] + (seq![addr] + path) =~= seq!["peers"@, addr] + path);
    }
    assert forall|path: Path| #![trigger lookup(json_unsigned(description), path)]
        lookup(json_unsigned(description), path) == lookup(
        json_unsigned(value),
        seq!["peers"@, addr] + path,
    ) by {
        assert(seq!["peers"@] + (seq![addr] + path) =~= seq!["peers"@, addr] + path);
    }
    assert(seq!["peers"@] + (seq![addr] + Seq::<Seq<char>>::empty()) =~= seq!["peers"@, addr]);
    assert(json_keys(description).contains_key(Seq::<Seq<char>>::empty()) == json_keys(
        peers,
    ).contains_key(seq![addr] + Seq::<Seq<char>>::empty()));
}

/// Reads the peers from the entry `peers` of `value`.
fn read_peers(
    Ghost(value): Ghost<serde_json::Value>,
    peers: &serde_json::Value,
) -> (described: Option<Vec<PeerSnapshot>>)
    requires
        is_child(value, "peers"@, *peers),
    ensures
        match described {
            Some(found) => snapshot_of(value).peers == Some(
                found@.map_values(|peer: PeerSnapshot| peer@),
            ),
            None => snapshot_of(value).peers is None,
        },
        described matches Some(found) ==> forall|i: int, j: int|
            0 <= i < j < found@.len() ==> comes_before(
                #[trigger] found@[i].addr@,
                #[trigger] found@[j].addr@,
            ),
{
    proof {
        lookup_below(json_keys(value), "peers"@, Seq::empty());
        assert(seq!["peers"@] + Seq::<Seq<char>>::empty() =~= seq!["peers"@]);
    }
    match entries(peers) {
        Some(all) => {
            let ghost addresses = json_keys(value)[seq!["peers"@]];
            let ghost wanted = |addr: Seq<char>| describes_peer(value, addr);
            let ghost shown = |addr: Seq<char>| peer_of(value, addr);
            let mut found: Vec<PeerSnapshot> = Vec::new();
            let mut i: usize = 0;
            assert(addresses.take(0) =~= Seq::empty());
            assert(found@.map_values(|peer: PeerSnapshot| peer@) =~= addresses.take(0).filter(
                wanted,
            ).map_values(shown)) by {
                reveal(Seq::filter);
            }
            while i < all.len()
                invariant
                    i <= all@.len(),
                    all@.len() == addresses.len(),
                    is_child(value, "peers"@, *peers),
                    forall|j: int|
                        #![trigger all@[j]]
                        0 <= j < addresses.len() ==> all@[j].0@ == addresses[j] && is_child(
                            *peers,
                            addresses[j],
                            *all@[j].1,
                        ),
                    forall|j: int, k: int|
                        0 <= j < k < addresses.len() ==> comes_before(
                            #[trigger] addresses[j],
                            #[trigger] addresses[k],
                        ),
                    forall|j: int, k: int|
                        0 <= j < k < found@.len() ==> comes_before(
                            #[trigger] found@[j].addr@,
                            #[trigger] found@[k].addr@,
                        ),
                    forall|j: int, k: int|
                        0 <= j < found@.len() && i <= k < addresses.len() ==> comes_before(
                            #[trigger] found@[j].addr@,
                            #[trigger] addresses[k],
                        ),
                    wanted == (|addr: Seq<char>| describes_peer(value, addr)),
                    shown == (|addr: Seq<char>| peer_of(value, addr)),
                    found@.map_values(|peer: PeerSnapshot| peer@) == addresses.take(
                        i as int,
                    ).filter(wanted).map_values(shown),
                decreases all@.len() - i,
            {
                let entry = all[i];
                let ghost addr = addresses[i as int];
                let ghost before = found@;
                proof {
                    description_in_document(value, *peers, addr, *entry.1);
                    reveal(Seq::filter);
                    assert(addresses.take(i + 1).drop_last() =~= addresses.take(i as int));
                    let at = seq!["peers"@, addr];
                    assert(at.push("client"@) =~= at + seq!["client"@]);
                    assert(at.push("origin"@) =~= at + seq!["origin"@]);
                }
                if entry.1.is_object() {
                    let peer = read_peer(entry.0, entry.1);
                    assert(peer@ =~= peer_of(value, addr));
                    found.push(peer);
                    assert(found@.map_values(|peer: PeerSnapshot| peer@) =~= before.map_values(
                        |peer: PeerSnapshot| peer@,
                    ).push(peer@));
                    assert(addresses.take(i + 1).filter(wanted).map_values(shown)
                        =~= addresses.take(i as int).filter(wanted).map_values(shown).push(
                        peer_of(value, addr),
                    ));
                }
                i = i + 1;
            }
            assert(addresses.take(addresses.len() as int) =~= addresses);
            Some(found)
        },
        None => None,
    }
}

/// Reads what a document tells of a download.
pub fn read_snapshot(value: &serde_json::Value) -> (snapshot: Snapshot)
    ensures
        snapshot@ == snapshot_of(*value),
        peers_in_order(snapshot@),
        json_unsigned(*value).contains_key(seq!["bytes"@, "total"@]) ==> snapshot.bytes is Some
            && snapshot.bytes->0.total == Some(json_unsigned(*value)[seq!["bytes"@, "total"@]]),
        json_unsigned(*value).contains_key(seq!["bytes"@, "downloaded"@]) ==> snapshot.bytes is Some
            && snapshot.bytes->0.downloaded == Some(
            json_unsigned(*value)[seq!["bytes"@, "downloaded"@]],
        ),
{
    proof {
        // Where there is no entry `bytes`, nothing lies under it.
        let under = below(json_unsigned(*value), "bytes"@);
        assert(seq!["bytes"@] + seq!["total"@] =~= seq!["bytes"@, "total"@]);
        assert(seq!["bytes"@] + seq!["downloaded"@] =~= seq!["bytes"@, "downloaded"@]);
        assert(under.contains_key(seq!["total"@]) <==> json_unsigned(*value).contains_key(
            seq!["bytes"@, "total"@],
        ));
        assert(under.contains_key(seq!["downloaded"@]) <==> json_unsigned(*value).contains_key(
            seq!["bytes"@, "downloaded"@],
        ));
    }
    let bytes = match get(value, "bytes") {
        Some(child) => {
            proof {
                lookup_below(json_unsigned(*value), "bytes"@, seq!["total"@]);
                lookup_below(json_unsigned(*value), "bytes"@, seq!["downloaded"@]);
            }
            Some(
                ByteCounts {
                    total: number_at(child, "total"),
                    downloaded: number_at(child, "downloaded"),
                },
            )
        },
        None => None,
    };
    let peers = match get(value, "peers") {
        Some(child) => read_peers(Ghost(*value), child),
        None => {
            proof {
                lookup_below(json_keys(*value), "peers"@, Seq::empty());
                assert(seq!["peers"@] + Seq::<Seq<char>>::empty() =~= seq!["peers"@]);
            }
            None
        },
    };
    Snapshot { bytes, peers }
}

/// `mtorrent::utils::listener::StateSnapshot`, a snapshot as the download engine takes it.
#[verifier::external_type_specification]
#[verifier::external_body]
pub struct ExStateSnapshot<'s>(StateSnapshot<'s>);

/// The unsigned integers in a snapshot of the engine, by path.
pub uninterp spec fn state_unsigned(snapshot: StateSnapshot<'_>) -> Map<Seq<Seq<char>>, u64>;

/// The texts in a snapshot of the engine, by path.
pub uninterp spec fn state_text(snapshot: StateSnapshot<'_>) -> Map<Seq<Seq<char>>, Seq<char>>;

/// The keys of each part of a snapshot of the engine, by path.
pub uninterp spec fn state_keys(snapshot: StateSnapshot<'_>) -> Map<Seq<Seq<char>>, Seq<Seq<char>>>;

/// `value` holds exactly what a snapshot of the engine holds.
pub open spec fn holds_state(value: serde_json::Value, snapshot: StateSnapshot<'_>) -> bool {
    &&& json_unsigned(value) == state_unsigned(snapshot)
    &&& json_text(value) == state_text(snapshot)
    &&& json_keys(value) == state_keys(snapshot)
}

/// A document with both byte counters and a description of the peers.
pub open spec fn is_complete(value: serde_json::Value) -> bool {
    &&& has_key(value, "bytes"@)
    &&& json_unsigned(value).contains_key(seq!["bytes"@, "total"@])
    &&& json_unsigned(value).contains_key(seq!["bytes"@, "downloaded"@])
    &&& json_keys(value).contains_key(seq!["peers"@])
}

/// `serde_json::to_value` on a snapshot of the engine: the snapshot as a document. It always
/// succeeds, and the byte counters and the peers are always in it.
#[verifier::external_body]
fn state_document(
    snapshot: &StateSnapshot<'_>,
) -> (document: Result<serde_json::Value, serde_json::Error>)
    ensures
        document is Ok,
        json_unsigned(document->Ok_0) == state_unsigned(*snapshot),
        json_text(document->Ok_0) == state_text(*snapshot),
        json_keys(document->Ok_0) == state_keys(*snapshot),
        is_complete(document->Ok_0),
{
    serde_json::to_value(snapshot)
}

/// The document that is delivered for a snapshot of the engine.
pub fn snapshot_value(snapshot: &StateSnapshot<'_>) -> (value: serde_json::Value)
    ensures
        holds_state(value, *snapshot),
        is_complete(value),
{
    delivered_value(state_document(snapshot))
}

/// Law: what is known of a download after a snapshot of the engine depends on that snapshot
/// alone.
pub proof fn engine_snapshot_replaces(
    value: serde_json::Value,
    one: DownloadProgressView,
    other: DownloadProgressView,
)
    requires
        is_complete(value),
    ensures
        one.after(snapshot_of(value)) == other.after(snapshot_of(value)),
        snapshot_of(value).bytes matches Some(bytes) && bytes.total is Some
            && bytes.downloaded is Some,
{
    full_snapshot_replaces(one, other, snapshot_of(value));
}

/// `value` stands for a snapshot: it is the snapshot as a document, or, where that could
/// not be made, the text of the error.
pub open spec fn is_delivered(
    converted: Result<serde_json::Value, serde_json::Error>,
    value: serde_json::Value,
) -> bool {
    match converted {
        Ok(document) => value == document,
        Err(error) => exists|text: String|
            #[trigger] to_string_from_display_ensures(&error, text) && is_text(value, text@),
    }
}

/// The document that stands for a snapshot.
pub fn delivered_value(
    converted: Result<serde_json::Value, serde_json::Error>,
) -> (value: serde_json::Value)
    ensures
        is_delivered(converted, value),
{
    match converted {
        Ok(document) => document,
        Err(error) => text_value(error.to_string()),
    }
}

impl DownloadProgress {
    /// Takes over what a snapshot in JSON form tells.
    pub fn apply_json(&mut self, json_value: &serde_json::Value)
        ensures
            final(self)@ == old(self)@.after(snapshot_of(*json_value)),
            peers_in_order(snapshot_of(*json_value)),
            json_unsigned(*json_value).contains_key(seq!["bytes"@, "total"@])
                ==> final(self).total_bytes == json_unsigned(*json_value)[seq![
                "bytes"@,
                "total"@,
            ]],
            json_unsigned(*json_value).contains_key(seq!["bytes"@, "downloaded"@])
                ==> final(self).downloaded_bytes == json_unsigned(*json_value)[seq![
                "bytes"@,
                "downloaded"@,
            ]],
            final(self).status@ == "Downloading"@,
    {
        if let Ok(value) = rebuild(json_value) {
            proof {
                snapshot_by_content(value, *json_value);
            }
            self.apply_snapshot(&read_snapshot(&value));
        }
    }
}

/// Law: a document with an entry `bytes` gives both counters. The number at `bytes.total`, of
/// up to 64 bits, is the total afterwards, and that at `bytes.downloaded` is what is
/// downloaded; what is no such number counts as zero. A document without the entry keeps the
/// counters.
pub proof fn document_gives_counters(progress: DownloadProgressView, value: serde_json::Value)
    ensures
        ({
            let after = progress.after(snapshot_of(value));
            let numbers = json_unsigned(value);
            let root = Seq::<Seq<char>>::empty();
            let total = seq!["bytes"@, "total"@];
            let downloaded = seq!["bytes"@, "downloaded"@];
            if json_keys(value).contains_key(root) && json_keys(value)[root].contains("bytes"@) {
                &&& numbers.contains_key(total) ==> after.total_bytes == numbers[total]
                &&& !numbers.contains_key(total) ==> after.total_bytes == 0
                &&& numbers.contains_key(downloaded) ==> after.downloaded_bytes
                    == numbers[downloaded]
                &&& !numbers.contains_key(downloaded) ==> after.downloaded_bytes == 0
            } else {
                &&& after.total_bytes == progress.total_bytes
                &&& after.downloaded_bytes == progress.downloaded_bytes
            }
        }),
{
}

/// What is shown of a peer is what the document holds at the peer's path: `client`, `origin`,
/// `download.bytesReceived` and `upload.bytesSent`.
proof fn peer_is_told_by_the_document(value: serde_json::Value, addr: Seq<char>)
    ensures
        ({
            let peer = peer_of(value, addr);
            let client = seq!["peers"@, addr, "client"@];
            let origin = seq!["peers"@, addr, "origin"@];
            let received = seq!["peers"@, addr, "download"@, "bytesReceived"@];
            let sent = seq!["peers"@, addr, "upload"@, "bytesSent"@];
            &&& peer.addr == addr
            &&& peer.client == lookup(json_text(value), client)
            &&& peer.origin == lookup(json_text(value), origin)
            &&& peer.bytes_received == lookup(json_unsigned(value), received)
            &&& peer.bytes_sent == lookup(json_unsigned(value), sent)
        }),
{
    let at = seq!["peers"@, addr];
    assert(at.push("client"@) =~= seq!["peers"@, addr, "client"@]);
    assert(at.push("origin"@) =~= seq!["peers"@, addr, "origin"@]);
    assert(at + seq!["download"@, "bytesReceived"@] =~= seq![
        "peers"@,
        addr,
        "download"@,
        "bytesReceived"@,
    ]);
    assert(at + seq!["upload"@, "bytesSent"@] =~= seq!["peers"@, addr, "upload"@, "bytesSent"@]);
}

/// The filter of a sequence keeps what passes, and nothing else.
proof fn filter_keeps(addresses: Seq<Seq<char>>, wanted: spec_fn(Seq<char>) -> bool)
    ensures
        forall|i: int|
            #![trigger addresses.filter(wanted)[i]]
            0 <= i < addresses.filter(wanted).len() ==> wanted(addresses.filter(wanted)[i])
                && addresses.contains(addresses.filter(wanted)[i]),
        forall|addr: Seq<char>|
            addresses.contains(addr) && wanted(addr) ==> #[trigger] addresses.filter(
                wanted,
            ).contains(addr),
    decreases addresses.len(),
{
    reveal(Seq::filter);
    if addresses.len() > 0 {
        let front = addresses.drop_last();
        let last = addresses.last();
        let kept = addresses.filter(wanted);
        filter_keeps(front, wanted);
        assert(addresses =~= front.push(last));
        assert forall|i: int| #![trigger kept[i]] 0 <= i < kept.len() implies wanted(kept[i])
            && addresses.contains(kept[i]) by {
            if i < front.filter(wanted).len() {
                assert(kept[i] == front.filter(wanted)[i]);
                let k = choose|k: int| 0 <= k < front.len() && front[k] == kept[i];
                assert(addresses[k] == kept[i]);
            } else {
                assert(kept[i] == last);
                assert(addresses[addresses.len() - 1] == last);
            }
        }
        assert forall|addr: Seq<char>| addresses.contains(addr) && wanted(addr) implies
            #[trigger] kept.contains(addr) by {
            if front.contains(addr) {
                assert(front.filter(wanted).contains(addr));
                let k = choose|k: int|
                    0 <= k < front.filter(wanted).len() && front.filter(wanted)[k] == addr;
                assert(kept[k] == addr);
            } else {
                let k = choose|k: int| 0 <= k < addresses.len() && addresses[k] == addr;
                assert(k == front.len()) by {
                    if k < front.len() {
                        assert(front[k] == addr);
                    }
                }
                assert(kept[kept.len() - 1] == addr);
            }
        }
    }
}

/// Law: each peer that the entry `peers` of a document describes by an object is among the
/// peers afterwards.
pub proof fn described_peer_is_shown(
    progress: DownloadProgressView,
    value: serde_json::Value,
    addr: Seq<char>,
) -> (i: int)
    requires
        json_keys(value).contains_key(seq!["peers"@]),
        json_keys(value)[seq!["peers"@]].contains(addr),
        json_keys(value).contains_key(seq!["peers"@, addr]),
    ensures
        0 <= i < progress.after(snapshot_of(value)).peers.len(),
        progress.after(snapshot_of(value)).peers[i].addr == addr,
{
    let addresses = json_keys(value)[seq!["peers"@]];
    let wanted = |addr: Seq<char>| describes_peer(value, addr);
    filter_keeps(addresses, wanted);
    assert(addresses.filter(wanted).contains(addr));
    choose|i: int| 0 <= i < addresses.filter(wanted).len() && addresses.filter(wanted)[i] == addr
}

/// Law: each peer that is shown after a document with an object as its entry `peers` is one
/// that this object describes by an object, and what is shown of it is what the document
/// tells of it: the texts at `client` and `origin`, or `n/a` and nothing where there are none,
/// and the numbers at `download.bytesReceived` and `upload.bytesSent`, or zero where there are
/// none.
pub proof fn shown_peer_is_described(
    progress: DownloadProgressView,
    value: serde_json::Value,
    i: int,
)
    requires
        json_keys(value).contains_key(seq!["peers"@]),
        0 <= i < progress.after(snapshot_of(value)).peers.len(),
    ensures
        ({
            let peer = progress.after(snapshot_of(value)).peers[i];
            let texts = json_text(value);
            let numbers = json_unsigned(value);
            let client = seq!["peers"@, peer.addr, "client"@];
            let origin = seq!["peers"@, peer.addr, "origin"@];
            let received = seq!["peers"@, peer.addr, "download"@, "bytesReceived"@];
            let sent = seq!["peers"@, peer.addr, "upload"@, "bytesSent"@];
            &&& json_keys(value)[seq!["peers"@]].contains(peer.addr)
            &&& json_keys(value).contains_key(seq!["peers"@, peer.addr])
            &&& texts.contains_key(client) ==> peer.client == texts[client]
            &&& !texts.contains_key(client) ==> peer.client == "n/a"@
            &&& texts.contains_key(origin) ==> peer.origin == texts[origin]
            &&& !texts.contains_key(origin) ==> peer.origin.len() == 0
            &&& numbers.contains_key(received) ==> peer.downloaded == numbers[received]
            &&& !numbers.contains_key(received) ==> peer.downloaded == 0
            &&& numbers.contains_key(sent) ==> peer.uploaded == numbers[sent]
            &&& !numbers.contains_key(sent) ==> peer.uploaded == 0
        }),
{
    let addresses = json_keys(value)[seq!["peers"@]];
    let wanted = |addr: Seq<char>| describes_peer(value, addr);
    filter_keeps(addresses, wanted);
    peer_is_told_by_the_document(value, addresses.filter(wanted)[i]);
    peers_are_taken_over(progress, snapshot_of(value), i);
}

/// Law: a document whose entry `peers` is no object, or is missing, keeps the peers.
pub proof fn peers_are_kept_without_description(
    progress: DownloadProgressView,
    value: serde_json::Value,
)
    requires
        !json_keys(value).contains_key(seq!["peers"@]),
    ensures
        progress.after(snapshot_of(value)).peers == progress.peers,
{
}

/// Law: peers that a snapshot gives in the order of their addresses are shown in that order,
/// and none of them twice.
pub proof fn peers_are_shown_in_order(
    progress: DownloadProgressView,
    snapshot: SnapshotView,
    i: int,
    j: int,
)
    requires
        peers_in_order(snapshot),
        snapshot.peers is Some,
        0 <= i < j < progress.after(snapshot).peers.len(),
    ensures
        comes_before(progress.after(snapshot).peers[i].addr, progress.after(snapshot).peers[j].addr),
        progress.after(snapshot).peers[i].addr != progress.after(snapshot).peers[j].addr,
{
    peers_are_taken_over(progress, snapshot, i);
    peers_are_taken_over(progress, snapshot, j);
    let peers = snapshot.peers->0;
    assert(comes_before(peers[i].addr, peers[j].addr));
    order_is_strict(peers[i].addr, peers[j].addr);
}

/// Law: a snapshot that could be turned into a document is delivered as that document; of one
/// that could not, the text of the error is delivered, and nothing else.
pub proof fn delivered_is_document_or_error(
    converted: Result<serde_json::Value, serde_json::Error>,
    value: serde_json::Value,
) -> (text: Option<String>)
    requires
        is_delivered(converted, value),
    ensures
        converted matches Ok(document) ==> value == document && text is None,
        converted matches Err(error) ==> {
            &&& text is Some
            &&& to_string_from_display_ensures(&error, text->0)
            &&& json_text(value).contains_key(Seq::<Seq<char>>::empty())
            &&& json_text(value)[Seq::<Seq<char>>::empty()] == text->0@
            &&& json_unsigned(value).dom().is_empty()
            &&& json_keys(value).dom().is_empty()
        },
{
    match converted {
        Ok(document) => None,
        Err(error) => {
            let text = choose|text: String|
                #[trigger] to_string_from_display_ensures(&error, text) && is_text(value, text@);
            assert(json_unsigned(value).dom() =~= Set::<Path>::empty());
            assert(json_keys(value).dom() =~= Set::<Path>::empty());
            Some(text)
        },
    }
}

/// Law: what is delivered for a snapshot of the engine holds the numbers, the texts and the
/// keys of that snapshot, and no others.
pub proof fn delivered_holds_the_snapshot(value: serde_json::Value, snapshot: StateSnapshot<'_>)
    requires
        holds_state(value, snapshot),
    ensures
        json_unsigned(value) == state_unsigned(snapshot),
        json_text(value) == state_text(snapshot),
        json_keys(value) == state_keys(snapshot),
{
}

/// Law: after a call that takes a document over, the total is the number at `bytes.total` and
/// what is downloaded the number at `bytes.downloaded`, for all numbers of up to 64 bits, and
/// the download is under way.
pub proof fn call_takes_the_document_over(
    progress: &mut DownloadProgress,
    value: serde_json::Value,
)
    requires
        call_ensures(DownloadProgress::apply_json, (progress, &value), ()),
    ensures
        ({
            let numbers = json_unsigned(value);
            let total = seq!["bytes"@, "total"@];
            let downloaded = seq!["bytes"@, "downloaded"@];
            &&& numbers.contains_key(total) ==> final(progress).total_bytes == numbers[total]
            &&& numbers.contains_key(downloaded) ==> final(progress).downloaded_bytes
                == numbers[downloaded]
            &&& final(progress).status@ == "Downloading"@
            &&& final(progress)@ == old(progress)@.after(snapshot_of(value))
        }),
{
}

} // verus!
