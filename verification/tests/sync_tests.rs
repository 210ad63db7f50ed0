use kyoto::chain::HeaderCheckpoint;
use kyoto::sync::Action;
use kyoto::sync::Node;
use kyoto::sync::SyncStage;
use kyoto::types::FilterHeaderBatch;
use kyoto::types::FilterPayload;
use kyoto::types::Hash256;
use kyoto::types::HeaderData;
use kyoto::types::PeerMessage;
use kyoto::types::RejectPayload;
use kyoto::types::VersionInfo;
use kyoto::types::COMPACT_FILTER_SERVICE_BIT;

fn hash(n: u64) -> Hash256 {
    Hash256 { hi: n as u128, lo: 0 }
}

fn anchor() -> Hash256 {
    hash(5000)
}

/// A linked batch above a checkpoint: header i carries hash(i) and work 1.
fn linked_headers(cp: &HeaderCheckpoint, count: u64) -> Vec<HeaderData> {
    let mut out = Vec::new();
    let mut prev = cp.hash;
    for i in 1..=count {
        out.push(HeaderData { hash: hash(i), prev, work: 1 });
        prev = hash(i);
    }
    out
}

/// Filter-header commitments hash(7000 + i) for heights 1..=count.
fn filter_headers(count: u64) -> FilterHeaderBatch {
    let mut headers = Vec::new();
    for i in 1..=count {
        headers.push(hash(7000 + i));
    }
    FilterHeaderBatch { prev_header: anchor(), headers }
}

fn filter_at(i: u64, scripts: Vec<Vec<u8>>) -> FilterPayload {
    FilterPayload { block_hash: hash(i), header_commitment: hash(7000 + i), scripts }
}

fn cf_version(height: u32) -> VersionInfo {
    VersionInfo { services: COMPACT_FILTER_SERVICE_BIT, height }
}

#[test]
fn version_without_filter_service_disconnects() {
    let cp = HeaderCheckpoint { height: 0, hash: hash(1000) };
    let mut node = Node::new(cp, anchor(), Vec::new());
    let acts = node.handle_version(VersionInfo { services: 0, height: 10 });
    assert_eq!(acts, vec![Action::DisconnectPeer]);
}

#[test]
fn version_with_filter_service_starts_header_sync() {
    let cp = HeaderCheckpoint { height: 100, hash: hash(1000) };
    let mut node = Node::new(cp, anchor(), Vec::new());
    let acts = node.handle_version(cf_version(200));
    assert_eq!(acts, vec![Action::RequestHeaders { from_height: 101 }]);
    assert_eq!(node.stage(), SyncStage::HeaderSync);
}

#[test]
fn ping_answers_pong() {
    let cp = HeaderCheckpoint { height: 0, hash: hash(1000) };
    let mut node = Node::new(cp, anchor(), Vec::new());
    let acts = node.handle_event(PeerMessage::Ping(77));
    assert_eq!(acts, vec![Action::SendPong { nonce: 77 }]);
}

#[test]
fn reject_is_forwarded_to_diagnostics() {
    let cp = HeaderCheckpoint { height: 0, hash: hash(1000) };
    let mut node = Node::new(cp, anchor(), Vec::new());
    let r = RejectPayload { reason: 0x42, txid: hash(9) };
    let acts = node.handle_event(PeerMessage::Reject(r));
    assert_eq!(acts, vec![Action::NoteReject { reason: 0x42, txid: hash(9) }]);
}

#[test]
fn new_block_announcement_requests_headers() {
    let cp = HeaderCheckpoint { height: 0, hash: hash(1000) };
    let mut node = Node::new(cp, anchor(), Vec::new());
    let acts = node.handle_event(PeerMessage::NewBlocks(vec![hash(3)]));
    assert_eq!(acts, vec![Action::RequestHeaders { from_height: 1 }]);
}

#[test]
fn filter_header_batch_with_wrong_prev_disconnects() {
    let cp = HeaderCheckpoint { height: 0, hash: hash(1000) };
    let mut node = Node::new(cp, anchor(), Vec::new());
    node.handle_version(cf_version(1));
    node.handle_headers(&linked_headers(&cp, 1));
    let bad = FilterHeaderBatch { prev_header: hash(1234), headers: vec![hash(7001)] };
    let acts = node.handle_filter_headers(&bad);
    assert_eq!(acts, vec![Action::DisconnectPeer]);
}

#[test]
fn filter_header_batch_overrunning_the_chain_disconnects() {
    let cp = HeaderCheckpoint { height: 0, hash: hash(1000) };
    let mut node = Node::new(cp, anchor(), Vec::new());
    node.handle_version(cf_version(1));
    node.handle_headers(&linked_headers(&cp, 1));
    let acts = node.handle_filter_headers(&filter_headers(2));
    assert_eq!(acts, vec![Action::DisconnectPeer]);
}

#[test]
fn filter_with_wrong_commitment_disconnects() {
    let cp = HeaderCheckpoint { height: 0, hash: hash(1000) };
    let mut node = Node::new(cp, anchor(), vec![b"watched".to_vec()]);
    node.handle_version(cf_version(1));
    node.handle_headers(&linked_headers(&cp, 1));
    node.handle_filter_headers(&filter_headers(1));
    let wrong = FilterPayload {
        block_hash: hash(1),
        header_commitment: hash(9999),
        scripts: vec![b"watched".to_vec()],
    };
    let acts = node.handle_filter(&wrong);
    assert_eq!(acts, vec![Action::DisconnectPeer]);
}

#[test]
fn end_to_end_single_peer_sync_with_one_match() {
    // A single peer serving compact filters, 100 valid headers above the
    // checkpoint, one filter matching the watched script at checkpoint+42.
    let cp = HeaderCheckpoint { height: 100, hash: hash(1000) };
    let watched = b"watched-script".to_vec();
    let mut node = Node::new(cp, anchor(), vec![watched.clone()]);

    let acts = node.handle_version(cf_version(200));
    assert_eq!(acts, vec![Action::RequestHeaders { from_height: 101 }]);

    let acts = node.handle_headers(&linked_headers(&cp, 100));
    assert_eq!(acts, vec![Action::RequestFilterHeaders { start_height: 101 }]);
    assert_eq!(node.stage(), SyncStage::FilterHeaderSync);

    let acts = node.handle_filter_headers(&filter_headers(100));
    assert_eq!(acts, vec![Action::RequestFilters { start_height: 101 }]);
    assert_eq!(node.stage(), SyncStage::FilterDownload);

    let mut block_requests = Vec::new();
    let mut synced_events = Vec::new();
    for i in 1..=100u64 {
        let scripts = if i == 42 {
            vec![watched.clone()]
        } else {
            vec![b"someone-else".to_vec()]
        };
        let acts = node.handle_filter(&filter_at(i, scripts));
        for a in acts {
            match a {
                Action::RequestBlock { hash } => block_requests.push(hash),
                Action::EmitSynced { height, hash } => synced_events.push((height, hash)),
                _ => (),
            }
        }
    }
    assert_eq!(block_requests, vec![hash(42)]);
    assert_eq!(synced_events, vec![(200, hash(100))]);
    assert_eq!(node.stage(), SyncStage::Synced);
    assert_eq!(node.matched.len(), 1);
    assert_eq!(node.matched[0].height, 142);

    // Delivering the requested block hands it to the caller.
    let acts = node.handle_block(hash(42));
    assert_eq!(acts, vec![Action::EmitMatchedBlock { hash: hash(42) }]);
    // An unrelated block is ignored.
    let acts = node.handle_block(hash(43));
    assert_eq!(acts, Vec::new());
}

#[test]
fn reorg_invalidates_matches_above_the_fork() {
    // Chain A (work 10) carries a match at height 2; a heavier chain B
    // (work 15) from the common ancestor at the checkpoint replaces it
    // and the match is invalidated.
    let cp = HeaderCheckpoint { height: 0, hash: hash(1000) };
    let watched = b"watched".to_vec();
    let mut node = Node::new(cp, anchor(), vec![watched.clone()]);
    node.handle_version(cf_version(2));
    let chain_a = vec![
        HeaderData { hash: hash(1), prev: hash(1000), work: 5 },
        HeaderData { hash: hash(2), prev: hash(1), work: 5 },
    ];
    node.handle_headers(&chain_a);
    node.handle_filter_headers(&filter_headers(2));
    node.handle_filter(&filter_at(1, vec![b"other".to_vec()]));
    node.handle_filter(&filter_at(2, vec![watched.clone()]));
    assert_eq!(node.stage(), SyncStage::Synced);
    assert_eq!(node.matched.len(), 1);
    assert_eq!(node.matched[0].height, 2);

    let chain_b = vec![
        HeaderData { hash: hash(11), prev: hash(1000), work: 5 },
        HeaderData { hash: hash(12), prev: hash(11), work: 5 },
        HeaderData { hash: hash(13), prev: hash(12), work: 5 },
    ];
    let acts = node.handle_headers(&chain_b);
    assert_eq!(node.chain.tip_hash(), hash(13));
    assert_eq!(node.matched.len(), 0);
    assert_eq!(node.filter_headers.len(), 0);
    assert_eq!(acts, vec![Action::RequestFilterHeaders { start_height: 1 }]);
    assert_eq!(node.stage(), SyncStage::FilterHeaderSync);
}

#[test]
fn rescan_after_adding_a_script_finds_the_old_filter_match() {
    // Before the rescan the only filter matches no watched script; after
    // registering the script it contains and rescanning from the
    // checkpoint, the match appears.
    let cp = HeaderCheckpoint { height: 0, hash: hash(1000) };
    let s1 = b"first-script".to_vec();
    let s2 = b"second-script".to_vec();
    let mut node = Node::new(cp, anchor(), vec![s1]);
    node.handle_version(cf_version(1));
    node.handle_headers(&linked_headers(&cp, 1));
    node.handle_filter_headers(&filter_headers(1));
    let acts = node.handle_filter(&filter_at(1, vec![s2.clone()]));
    assert_eq!(acts, vec![Action::EmitSynced { height: 1, hash: hash(1) }]);
    assert_eq!(node.stage(), SyncStage::Synced);
    assert_eq!(node.matched.len(), 0);

    node.add_script(s2.clone());
    let acts = node.rescan(None);
    assert_eq!(acts, vec![Action::RequestFilters { start_height: 1 }]);
    assert_eq!(node.stage(), SyncStage::Rescanning);

    let acts = node.handle_filter(&filter_at(1, vec![s2]));
    assert_eq!(
        acts,
        vec![
            Action::RequestBlock { hash: hash(1) },
            Action::EmitSynced { height: 1, hash: hash(1) },
        ]
    );
    assert_eq!(node.stage(), SyncStage::Synced);
    assert_eq!(node.matched.len(), 1);
    assert_eq!(node.matched[0].height, 1);
}

#[test]
fn rescan_from_a_chosen_height_keeps_earlier_filters_passed() {
    let cp = HeaderCheckpoint { height: 0, hash: hash(1000) };
    let mut node = Node::new(cp, anchor(), vec![b"w".to_vec()]);
    node.handle_version(cf_version(2));
    node.handle_headers(&linked_headers(&cp, 2));
    node.handle_filter_headers(&filter_headers(2));
    node.handle_filter(&filter_at(1, vec![b"a".to_vec()]));
    node.handle_filter(&filter_at(2, vec![b"b".to_vec()]));
    assert_eq!(node.stage(), SyncStage::Synced);
    let acts = node.rescan(Some(1));
    assert_eq!(acts, vec![Action::RequestFilters { start_height: 2 }]);
    assert_eq!(node.cursor, 1);
}

#[test]
fn rescan_outside_synced_is_a_no_op() {
    let cp = HeaderCheckpoint { height: 0, hash: hash(1000) };
    let mut node = Node::new(cp, anchor(), Vec::new());
    node.handle_version(cf_version(5));
    assert_eq!(node.stage(), SyncStage::HeaderSync);
    let acts = node.rescan(None);
    assert_eq!(acts, Vec::new());
    assert_eq!(node.stage(), SyncStage::HeaderSync);
}

#[test]
fn translated_disconnect_drops_the_peer() {
    let cp = HeaderCheckpoint { height: 0, hash: hash(1000) };
    let mut node = Node::new(cp, anchor(), Vec::new());
    let acts = node.handle_event(PeerMessage::Disconnect);
    assert_eq!(acts, vec![Action::DisconnectPeer]);
}
