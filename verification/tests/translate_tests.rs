use kyoto::translate::translate;
use kyoto::types::AddressEntry;
use kyoto::types::CombinedAddr;
use kyoto::types::Hash256;
use kyoto::types::InventoryItem;
use kyoto::types::NetAddr;
use kyoto::types::PeerMessage;
use kyoto::types::RawMessage;
use kyoto::types::RejectPayload;
use kyoto::types::VersionInfo;
use kyoto::types::COMPACT_FILTER_SERVICE_BIT;

fn hash(n: u64) -> Hash256 {
    Hash256 { hi: n as u128, lo: (n as u128) << 1 }
}

fn cf_entry(addr: NetAddr, port: u16) -> AddressEntry {
    AddressEntry { addr, port, services: COMPACT_FILTER_SERVICE_BIT }
}

#[test]
fn oversized_addr_list_disconnects() {
    let entries = vec![cf_entry(NetAddr::V4(0x0a000001), 8333); 1001];
    let out = translate(RawMessage::Addr(entries));
    assert_eq!(out, Some(PeerMessage::Disconnect));
}

#[test]
fn oversized_addr_v2_list_disconnects() {
    let entries = vec![cf_entry(NetAddr::V6(7), 8333); 1001];
    let out = translate(RawMessage::AddrV2(entries));
    assert_eq!(out, Some(PeerMessage::Disconnect));
}

#[test]
fn addr_list_at_limit_is_kept() {
    let entries = vec![cf_entry(NetAddr::V4(1), 8333); 1000];
    match translate(RawMessage::Addr(entries)) {
        Some(PeerMessage::Addr(records)) => assert_eq!(records.len(), 1000),
        other => panic!("expected an address event, got {:?}", other),
    }
}

#[test]
fn addr_list_filters_and_normalizes() {
    let keep4 = cf_entry(NetAddr::V4(0x7f000001), 8333);
    let keep6 = cf_entry(NetAddr::V6(0x20010db8), 18333);
    let no_capability = AddressEntry { addr: NetAddr::V4(9), port: 8333, services: 0 };
    let unresolved = cf_entry(NetAddr::Unresolved, 8333);
    let list = vec![no_capability, keep4, unresolved, keep6];
    match translate(RawMessage::Addr(list)) {
        Some(PeerMessage::Addr(records)) => {
            assert_eq!(
                records,
                vec![
                    CombinedAddr {
                        addr: NetAddr::V4(0x7f000001),
                        port: 8333,
                        services: COMPACT_FILTER_SERVICE_BIT,
                    },
                    CombinedAddr {
                        addr: NetAddr::V6(0x20010db8),
                        port: 18333,
                        services: COMPACT_FILTER_SERVICE_BIT,
                    },
                ]
            );
        }
        other => panic!("expected an address event, got {:?}", other),
    }
}

#[test]
fn normalization_keeps_port_and_services_across_families() {
    let v4 = cf_entry(NetAddr::V4(1), 4242);
    let v6 = cf_entry(NetAddr::V6(2), 4242);
    match translate(RawMessage::Addr(vec![v4, v6])) {
        Some(PeerMessage::Addr(records)) => {
            assert_eq!(records.len(), 2);
            assert_eq!(records[0].port, records[1].port);
            assert_eq!(records[0].services, records[1].services);
            assert_eq!(records[0].addr, NetAddr::V4(1));
            assert_eq!(records[1].addr, NetAddr::V6(2));
        }
        other => panic!("expected an address event, got {:?}", other),
    }
}

#[test]
fn oversized_inventory_disconnects() {
    let items = vec![InventoryItem::Block(hash(1)); 50001];
    let out = translate(RawMessage::Inv(items));
    assert_eq!(out, Some(PeerMessage::Disconnect));
}

#[test]
fn inventory_extracts_block_like_hashes_in_order() {
    let items = vec![
        InventoryItem::Transaction(hash(1)),
        InventoryItem::Block(hash(2)),
        InventoryItem::Other,
        InventoryItem::CompactBlock(hash(3)),
        InventoryItem::WitnessBlock(hash(4)),
    ];
    let out = translate(RawMessage::Inv(items));
    assert_eq!(out, Some(PeerMessage::NewBlocks(vec![hash(2), hash(3), hash(4)])));
}

#[test]
fn inventory_without_blocks_yields_nothing() {
    let items = vec![InventoryItem::Transaction(hash(1)), InventoryItem::Other];
    assert_eq!(translate(RawMessage::Inv(items)), None);
}

#[test]
fn oversized_header_batch_disconnects() {
    let h = kyoto::types::HeaderData { hash: hash(1), prev: hash(0), work: 1 };
    let batch = vec![h; 2001];
    assert_eq!(translate(RawMessage::Headers(batch)), Some(PeerMessage::Disconnect));
}

#[test]
fn header_batch_within_limit_passes_through() {
    let mk = |n: u64| kyoto::types::HeaderData { hash: hash(n), prev: hash(n - 1), work: n };
    let batch = vec![mk(1), mk(2), mk(3)];
    assert_eq!(
        translate(RawMessage::Headers(batch.clone())),
        Some(PeerMessage::Headers(batch))
    );
}

#[test]
fn inventory_at_limit_is_kept() {
    let items = vec![InventoryItem::Block(hash(1)); 50000];
    match translate(RawMessage::Inv(items)) {
        Some(PeerMessage::NewBlocks(hashes)) => assert_eq!(hashes.len(), 50000),
        other => panic!("expected a block announcement, got {:?}", other),
    }
}

#[test]
fn header_batch_at_limit_is_kept() {
    let h = kyoto::types::HeaderData { hash: hash(1), prev: hash(0), work: 1 };
    let batch = vec![h; 2000];
    match translate(RawMessage::Headers(batch)) {
        Some(PeerMessage::Headers(headers)) => assert_eq!(headers.len(), 2000),
        other => panic!("expected a header batch, got {:?}", other),
    }
}

#[test]
fn handshake_and_liveness_pass_through() {
    let v = VersionInfo { services: COMPACT_FILTER_SERVICE_BIT, height: 7 };
    assert_eq!(translate(RawMessage::Version(v)), Some(PeerMessage::Version(v)));
    assert_eq!(translate(RawMessage::Verack), Some(PeerMessage::Verack));
    assert_eq!(translate(RawMessage::Ping(99)), Some(PeerMessage::Ping(99)));
    assert_eq!(translate(RawMessage::Pong(99)), Some(PeerMessage::Pong(99)));
    assert_eq!(translate(RawMessage::Block(hash(5))), Some(PeerMessage::Block(hash(5))));
}

#[test]
fn reject_is_repackaged_by_txid() {
    let r = RejectPayload { reason: 0x10, txid: hash(77) };
    assert_eq!(translate(RawMessage::Reject(r)), Some(PeerMessage::Reject(r)));
}

#[test]
fn ignorable_messages_yield_nothing_and_unknown_disconnects() {
    assert_eq!(translate(RawMessage::Ignorable), None);
    assert_eq!(translate(RawMessage::Unknown), Some(PeerMessage::Disconnect));
}

#[test]
fn translation_is_deterministic() {
    let items = vec![
        InventoryItem::Block(hash(2)),
        InventoryItem::Transaction(hash(1)),
        InventoryItem::CompactBlock(hash(3)),
    ];
    let msg = RawMessage::Inv(items);
    let first = translate(msg.clone());
    let second = translate(msg);
    assert_eq!(first, second);
}
