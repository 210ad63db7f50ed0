//! Translation of one decoded wire message into at most one internal peer
//! event, enforcing the per-message-kind bounds.
//!
//! This is a pure function: every effect is expressed in the returned
//! event. An oversized address list, inventory list or header batch is a
//! known denial-of-service vector and yields exactly a `Disconnect` event,
//! the payload discarded; so does an unrecognized command. Message kinds
//! this client has no use for yield nothing.

use vstd::prelude::*;

use crate::types::AddressEntry;
use crate::types::CombinedAddr;
use crate::types::EventV;
use crate::types::Hash256;
use crate::types::InventoryItem;
use crate::types::MsgV;
use crate::types::MAX_ADDRS;
use crate::types::MAX_HEADERS;
use crate::types::MAX_INV;
use crate::types::COMPACT_FILTER_SERVICE_BIT;
use crate::types::NetAddr;
use crate::types::PeerMessage;
use crate::types::RawMessage;

verus! {

/// Whether a declared service bit field includes the compact-filter
/// service.
pub open spec fn has_compact_filters(services: u64) -> bool {
    services & COMPACT_FILTER_SERVICE_BIT == COMPACT_FILTER_SERVICE_BIT
}

/// Whether an advertised address entry is kept: it must declare the
/// compact-filter service and carry an address resolvable to a socket
/// address.
pub open spec fn keep_addr(a: AddressEntry) -> bool {
    has_compact_filters(a.services) && !(a.addr is Unresolved)
}

/// The normalized record an accepted address entry becomes. Port and
/// service bits are carried over unchanged; only the address family
/// distinguishes records of entries that declared the same.
pub open spec fn normalize_addr(a: AddressEntry) -> CombinedAddr {
    CombinedAddr { addr: a.addr, port: a.port, services: a.services }
}

/// The ordered records kept from an address list: the entries that satisfy
/// [`keep_addr`], each normalized, in their original order.
pub open spec fn filtered_addrs(s: Seq<AddressEntry>) -> Seq<CombinedAddr>
    decreases s.len(),
{
    if s.len() == 0 {
        Seq::empty()
    } else {
        let rest = filtered_addrs(s.drop_last());
        if keep_addr(s.last()) {
            rest.push(normalize_addr(s.last()))
        } else {
            rest
        }
    }
}

/// The hash carried by a block-like inventory entry, if any.
pub open spec fn inv_block_hash(i: InventoryItem) -> Option<Hash256> {
    match i {
        InventoryItem::Block(h) => Some(h),
        InventoryItem::CompactBlock(h) => Some(h),
        InventoryItem::WitnessBlock(h) => Some(h),
        InventoryItem::Transaction(_) => None,
        InventoryItem::Other => None,
    }
}

/// The ordered block hashes extracted from an inventory list; entries that
/// are not block-like are dropped.
pub open spec fn block_hashes(s: Seq<InventoryItem>) -> Seq<Hash256>
    decreases s.len(),
{
    if s.len() == 0 {
        Seq::empty()
    } else {
        let rest = block_hashes(s.drop_last());
        match inv_block_hash(s.last()) {
            Some(h) => rest.push(h),
            None => rest,
        }
    }
}

/// The event, if any, that one decoded wire message translates to.
pub open spec fn spec_translate(m: MsgV) -> Option<EventV> {
    match m {
        MsgV::Version(v) => Some(EventV::Version(v)),
        MsgV::Verack => Some(EventV::Verack),
        MsgV::Addr(l) => if l.len() > MAX_ADDRS {
            Some(EventV::Disconnect)
        } else {
            Some(EventV::Addr(filtered_addrs(l)))
        },
        MsgV::AddrV2(l) => if l.len() > MAX_ADDRS {
            Some(EventV::Disconnect)
        } else {
            Some(EventV::Addr(filtered_addrs(l)))
        },
        MsgV::Inv(l) => if l.len() > MAX_INV {
            Some(EventV::Disconnect)
        } else if block_hashes(l).len() > 0 {
            Some(EventV::NewBlocks(block_hashes(l)))
        } else {
            None
        },
        MsgV::Block(h) => Some(EventV::Block(h)),
        MsgV::Headers(l) => if l.len() > MAX_HEADERS {
            Some(EventV::Disconnect)
        } else {
            Some(EventV::Headers(l))
        },
        MsgV::Ping(n) => Some(EventV::Ping(n)),
        MsgV::Pong(n) => Some(EventV::Pong(n)),
        MsgV::Filter(f) => Some(EventV::Filter(f)),
        MsgV::FilterHeaders(f) => Some(EventV::FilterHeaders(f)),
        MsgV::Reject(r) => Some(EventV::Reject(r)),
        MsgV::Ignorable => None,
        MsgV::Unknown => Some(EventV::Disconnect),
    }
}

/// The mathematical value of an optional event.
pub open spec fn opt_event_view(r: Option<PeerMessage>) -> Option<EventV> {
    match r {
        Some(e) => Some(e@),
        None => None,
    }
}

/// Keeps and normalizes the acceptable entries of an address list, in
/// order.
fn filter_addresses(list: &Vec<AddressEntry>) -> (out: Vec<CombinedAddr>)
    ensures
        out@ == filtered_addrs(list@),
{
    let mut out: Vec<CombinedAddr> = Vec::new();
    let mut i: usize = 0;
    while i < list.len()
        invariant
            i <= list@.len(),
            out@ == filtered_addrs(list@.take(i as int)),
        decreases list@.len() - i,
    {
        let a = list[i];
        proof {
            assert(list@.take(i + 1).drop_last() =~= list@.take(i as int));
            assert(list@.take(i + 1).last() == a);
        }
        let keep = match a.addr {
            NetAddr::Unresolved => false,
            _ => a.services & COMPACT_FILTER_SERVICE_BIT == COMPACT_FILTER_SERVICE_BIT,
        };
        if keep {
            let mut rec = CombinedAddr::new(a.addr, a.port);
            rec.services(a.services);
            out.push(rec);
        }
        i += 1;
    }
    proof {
        assert(list@.take(list@.len() as int) =~= list@);
    }
    out
}

/// Extracts the block hashes announced by an inventory list, in order.
fn collect_block_hashes(list: &Vec<InventoryItem>) -> (out: Vec<Hash256>)
    ensures
        out@ == block_hashes(list@),
{
    let mut out: Vec<Hash256> = Vec::new();
    let mut i: usize = 0;
    while i < list.len()
        invariant
            i <= list@.len(),
            out@ == block_hashes(list@.take(i as int)),
        decreases list@.len() - i,
    {
        let item = list[i];
        proof {
            assert(list@.take(i + 1).drop_last() =~= list@.take(i as int));
            assert(list@.take(i + 1).last() == item);
        }
        match item {
            InventoryItem::Block(h) => out.push(h),
            InventoryItem::CompactBlock(h) => out.push(h),
            InventoryItem::WitnessBlock(h) => out.push(h),
            InventoryItem::Transaction(_) => (),
            InventoryItem::Other => (),
        }
        i += 1;
    }
    proof {
        assert(list@.take(list@.len() as int) =~= list@);
    }
    out
}

/// Translates one decoded wire message into at most one peer event, as
/// [`spec_translate`] states.
pub fn translate(msg: RawMessage) -> (r: Option<PeerMessage>)
    ensures
        opt_event_view(r) == spec_translate(msg@),
{
    match msg {
        RawMessage::Version(v) => Some(PeerMessage::Version(v)),
        RawMessage::Verack => Some(PeerMessage::Verack),
        RawMessage::Addr(list) => {
            if list.len() > MAX_ADDRS {
                Some(PeerMessage::Disconnect)
            } else {
                Some(PeerMessage::Addr(filter_addresses(&list)))
            }
        },
        RawMessage::AddrV2(list) => {
            if list.len() > MAX_ADDRS {
                Some(PeerMessage::Disconnect)
            } else {
                Some(PeerMessage::Addr(filter_addresses(&list)))
            }
        },
        RawMessage::Inv(list) => {
            if list.len() > MAX_INV {
                Some(PeerMessage::Disconnect)
            } else {
                let hashes = collect_block_hashes(&list);
                if hashes.len() > 0 {
                    Some(PeerMessage::NewBlocks(hashes))
                } else {
                    None
                }
            }
        },
        RawMessage::Block(h) => Some(PeerMessage::Block(h)),
        RawMessage::Headers(list) => {
            if list.len() > MAX_HEADERS {
                Some(PeerMessage::Disconnect)
            } else {
                Some(PeerMessage::Headers(list))
            }
        },
        RawMessage::Ping(n) => Some(PeerMessage::Ping(n)),
        RawMessage::Pong(n) => Some(PeerMessage::Pong(n)),
        RawMessage::Filter(f) => Some(PeerMessage::Filter(f)),
        RawMessage::FilterHeaders(f) => Some(PeerMessage::FilterHeaders(f)),
        RawMessage::Reject(r) => Some(PeerMessage::Reject(r)),
        RawMessage::Ignorable => None,
        RawMessage::Unknown => Some(PeerMessage::Disconnect),
    }
}

/// An address list over the entry ceiling translates to exactly a
/// `Disconnect` event and never to an `AddressList`; one within the
/// ceiling translates to exactly the filtered, normalized records.
pub proof fn lemma_addr_list_translation(l: Seq<AddressEntry>)
    ensures
        l.len() > MAX_ADDRS ==> spec_translate(MsgV::Addr(l)) == Some(EventV::Disconnect)
            && spec_translate(MsgV::AddrV2(l)) == Some(EventV::Disconnect),
        l.len() <= MAX_ADDRS ==> spec_translate(MsgV::Addr(l)) == Some(
            EventV::Addr(filtered_addrs(l)),
        ) && spec_translate(MsgV::AddrV2(l)) == Some(EventV::Addr(filtered_addrs(l))),
{
}

/// An inventory list over the entry ceiling translates to exactly a
/// `Disconnect` event; one within it yields the announced block hashes,
/// or nothing when it announces no block.
pub proof fn lemma_inventory_translation(l: Seq<InventoryItem>)
    ensures
        l.len() > MAX_INV ==> spec_translate(MsgV::Inv(l)) == Some(EventV::Disconnect),
        l.len() <= MAX_INV && block_hashes(l).len() > 0 ==> spec_translate(MsgV::Inv(l)) == Some(
            EventV::NewBlocks(block_hashes(l)),
        ),
        l.len() <= MAX_INV && block_hashes(l).len() == 0 ==> spec_translate(MsgV::Inv(l)) is None,
{
}

/// A header batch over the protocol's per-message maximum translates to
/// exactly a `Disconnect` event; one within the maximum passes through as
/// a header batch that preserves the headers, their order and their count.
pub proof fn lemma_header_batch_translation(l: Seq<crate::types::HeaderData>)
    ensures
        l.len() > MAX_HEADERS ==> spec_translate(MsgV::Headers(l)) == Some(EventV::Disconnect),
        l.len() <= MAX_HEADERS ==> spec_translate(MsgV::Headers(l)) == Some(EventV::Headers(l)),
{
}

/// Address normalization is lossless for the port and service fields: a
/// routable v4 entry and a routable v6 entry that declared the same port
/// and services are either both dropped or both kept, and when kept their
/// records agree on everything but the address family, each keeping its
/// own address.
pub proof fn lemma_normalization_lossless(a4: AddressEntry, a6: AddressEntry)
    requires
        a4.addr is V4,
        a6.addr is V6,
        a4.services == a6.services,
        a4.port == a6.port,
    ensures
        keep_addr(a4) == keep_addr(a6),
        normalize_addr(a4).addr == a4.addr,
        normalize_addr(a6).addr == a6.addr,
        normalize_addr(a4).port == normalize_addr(a6).port,
        normalize_addr(a4).services == normalize_addr(a6).services,
        normalize_addr(a4).port == a4.port,
        normalize_addr(a4).services == a4.services,
{
}

/// Translation is a pure function of the message value: equal messages
/// yield equal events, so translating the same message twice yields the
/// same event both times.
pub proof fn lemma_translate_deterministic(m1: MsgV, m2: MsgV)
    requires
        m1 == m2,
    ensures
        spec_translate(m1) == spec_translate(m2),
{
}

} // verus!
