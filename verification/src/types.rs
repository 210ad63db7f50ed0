//! Plain-value models of the wire messages and of the internal peer events.
//!
//! Every payload the synchronization logic reads is held here as machine
//! integers and vectors, so that contracts can speak of it directly. The
//! framing layer outside this crate decodes network bytes and hands these
//! values in; it receives the translated events back.

use vstd::prelude::*;

verus! {

/// Maximum number of entries accepted in one address gossip message.
pub const MAX_ADDRS: usize = 1000;
/// Maximum number of entries accepted in one inventory message.
pub const MAX_INV: usize = 50000;
/// Maximum number of headers accepted in one header batch.
pub const MAX_HEADERS: usize = 2000;
/// Maximum size in bytes of one framed message; larger frames fail the
/// connection in the reading layer before translation is reached.
pub const MAX_MESSAGE_BYTES: u32 = 1024 * 1024 * 32;
/// Service bit a peer or an advertised address must declare to be useful to
/// this client: it serves compact block filters.
pub const COMPACT_FILTER_SERVICE_BIT: u64 = 1u64 << 6;

/// A 256-bit hash carried as plain machine words.
#[derive(Clone, Copy, PartialEq, Eq, Structural, Debug, Hash)]
pub struct Hash256 {
    pub hi: u128,
    pub lo: u128,
}

/// A network address in the two routable families, or an address this
/// client cannot resolve to a socket address (overlay networks, unknown
/// address kinds).
#[derive(Clone, Copy, PartialEq, Eq, Structural, Debug)]
pub enum NetAddr {
    V4(u32),
    V6(u128),
    Unresolved,
}

/// One entry of an address gossip message as advertised by a peer.
#[derive(Clone, Copy, PartialEq, Eq, Structural, Debug)]
pub struct AddressEntry {
    pub addr: NetAddr,
    pub port: u16,
    pub services: u64,
}

/// A normalized address record: both legacy and current gossip entries end
/// up in this one representation.
#[derive(Clone, Copy, PartialEq, Eq, Structural, Debug)]
pub struct CombinedAddr {
    pub addr: NetAddr,
    pub port: u16,
    pub services: u64,
}

impl CombinedAddr {
    pub fn new(addr: NetAddr, port: u16) -> (r: CombinedAddr)
        ensures
            r.addr == addr,
            r.port == port,
            r.services == 0u64,
    {
        CombinedAddr { addr, port, services: 0 }
    }

    pub fn services(&mut self, services: u64)
        ensures
            final(self).addr == old(self).addr,
            final(self).port == old(self).port,
            final(self).services == services,
    {
        self.services = services;
    }
}

/// The handshake fields this client reads from a version message.
#[derive(Clone, Copy, PartialEq, Eq, Structural, Debug)]
pub struct VersionInfo {
    pub services: u64,
    pub height: u32,
}

/// One entry of an inventory message.
#[derive(Clone, Copy, PartialEq, Eq, Structural, Debug)]
pub enum InventoryItem {
    Block(Hash256),
    CompactBlock(Hash256),
    WitnessBlock(Hash256),
    Transaction(Hash256),
    Other,
}

/// A block header reduced to what chain selection reads: its own hash, the
/// hash it links to, and the proof-of-work it contributes. The hashing and
/// the work computation happen in the decoding layer outside this crate.
#[derive(Clone, Copy, PartialEq, Eq, Structural, Debug)]
pub struct HeaderData {
    pub hash: Hash256,
    pub prev: Hash256,
    pub work: u64,
}

/// A decoded compact filter for one block: the scripts it contains and the
/// filter-header commitment computed over it by the decoding layer.
#[derive(Clone, Debug, PartialEq)]
pub struct FilterPayload {
    pub block_hash: Hash256,
    pub header_commitment: Hash256,
    pub scripts: Vec<Vec<u8>>,
}

/// A batch of compact filter headers, with the header value the batch
/// chains from.
#[derive(Clone, Debug, PartialEq)]
pub struct FilterHeaderBatch {
    pub prev_header: Hash256,
    pub headers: Vec<Hash256>,
}

/// A peer's rejection notice, keyed by the transaction it refers to.
#[derive(Clone, Copy, PartialEq, Eq, Structural, Debug)]
pub struct RejectPayload {
    pub reason: u8,
    pub txid: Hash256,
}

/// A decoded wire message, reduced to the payloads this client reads.
/// Message kinds the client ignores on purpose (transaction relay, mempool
/// queries, bloom filter commands, compact block relay, alerts) arrive as
/// `Ignorable`; a command the decoder does not recognize arrives as
/// `Unknown`.
#[derive(Clone, Debug, PartialEq)]
pub enum RawMessage {
    Version(VersionInfo),
    Verack,
    Addr(Vec<AddressEntry>),
    AddrV2(Vec<AddressEntry>),
    Inv(Vec<InventoryItem>),
    Block(Hash256),
    Headers(Vec<HeaderData>),
    Ping(u64),
    Pong(u64),
    Filter(FilterPayload),
    FilterHeaders(FilterHeaderBatch),
    Reject(RejectPayload),
    Ignorable,
    Unknown,
}

/// The internal event a translated message becomes, consumed by the
/// orchestrator.
#[derive(Clone, Debug, PartialEq)]
pub enum PeerMessage {
    Version(VersionInfo),
    Verack,
    Addr(Vec<CombinedAddr>),
    NewBlocks(Vec<Hash256>),
    Block(Hash256),
    Headers(Vec<HeaderData>),
    Ping(u64),
    Pong(u64),
    Filter(FilterPayload),
    FilterHeaders(FilterHeaderBatch),
    Reject(RejectPayload),
    Disconnect,
}

/// Mathematical value of a [`FilterPayload`].
pub struct FilterV {
    pub block_hash: Hash256,
    pub header_commitment: Hash256,
    pub scripts: Seq<Seq<u8>>,
}

/// Mathematical value of a [`FilterHeaderBatch`].
pub struct FilterHeadersV {
    pub prev_header: Hash256,
    pub headers: Seq<Hash256>,
}

/// Mathematical value of a [`RawMessage`].
pub enum MsgV {
    Version(VersionInfo),
    Verack,
    Addr(Seq<AddressEntry>),
    AddrV2(Seq<AddressEntry>),
    Inv(Seq<InventoryItem>),
    Block(Hash256),
    Headers(Seq<HeaderData>),
    Ping(u64),
    Pong(u64),
    Filter(FilterV),
    FilterHeaders(FilterHeadersV),
    Reject(RejectPayload),
    Ignorable,
    Unknown,
}

/// Mathematical value of a [`PeerMessage`].
pub enum EventV {
    Version(VersionInfo),
    Verack,
    Addr(Seq<CombinedAddr>),
    NewBlocks(Seq<Hash256>),
    Block(Hash256),
    Headers(Seq<HeaderData>),
    Ping(u64),
    Pong(u64),
    Filter(FilterV),
    FilterHeaders(FilterHeadersV),
    Reject(RejectPayload),
    Disconnect,
}

impl View for FilterPayload {
    type V = FilterV;

    open spec fn view(&self) -> FilterV {
        FilterV {
            block_hash: self.block_hash,
            header_commitment: self.header_commitment,
            scripts: self.scripts.deep_view(),
        }
    }
}

impl View for FilterHeaderBatch {
    type V = FilterHeadersV;

    open spec fn view(&self) -> FilterHeadersV {
        FilterHeadersV { prev_header: self.prev_header, headers: self.headers@ }
    }
}

impl View for RawMessage {
    type V = MsgV;

    open spec fn view(&self) -> MsgV {
        match self {
            RawMessage::Version(v) => MsgV::Version(*v),
            RawMessage::Verack => MsgV::Verack,
            RawMessage::Addr(l) => MsgV::Addr(l@),
            RawMessage::AddrV2(l) => MsgV::AddrV2(l@),
            RawMessage::Inv(l) => MsgV::Inv(l@),
            RawMessage::Block(h) => MsgV::Block(*h),
            RawMessage::Headers(l) => MsgV::Headers(l@),
            RawMessage::Ping(n) => MsgV::Ping(*n),
            RawMessage::Pong(n) => MsgV::Pong(*n),
            RawMessage::Filter(f) => MsgV::Filter(f@),
            RawMessage::FilterHeaders(f) => MsgV::FilterHeaders(f@),
            RawMessage::Reject(r) => MsgV::Reject(*r),
            RawMessage::Ignorable => MsgV::Ignorable,
            RawMessage::Unknown => MsgV::Unknown,
        }
    }
}

impl View for PeerMessage {
    type V = EventV;

    open spec fn view(&self) -> EventV {
        match self {
            PeerMessage::Version(v) => EventV::Version(*v),
            PeerMessage::Verack => EventV::Verack,
            PeerMessage::Addr(l) => EventV::Addr(l@),
            PeerMessage::NewBlocks(l) => EventV::NewBlocks(l@),
            PeerMessage::Block(h) => EventV::Block(*h),
            PeerMessage::Headers(l) => EventV::Headers(l@),
            PeerMessage::Ping(n) => EventV::Ping(*n),
            PeerMessage::Pong(n) => EventV::Pong(*n),
            PeerMessage::Filter(f) => EventV::Filter(f@),
            PeerMessage::FilterHeaders(f) => EventV::FilterHeaders(f@),
            PeerMessage::Reject(r) => EventV::Reject(*r),
            PeerMessage::Disconnect => EventV::Disconnect,
        }
    }
}

} // verus!
