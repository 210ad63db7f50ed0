//! The synchronization state machine: one logical owner of the chain and
//! filter state that consumes translated peer events and answers with the
//! requests and caller-visible events they warrant.
//!
//! The machine walks `HeaderSync` to `FilterHeaderSync` to
//! `FilterDownload` to `Synced`; registering a script and rescanning
//! re-runs the filter download from the checkpoint (or a chosen height)
//! against the grown watch set without touching validated headers. A
//! reorganization of the chain invalidates filter headers, the download
//! cursor and recorded matches above the fork point.

use vstd::prelude::*;

use crate::chain::batch_accepted;
use crate::chain::batch_connects;
use crate::chain::extend_result;
use crate::chain::find_fork;
use crate::chain::hash_at;
use crate::chain::ChainState;
use crate::chain::ExtendOutcome;
use crate::chain::HeaderCheckpoint;
use crate::types::FilterPayload;
use crate::types::FilterV;
use crate::types::FilterHeaderBatch;
use crate::types::FilterHeadersV;
use crate::types::Hash256;
use crate::types::HeaderData;
use crate::types::VersionInfo;
use crate::types::COMPACT_FILTER_SERVICE_BIT;

verus! {

/// The smaller of two integers.
pub open spec fn min_i(a: int, b: int) -> int {
    if a < b {
        a
    } else {
        b
    }
}

/// A block whose filter matched the watch set, queued for download.
#[derive(Clone, Copy, PartialEq, Eq, Structural, Debug)]
pub struct MatchedBlock {
    pub height: u32,
    pub hash: Hash256,
}

/// Where synchronization stands.
#[derive(Clone, Copy, PartialEq, Eq, Structural, Debug)]
pub enum SyncStage {
    HeaderSync,
    FilterHeaderSync,
    FilterDownload,
    Synced,
    Rescanning,
}

/// What the machine asks its surroundings to do: requests go back to
/// peers, emissions go to the caller's event stream.
#[derive(Clone, Copy, PartialEq, Eq, Structural, Debug)]
pub enum Action {
    RequestHeaders { from_height: u32 },
    RequestFilterHeaders { start_height: u32 },
    RequestFilters { start_height: u32 },
    RequestBlock { hash: Hash256 },
    SendPong { nonce: u64 },
    DisconnectPeer,
    EmitSynced { height: u32, hash: Hash256 },
    EmitMatchedBlock { hash: Hash256 },
    NoteReject { reason: u8, txid: Hash256 },
}

/// Mathematical value of a [`Node`].
#[verifier::ext_equal]
pub struct NodeV {
    pub checkpoint: HeaderCheckpoint,
    pub chain: Seq<HeaderData>,
    pub anchor_filter_header: Hash256,
    pub watch: Seq<Seq<u8>>,
    pub peer_best: u32,
    pub filter_headers: Seq<Hash256>,
    pub cursor: int,
    pub matched: Seq<MatchedBlock>,
    pub announced: bool,
    pub rescanning: bool,
}

/// The synchronization state machine's state.
pub struct Node {
    pub chain: ChainState,
    pub anchor_filter_header: Hash256,
    pub watch: Vec<Vec<u8>>,
    pub peer_best: u32,
    pub filter_headers: Vec<Hash256>,
    pub cursor: usize,
    pub matched: Vec<MatchedBlock>,
    pub announced: bool,
    pub rescanning: bool,
}

impl View for Node {
    type V = NodeV;

    open spec fn view(&self) -> NodeV {
        NodeV {
            checkpoint: self.chain.checkpoint,
            chain: self.chain.headers@,
            anchor_filter_header: self.anchor_filter_header,
            watch: self.watch.deep_view(),
            peer_best: self.peer_best,
            filter_headers: self.filter_headers@,
            cursor: self.cursor as int,
            matched: self.matched@,
            announced: self.announced,
            rescanning: self.rescanning,
        }
    }
}

/// Height of the node's tip.
pub open spec fn spec_height_of(n: NodeV) -> int {
    n.checkpoint.height + n.chain.len()
}

/// Hash of the node's tip.
pub open spec fn spec_tip_of(n: NodeV) -> Hash256 {
    hash_at(n.checkpoint, n.chain, n.chain.len() as int)
}

/// Whether a declared service bit field includes the compact-filter
/// service.
pub open spec fn declares_filters(services: u64) -> bool {
    services & COMPACT_FILTER_SERVICE_BIT == COMPACT_FILTER_SERVICE_BIT
}

/// The stage the state is in, read off the state itself: headers are
/// wanted first, then filter headers, then filters; a node wanting
/// nothing is synced.
pub open spec fn spec_stage_of(n: NodeV) -> SyncStage {
    if spec_height_of(n) < n.peer_best {
        SyncStage::HeaderSync
    } else if n.filter_headers.len() < n.chain.len() {
        SyncStage::FilterHeaderSync
    } else if n.cursor < n.chain.len() {
        if n.rescanning {
            SyncStage::Rescanning
        } else {
            SyncStage::FilterDownload
        }
    } else {
        SyncStage::Synced
    }
}

/// The one request the state is waiting to issue, if any: the next header
/// batch, the next filter-header batch, or the next filter.
pub open spec fn spec_next_request(n: NodeV) -> Option<Action> {
    if spec_height_of(n) < n.peer_best {
        Some(Action::RequestHeaders { from_height: (spec_height_of(n) + 1) as u32 })
    } else if n.filter_headers.len() < n.chain.len() {
        Some(
            Action::RequestFilterHeaders {
                start_height: (n.checkpoint.height + n.filter_headers.len() + 1) as u32,
            },
        )
    } else if n.cursor < n.chain.len() {
        Some(Action::RequestFilters { start_height: (n.checkpoint.height + n.cursor + 1) as u32 })
    } else {
        None
    }
}

/// [`spec_next_request`] as an action sequence.
pub open spec fn request_actions(n: NodeV) -> Seq<Action> {
    match spec_next_request(n) {
        Some(a) => seq![a],
        None => Seq::empty(),
    }
}

/// The matches at or below height `h`: a reorganization keeps exactly
/// these.
pub open spec fn matched_upto(s: Seq<MatchedBlock>, h: int) -> Seq<MatchedBlock>
    decreases s.len(),
{
    if s.len() == 0 {
        Seq::empty()
    } else {
        let rest = matched_upto(s.drop_last(), h);
        if s.last().height <= h {
            rest.push(s.last())
        } else {
            rest
        }
    }
}

/// Whether a match for the given block hash is queued.
pub open spec fn matched_contains(s: Seq<MatchedBlock>, h: Hash256) -> bool {
    exists|i: int| 0 <= i < s.len() && (#[trigger] s[i]).hash == h
}

/// Whether a filter's script set contains some watched script:
/// exact membership, no false-positive tolerance at this layer.
pub open spec fn filter_matches(scripts: Seq<Seq<u8>>, watch: Seq<Seq<u8>>) -> bool {
    exists|i: int| 0 <= i < watch.len() && scripts.contains(#[trigger] watch[i])
}

/// Effect of a version handshake: remember the peer's best height; a peer
/// that does not serve compact filters is useless to this client and is
/// dropped.
pub open spec fn spec_handle_version(n: NodeV, v: VersionInfo) -> (NodeV, Seq<Action>) {
    if !declares_filters(v.services) {
        (n, seq![Action::DisconnectPeer])
    } else {
        let n2 = NodeV {
            peer_best: if v.height > n.peer_best {
                v.height
            } else {
                n.peer_best
            },
            ..n
        };
        (n2, request_actions(n2))
    }
}

/// Effect of a header batch: the chain takes it as [`extend_result`]
/// says. A batch that fails linkage drops the peer; a stale batch changes
/// nothing; an accepted batch invalidates filter headers, the download
/// cursor and matches above the fork point, and the next request is
/// issued.
pub open spec fn spec_handle_headers(n: NodeV, batch: Seq<HeaderData>) -> (NodeV, Seq<Action>) {
    if batch.len() > 0 && !batch_connects(n.checkpoint, n.chain, batch) {
        (n, seq![Action::DisconnectPeer])
    } else if !batch_accepted(n.checkpoint, n.chain, batch) {
        (n, Seq::empty())
    } else {
        let fork = find_fork(n.checkpoint, n.chain, batch[0].prev);
        let n2 = NodeV {
            chain: extend_result(n.checkpoint, n.chain, batch),
            filter_headers: n.filter_headers.take(min_i(fork, n.filter_headers.len() as int)),
            cursor: min_i(n.cursor, fork),
            matched: matched_upto(n.matched, n.checkpoint.height + fork),
            announced: false,
            ..n
        };
        (n2, request_actions(n2))
    }
}

/// Effect of a filter-header batch: it must chain from the last verified
/// filter header (the checkpoint's anchor commitment at first) and must
/// not overrun the validated chain; an acceptable batch extends the
/// verified filter headers and the next request is issued.
pub open spec fn spec_handle_filter_headers(n: NodeV, b: FilterHeadersV) -> (NodeV, Seq<Action>) {
    let need = n.chain.len() - n.filter_headers.len();
    let expected = if n.filter_headers.len() == 0 {
        n.anchor_filter_header
    } else {
        n.filter_headers.last()
    };
    if need == 0 {
        (n, Seq::empty())
    } else if b.prev_header != expected {
        (n, seq![Action::DisconnectPeer])
    } else if b.headers.len() == 0 {
        (n, Seq::empty())
    } else if b.headers.len() > need {
        (n, seq![Action::DisconnectPeer])
    } else {
        let n2 = NodeV { filter_headers: n.filter_headers + b.headers, ..n };
        (n2, request_actions(n2))
    }
}

/// Effect of one filter: it is checked against the block hash and the
/// verified filter-header commitment at the cursor, matched against the
/// watch set (a match queues the block for download), and the cursor
/// advances; completing the last height leaves rescanning and emits the
/// synced event once per completion.
pub open spec fn spec_handle_filter(n: NodeV, f: FilterV) -> (NodeV, Seq<Action>) {
    if n.cursor >= n.filter_headers.len() {
        (n, Seq::empty())
    } else {
        let idx = n.cursor;
        if f.block_hash != n.chain[idx].hash || f.header_commitment != n.filter_headers[idx] {
            (n, seq![Action::DisconnectPeer])
        } else {
            let hit = filter_matches(f.scripts, n.watch);
            let done = idx + 1 == n.chain.len();
            let n2 = NodeV {
                cursor: idx + 1,
                matched: if hit {
                    n.matched.push(
                        MatchedBlock {
                            height: (n.checkpoint.height + idx + 1) as u32,
                            hash: f.block_hash,
                        },
                    )
                } else {
                    n.matched
                },
                rescanning: if done {
                    false
                } else {
                    n.rescanning
                },
                announced: if done {
                    true
                } else {
                    n.announced
                },
                ..n
            };
            let base = if hit {
                seq![Action::RequestBlock { hash: f.block_hash }]
            } else {
                Seq::<Action>::empty()
            };
            let tail = if done {
                if !n.announced {
                    seq![
                        Action::EmitSynced {
                            height: spec_height_of(n) as u32,
                            hash: spec_tip_of(n),
                        },
                    ]
                } else {
                    Seq::<Action>::empty()
                }
            } else {
                request_actions(n2)
            };
            (n2, base + tail)
        }
    }
}

/// Effect of a delivered block: a block whose filter matched is handed to
/// the caller; any other block is ignored.
pub open spec fn spec_handle_block(n: NodeV, h: Hash256) -> (NodeV, Seq<Action>) {
    if matched_contains(n.matched, h) {
        (n, seq![Action::EmitMatchedBlock { hash: h }])
    } else {
        (n, Seq::empty())
    }
}

/// Effect of a block announcement: ask for the headers leading to it.
pub open spec fn spec_handle_new_blocks(n: NodeV, hashes: Seq<Hash256>) -> (NodeV, Seq<Action>) {
    if hashes.len() > 0 && spec_height_of(n) < u32::MAX {
        (n, seq![Action::RequestHeaders { from_height: (spec_height_of(n) + 1) as u32 }])
    } else {
        (n, Seq::empty())
    }
}

/// Effect of a rescan command: from `Synced`, rewind the filter cursor to
/// the checkpoint (or to a chosen height, never forward) while keeping
/// the validated chain, verified filter headers and recorded matches, and
/// run the filter download again.
pub open spec fn spec_rescan(n: NodeV, from_height: Option<u32>) -> (NodeV, Seq<Action>) {
    if spec_stage_of(n) != SyncStage::Synced {
        (n, Seq::empty())
    } else {
        let rel = match from_height {
            Some(h) => if h <= n.checkpoint.height {
                0
            } else if h - n.checkpoint.height > n.cursor {
                n.cursor
            } else {
                h - n.checkpoint.height
            },
            None => 0,
        };
        if rel == n.chain.len() {
            (n, Seq::empty())
        } else {
            let n2 = NodeV { cursor: rel, rescanning: true, announced: false, ..n };
            (n2, request_actions(n2))
        }
    }
}

/// Every match kept by [`matched_upto`] sits at or below the limit, and
/// every match at or below the limit is kept, in order.
pub proof fn lemma_matched_upto_bound(s: Seq<MatchedBlock>, h: int)
    ensures
        forall|i: int|
            0 <= i < matched_upto(s, h).len() ==> (#[trigger] matched_upto(s, h)[i]).height <= h,
        matched_upto(s, h) == s.filter(|m: MatchedBlock| m.height <= h),
    decreases s.len(),
{
    reveal(Seq::filter);
    if s.len() > 0 {
        lemma_matched_upto_bound(s.drop_last(), h);
    }
}

/// A header batch that wins on work rewinds the machine to the fork
/// point: afterwards no recorded match sits above the fork height, so
/// every match computed on the abandoned branch is invalidated.
pub proof fn lemma_reorg_invalidates_matches(n: NodeV, batch: Seq<HeaderData>)
    requires
        batch_accepted(n.checkpoint, n.chain, batch),
    ensures
        forall|i: int|
            0 <= i < spec_handle_headers(n, batch).0.matched.len() ==> (#[trigger] spec_handle_headers(
                n,
                batch,
            ).0.matched[i]).height <= n.checkpoint.height + find_fork(
                n.checkpoint,
                n.chain,
                batch[0].prev,
            ),
{
    lemma_matched_upto_bound(
        n.matched,
        n.checkpoint.height + find_fork(n.checkpoint, n.chain, batch[0].prev),
    );
}

/// Effect of one peer event on the machine.
pub open spec fn spec_step(n: NodeV, ev: crate::types::EventV) -> (NodeV, Seq<Action>) {
    match ev {
        crate::types::EventV::Version(v) => spec_handle_version(n, v),
        crate::types::EventV::Verack => (n, Seq::empty()),
        crate::types::EventV::Addr(_) => (n, Seq::empty()),
        crate::types::EventV::NewBlocks(l) => spec_handle_new_blocks(n, l),
        crate::types::EventV::Block(h) => spec_handle_block(n, h),
        crate::types::EventV::Headers(l) => spec_handle_headers(n, l),
        crate::types::EventV::Ping(nonce) => (n, seq![Action::SendPong { nonce }]),
        crate::types::EventV::Pong(_) => (n, Seq::empty()),
        crate::types::EventV::Filter(f) => spec_handle_filter(n, f),
        crate::types::EventV::FilterHeaders(b) => spec_handle_filter_headers(n, b),
        crate::types::EventV::Reject(r) => (
            n,
            seq![Action::NoteReject { reason: r.reason, txid: r.txid }],
        ),
        crate::types::EventV::Disconnect => (n, seq![Action::DisconnectPeer]),
    }
}

/// Keeps the matches at or below `limit`, in order.
fn prune_matches(list: &Vec<MatchedBlock>, limit: u32) -> (out: Vec<MatchedBlock>)
    ensures
        out@ == matched_upto(list@, limit as int),
{
    let mut out: Vec<MatchedBlock> = Vec::new();
    let mut i: usize = 0;
    while i < list.len()
        invariant
            i <= list@.len(),
            out@ == matched_upto(list@.take(i as int), limit as int),
        decreases list@.len() - i,
    {
        let m = list[i];
        proof {
            assert(list@.take(i + 1).drop_last() =~= list@.take(i as int));
            assert(list@.take(i + 1).last() == m);
        }
        if m.height <= limit {
            out.push(m);
        }
        i += 1;
    }
    proof {
        assert(list@.take(list@.len() as int) =~= list@);
    }
    out
}

/// Appends all of `src` to `dst`.
fn append_hashes(dst: &mut Vec<Hash256>, src: &Vec<Hash256>)
    ensures
        final(dst)@ == old(dst)@ + src@,
{
    let mut k: usize = 0;
    proof {
        assert(dst@ =~= old(dst)@ + src@.take(0));
    }
    while k < src.len()
        invariant
            k <= src@.len(),
            dst@ == old(dst)@ + src@.take(k as int),
        decreases src@.len() - k,
    {
        dst.push(src[k]);
        proof {
            assert(src@.take(k + 1) =~= src@.take(k as int).push(src@[k as int]));
            assert(old(dst)@ + src@.take(k + 1) =~= (old(dst)@ + src@.take(k as int)).push(
                src@[k as int],
            ));
        }
        k += 1;
    }
    proof {
        assert(src@.take(src@.len() as int) =~= src@);
    }
}

/// Byte-for-byte equality of two scripts.
fn bytes_eq(a: &Vec<u8>, b: &Vec<u8>) -> (r: bool)
    ensures
        r == (a@ == b@),
{
    if a.len() != b.len() {
        return false;
    }
    let mut i: usize = 0;
    while i < a.len()
        invariant
            i <= a@.len(),
            a@.len() == b@.len(),
            forall|j: int| 0 <= j < i ==> a@[j] == b@[j],
        decreases a@.len() - i,
    {
        if a[i] != b[i] {
            return false;
        }
        i += 1;
    }
    proof {
        assert(a@ =~= b@);
    }
    true
}

/// Whether a script set contains the given script.
fn contains_script(set: &Vec<Vec<u8>>, s: &Vec<u8>) -> (r: bool)
    ensures
        r == set.deep_view().contains(s@),
{
    let mut i: usize = 0;
    while i < set.len()
        invariant
            i <= set@.len(),
            forall|j: int| 0 <= j < i ==> set.deep_view()[j] != s@,
        decreases set@.len() - i,
    {
        proof {
            assert(set.deep_view()[i as int] =~= set@[i as int]@);
        }
        if bytes_eq(&set[i], s) {
            proof {
                assert(set.deep_view()[i as int] == s@);
            }
            return true;
        }
        i += 1;
    }
    proof {
        if set.deep_view().contains(s@) {
            let j = choose|j: int|
                0 <= j < set.deep_view().len() && set.deep_view()[j] == s@;
            assert(false);
        }
    }
    false
}

/// Whether some watched script is in the filter's script set: exact
/// membership.
pub fn filter_matches_watch(scripts: &Vec<Vec<u8>>, watch: &Vec<Vec<u8>>) -> (r: bool)
    ensures
        r == filter_matches(scripts.deep_view(), watch.deep_view()),
{
    let mut i: usize = 0;
    while i < watch.len()
        invariant
            i <= watch@.len(),
            forall|j: int| 0 <= j < i ==> !scripts.deep_view().contains(
                #[trigger] watch.deep_view()[j],
            ),
        decreases watch@.len() - i,
    {
        proof {
            assert(watch.deep_view()[i as int] =~= watch@[i as int]@);
        }
        if contains_script(scripts, &watch[i]) {
            proof {
                assert(scripts.deep_view().contains(watch.deep_view()[i as int]));
            }
            return true;
        }
        i += 1;
    }
    proof {
        if filter_matches(scripts.deep_view(), watch.deep_view()) {
            let j = choose|j: int|
                0 <= j < watch.deep_view().len() && scripts.deep_view().contains(
                    watch.deep_view()[j],
                );
            assert(false);
        }
    }
    false
}

impl Node {
    /// Chain well-formed; verified filter headers never outrun the chain;
    /// the cursor never outruns the verified filter headers.
    pub open spec fn wf(&self) -> bool {
        &&& self.chain.wf()
        &&& self.filter_headers@.len() <= self.chain.headers@.len()
        &&& self.cursor <= self.filter_headers@.len()
    }

    /// A fresh machine anchored at a checkpoint, with the checkpoint's
    /// filter-header commitment and the initial watch set.
    pub fn new(
        checkpoint: HeaderCheckpoint,
        anchor_filter_header: Hash256,
        watch: Vec<Vec<u8>>,
    ) -> (n: Node)
        ensures
            n.wf(),
            n@.checkpoint == checkpoint,
            n@.chain == Seq::<HeaderData>::empty(),
            n@.anchor_filter_header == anchor_filter_header,
            n@.watch == watch.deep_view(),
            n@.peer_best == checkpoint.height,
            n@.filter_headers == Seq::<Hash256>::empty(),
            n@.cursor == 0,
            n@.matched == Seq::<MatchedBlock>::empty(),
            n@.announced == false,
            n@.rescanning == false,
    {
        let n = Node {
            chain: ChainState::new(checkpoint),
            anchor_filter_header,
            watch,
            peer_best: checkpoint.height,
            filter_headers: Vec::new(),
            cursor: 0,
            matched: Vec::new(),
            announced: false,
            rescanning: false,
        };
        proof {
            assert(n.filter_headers@ =~= Seq::<Hash256>::empty());
            assert(n.matched@ =~= Seq::<MatchedBlock>::empty());
        }
        n
    }

    /// The stage the machine is in.
    pub fn stage(&self) -> (s: SyncStage)
        requires
            self.wf(),
        ensures
            s == spec_stage_of(self@),
    {
        let height = self.chain.height();
        if height < self.peer_best {
            SyncStage::HeaderSync
        } else if self.filter_headers.len() < self.chain.headers.len() {
            SyncStage::FilterHeaderSync
        } else if self.cursor < self.chain.headers.len() {
            if self.rescanning {
                SyncStage::Rescanning
            } else {
                SyncStage::FilterDownload
            }
        } else {
            SyncStage::Synced
        }
    }

    /// The one request the machine is waiting to issue, if any.
    pub fn next_request(&self) -> (r: Option<Action>)
        requires
            self.wf(),
        ensures
            r == spec_next_request(self@),
    {
        let height = self.chain.height();
        if height < self.peer_best {
            Some(Action::RequestHeaders { from_height: height + 1 })
        } else if self.filter_headers.len() < self.chain.headers.len() {
            Some(
                Action::RequestFilterHeaders {
                    start_height: self.chain.checkpoint.height + (self.filter_headers.len() as u32)
                        + 1,
                },
            )
        } else if self.cursor < self.chain.headers.len() {
            Some(
                Action::RequestFilters {
                    start_height: self.chain.checkpoint.height + (self.cursor as u32) + 1,
                },
            )
        } else {
            None
        }
    }

    /// Handles a version handshake as [`spec_handle_version`] states.
    pub fn handle_version(&mut self, v: VersionInfo) -> (acts: Vec<Action>)
        requires
            old(self).wf(),
        ensures
            final(self).wf(),
            final(self)@ == spec_handle_version(old(self)@, v).0,
            acts@ == spec_handle_version(old(self)@, v).1,
    {
        let mut acts: Vec<Action> = Vec::new();
        let serves_filters = v.services & COMPACT_FILTER_SERVICE_BIT == COMPACT_FILTER_SERVICE_BIT;
        if !serves_filters {
            acts.push(Action::DisconnectPeer);
            proof {
                assert(acts@ =~= seq![Action::DisconnectPeer]);
            }
            return acts;
        }
        if v.height > self.peer_best {
            self.peer_best = v.height;
        }
        proof {
            assert(self@ =~= spec_handle_version(old(self)@, v).0);
        }
        match self.next_request() {
            Some(a) => acts.push(a),
            None => (),
        }
        proof {
            assert(acts@ =~= spec_handle_version(old(self)@, v).1);
        }
        acts
    }

    /// Handles a block announcement as [`spec_handle_new_blocks`] states.
    pub fn handle_new_blocks(&mut self, hashes: &Vec<Hash256>) -> (acts: Vec<Action>)
        requires
            old(self).wf(),
        ensures
            final(self).wf(),
            final(self)@ == spec_handle_new_blocks(old(self)@, hashes@).0,
            acts@ == spec_handle_new_blocks(old(self)@, hashes@).1,
    {
        let mut acts: Vec<Action> = Vec::new();
        let height = self.chain.height();
        if hashes.len() > 0 && height < u32::MAX {
            acts.push(Action::RequestHeaders { from_height: height + 1 });
            proof {
                assert(acts@ =~= spec_handle_new_blocks(old(self)@, hashes@).1);
            }
        } else {
            proof {
                assert(acts@ =~= Seq::<Action>::empty());
            }
        }
        acts
    }

    /// Handles a delivered block as [`spec_handle_block`] states.
    pub fn handle_block(&mut self, hash: Hash256) -> (acts: Vec<Action>)
        requires
            old(self).wf(),
        ensures
            final(self).wf(),
            final(self)@ == spec_handle_block(old(self)@, hash).0,
            acts@ == spec_handle_block(old(self)@, hash).1,
    {
        let acts: Vec<Action> = Vec::new();
        let mut i: usize = 0;
        while i < self.matched.len()
            invariant
                old(self).wf(),
                self == old(self),
                i <= self.matched@.len(),
                forall|j: int| 0 <= j < i ==> (#[trigger] self.matched@[j]).hash != hash,
            decreases self.matched@.len() - i,
        {
            if self.matched[i].hash == hash {
                let mut out: Vec<Action> = Vec::new();
                out.push(Action::EmitMatchedBlock { hash });
                proof {
                    assert(self.matched@[i as int].hash == hash);
                    assert(matched_contains(self.matched@, hash));
                    assert(out@ =~= seq![Action::EmitMatchedBlock { hash }]);
                }
                return out;
            }
            i += 1;
        }
        proof {
            if matched_contains(self.matched@, hash) {
                let j = choose|j: int|
                    0 <= j < self.matched@.len() && self.matched@[j].hash == hash;
                assert(false);
            }
            assert(acts@ =~= Seq::<Action>::empty());
        }
        acts
    }

    /// Registers one more script to watch; filters already scanned are
    /// not re-examined until a rescan is requested.
    pub fn add_script(&mut self, script: Vec<u8>)
        requires
            old(self).wf(),
        ensures
            final(self).wf(),
            final(self)@ == (NodeV { watch: old(self)@.watch.push(script@), ..old(self)@ }),
    {
        let ghost s = script@;
        self.watch.push(script);
        proof {
            assert(self.watch.deep_view() =~~= old(self).watch.deep_view().push(s));
            assert(self@ =~= (NodeV { watch: old(self)@.watch.push(s), ..old(self)@ }));
        }
    }

    /// Rewinds the filter cursor for a rescan as [`spec_rescan`] states.
    pub fn rescan(&mut self, from_height: Option<u32>) -> (acts: Vec<Action>)
        requires
            old(self).wf(),
        ensures
            final(self).wf(),
            final(self)@ == spec_rescan(old(self)@, from_height).0,
            acts@ == spec_rescan(old(self)@, from_height).1,
    {
        let mut acts: Vec<Action> = Vec::new();
        let st = self.stage();
        if !(st == SyncStage::Synced) {
            proof {
                assert(acts@ =~= Seq::<Action>::empty());
            }
            return acts;
        }
        let rel: usize = match from_height {
            Some(h) => {
                if h <= self.chain.checkpoint.height {
                    0
                } else if (h - self.chain.checkpoint.height) as usize > self.cursor {
                    self.cursor
                } else {
                    (h - self.chain.checkpoint.height) as usize
                }
            },
            None => 0,
        };
        if rel == self.chain.headers.len() {
            proof {
                assert(acts@ =~= Seq::<Action>::empty());
            }
            return acts;
        }
        self.cursor = rel;
        self.rescanning = true;
        self.announced = false;
        proof {
            assert(self@ =~= spec_rescan(old(self)@, from_height).0);
        }
        match self.next_request() {
            Some(a) => acts.push(a),
            None => (),
        }
        proof {
            assert(acts@ =~= spec_rescan(old(self)@, from_height).1);
        }
        acts
    }

    /// Handles a header batch as [`spec_handle_headers`] states: the
    /// chain takes the batch if it wins on work, and filter headers, the
    /// download cursor and matches above a fork point are invalidated.
    pub fn handle_headers(&mut self, batch: &Vec<HeaderData>) -> (acts: Vec<Action>)
        requires
            old(self).wf(),
            old(self)@.checkpoint.height + old(self)@.chain.len() + batch@.len() <= u32::MAX,
        ensures
            final(self).wf(),
            final(self)@ == spec_handle_headers(old(self)@, batch@).0,
            acts@ == spec_handle_headers(old(self)@, batch@).1,
    {
        let mut acts: Vec<Action> = Vec::new();
        let ghost cp = self.chain.checkpoint;
        let ghost chain0 = self.chain.headers@;
        let out = self.chain.extend(batch);
        match out {
            ExtendOutcome::Invalid => {
                acts.push(Action::DisconnectPeer);
                proof {
                    assert(self@ =~= old(self)@);
                    assert(acts@ =~= seq![Action::DisconnectPeer]);
                }
                acts
            },
            ExtendOutcome::Stale => {
                proof {
                    assert(self@ =~= old(self)@);
                    assert(acts@ =~= Seq::<Action>::empty());
                }
                acts
            },
            ExtendOutcome::Extended { fork } => {
                proof {
                    crate::chain::lemma_find_fork(cp, chain0, batch@[0].prev);
                }
                let fh_len = self.filter_headers.len();
                let keep = if fork < fh_len {
                    fork
                } else {
                    fh_len
                };
                self.filter_headers.truncate(keep);
                if self.cursor > fork {
                    self.cursor = fork;
                }
                let limit = self.chain.checkpoint.height + (fork as u32);
                self.matched = prune_matches(&self.matched, limit);
                self.announced = false;
                proof {
                    assert(self.filter_headers@ =~= old(self)@.filter_headers.take(
                        min_i(fork as int, old(self)@.filter_headers.len() as int),
                    ));
                    assert(self@ =~= spec_handle_headers(old(self)@, batch@).0);
                }
                match self.next_request() {
                    Some(a) => acts.push(a),
                    None => (),
                }
                proof {
                    assert(acts@ =~= spec_handle_headers(old(self)@, batch@).1);
                }
                acts
            },
        }
    }

    /// Handles a filter-header batch as [`spec_handle_filter_headers`]
    /// states: it must chain from the last verified filter header and
    /// not overrun the validated chain.
    pub fn handle_filter_headers(&mut self, b: &FilterHeaderBatch) -> (acts: Vec<Action>)
        requires
            old(self).wf(),
        ensures
            final(self).wf(),
            final(self)@ == spec_handle_filter_headers(old(self)@, b@).0,
            acts@ == spec_handle_filter_headers(old(self)@, b@).1,
    {
        let mut acts: Vec<Action> = Vec::new();
        let n_chain = self.chain.headers.len();
        let n_fh = self.filter_headers.len();
        let need = n_chain - n_fh;
        if need == 0 {
            proof {
                assert(acts@ =~= Seq::<Action>::empty());
            }
            return acts;
        }
        let expected = if n_fh == 0 {
            self.anchor_filter_header
        } else {
            self.filter_headers[n_fh - 1]
        };
        if !(b.prev_header == expected) {
            acts.push(Action::DisconnectPeer);
            proof {
                assert(acts@ =~= seq![Action::DisconnectPeer]);
            }
            return acts;
        }
        if b.headers.len() == 0 {
            proof {
                assert(acts@ =~= Seq::<Action>::empty());
            }
            return acts;
        }
        if b.headers.len() > need {
            acts.push(Action::DisconnectPeer);
            proof {
                assert(acts@ =~= seq![Action::DisconnectPeer]);
            }
            return acts;
        }
        append_hashes(&mut self.filter_headers, &b.headers);
        proof {
            assert(self@ =~= spec_handle_filter_headers(old(self)@, b@).0);
        }
        match self.next_request() {
            Some(a) => acts.push(a),
            None => (),
        }
        proof {
            assert(acts@ =~= spec_handle_filter_headers(old(self)@, b@).1);
        }
        acts
    }

    /// Handles one filter as [`spec_handle_filter`] states: checked
    /// against the verified commitment at the cursor, matched against the
    /// watch set, cursor advanced, completion announced once.
    pub fn handle_filter(&mut self, f: &FilterPayload) -> (acts: Vec<Action>)
        requires
            old(self).wf(),
        ensures
            final(self).wf(),
            final(self)@ == spec_handle_filter(old(self)@, f@).0,
            acts@ == spec_handle_filter(old(self)@, f@).1,
    {
        let mut acts: Vec<Action> = Vec::new();
        if self.cursor >= self.filter_headers.len() {
            proof {
                assert(acts@ =~= Seq::<Action>::empty());
            }
            return acts;
        }
        let idx = self.cursor;
        let expected_hash = self.chain.headers[idx].hash;
        let expected_commit = self.filter_headers[idx];
        if !(f.block_hash == expected_hash) || !(f.header_commitment == expected_commit) {
            acts.push(Action::DisconnectPeer);
            proof {
                assert(acts@ =~= seq![Action::DisconnectPeer]);
            }
            return acts;
        }
        let hit = filter_matches_watch(&f.scripts, &self.watch);
        let was_announced = self.announced;
        let tip_height = self.chain.height();
        let tip = self.chain.tip_hash();
        self.cursor = idx + 1;
        if hit {
            let height = self.chain.checkpoint.height + (idx as u32) + 1;
            self.matched.push(MatchedBlock { height, hash: f.block_hash });
            acts.push(Action::RequestBlock { hash: f.block_hash });
        }
        let done = self.cursor == self.chain.headers.len();
        if done {
            self.rescanning = false;
            self.announced = true;
        }
        proof {
            assert(self@ =~= spec_handle_filter(old(self)@, f@).0);
        }
        if done {
            if !was_announced {
                acts.push(Action::EmitSynced { height: tip_height, hash: tip });
            }
        } else {
            match self.next_request() {
                Some(a) => acts.push(a),
                None => (),
            }
        }
        proof {
            assert(acts@ =~= spec_handle_filter(old(self)@, f@).1);
        }
        acts
    }

    /// Consumes one translated peer event, mutating the state and
    /// answering with the actions it warrants, as [`spec_step`] states.
    pub fn handle_event(&mut self, ev: crate::types::PeerMessage) -> (acts: Vec<Action>)
        requires
            old(self).wf(),
            ev matches crate::types::PeerMessage::Headers(b) ==> old(self)@.checkpoint.height
                + old(self)@.chain.len() + b@.len() <= u32::MAX,
        ensures
            final(self).wf(),
            final(self)@ == spec_step(old(self)@, ev@).0,
            acts@ == spec_step(old(self)@, ev@).1,
    {
        match ev {
            crate::types::PeerMessage::Version(v) => self.handle_version(v),
            crate::types::PeerMessage::Verack => {
                let acts: Vec<Action> = Vec::new();
                proof {
                    assert(acts@ =~= Seq::<Action>::empty());
                }
                acts
            },
            crate::types::PeerMessage::Addr(_) => {
                let acts: Vec<Action> = Vec::new();
                proof {
                    assert(acts@ =~= Seq::<Action>::empty());
                }
                acts
            },
            crate::types::PeerMessage::NewBlocks(l) => self.handle_new_blocks(&l),
            crate::types::PeerMessage::Block(h) => self.handle_block(h),
            crate::types::PeerMessage::Headers(l) => self.handle_headers(&l),
            crate::types::PeerMessage::Ping(nonce) => {
                let mut acts: Vec<Action> = Vec::new();
                acts.push(Action::SendPong { nonce });
                proof {
                    assert(acts@ =~= seq![Action::SendPong { nonce }]);
                }
                acts
            },
            crate::types::PeerMessage::Pong(_) => {
                let acts: Vec<Action> = Vec::new();
                proof {
                    assert(acts@ =~= Seq::<Action>::empty());
                }
                acts
            },
            crate::types::PeerMessage::Filter(f) => self.handle_filter(&f),
            crate::types::PeerMessage::FilterHeaders(b) => self.handle_filter_headers(&b),
            crate::types::PeerMessage::Reject(r) => {
                let mut acts: Vec<Action> = Vec::new();
                acts.push(Action::NoteReject { reason: r.reason, txid: r.txid });
                proof {
                    assert(acts@ =~= seq![Action::NoteReject { reason: r.reason, txid: r.txid }]);
                }
                acts
            },
            crate::types::PeerMessage::Disconnect => {
                let mut acts: Vec<Action> = Vec::new();
                acts.push(Action::DisconnectPeer);
                proof {
                    assert(acts@ =~= seq![Action::DisconnectPeer]);
                }
                acts
            },
        }
    }
}

} // verus!
