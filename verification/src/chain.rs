//! The validated header chain, anchored at a checkpoint.
//!
//! The chain stores headers from just above the checkpoint to the current
//! tip. A batch of headers extends it only if the batch links internally,
//! connects to the checkpoint or to a stored header, and carries strictly
//! more cumulative work than the chain it would replace; equal work keeps
//! the existing chain, so the first-seen chain wins and a peer cannot make
//! the client thrash between equal tips. A batch that connects below the
//! tip and wins on work causes a reorganization: the chain is rewound to
//! the connection point and the batch becomes the new best suffix.

use vstd::prelude::*;

use crate::types::Hash256;
use crate::types::HeaderData;

verus! {

/// The trusted anchor: no header below this height is ever requested or
/// validated.
#[derive(Clone, Copy, PartialEq, Eq, Structural, Debug)]
pub struct HeaderCheckpoint {
    pub height: u32,
    pub hash: Hash256,
}

/// The hash a header stored at chain position `i` must link to: the
/// checkpoint's hash at position 0, else the previous header's hash.
/// Position `s.len()` gives the hash of the current tip.
pub open spec fn hash_at(cp: HeaderCheckpoint, s: Seq<HeaderData>, i: int) -> Hash256 {
    if i == 0 {
        cp.hash
    } else {
        s[i - 1].hash
    }
}

/// Every stored header links to its predecessor, the first to the
/// checkpoint.
pub open spec fn linked(cp: HeaderCheckpoint, s: Seq<HeaderData>) -> bool {
    forall|i: int| 0 <= i < s.len() ==> (#[trigger] s[i]).prev == hash_at(cp, s, i)
}

/// Every header of a batch beyond the first links to the header before it.
pub open spec fn batch_linked(s: Seq<HeaderData>) -> bool {
    forall|i: int| 1 <= i < s.len() ==> (#[trigger] s[i]).prev == s[i - 1].hash
}

/// Cumulative proof-of-work of a header sequence.
pub open spec fn total_work(s: Seq<HeaderData>) -> int
    decreases s.len(),
{
    if s.len() == 0 {
        0
    } else {
        total_work(s.drop_last()) + s.last().work
    }
}

/// The highest chain position whose hash equals `prev`, or -1 if no
/// position matches. Position 0 stands for the checkpoint itself.
pub open spec fn find_fork(cp: HeaderCheckpoint, s: Seq<HeaderData>, prev: Hash256) -> int
    decreases s.len(),
{
    if s.len() == 0 {
        if cp.hash == prev {
            0
        } else {
            -1
        }
    } else if s.last().hash == prev {
        s.len() as int
    } else {
        find_fork(cp, s.drop_last(), prev)
    }
}

/// The chain a connecting batch proposes: the stored prefix up to the
/// connection point, followed by the batch.
pub open spec fn candidate(cp: HeaderCheckpoint, chain: Seq<HeaderData>, batch: Seq<HeaderData>) -> Seq<
    HeaderData,
> {
    chain.take(find_fork(cp, chain, batch[0].prev)) + batch
}

/// Whether a batch links internally and connects to the checkpoint or to a
/// stored header.
pub open spec fn batch_connects(
    cp: HeaderCheckpoint,
    chain: Seq<HeaderData>,
    batch: Seq<HeaderData>,
) -> bool {
    &&& batch.len() > 0
    &&& batch_linked(batch)
    &&& find_fork(cp, chain, batch[0].prev) >= 0
}

/// Whether a batch replaces the stored chain: it connects and its proposed
/// chain carries strictly more work. Equal work keeps the existing chain.
pub open spec fn batch_accepted(
    cp: HeaderCheckpoint,
    chain: Seq<HeaderData>,
    batch: Seq<HeaderData>,
) -> bool {
    &&& batch_connects(cp, chain, batch)
    &&& total_work(candidate(cp, chain, batch)) > total_work(chain)
}

/// The best chain after one batch is offered: the proposed chain if the
/// batch is accepted, the stored chain unchanged otherwise.
pub open spec fn extend_result(
    cp: HeaderCheckpoint,
    chain: Seq<HeaderData>,
    batch: Seq<HeaderData>,
) -> Seq<HeaderData> {
    if batch_accepted(cp, chain, batch) {
        candidate(cp, chain, batch)
    } else {
        chain
    }
}

/// How one offered batch was handled.
#[derive(Clone, Copy, PartialEq, Eq, Structural, Debug)]
pub enum ExtendOutcome {
    /// The batch became the new best suffix; the stored prefix of length
    /// `fork` was kept. `fork` below the old length means a
    /// reorganization: everything computed above that position is stale.
    Extended { fork: usize },
    /// The batch connects but does not beat the stored chain on work (or
    /// is empty); the chain is unchanged.
    Stale,
    /// The batch does not link internally or connects to no stored hash;
    /// the chain is unchanged and the supplying peer should be dropped.
    Invalid,
}

/// Characterizes [`find_fork`]: its result is in range, names a matching
/// position when non-negative, and no higher position matches.
pub proof fn lemma_find_fork(cp: HeaderCheckpoint, s: Seq<HeaderData>, prev: Hash256)
    ensures
        -1 <= find_fork(cp, s, prev) <= s.len(),
        find_fork(cp, s, prev) >= 0 ==> hash_at(cp, s, find_fork(cp, s, prev)) == prev,
        forall|k: int|
            find_fork(cp, s, prev) < k <= s.len() ==> #[trigger] hash_at(cp, s, k) != prev,
    decreases s.len(),
{
    if s.len() == 0 {
    } else if s.last().hash == prev {
    } else {
        lemma_find_fork(cp, s.drop_last(), prev);
        let f = find_fork(cp, s, prev);
        assert forall|k: int| f < k <= s.len() implies #[trigger] hash_at(cp, s, k) != prev by {
            if k == s.len() {
                assert(hash_at(cp, s, k) == s.last().hash);
            } else {
                assert(hash_at(cp, s, k) == hash_at(cp, s.drop_last(), k));
            }
        }
        if f >= 0 {
            assert(hash_at(cp, s, f) == hash_at(cp, s.drop_last(), f));
        }
    }
}

/// [`find_fork`] is pinned by its characterization: a position that
/// matches, above which no position matches, is the fork position.
pub proof fn lemma_find_fork_unique(cp: HeaderCheckpoint, s: Seq<HeaderData>, prev: Hash256, f: int)
    requires
        0 <= f <= s.len(),
        hash_at(cp, s, f) == prev,
        forall|k: int| f < k <= s.len() ==> #[trigger] hash_at(cp, s, k) != prev,
    ensures
        find_fork(cp, s, prev) == f,
{
    lemma_find_fork(cp, s, prev);
    let g = find_fork(cp, s, prev);
    if g > f {
        assert(hash_at(cp, s, g) != prev);
    }
    if g < f {
        assert(hash_at(cp, s, f) != prev);
    }
}

/// A connecting batch's proposed chain links all the way from the
/// checkpoint.
pub proof fn lemma_candidate_linked(
    cp: HeaderCheckpoint,
    chain: Seq<HeaderData>,
    batch: Seq<HeaderData>,
    f: int,
)
    requires
        linked(cp, chain),
        batch_linked(batch),
        batch.len() > 0,
        0 <= f <= chain.len(),
        hash_at(cp, chain, f) == batch[0].prev,
    ensures
        linked(cp, chain.take(f) + batch),
{
    let c = chain.take(f) + batch;
    assert forall|i: int| 0 <= i < c.len() implies (#[trigger] c[i]).prev == hash_at(cp, c, i) by {
        if i < f {
            assert(c[i] == chain[i]);
            assert(hash_at(cp, c, i) == hash_at(cp, chain, i));
        } else if i == f {
            assert(c[i] == batch[0]);
            if f > 0 {
                assert(c[f - 1] == chain[f - 1]);
            }
            assert(hash_at(cp, c, f) == hash_at(cp, chain, f));
        } else {
            assert(c[i] == batch[i - f]);
            assert(c[i - 1] == batch[i - f - 1]);
        }
    }
}

/// Work adds over concatenation.
pub proof fn lemma_total_work_add(a: Seq<HeaderData>, b: Seq<HeaderData>)
    ensures
        total_work(a + b) == total_work(a) + total_work(b),
    decreases b.len(),
{
    if b.len() == 0 {
        assert(a + b =~= a);
    } else {
        lemma_total_work_add(a, b.drop_last());
        assert((a + b).drop_last() =~= a + b.drop_last());
        assert((a + b).last() == b.last());
    }
}

/// Work is non-negative and at most the length times the largest single
/// header work.
pub proof fn lemma_total_work_bound(s: Seq<HeaderData>)
    ensures
        0 <= total_work(s) <= s.len() * 0xffff_ffff_ffff_ffffu64,
    decreases s.len(),
{
    if s.len() > 0 {
        lemma_total_work_bound(s.drop_last());
        assert(s.len() * 0xffff_ffff_ffff_ffffu64 == (s.len() - 1) * 0xffff_ffff_ffff_ffffu64
            + 0xffff_ffff_ffff_ffffu64) by (nonlinear_arith);
    }
}

/// Offering the same batch twice changes nothing the second time: the
/// chain after two applications is the chain after one. The batch must not
/// contain a header whose own hash equals the batch's connection hash;
/// headers hashed by a collision-resistant function cannot.
pub proof fn lemma_duplicate_extend(
    cp: HeaderCheckpoint,
    chain: Seq<HeaderData>,
    batch: Seq<HeaderData>,
)
    requires
        linked(cp, chain),
        forall|k: int| 0 <= k < batch.len() ==> (#[trigger] batch[k]).hash != batch[0].prev,
    ensures
        extend_result(cp, extend_result(cp, chain, batch), batch) == extend_result(
            cp,
            chain,
            batch,
        ),
{
    if batch_accepted(cp, chain, batch) {
        let prev = batch[0].prev;
        let f = find_fork(cp, chain, prev);
        lemma_find_fork(cp, chain, prev);
        let c1 = chain.take(f) + batch;
        assert(c1 == candidate(cp, chain, batch));
        assert(chain.take(f).len() == f);
        assert forall|k: int| f < k <= c1.len() implies #[trigger] hash_at(cp, c1, k) != prev by {
            assert(c1[k - 1] == batch[k - 1 - f]);
        }
        assert(hash_at(cp, c1, f) == hash_at(cp, chain, f)) by {
            if f > 0 {
                assert(c1[f - 1] == chain[f - 1]);
            }
        }
        lemma_find_fork_unique(cp, c1, prev, f);
        assert(c1.take(f) =~= chain.take(f));
        assert(candidate(cp, c1, batch) =~= c1);
        assert(!batch_accepted(cp, c1, batch));
    }
}

/// The stored best chain never loses work: whatever batch is offered,
/// the cumulative work afterwards is at least what it was.
pub proof fn lemma_extend_work_monotonic(
    cp: HeaderCheckpoint,
    chain: Seq<HeaderData>,
    batch: Seq<HeaderData>,
)
    ensures
        total_work(extend_result(cp, chain, batch)) >= total_work(chain),
{
}

/// The header chain from the checkpoint to the current best tip.
pub struct ChainState {
    pub checkpoint: HeaderCheckpoint,
    pub headers: Vec<HeaderData>,
}

impl ChainState {
    /// Every stored header links to its predecessor, and the tip height
    /// fits the height type.
    pub open spec fn wf(&self) -> bool {
        &&& linked(self.checkpoint, self.headers@)
        &&& self.checkpoint.height + self.headers@.len() <= u32::MAX
    }

    /// Height of the current tip.
    pub open spec fn spec_height(&self) -> int {
        self.checkpoint.height + self.headers@.len()
    }

    /// Hash of the current tip; the checkpoint's hash while no header is
    /// stored.
    pub open spec fn spec_tip_hash(&self) -> Hash256 {
        hash_at(self.checkpoint, self.headers@, self.headers@.len() as int)
    }

    /// A fresh chain holding nothing above its checkpoint.
    pub fn new(checkpoint: HeaderCheckpoint) -> (r: ChainState)
        ensures
            r.wf(),
            r.checkpoint == checkpoint,
            r.headers@ == Seq::<HeaderData>::empty(),
    {
        let r = ChainState { checkpoint, headers: Vec::new() };
        proof {
            assert(r.headers@ =~= Seq::<HeaderData>::empty());
        }
        r
    }

    /// Height of the current tip.
    pub fn height(&self) -> (h: u32)
        requires
            self.wf(),
        ensures
            h == self.spec_height(),
    {
        self.checkpoint.height + self.headers.len() as u32
    }

    /// Hash of the current tip.
    pub fn tip_hash(&self) -> (h: Hash256)
        requires
            self.wf(),
        ensures
            h == self.spec_tip_hash(),
    {
        let n = self.headers.len();
        if n == 0 {
            self.checkpoint.hash
        } else {
            self.headers[n - 1].hash
        }
    }

    /// Offers one header batch to the chain. The chain afterwards is
    /// exactly [`extend_result`]: the batch's proposed chain when the
    /// batch links, connects and strictly wins on cumulative work, the
    /// unchanged chain otherwise. The outcome names which of the three
    /// cases held; an `Extended` outcome with `fork` below the old length
    /// is a reorganization, rewound to position `fork`.
    #[verifier::rlimit(60)]
    pub fn extend(&mut self, batch: &Vec<HeaderData>) -> (out: ExtendOutcome)
        requires
            old(self).wf(),
            old(self).checkpoint.height + old(self).headers@.len() + batch@.len() <= u32::MAX,
        ensures
            final(self).wf(),
            final(self).checkpoint == old(self).checkpoint,
            final(self).headers@ == extend_result(old(self).checkpoint, old(self).headers@, batch@),
            out is Extended <==> batch_accepted(old(self).checkpoint, old(self).headers@, batch@),
            out is Invalid <==> (batch@.len() > 0 && !batch_connects(
                old(self).checkpoint,
                old(self).headers@,
                batch@,
            )),
            out matches ExtendOutcome::Extended { fork } ==> fork == find_fork(
                old(self).checkpoint,
                old(self).headers@,
                batch@[0].prev,
            ) && final(self).headers@ == old(self).headers@.take(fork as int) + batch@,
            out is Extended ==> total_work(final(self).headers@) > total_work(old(self).headers@),
            !(out is Extended) ==> final(self).headers@ == old(self).headers@,
    {
        let ghost cp = self.checkpoint;
        let ghost chain0 = self.headers@;
        if batch.len() == 0 {
            return ExtendOutcome::Stale;
        }
        if !check_links(batch) {
            return ExtendOutcome::Invalid;
        }
        let target = batch[0].prev;
        let n = self.headers.len();
        let fork: usize;
        match locate_fork(&self.headers, self.checkpoint, target) {
            Some(f) => {
                fork = f;
            },
            None => {
                assert(!batch_connects(cp, chain0, batch@));
                return ExtendOutcome::Invalid;
            },
        }
        // Work comparison: the proposed chain keeps the stored prefix up
        // to the connection point and appends the batch.
        let w_prefix = sum_work(&self.headers, fork);
        let w_batch = sum_work(batch, batch.len());
        let w_current = sum_work(&self.headers, n);
        proof {
            assert(batch@.take(batch@.len() as int) =~= batch@);
            assert(chain0.take(n as int) =~= chain0);
            lemma_total_work_add(chain0.take(fork as int), batch@);
            lemma_total_work_bound(chain0.take(fork as int));
            lemma_total_work_bound(batch@);
        }
        let ghost cand = chain0.take(fork as int) + batch@;
        proof {
            assert(cand == candidate(cp, chain0, batch@));
            assert(batch_connects(cp, chain0, batch@));
        }
        if w_prefix + w_batch > w_current {
            proof {
                assert(total_work(cand) > total_work(chain0));
                assert(batch_accepted(cp, chain0, batch@));
            }
            self.splice(fork, batch);
            proof {
                lemma_find_fork(cp, chain0, target);
                lemma_candidate_linked(cp, chain0, batch@, fork as int);
                assert(extend_result(cp, chain0, batch@) == cand);
            }
            ExtendOutcome::Extended { fork }
        } else {
            proof {
                assert(total_work(cand) <= total_work(chain0));
                assert(!batch_accepted(cp, chain0, batch@));
                assert(extend_result(cp, chain0, batch@) == chain0);
            }
            ExtendOutcome::Stale
        }
    }

    /// Rewinds the chain to position `fork` and appends the batch.
    fn splice(&mut self, fork: usize, batch: &Vec<HeaderData>)
        requires
            fork <= old(self).headers@.len(),
        ensures
            final(self).checkpoint == old(self).checkpoint,
            final(self).headers@ == old(self).headers@.take(fork as int) + batch@,
    {
        let ghost chain0 = self.headers@;
        self.headers.truncate(fork);
        proof {
            assert(self.headers@ =~= chain0.take(fork as int));
            assert(self.headers@ == chain0.take(fork as int) + batch@.take(0)) by {
                assert(chain0.take(fork as int) + batch@.take(0) =~= chain0.take(fork as int));
            }
        }
        let mut k: usize = 0;
        while k < batch.len()
            invariant
                k <= batch@.len(),
                fork <= chain0.len(),
                self.checkpoint == old(self).checkpoint,
                self.headers@ == chain0.take(fork as int) + batch@.take(k as int),
            decreases batch@.len() - k,
        {
            self.headers.push(batch[k]);
            proof {
                assert(batch@.take(k + 1) =~= batch@.take(k as int).push(batch@[k as int]));
                assert(chain0.take(fork as int) + batch@.take(k + 1) =~= (chain0.take(fork as int)
                    + batch@.take(k as int)).push(batch@[k as int]));
            }
            k += 1;
        }
        proof {
            assert(batch@.take(batch@.len() as int) =~= batch@);
        }
    }
}

/// Checks a batch's internal linkage.
fn check_links(batch: &Vec<HeaderData>) -> (r: bool)
    ensures
        r == batch_linked(batch@),
{
    let mut i: usize = 1;
    while i < batch.len()
        invariant
            1 <= i,
            i <= batch@.len() || batch@.len() == 0,
            forall|j: int| 1 <= j < i ==> (#[trigger] batch@[j]).prev == batch@[j - 1].hash,
        decreases batch@.len() - i,
    {
        if !(batch[i].prev == batch[i - 1].hash) {
            assert(!batch_linked(batch@));
            return false;
        }
        i += 1;
    }
    true
}

/// Finds the connection point for a batch whose first header names
/// `target` as its previous hash: the highest stored position with that
/// hash, searched from the tip downwards, position 0 standing for the
/// checkpoint.
fn locate_fork(headers: &Vec<HeaderData>, cp: HeaderCheckpoint, target: Hash256) -> (r: Option<
    usize,
>)
    ensures
        match r {
            Some(f) => f == find_fork(cp, headers@, target) && 0 <= f <= headers@.len(),
            None => find_fork(cp, headers@, target) == -1,
        },
{
    let n = headers.len();
    let mut j: usize = n;
    while j > 0
        invariant
            j <= n,
            n == headers@.len(),
            forall|k: int| j < k <= n ==> #[trigger] hash_at(cp, headers@, k) != target,
        decreases j,
    {
        if headers[j - 1].hash == target {
            proof {
                assert(hash_at(cp, headers@, j as int) == headers@[j - 1].hash);
                lemma_find_fork_unique(cp, headers@, target, j as int);
            }
            return Some(j);
        }
        assert(hash_at(cp, headers@, j as int) == headers@[j - 1].hash);
        j -= 1;
    }
    if cp.hash == target {
        proof {
            lemma_find_fork_unique(cp, headers@, target, 0);
        }
        Some(0)
    } else {
        proof {
            lemma_find_fork(cp, headers@, target);
            let g = find_fork(cp, headers@, target);
            if g == 0 {
                assert(hash_at(cp, headers@, 0) == cp.hash);
            }
            if g > 0 {
                assert(hash_at(cp, headers@, g) != target);
            }
        }
        None
    }
}

/// Sums the work of the first `upto` stored headers.
fn sum_work(list: &Vec<HeaderData>, upto: usize) -> (w: u128)
    requires
        upto <= list@.len(),
        upto <= u32::MAX,
    ensures
        w == total_work(list@.take(upto as int)),
{
    let mut acc: u128 = 0;
    let mut i: usize = 0;
    while i < upto
        invariant
            i <= upto,
            upto <= list@.len(),
            upto <= u32::MAX,
            acc == total_work(list@.take(i as int)),
            acc <= (i as int) * 0xffff_ffff_ffff_ffffu64,
        decreases upto - i,
    {
        proof {
            assert(list@.take(i + 1).drop_last() =~= list@.take(i as int));
            assert(list@.take(i + 1).last() == list@[i as int]);
            assert((i + 1) * 0xffff_ffff_ffff_ffffu64 == (i as int) * 0xffff_ffff_ffff_ffffu64
                + 0xffff_ffff_ffff_ffffu64) by (nonlinear_arith);
            assert((i + 1) * 0xffff_ffff_ffff_ffffu64 <= 0x1_0000_0000i64
                * 0xffff_ffff_ffff_ffffu64) by (nonlinear_arith)
                requires
                    i + 1 <= 0x1_0000_0000i64,
            ;
        }
        acc = acc + (list[i].work as u128);
        i += 1;
    }
    acc
}

} // verus!
