use kyoto::chain::ChainState;
use kyoto::chain::ExtendOutcome;
use kyoto::chain::HeaderCheckpoint;
use kyoto::types::Hash256;
use kyoto::types::HeaderData;

fn hash(n: u64) -> Hash256 {
    Hash256 { hi: n as u128, lo: 0 }
}

fn checkpoint() -> HeaderCheckpoint {
    HeaderCheckpoint { height: 100, hash: hash(1000) }
}

fn header(prev: Hash256, own: u64, work: u64) -> HeaderData {
    HeaderData { hash: hash(own), prev, work }
}

#[test]
fn fresh_chain_sits_at_the_checkpoint() {
    let c = ChainState::new(checkpoint());
    assert_eq!(c.height(), 100);
    assert_eq!(c.tip_hash(), hash(1000));
}

#[test]
fn valid_batch_extends_the_chain() {
    let mut c = ChainState::new(checkpoint());
    let batch = vec![
        header(hash(1000), 1, 5),
        header(hash(1), 2, 5),
        header(hash(2), 3, 5),
    ];
    let out = c.extend(&batch);
    assert_eq!(out, ExtendOutcome::Extended { fork: 0 });
    assert_eq!(c.height(), 103);
    assert_eq!(c.tip_hash(), hash(3));
}

#[test]
fn broken_linkage_is_invalid_and_changes_nothing() {
    let mut c = ChainState::new(checkpoint());
    let batch = vec![header(hash(1000), 1, 5), header(hash(42), 2, 5)];
    let out = c.extend(&batch);
    assert_eq!(out, ExtendOutcome::Invalid);
    assert_eq!(c.height(), 100);
}

#[test]
fn unknown_parent_is_invalid() {
    let mut c = ChainState::new(checkpoint());
    let batch = vec![header(hash(9999), 1, 5)];
    assert_eq!(c.extend(&batch), ExtendOutcome::Invalid);
    assert_eq!(c.height(), 100);
}

#[test]
fn duplicate_extension_is_a_no_op() {
    let mut c = ChainState::new(checkpoint());
    let batch = vec![header(hash(1000), 1, 5), header(hash(1), 2, 5)];
    assert_eq!(c.extend(&batch), ExtendOutcome::Extended { fork: 0 });
    let tip = c.tip_hash();
    let height = c.height();
    assert_eq!(c.extend(&batch), ExtendOutcome::Stale);
    assert_eq!(c.tip_hash(), tip);
    assert_eq!(c.height(), height);
}

#[test]
fn equal_work_keeps_the_first_seen_chain() {
    let mut c = ChainState::new(checkpoint());
    let first = vec![header(hash(1000), 1, 10)];
    let rival = vec![header(hash(1000), 2, 10)];
    assert_eq!(c.extend(&first), ExtendOutcome::Extended { fork: 0 });
    assert_eq!(c.extend(&rival), ExtendOutcome::Stale);
    assert_eq!(c.tip_hash(), hash(1));
}

#[test]
fn heavier_alternative_chain_reorgs() {
    let mut c = ChainState::new(checkpoint());
    // Chain A: two headers, total work 10.
    let chain_a = vec![header(hash(1000), 1, 5), header(hash(1), 2, 5)];
    assert_eq!(c.extend(&chain_a), ExtendOutcome::Extended { fork: 0 });
    // Chain B: three headers from the same ancestor, total work 15.
    let chain_b = vec![
        header(hash(1000), 11, 5),
        header(hash(11), 12, 5),
        header(hash(12), 13, 5),
    ];
    assert_eq!(c.extend(&chain_b), ExtendOutcome::Extended { fork: 0 });
    assert_eq!(c.height(), 103);
    assert_eq!(c.tip_hash(), hash(13));
}

#[test]
fn lighter_alternative_chain_is_kept_out() {
    let mut c = ChainState::new(checkpoint());
    let chain_a = vec![header(hash(1000), 1, 10), header(hash(1), 2, 10)];
    assert_eq!(c.extend(&chain_a), ExtendOutcome::Extended { fork: 0 });
    let chain_b = vec![header(hash(1000), 11, 15)];
    assert_eq!(c.extend(&chain_b), ExtendOutcome::Stale);
    assert_eq!(c.tip_hash(), hash(2));
}

#[test]
fn fork_point_is_found_below_the_tip() {
    let mut c = ChainState::new(checkpoint());
    let chain_a = vec![header(hash(1000), 1, 5), header(hash(1), 2, 5)];
    assert_eq!(c.extend(&chain_a), ExtendOutcome::Extended { fork: 0 });
    // A heavier branch hanging off the first header: fork position 1.
    let branch = vec![header(hash(1), 21, 20)];
    assert_eq!(c.extend(&branch), ExtendOutcome::Extended { fork: 1 });
    assert_eq!(c.height(), 102);
    assert_eq!(c.tip_hash(), hash(21));
}

#[test]
fn empty_batch_is_stale() {
    let mut c = ChainState::new(checkpoint());
    assert_eq!(c.extend(&Vec::new()), ExtendOutcome::Stale);
}
