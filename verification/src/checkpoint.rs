//! State checkpoints: a digest over the checkpoint's contents, a store that
//! accepts only checkpoints whose digest matches, and the pruner that drops
//! old checkpoints.
use vstd::prelude::*;
use crate::consensus::enc_digests;
use crate::errors::StateError;
use crate::hashing::{append_bytes, append_u64_le, digest_eq, sha256, spec_sha256};
use crate::protocol::TransactionDigest;
use crate::sequenced::{Sequenced, SequencedStore};
use vstd::bytes::spec_u64_to_le_bytes;

verus! {

/// State version
#[derive(Debug, Clone, Copy, PartialEq, Eq, Structural)]
pub struct StateVersion(pub u64);

/// Checkpoint data
#[derive(Debug)]
pub struct Checkpoint {
    /// Sequence number
    pub sequence: u64,
    /// Content digest
    pub digest: [u8; 32],
    /// Previous checkpoint digest
    pub previous_digest: Option<[u8; 32]>,
    /// Timestamp
    pub timestamp: u64,
    /// Transactions included
    pub transactions: Vec<TransactionDigest>,
    /// State root
    pub state_root: [u8; 32],
    /// Epoch
    pub epoch: u64,
}

/// The bytes of an optional digest: none when it is absent.
pub open spec fn opt_digest_bytes(d: Option<[u8; 32]>) -> Seq<u8> {
    match d {
        Some(b) => b@,
        None => Seq::empty(),
    }
}

/// What the digest of a checkpoint covers: the little-endian sequence
/// number, the previous digest when there is one, the little-endian
/// timestamp, the transaction digests, the state root and the little-endian
/// epoch, one after the other.
pub open spec fn checkpoint_preimage(c: Checkpoint) -> Seq<u8> {
    spec_u64_to_le_bytes(c.sequence) + opt_digest_bytes(c.previous_digest) + spec_u64_to_le_bytes(
        c.timestamp,
    ) + enc_digests(c.transactions@) + c.state_root@ + spec_u64_to_le_bytes(c.epoch)
}

/// The digest a checkpoint should carry.
pub open spec fn checkpoint_digest(c: Checkpoint) -> Seq<u8> {
    spec_sha256(checkpoint_preimage(c))
}

/// Appends the bytes of each digest in turn.
pub fn append_digests(out: &mut Vec<u8>, ds: &Vec<TransactionDigest>)
    ensures
        final(out)@ == old(out)@ + enc_digests(ds@),
{
    let n = ds.len();
    let mut i: usize = 0;
    while i < n
        invariant
            n == ds@.len(),
            i <= n,
            out@ == old(out)@ + enc_digests(ds@.take(i as int)),
        decreases n - i,
    {
        append_bytes(out, ds[i].0.as_slice());
        assert(ds@.take(i + 1).drop_last() == ds@.take(i as int));
        i = i + 1;
    }
    assert(ds@.take(n as int) == ds@);
}

impl Checkpoint {
    /// Create new checkpoint, carrying the digest of its contents.
    pub fn new(
        sequence: u64,
        previous_digest: Option<[u8; 32]>,
        timestamp: u64,
        transactions: Vec<TransactionDigest>,
        state_root: [u8; 32],
        epoch: u64,
    ) -> (c: Checkpoint)
        ensures
            c.sequence == sequence,
            c.previous_digest == previous_digest,
            c.timestamp == timestamp,
            c.transactions == transactions,
            c.state_root == state_root,
            c.epoch == epoch,
            c.digest@ == checkpoint_digest(c),
    {
        let mut checkpoint = Checkpoint {
            sequence,
            digest: [0u8; 32],
            previous_digest,
            timestamp,
            transactions,
            state_root,
            epoch,
        };
        checkpoint.digest = checkpoint.compute_digest();
        checkpoint
    }

    /// Compute checkpoint digest
    fn compute_digest(&self) -> (d: [u8; 32])
        ensures
            d@ == checkpoint_digest(*self),
    {
        let mut bytes: Vec<u8> = Vec::new();
        append_u64_le(&mut bytes, self.sequence);
        if let Some(prev) = &self.previous_digest {
            append_bytes(&mut bytes, prev.as_slice());
        }
        append_u64_le(&mut bytes, self.timestamp);
        append_digests(&mut bytes, &self.transactions);
        append_bytes(&mut bytes, self.state_root.as_slice());
        append_u64_le(&mut bytes, self.epoch);
        assert(bytes@ =~= checkpoint_preimage(*self));
        sha256(bytes.as_slice())
    }

    /// Whether the checkpoint carries the digest of its contents.
    pub fn verify(&self) -> (r: bool)
        ensures
            r == (self.digest@ == checkpoint_digest(*self)),
    {
        let d = self.compute_digest();
        digest_eq(&self.digest, &d)
    }
}

impl Sequenced for Checkpoint {
    open spec fn spec_sequence(&self) -> u64 {
        self.sequence
    }

    fn sequence_number(&self) -> (r: u64) {
        self.sequence
    }
}

/// Checkpoint store
#[derive(Debug)]
pub struct CheckpointStore {
    /// Checkpoints by sequence number
    checkpoints: SequencedStore<Checkpoint>,
}

impl View for CheckpointStore {
    type V = Map<u64, Checkpoint>;

    closed spec fn view(&self) -> Map<u64, Checkpoint> {
        self.checkpoints@
    }
}

impl CheckpointStore {
    /// Create new checkpoint store
    pub fn new() -> (s: CheckpointStore)
        ensures
            s@ == Map::<u64, Checkpoint>::empty(),
    {
        CheckpointStore { checkpoints: SequencedStore::new() }
    }

    /// Get checkpoint by sequence
    pub fn get_checkpoint(&self, sequence: u64) -> (r: Option<&Checkpoint>)
        ensures
            match r {
                Some(c) => self@.contains_key(sequence) && self@[sequence] == *c,
                None => !self@.contains_key(sequence),
            },
    {
        self.checkpoints.get(sequence)
    }

    /// Put checkpoint: refused, with the store unchanged, when its digest is
    /// not that of its contents; otherwise stored under its sequence number.
    pub fn put_checkpoint(&mut self, checkpoint: Checkpoint) -> (r: Result<(), StateError>)
        ensures
            checkpoint.digest@ == checkpoint_digest(checkpoint) ==> r is Ok && final(self)@ == old(
                self,
            )@.insert(checkpoint.sequence, checkpoint),
            checkpoint.digest@ != checkpoint_digest(checkpoint) ==> (r matches Err(e) && e is InvalidState)
                && final(self)@ == old(self)@,
    {
        if !checkpoint.verify() {
            return Err(StateError::InvalidState("Invalid checkpoint digest".to_string()));
        }
        self.checkpoints.put(checkpoint);
        Ok(())
    }

    /// Get latest checkpoint: the one with the highest sequence number.
    pub fn get_latest_checkpoint(&self) -> (r: Option<&Checkpoint>)
        ensures
            match r {
                Some(c) => self@.contains_key(c.sequence) && self@[c.sequence] == *c && forall|k: u64|
                    #[trigger] self@.contains_key(k) ==> k <= c.sequence,
                None => self@.dom() =~= Set::<u64>::empty(),
            },
    {
        self.checkpoints.latest()
    }

    /// Delete checkpoint
    pub fn delete_checkpoint(&mut self, sequence: u64)
        ensures
            final(self)@ == old(self)@.remove(sequence),
    {
        self.checkpoints.remove(sequence)
    }
}

/// Prune configuration
#[derive(Debug, Clone, Copy)]
pub struct PruneConfig {
    /// Minimum checkpoints to keep
    pub min_checkpoints: u64,
    /// Maximum checkpoints to keep
    pub max_checkpoints: u64,
    /// Prune interval, in milliseconds
    pub prune_interval_ms: u64,
}

impl Default for PruneConfig {
    fn default() -> (c: PruneConfig)
        ensures
            c.min_checkpoints == 1000,
            c.max_checkpoints == 10000,
            c.prune_interval_ms == 3_600_000,
    {
        PruneConfig { min_checkpoints: 1000, max_checkpoints: 10000, prune_interval_ms: 3_600_000 }
    }
}

/// Where pruning cuts, given the latest sequence number: the checkpoints
/// below `latest - max_checkpoints`, when there are more than the maximum and
/// the cut is not below the minimum; no cut otherwise.
pub open spec fn prune_cut(config: PruneConfig, latest: Option<u64>) -> Option<u64> {
    match latest {
        None => None,
        Some(l) => if l > config.max_checkpoints && l - config.max_checkpoints >= config.min_checkpoints {
            Some((l - config.max_checkpoints) as u64)
        } else {
            None
        },
    }
}

/// The highest key of a map, if it has one.
pub open spec fn latest_of(m: Map<u64, Checkpoint>) -> Option<u64> {
    if exists|k: u64| m.contains_key(k) && forall|j: u64| #[trigger] m.contains_key(j) ==> j <= k {
        Some(choose|k: u64| m.contains_key(k) && forall|j: u64| #[trigger] m.contains_key(j) ==> j <= k)
    } else {
        None
    }
}

/// State pruner
#[derive(Debug)]
pub struct StatePruner {
    /// Configuration
    pub config: PruneConfig,
}

impl StatePruner {
    /// Create new pruner
    pub fn new(config: PruneConfig) -> (p: StatePruner)
        ensures
            p.config == config,
    {
        StatePruner { config }
    }

    /// The pruning target for the latest checkpoint's sequence number.
    pub fn prune_target(&self, latest: Option<u64>) -> (r: Option<u64>)
        ensures
            r == prune_cut(self.config, latest),
    {
        let latest = match latest {
            Some(l) => l,
            None => return None,
        };
        let target = if latest > self.config.max_checkpoints {
            latest - self.config.max_checkpoints
        } else {
            return None;
        };
        if target < self.config.min_checkpoints {
            return None;
        }
        Some(target)
    }

    /// Prune old checkpoints: every checkpoint numbered below the target
    /// goes; the target is returned, `None` when there was nothing to cut.
    pub fn prune(&self, store: &mut CheckpointStore) -> (r: Option<u64>)
        ensures
            r == prune_cut(self.config, latest_of(old(store)@)),
            match r {
                None => final(store)@ == old(store)@,
                Some(t) => final(store)@ == old(store)@.restrict(
                    old(store)@.dom().filter(|k: u64| k >= t),
                ),
            },
    {
        let latest = match store.get_latest_checkpoint() {
            Some(c) => {
                proof {
                    let m = store@;
                    let k = choose|k: u64| m.contains_key(k) && forall|j: u64| #[trigger] m.contains_key(j) ==> j <= k;
                    assert(m.contains_key(c.sequence));
                    assert(k <= c.sequence && c.sequence <= k);
                }
                Some(c.sequence)
            },
            None => {
                proof {
                    let m = store@;
                    if exists|k: u64| m.contains_key(k) && forall|j: u64| #[trigger] m.contains_key(j) ==> j <= k {
                        let k = choose|k: u64| m.contains_key(k) && forall|j: u64| #[trigger] m.contains_key(j) ==> j <= k;
                        assert(m.dom().contains(k));
                    }
                }
                None
            },
        };
        let target = match self.prune_target(latest) {
            Some(t) => t,
            None => return None,
        };
        let ghost before = store@;
        let mut sequence: u64 = 0;
        while sequence < target
            invariant
                sequence <= target,
                store@ == before.restrict(before.dom().filter(|k: u64| k >= sequence)),
            decreases target - sequence,
        {
            store.delete_checkpoint(sequence);
            proof {
                let next = (sequence + 1) as u64;
                assert(store@ =~= before.restrict(before.dom().filter(|k: u64| k >= next)));
            }
            sequence = sequence + 1;
        }
        Some(target)
    }
}

/// Law: a checkpoint that carries the digest of its contents, once put, is
/// what getting its sequence number returns, and every other sequence number
/// reads as before.
pub proof fn law_put_then_get(before: Map<u64, Checkpoint>, c: Checkpoint, k: u64)
    requires
        c.digest@ == checkpoint_digest(c),
    ensures
        before.insert(c.sequence, c).contains_key(c.sequence),
        before.insert(c.sequence, c)[c.sequence] == c,
        k != c.sequence ==> before.insert(c.sequence, c).contains_key(k) == before.contains_key(k),
        k != c.sequence && before.contains_key(k) ==> before.insert(c.sequence, c)[k] == before[k],
{
}

/// Law: pruning keeps the latest checkpoint: the cut never passes the
/// highest sequence number.
pub proof fn law_prune_keeps_latest(config: PruneConfig, latest: u64)
    ensures
        prune_cut(config, Some(latest)) matches Some(t) ==> t <= latest,
{
}

} // verus!
