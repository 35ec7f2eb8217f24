//! The quorum driver's bookkeeping: transactions wait, keyed by digest, for
//! authority signatures until a quorum of them turns the transaction into a
//! certificate. Broadcasting, timers and replies are the caller's.
use vstd::prelude::*;
use crate::certificate::TransactionCertificate;
use crate::crypto::{PublicKey, Signature};
use crate::hashing::spec_sha256;
use crate::protocol::{SignedTransaction, TransactionDigest, enc_signed, lemma_digest_view_eq};

verus! {

/// Quorum driver error types
#[derive(Debug)]
pub enum DriverError {
    ConsensusError(String),
    CertificateError(String),
    TimeoutError(String),
    NetworkError(String),
}

/// Driver status
#[derive(Debug, Clone, Copy, PartialEq, Eq, Structural)]
pub enum DriverStatus {
    /// Driver is active
    Active,
    /// Driver is paused
    Paused,
    /// Driver is stopped
    Stopped,
}

/// Driver configuration
#[derive(Debug, Clone, Copy)]
pub struct DriverConfig {
    /// Quorum size
    pub quorum_size: usize,
    /// Timeout, in milliseconds
    pub timeout_ms: u64,
    /// Maximum pending transactions
    pub max_pending_transactions: usize,
    /// Maximum concurrent tasks
    pub max_concurrent_tasks: usize,
}

impl Default for DriverConfig {
    fn default() -> (c: DriverConfig)
        ensures
            c.quorum_size == 2,
            c.timeout_ms == 30_000,
            c.max_pending_transactions == 10000,
            c.max_concurrent_tasks == 100,
    {
        DriverConfig { quorum_size: 2, timeout_ms: 30_000, max_pending_transactions: 10000, max_concurrent_tasks: 100 }
    }
}

/// Pending transaction: the transaction and the signatures collected so far.
#[derive(Debug)]
pub struct PendingTransaction {
    /// Transaction
    pub transaction: SignedTransaction,
    /// Collected signatures
    pub signatures: Vec<(PublicKey, Signature)>,
}

/// Index of the pending entry under digest `d`.
pub open spec fn pending_index(entries: Seq<(TransactionDigest, PendingTransaction)>, d: Seq<u8>) -> Option<int>
    decreases entries.len(),
{
    if entries.len() == 0 {
        None
    } else if entries[0].0@ == d {
        Some(0)
    } else {
        match pending_index(entries.drop_first(), d) {
            Some(i) => Some(i + 1),
            None => None,
        }
    }
}

pub proof fn lemma_pending_index(entries: Seq<(TransactionDigest, PendingTransaction)>, d: Seq<u8>)
    ensures
        match pending_index(entries, d) {
            Some(i) => 0 <= i < entries.len() && entries[i].0@ == d && forall|j: int|
                0 <= j < i ==> entries[j].0@ != d,
            None => forall|j: int| 0 <= j < entries.len() ==> entries[j].0@ != d,
        },
    decreases entries.len(),
{
    if entries.len() > 0 {
        lemma_pending_index(entries.drop_first(), d);
        if entries[0].0@ != d {
            assert forall|j: int| 1 <= j < entries.len() implies entries[j] == entries.drop_first()[j - 1] by {}
        }
    }
}

/// The pending transactions by digest: what the driver waits on.
pub open spec fn pending_map(entries: Seq<(TransactionDigest, PendingTransaction)>) -> Map<
    Seq<u8>,
    PendingTransaction,
> {
    Map::new(
        |d: Seq<u8>| pending_index(entries, d) is Some,
        |d: Seq<u8>| entries[pending_index(entries, d)->0].1,
    )
}

/// No two entries share a digest.
pub open spec fn digests_distinct(entries: Seq<(TransactionDigest, PendingTransaction)>) -> bool {
    forall|i: int, j: int| 0 <= i < j < entries.len() ==> entries[i].0@ != entries[j].0@
}

/// With distinct digests, the entry at `i` is the one found under its digest.
pub proof fn lemma_pending_at(entries: Seq<(TransactionDigest, PendingTransaction)>, i: int)
    requires
        digests_distinct(entries),
        0 <= i < entries.len(),
    ensures
        pending_index(entries, entries[i].0@) == Some(i),
{
    lemma_pending_index(entries, entries[i].0@);
    match pending_index(entries, entries[i].0@) {
        Some(k) => {
            if k < i {
                assert(entries[k].0@ != entries[i].0@);
            }
        },
        None => {},
    }
}

/// Quorum driver
#[derive(Debug)]
pub struct QuorumDriver {
    /// Configuration
    config: DriverConfig,
    /// Driver status
    status: DriverStatus,
    /// Pending transactions, by digest
    pending_transactions: Vec<(TransactionDigest, PendingTransaction)>,
}

impl QuorumDriver {
    /// The configuration.
    pub closed spec fn spec_config(&self) -> DriverConfig {
        self.config
    }

    /// The status.
    pub closed spec fn spec_status(&self) -> DriverStatus {
        self.status
    }

    /// The pending transactions by digest.
    pub closed spec fn spec_pending(&self) -> Map<Seq<u8>, PendingTransaction> {
        pending_map(self.pending_transactions@)
    }

    /// Well-formed: no digest is pending twice.
    pub closed spec fn wf(&self) -> bool {
        digests_distinct(self.pending_transactions@)
    }

    /// Create new quorum driver: active, nothing pending.
    pub fn new(config: DriverConfig) -> (d: QuorumDriver)
        ensures
            d.wf(),
            d.spec_config() == config,
            d.spec_status() == DriverStatus::Active,
            d.spec_pending() == Map::<Seq<u8>, PendingTransaction>::empty(),
    {
        let d = QuorumDriver { config, status: DriverStatus::Active, pending_transactions: Vec::new() };
        assert(d.spec_pending() =~= Map::<Seq<u8>, PendingTransaction>::empty());
        d
    }

    /// Position of the entry under `digest`.
    fn position(&self, digest: &TransactionDigest) -> (r: Option<usize>)
        ensures
            match r {
                Some(i) => pending_index(self.pending_transactions@, digest@) == Some(i as int),
                None => pending_index(self.pending_transactions@, digest@) is None,
            },
    {
        let n = self.pending_transactions.len();
        let mut i: usize = 0;
        assert(self.pending_transactions@.skip(0) == self.pending_transactions@);
        while i < n
            invariant
                n == self.pending_transactions@.len(),
                i <= n,
                pending_index(self.pending_transactions@, digest@) == (match pending_index(
                    self.pending_transactions@.skip(i as int),
                    digest@,
                ) {
                    Some(j) => Some(j + i),
                    None => None::<int>,
                }),
            decreases n - i,
        {
            assert(self.pending_transactions@.skip(i as int).drop_first() == self.pending_transactions@.skip(
                i + 1,
            ));
            if self.pending_transactions[i].0 == *digest {
                return Some(i);
            }
            i = i + 1;
        }
        None
    }

    /// Process transaction: refused unless the driver is active; otherwise
    /// the transaction waits, with no signatures, under its digest, which is
    /// returned. A transaction already waiting starts over.
    pub fn process_transaction(&mut self, transaction: SignedTransaction) -> (r: Result<
        TransactionDigest,
        DriverError,
    >)
        requires
            old(self).wf(),
        ensures
            final(self).wf(),
            final(self).spec_config() == old(self).spec_config(),
            final(self).spec_status() == old(self).spec_status(),
            old(self).spec_status() != DriverStatus::Active ==> (r matches Err(e) && e is ConsensusError)
                && final(self).spec_pending() == old(self).spec_pending(),
            old(self).spec_status() == DriverStatus::Active ==> (r matches Ok(d) && d@ == spec_sha256(
                enc_signed(transaction),
            ) && final(self).spec_pending() == old(self).spec_pending().insert(
                d@,
                final(self).spec_pending()[d@],
            ) && final(self).spec_pending()[d@].transaction == transaction
                && final(self).spec_pending()[d@].signatures@.len() == 0),
    {
        if self.status != DriverStatus::Active {
            return Err(DriverError::ConsensusError("Driver not active".to_string()));
        }
        let digest = transaction.digest();
        let pending = PendingTransaction { transaction, signatures: Vec::new() };
        let ghost old_entries = self.pending_transactions@;
        match self.position(&digest) {
            Some(i) => {
                proof {
                    lemma_pending_index(old_entries, digest@);
                }
                self.pending_transactions.set(i, (digest, pending));
                proof {
                    let t = self.pending_transactions@;
                    assert(digests_distinct(t)) by {
                        assert forall|a: int, b: int| 0 <= a < b < t.len() implies t[a].0@ != t[b].0@ by {
                            if a != i && b != i {
                                assert(old_entries[a].0@ != old_entries[b].0@);
                            } else if a == i {
                                assert(old_entries[i as int].0@ != old_entries[b].0@);
                            } else {
                                assert(old_entries[a].0@ != old_entries[i as int].0@);
                            }
                        }
                    }
                    self.lemma_replaced(old_entries, i as int);
                }
            },
            None => {
                proof {
                    lemma_pending_index(old_entries, digest@);
                }
                self.pending_transactions.push((digest, pending));
                proof {
                    let t = self.pending_transactions@;
                    assert(t.drop_last() == old_entries);
                    assert(digests_distinct(t)) by {
                        assert forall|a: int, b: int| 0 <= a < b < t.len() implies t[a].0@ != t[b].0@ by {
                            if b < old_entries.len() {
                                assert(old_entries[a].0@ != old_entries[b].0@);
                            }
                        }
                    }
                    self.lemma_pushed(old_entries);
                }
            },
        }
        Ok(digest)
    }

    /// After the entry at `i` is replaced by one with the same digest, only
    /// that digest's entry changed.
    proof fn lemma_replaced(&self, before: Seq<(TransactionDigest, PendingTransaction)>, i: int)
        requires
            digests_distinct(before),
            digests_distinct(self.pending_transactions@),
            0 <= i < before.len(),
            self.pending_transactions@ == before.update(i, self.pending_transactions@[i]),
            self.pending_transactions@[i].0@ == before[i].0@,
        ensures
            pending_map(self.pending_transactions@) == pending_map(before).insert(
                before[i].0@,
                self.pending_transactions@[i].1,
            ),
    {
        let t = self.pending_transactions@;
        let d = before[i].0@;
        lemma_pending_at(t, i);
        assert forall|k: Seq<u8>| #[trigger] pending_map(t).contains_key(k) == pending_map(before).insert(
            d,
            t[i].1,
        ).contains_key(k) && (pending_map(t).contains_key(k) ==> pending_map(t)[k] == pending_map(
            before,
        ).insert(d, t[i].1)[k]) by {
            lemma_pending_index(t, k);
            lemma_pending_index(before, k);
            if k != d {
                match pending_index(before, k) {
                    Some(j) => {
                        lemma_pending_at(t, j);
                    },
                    None => {
                        if let Some(j) = pending_index(t, k) {
                            assert(before[j].0@ == k);
                        }
                    },
                }
            }
        }
        assert(pending_map(t) =~= pending_map(before).insert(d, t[i].1));
    }

    /// After an entry with a new digest is pushed, only that digest's entry
    /// is new.
    proof fn lemma_pushed(&self, before: Seq<(TransactionDigest, PendingTransaction)>)
        requires
            digests_distinct(self.pending_transactions@),
            self.pending_transactions@.len() == before.len() + 1,
            self.pending_transactions@.drop_last() == before,
        ensures
            pending_map(self.pending_transactions@) == pending_map(before).insert(
                self.pending_transactions@.last().0@,
                self.pending_transactions@.last().1,
            ),
    {
        let t = self.pending_transactions@;
        let n = before.len() as int;
        let d = t[n].0@;
        lemma_pending_at(t, n);
        assert forall|k: Seq<u8>| #[trigger] pending_map(t).contains_key(k) == pending_map(before).insert(
            d,
            t[n].1,
        ).contains_key(k) && (pending_map(t).contains_key(k) ==> pending_map(t)[k] == pending_map(
            before,
        ).insert(d, t[n].1)[k]) by {
            lemma_pending_index(t, k);
            lemma_pending_index(before, k);
            if k != d {
                match pending_index(before, k) {
                    Some(j) => {
                        assert(t[j] == before[j]);
                        lemma_pending_at(t, j);
                    },
                    None => {
                        if let Some(j) = pending_index(t, k) {
                            assert(j != n);
                            assert(before[j].0@ == k);
                        }
                    },
                }
            }
        }
        assert(pending_map(t) =~= pending_map(before).insert(d, t[n].1));
    }

    /// After the entry at `i` is taken out, its digest is no longer pending
    /// and the others are as they were.
    proof fn lemma_removed(&self, before: Seq<(TransactionDigest, PendingTransaction)>, i: int)
        requires
            digests_distinct(before),
            0 <= i < before.len(),
            self.pending_transactions@ == before.remove(i),
        ensures
            digests_distinct(self.pending_transactions@),
            pending_map(self.pending_transactions@) == pending_map(before).remove(before[i].0@),
    {
        let t = self.pending_transactions@;
        let d = before[i].0@;
        assert forall|a: int, b: int| 0 <= a < b < t.len() implies t[a].0@ != t[b].0@ by {
            let a2 = if a < i { a } else { a + 1 };
            let b2 = if b < i { b } else { b + 1 };
            assert(t[a] == before[a2] && t[b] == before[b2]);
        }
        assert forall|k: Seq<u8>| #[trigger] pending_map(t).contains_key(k) == pending_map(before).remove(
            d,
        ).contains_key(k) && (pending_map(t).contains_key(k) ==> pending_map(t)[k] == pending_map(
            before,
        )[k]) by {
            lemma_pending_index(t, k);
            lemma_pending_index(before, k);
            match pending_index(before, k) {
                Some(j) => {
                    if j != i {
                        let j2 = if j < i { j } else { j - 1 };
                        assert(t[j2] == before[j]);
                        lemma_pending_at(t, j2);
                    } else {
                        if let Some(m) = pending_index(t, k) {
                            let m2 = if m < i { m } else { m + 1 };
                            assert(t[m] == before[m2]);
                            assert(before[m2].0@ == before[i].0@);
                        }
                    }
                },
                None => {
                    if let Some(m) = pending_index(t, k) {
                        let m2 = if m < i { m } else { m + 1 };
                        assert(t[m] == before[m2]);
                    }
                },
            }
        }
        assert(pending_map(t) =~= pending_map(before).remove(d));
    }

    /// Handle signature: an authority's signature is added to the pending
    /// transaction; refused when the digest is not pending.
    pub fn handle_signature(
        &mut self,
        digest: TransactionDigest,
        public_key: PublicKey,
        signature: Signature,
    ) -> (r: Result<(), DriverError>)
        requires
            old(self).wf(),
        ensures
            final(self).wf(),
            final(self).spec_config() == old(self).spec_config(),
            final(self).spec_status() == old(self).spec_status(),
            !old(self).spec_pending().contains_key(digest@) ==> (r matches Err(e) && e is ConsensusError)
                && final(self).spec_pending() == old(self).spec_pending(),
            old(self).spec_pending().contains_key(digest@) ==> r is Ok && final(self).spec_pending()
                == old(self).spec_pending().insert(
                digest@,
                final(self).spec_pending()[digest@],
            ) && final(self).spec_pending()[digest@].transaction == old(
                self,
            ).spec_pending()[digest@].transaction && final(self).spec_pending()[digest@].signatures@ == old(
                self,
            ).spec_pending()[digest@].signatures@.push((public_key, signature)),
    {
        let ghost before = self.pending_transactions@;
        match self.position(&digest) {
            None => Err(DriverError::ConsensusError("Transaction not found".to_string())),
            Some(i) => {
                proof {
                    lemma_pending_index(before, digest@);
                }
                let (d, mut pending) = self.pending_transactions.remove(i);
                pending.signatures.push((public_key, signature));
                self.pending_transactions.insert(i, (d, pending));
                proof {
                    let t = self.pending_transactions@;
                    assert(t == before.update(i as int, t[i as int]));
                    assert(digests_distinct(t)) by {
                        assert forall|a: int, b: int| 0 <= a < b < t.len() implies t[a].0@ != t[b].0@ by {
                            if a != i && b != i {
                                assert(before[a].0@ != before[b].0@);
                            } else if a == i {
                                assert(before[i as int].0@ != before[b].0@);
                            } else {
                                assert(before[a].0@ != before[i as int].0@);
                            }
                        }
                    }
                    self.lemma_replaced(before, i as int);
                }
                Ok(())
            },
        }
    }

    /// One look at a pending transaction, as `wait_for_quorum` takes it:
    /// refused when the digest is not pending; `None` while it has fewer
    /// signatures than the quorum size; otherwise it leaves the pending set
    /// and comes back as a certificate with the signatures collected.
    pub fn poll_quorum(&mut self, digest: &TransactionDigest) -> (r: Result<
        Option<TransactionCertificate>,
        DriverError,
    >)
        requires
            old(self).wf(),
        ensures
            final(self).wf(),
            final(self).spec_config() == old(self).spec_config(),
            final(self).spec_status() == old(self).spec_status(),
            match r {
                Err(e) => e is ConsensusError && !old(self).spec_pending().contains_key(digest@)
                    && final(self).spec_pending() == old(self).spec_pending(),
                Ok(None) => old(self).spec_pending().contains_key(digest@) && old(
                    self,
                ).spec_pending()[digest@].signatures@.len() < old(self).spec_config().quorum_size
                    && final(self).spec_pending() == old(self).spec_pending(),
                Ok(Some(c)) => old(self).spec_pending().contains_key(digest@) && old(
                    self,
                ).spec_pending()[digest@].signatures@.len() >= old(self).spec_config().quorum_size
                    && c.transaction == old(self).spec_pending()[digest@].transaction
                    && c.authority_signatures@ == old(self).spec_pending()[digest@].signatures@
                    && final(self).spec_pending() == old(self).spec_pending().remove(digest@),
            },
    {
        let ghost before = self.pending_transactions@;
        match self.position(digest) {
            None => Err(DriverError::ConsensusError("Transaction not found".to_string())),
            Some(i) => {
                proof {
                    lemma_pending_index(before, digest@);
                }
                if self.pending_transactions[i].1.signatures.len() < self.config.quorum_size {
                    return Ok(None);
                }
                let (_, pending) = self.pending_transactions.remove(i);
                proof {
                    self.lemma_removed(before, i as int);
                }
                Ok(Some(TransactionCertificate {
                    transaction: pending.transaction,
                    authority_signatures: pending.signatures,
                }))
            },
        }
    }

    /// Give up on a pending transaction (its quorum timed out).
    pub fn remove_pending(&mut self, digest: &TransactionDigest)
        requires
            old(self).wf(),
        ensures
            final(self).wf(),
            final(self).spec_config() == old(self).spec_config(),
            final(self).spec_status() == old(self).spec_status(),
            final(self).spec_pending() == old(self).spec_pending().remove(digest@),
    {
        let ghost before = self.pending_transactions@;
        match self.position(digest) {
            None => {
                proof {
                    lemma_pending_index(before, digest@);
                    assert(self.spec_pending() =~= self.spec_pending().remove(digest@));
                }
            },
            Some(i) => {
                proof {
                    lemma_pending_index(before, digest@);
                }
                self.pending_transactions.remove(i);
                proof {
                    self.lemma_removed(before, i as int);
                }
            },
        }
    }

    /// Get driver status
    pub fn status(&self) -> (s: DriverStatus)
        ensures
            s == self.spec_status(),
    {
        self.status
    }

    /// Set driver status
    pub fn set_status(&mut self, status: DriverStatus)
        requires
            old(self).wf(),
        ensures
            final(self).wf(),
            final(self).spec_status() == status,
            final(self).spec_config() == old(self).spec_config(),
            final(self).spec_pending() == old(self).spec_pending(),
    {
        self.status = status;
    }
}

} // verus!
