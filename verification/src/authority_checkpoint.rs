//! Authority checkpoints: they carry the effects of their transactions, so
//! the object state at a checkpoint can be rebuilt by replaying them.
use vstd::prelude::*;
use crate::checkpoint::{append_digests, opt_digest_bytes};
use crate::consensus::enc_digests;
use crate::effects::{Event, ExecutionStatus};
use crate::epoch::{CommitteeInfo, EpochInfo};
use crate::errors::AuthorityError;
use crate::hashing::{append_bytes, append_u64_le, digest_eq, sha256, spec_sha256};
use crate::object::{Object, ObjectID, ObjectView};
use crate::object_table::ObjectTable;
use crate::protocol::TransactionDigest;
use crate::sequenced::{Sequenced, SequencedStore};
use vstd::bytes::spec_u64_to_le_bytes;

verus! {

/// What a transaction did, as an authority records it.
#[derive(Debug)]
pub struct TransactionEffects {
    /// Transaction digest
    pub transaction_digest: TransactionDigest,
    /// Execution status
    pub status: ExecutionStatus,
    /// Gas used
    pub gas_used: u64,
    /// Modified objects, by id
    pub modified_objects: Vec<(ObjectID, Object)>,
    /// Created objects, by id
    pub created_objects: Vec<(ObjectID, Object)>,
    /// Deleted objects
    pub deleted_objects: Vec<ObjectID>,
    /// Events
    pub events: Vec<Event>,
    /// Dependencies
    pub dependencies: Vec<TransactionDigest>,
    /// The epoch that the transaction started, if it started one
    pub epoch_change: Option<EpochInfo>,
}

/// Checkpoint data
#[derive(Debug)]
pub struct Checkpoint {
    /// Sequence number
    pub sequence: u64,
    /// Content digest
    pub digest: [u8; 32],
    /// Previous checkpoint digest
    pub previous_digest: Option<[u8; 32]>,
    /// Timestamp
    pub timestamp: u64,
    /// Transactions included
    pub transactions: Vec<TransactionDigest>,
    /// Effects included
    pub effects: Vec<TransactionEffects>,
    /// State root
    pub state_root: [u8; 32],
    /// Epoch
    pub epoch: u64,
    /// Next epoch committee
    pub next_epoch_committee: Option<CommitteeInfo>,
}

/// The transaction digests of a list of effects, one after the other.
pub open spec fn effect_digests(es: Seq<TransactionEffects>) -> Seq<u8>
    decreases es.len(),
{
    if es.len() == 0 {
        Seq::empty()
    } else {
        effect_digests(es.drop_last()) + es.last().transaction_digest@
    }
}

/// What the digest of a checkpoint covers: the little-endian sequence
/// number, the previous digest when there is one, the little-endian
/// timestamp, the transaction digests, the digests of the effects'
/// transactions, the state root and the little-endian epoch.
pub open spec fn checkpoint_preimage(c: Checkpoint) -> Seq<u8> {
    spec_u64_to_le_bytes(c.sequence) + opt_digest_bytes(c.previous_digest) + spec_u64_to_le_bytes(
        c.timestamp,
    ) + enc_digests(c.transactions@) + effect_digests(c.effects@) + c.state_root@
        + spec_u64_to_le_bytes(c.epoch)
}

/// The digest a checkpoint should carry.
pub open spec fn checkpoint_digest(c: Checkpoint) -> Seq<u8> {
    spec_sha256(checkpoint_preimage(c))
}

/// The objects of `s` put into `m` in turn, each under its id.
pub open spec fn insert_objects(m: Map<Seq<u8>, ObjectView>, s: Seq<(ObjectID, Object)>) -> Map<
    Seq<u8>,
    ObjectView,
>
    decreases s.len(),
{
    if s.len() == 0 {
        m
    } else {
        insert_objects(m, s.drop_last()).insert(s.last().0@, s.last().1@)
    }
}

/// The ids of `s` taken out of `m` in turn.
pub open spec fn remove_objects(m: Map<Seq<u8>, ObjectView>, s: Seq<ObjectID>) -> Map<Seq<u8>, ObjectView>
    decreases s.len(),
{
    if s.len() == 0 {
        m
    } else {
        remove_objects(m, s.drop_last()).remove(s.last()@)
    }
}

/// The state after one transaction's effects: created objects put in, then
/// modified ones, then deleted ones taken out.
pub open spec fn apply_effects(m: Map<Seq<u8>, ObjectView>, e: TransactionEffects) -> Map<
    Seq<u8>,
    ObjectView,
> {
    remove_objects(
        insert_objects(insert_objects(m, e.created_objects@), e.modified_objects@),
        e.deleted_objects@,
    )
}

/// The state that a list of effects builds from nothing.
pub open spec fn state_after(es: Seq<TransactionEffects>) -> Map<Seq<u8>, ObjectView>
    decreases es.len(),
{
    if es.len() == 0 {
        Map::empty()
    } else {
        apply_effects(state_after(es.drop_last()), es.last())
    }
}

/// Puts a list of objects into a table, each under its id.
fn put_objects(table: &mut ObjectTable, objects: &Vec<(ObjectID, Object)>)
    ensures
        final(table)@ == insert_objects(old(table)@, objects@),
{
    let n = objects.len();
    let mut i: usize = 0;
    while i < n
        invariant
            n == objects@.len(),
            i <= n,
            table@ == insert_objects(old(table)@, objects@.take(i as int)),
        decreases n - i,
    {
        let id = objects[i].0;
        let object = objects[i].1.clone();
        table.insert_at(id, object);
        assert(objects@.take(i + 1).drop_last() == objects@.take(i as int));
        i = i + 1;
    }
    assert(objects@.take(n as int) == objects@);
}

/// Takes a list of ids out of a table.
fn take_objects(table: &mut ObjectTable, ids: &Vec<ObjectID>)
    ensures
        final(table)@ == remove_objects(old(table)@, ids@),
{
    let n = ids.len();
    let mut i: usize = 0;
    while i < n
        invariant
            n == ids@.len(),
            i <= n,
            table@ == remove_objects(old(table)@, ids@.take(i as int)),
        decreases n - i,
    {
        table.remove(&ids[i]);
        assert(ids@.take(i + 1).drop_last() == ids@.take(i as int));
        i = i + 1;
    }
    assert(ids@.take(n as int) == ids@);
}

impl Checkpoint {
    /// Create new checkpoint, carrying the digest of its contents.
    pub fn new(
        sequence: u64,
        previous_digest: Option<[u8; 32]>,
        timestamp: u64,
        transactions: Vec<TransactionDigest>,
        effects: Vec<TransactionEffects>,
        state_root: [u8; 32],
        epoch: u64,
        next_epoch_committee: Option<CommitteeInfo>,
    ) -> (c: Checkpoint)
        ensures
            c.sequence == sequence,
            c.previous_digest == previous_digest,
            c.timestamp == timestamp,
            c.transactions == transactions,
            c.effects == effects,
            c.state_root == state_root,
            c.epoch == epoch,
            c.next_epoch_committee == next_epoch_committee,
            c.digest@ == checkpoint_digest(c),
    {
        let mut checkpoint = Checkpoint {
            sequence,
            digest: [0u8; 32],
            previous_digest,
            timestamp,
            transactions,
            effects,
            state_root,
            epoch,
            next_epoch_committee,
        };
        checkpoint.digest = checkpoint.compute_digest();
        checkpoint
    }

    /// Compute checkpoint digest
    fn compute_digest(&self) -> (d: [u8; 32])
        ensures
            d@ == checkpoint_digest(*self),
    {
        let mut bytes: Vec<u8> = Vec::new();
        append_u64_le(&mut bytes, self.sequence);
        if let Some(prev) = &self.previous_digest {
            append_bytes(&mut bytes, prev.as_slice());
        }
        append_u64_le(&mut bytes, self.timestamp);
        append_digests(&mut bytes, &self.transactions);
        let ghost start = bytes@;
        let n = self.effects.len();
        let mut i: usize = 0;
        while i < n
            invariant
                n == self.effects@.len(),
                i <= n,
                bytes@ == start + effect_digests(self.effects@.take(i as int)),
            decreases n - i,
        {
            append_bytes(&mut bytes, self.effects[i].transaction_digest.0.as_slice());
            assert(self.effects@.take(i + 1).drop_last() == self.effects@.take(i as int));
            i = i + 1;
        }
        assert(self.effects@.take(n as int) == self.effects@);
        append_bytes(&mut bytes, self.state_root.as_slice());
        append_u64_le(&mut bytes, self.epoch);
        assert(bytes@ =~= checkpoint_preimage(*self));
        sha256(bytes.as_slice())
    }

    /// Verify checkpoint: it carries the digest of its contents.
    pub fn verify(&self) -> (r: bool)
        ensures
            r == (self.digest@ == checkpoint_digest(*self)),
    {
        let d = self.compute_digest();
        digest_eq(&self.digest, &d)
    }
}

impl Sequenced for Checkpoint {
    open spec fn spec_sequence(&self) -> u64 {
        self.sequence
    }

    fn sequence_number(&self) -> (r: u64) {
        self.sequence
    }
}

/// Checkpoint store
#[derive(Debug)]
pub struct CheckpointStore {
    /// Checkpoints by sequence number
    checkpoints: SequencedStore<Checkpoint>,
}

impl View for CheckpointStore {
    type V = Map<u64, Checkpoint>;

    closed spec fn view(&self) -> Map<u64, Checkpoint> {
        self.checkpoints@
    }
}

impl CheckpointStore {
    pub fn new() -> (s: CheckpointStore)
        ensures
            s@ == Map::<u64, Checkpoint>::empty(),
    {
        CheckpointStore { checkpoints: SequencedStore::new() }
    }

    /// Get checkpoint by sequence
    pub fn get_checkpoint(&self, sequence: u64) -> (r: Option<&Checkpoint>)
        ensures
            match r {
                Some(c) => self@.contains_key(sequence) && self@[sequence] == *c,
                None => !self@.contains_key(sequence),
            },
    {
        self.checkpoints.get(sequence)
    }

    /// Put checkpoint: refused, with the store unchanged, when its digest is
    /// not that of its contents; otherwise stored under its sequence number.
    pub fn put_checkpoint(&mut self, checkpoint: Checkpoint) -> (r: Result<(), AuthorityError>)
        ensures
            checkpoint.digest@ == checkpoint_digest(checkpoint) ==> r is Ok && final(self)@ == old(
                self,
            )@.insert(checkpoint.sequence, checkpoint),
            checkpoint.digest@ != checkpoint_digest(checkpoint) ==> (r matches Err(e)
                && e is InvalidCheckpoint) && final(self)@ == old(self)@,
    {
        if !checkpoint.verify() {
            return Err(AuthorityError::InvalidCheckpoint("Invalid checkpoint digest".to_string()));
        }
        self.checkpoints.put(checkpoint);
        Ok(())
    }

    /// Get latest checkpoint: the one with the highest sequence number.
    pub fn get_latest_checkpoint(&self) -> (r: Option<&Checkpoint>)
        ensures
            match r {
                Some(c) => self@.contains_key(c.sequence) && self@[c.sequence] == *c && forall|k: u64|
                    #[trigger] self@.contains_key(k) ==> k <= c.sequence,
                None => self@.dom() =~= Set::<u64>::empty(),
            },
    {
        self.checkpoints.latest()
    }

    /// Get checkpoint range: those numbered from `start` to `end`, both
    /// included, in ascending order.
    pub fn get_checkpoint_range(&self, start: u64, end: u64) -> (r: Vec<&Checkpoint>)
        ensures
            forall|i: int, j: int| 0 <= i < j < r@.len() ==> r@[i].sequence < r@[j].sequence,
            forall|i: int|
                0 <= i < r@.len() ==> start <= (#[trigger] r@[i]).sequence <= end && self@.contains_key(
                    r@[i].sequence,
                ) && self@[r@[i].sequence] == *r@[i],
            forall|k: u64|
                #[trigger] self@.contains_key(k) && start <= k <= end ==> exists|i: int|
                    0 <= i < r@.len() && r@[i].sequence == k,
    {
        self.checkpoints.range(start, end)
    }

    /// Get state at checkpoint: the objects that the checkpoint's effects
    /// leave, replayed in order from an empty state.
    pub fn get_state_at_checkpoint(&self, sequence: u64) -> (r: Result<ObjectTable, AuthorityError>)
        ensures
            match r {
                Ok(t) => self@.contains_key(sequence) && t@ == state_after(self@[sequence].effects@),
                Err(e) => !self@.contains_key(sequence) && e == AuthorityError::CheckpointNotFound(sequence),
            },
    {
        let checkpoint = match self.get_checkpoint(sequence) {
            Some(c) => c,
            None => return Err(AuthorityError::CheckpointNotFound(sequence)),
        };
        let mut state = ObjectTable::new();
        let n = checkpoint.effects.len();
        let mut i: usize = 0;
        while i < n
            invariant
                n == checkpoint.effects@.len(),
                i <= n,
                state@ == state_after(checkpoint.effects@.take(i as int)),
            decreases n - i,
        {
            let effect = &checkpoint.effects[i];
            put_objects(&mut state, &effect.created_objects);
            put_objects(&mut state, &effect.modified_objects);
            take_objects(&mut state, &effect.deleted_objects);
            assert(checkpoint.effects@.take(i + 1).drop_last() == checkpoint.effects@.take(i as int));
            i = i + 1;
        }
        assert(checkpoint.effects@.take(n as int) == checkpoint.effects@);
        Ok(state)
    }
}


/// Equal bytes around two pieces of equal length: the pieces are equal.
proof fn lemma_same_frame(p: Seq<u8>, xa: Seq<u8>, xb: Seq<u8>, sfx: Seq<u8>)
    requires
        xa.len() == xb.len(),
        p + xa + sfx == p + xb + sfx,
    ensures
        xa == xb,
{
    assert((p + xa + sfx).subrange(p.len() as int, (p.len() + xa.len()) as int) =~= xa);
    assert((p + xb + sfx).subrange(p.len() as int, (p.len() + xb.len()) as int) =~= xb);
}

/// Every little-endian encoding of a `u64` is 8 bytes, and different
/// numbers have different encodings.
proof fn lemma_le_u64(x: u64, y: u64)
    ensures
        spec_u64_to_le_bytes(x).len() == 8,
        x != y ==> spec_u64_to_le_bytes(x) != spec_u64_to_le_bytes(y),
{
    vstd::bytes::lemma_auto_spec_u64_to_from_le_bytes();
}

/// The concatenated digests are 32 bytes per digest.
proof fn lemma_enc_digests_len(x: Seq<TransactionDigest>)
    ensures
        enc_digests(x).len() == 32 * x.len(),
    decreases x.len(),
{
    if x.len() > 0 {
        lemma_enc_digests_len(x.drop_last());
    }
}

/// The concatenated digests are equal only for lists of equal digests.
proof fn lemma_enc_digests(x: Seq<TransactionDigest>, y: Seq<TransactionDigest>)
    ensures
        enc_digests(x).len() == 32 * x.len(),
        enc_digests(x) == enc_digests(y) ==> x.len() == y.len() && forall|i: int|
            0 <= i < x.len() ==> (#[trigger] x[i])@ == y[i]@,
    decreases x.len(),
{
    lemma_enc_digests_len(x);
    lemma_enc_digests_len(y);
    if enc_digests(x) == enc_digests(y) && x.len() > 0 {
        lemma_enc_digests_len(x.drop_last());
        lemma_enc_digests_len(y.drop_last());
        let ex = enc_digests(x);
        let k = enc_digests(x.drop_last()).len() as int;
        assert(ex.subrange(0, k) =~= enc_digests(x.drop_last()));
        assert(ex.subrange(0, k) =~= enc_digests(y.drop_last()));
        assert(ex.subrange(k, ex.len() as int) =~= x.last()@);
        assert(ex.subrange(k, ex.len() as int) =~= y.last()@);
        lemma_enc_digests(x.drop_last(), y.drop_last());
        assert forall|i: int| 0 <= i < x.len() implies (#[trigger] x[i])@ == y[i]@ by {
            if i < x.len() - 1 {
                assert(x.drop_last()[i] == x[i]);
                assert(y.drop_last()[i] == y[i]);
            }
        }
    }
}

/// The transaction digests of a list of effects are 32 bytes per effect.
proof fn lemma_effect_digests_len(x: Seq<TransactionEffects>)
    ensures
        effect_digests(x).len() == 32 * x.len(),
    decreases x.len(),
{
    if x.len() > 0 {
        lemma_effect_digests_len(x.drop_last());
    }
}

/// The transaction digests of two lists of effects are equal only when the
/// effects name equal transactions.
proof fn lemma_effect_digests(x: Seq<TransactionEffects>, y: Seq<TransactionEffects>)
    ensures
        effect_digests(x).len() == 32 * x.len(),
        effect_digests(x) == effect_digests(y) ==> x.len() == y.len() && forall|i: int|
            0 <= i < x.len() ==> (#[trigger] x[i]).transaction_digest@ == y[i].transaction_digest@,
    decreases x.len(),
{
    lemma_effect_digests_len(x);
    lemma_effect_digests_len(y);
    if effect_digests(x) == effect_digests(y) && x.len() > 0 {
        lemma_effect_digests_len(x.drop_last());
        lemma_effect_digests_len(y.drop_last());
        let ex = effect_digests(x);
        let k = effect_digests(x.drop_last()).len() as int;
        assert(ex.subrange(0, k) =~= effect_digests(x.drop_last()));
        assert(ex.subrange(0, k) =~= effect_digests(y.drop_last()));
        assert(ex.subrange(k, ex.len() as int) =~= x.last().transaction_digest@);
        assert(ex.subrange(k, ex.len() as int) =~= y.last().transaction_digest@);
        lemma_effect_digests(x.drop_last(), y.drop_last());
        assert forall|i: int| 0 <= i < x.len() implies (#[trigger] x[i]).transaction_digest@
            == y[i].transaction_digest@ by {
            if i < x.len() - 1 {
                assert(x.drop_last()[i] == x[i]);
                assert(y.drop_last()[i] == y[i]);
            }
        }
    }
}

/// Law: a checkpoint's digest covers its state root: two checkpoints that
/// differ only in their state roots hash different bytes.
pub proof fn law_digest_covers_state_root(a: Checkpoint, b: Checkpoint)
    requires
        a.sequence == b.sequence,
        a.previous_digest == b.previous_digest,
        a.timestamp == b.timestamp,
        a.transactions == b.transactions,
        a.effects == b.effects,
        a.epoch == b.epoch,
        a.state_root@ != b.state_root@,
    ensures
        checkpoint_preimage(a) != checkpoint_preimage(b),
{
    let p = spec_u64_to_le_bytes(a.sequence) + opt_digest_bytes(a.previous_digest) + spec_u64_to_le_bytes(
        a.timestamp,
    ) + enc_digests(a.transactions@) + effect_digests(a.effects@);
    let sfx = spec_u64_to_le_bytes(a.epoch);
    assert(checkpoint_preimage(a) == p + a.state_root@ + sfx);
    assert(checkpoint_preimage(b) == p + b.state_root@ + sfx);
    if checkpoint_preimage(a) == checkpoint_preimage(b) {
        lemma_same_frame(p, a.state_root@, b.state_root@, sfx);
    }
}

/// Law: a checkpoint's digest covers its epoch: two checkpoints that differ
/// only in their epochs hash different bytes.
pub proof fn law_digest_covers_epoch(a: Checkpoint, b: Checkpoint)
    requires
        a.sequence == b.sequence,
        a.previous_digest == b.previous_digest,
        a.timestamp == b.timestamp,
        a.transactions == b.transactions,
        a.effects == b.effects,
        a.state_root == b.state_root,
        a.epoch != b.epoch,
    ensures
        checkpoint_preimage(a) != checkpoint_preimage(b),
{
    lemma_le_u64(a.epoch, b.epoch);
    let p = spec_u64_to_le_bytes(a.sequence) + opt_digest_bytes(a.previous_digest) + spec_u64_to_le_bytes(
        a.timestamp,
    ) + enc_digests(a.transactions@) + effect_digests(a.effects@) + a.state_root@;
    let e = Seq::<u8>::empty();
    assert(checkpoint_preimage(a) =~= p + spec_u64_to_le_bytes(a.epoch) + e);
    assert(checkpoint_preimage(b) =~= p + spec_u64_to_le_bytes(b.epoch) + e);
    if checkpoint_preimage(a) == checkpoint_preimage(b) {
        lemma_same_frame(p, spec_u64_to_le_bytes(a.epoch), spec_u64_to_le_bytes(b.epoch), e);
    }
}

/// Law: a checkpoint's digest covers its sequence number and its timestamp:
/// two checkpoints that differ only in one of them hash different bytes.
pub proof fn law_digest_covers_sequence_and_timestamp(a: Checkpoint, b: Checkpoint)
    requires
        a.previous_digest == b.previous_digest,
        a.transactions == b.transactions,
        a.effects == b.effects,
        a.state_root == b.state_root,
        a.epoch == b.epoch,
        (a.sequence != b.sequence && a.timestamp == b.timestamp) || (a.sequence == b.sequence
            && a.timestamp != b.timestamp),
    ensures
        checkpoint_preimage(a) != checkpoint_preimage(b),
{
    lemma_le_u64(a.sequence, b.sequence);
    lemma_le_u64(a.timestamp, b.timestamp);
    let rest = enc_digests(a.transactions@) + effect_digests(a.effects@) + a.state_root@
        + spec_u64_to_le_bytes(a.epoch);
    let o = opt_digest_bytes(a.previous_digest);
    if a.sequence != b.sequence {
        let e = Seq::<u8>::empty();
        let sfx = o + spec_u64_to_le_bytes(a.timestamp) + rest;
        assert(checkpoint_preimage(a) =~= e + spec_u64_to_le_bytes(a.sequence) + sfx);
        assert(checkpoint_preimage(b) =~= e + spec_u64_to_le_bytes(b.sequence) + sfx);
        if checkpoint_preimage(a) == checkpoint_preimage(b) {
            lemma_same_frame(e, spec_u64_to_le_bytes(a.sequence), spec_u64_to_le_bytes(b.sequence), sfx);
        }
    } else {
        let p = spec_u64_to_le_bytes(a.sequence) + o;
        assert(checkpoint_preimage(a) =~= p + spec_u64_to_le_bytes(a.timestamp) + rest);
        assert(checkpoint_preimage(b) =~= p + spec_u64_to_le_bytes(b.timestamp) + rest);
        if checkpoint_preimage(a) == checkpoint_preimage(b) {
            lemma_same_frame(p, spec_u64_to_le_bytes(a.timestamp), spec_u64_to_le_bytes(b.timestamp), rest);
        }
    }
}

/// Law: a checkpoint's digest covers its link to the previous checkpoint:
/// two checkpoints that differ only in the previous digest they name (or in
/// whether they name one) hash different bytes.
pub proof fn law_digest_covers_previous(a: Checkpoint, b: Checkpoint)
    requires
        a.sequence == b.sequence,
        a.timestamp == b.timestamp,
        a.transactions == b.transactions,
        a.effects == b.effects,
        a.state_root == b.state_root,
        a.epoch == b.epoch,
        opt_digest_bytes(a.previous_digest) != opt_digest_bytes(b.previous_digest),
    ensures
        checkpoint_preimage(a) != checkpoint_preimage(b),
{
    lemma_le_u64(a.sequence, b.sequence);
    let p = spec_u64_to_le_bytes(a.sequence);
    let rest = spec_u64_to_le_bytes(a.timestamp) + enc_digests(a.transactions@) + effect_digests(a.effects@)
        + a.state_root@ + spec_u64_to_le_bytes(a.epoch);
    let oa = opt_digest_bytes(a.previous_digest);
    let ob = opt_digest_bytes(b.previous_digest);
    assert(checkpoint_preimage(a) =~= p + oa + rest);
    assert(checkpoint_preimage(b) =~= p + ob + rest);
    if checkpoint_preimage(a) == checkpoint_preimage(b) {
        assert(oa.len() == ob.len());
        lemma_same_frame(p, oa, ob, rest);
    }
}

/// Law: a checkpoint's digest covers its transactions and the transactions
/// its effects name: two checkpoints that differ only in the transaction
/// digests listed, or only in the effects' transaction digests, hash
/// different bytes.
pub proof fn law_digest_covers_transactions(a: Checkpoint, b: Checkpoint)
    requires
        a.sequence == b.sequence,
        a.previous_digest == b.previous_digest,
        a.timestamp == b.timestamp,
        a.state_root == b.state_root,
        a.epoch == b.epoch,
        ({
            &&& a.effects == b.effects
            &&& (a.transactions@.len() != b.transactions@.len() || exists|i: int|
                0 <= i < a.transactions@.len() && a.transactions@[i]@ != b.transactions@[i]@)
        }) || ({
            &&& a.transactions == b.transactions
            &&& (a.effects@.len() != b.effects@.len() || exists|i: int|
                0 <= i < a.effects@.len() && a.effects@[i].transaction_digest@
                    != b.effects@[i].transaction_digest@)
        }),
    ensures
        checkpoint_preimage(a) != checkpoint_preimage(b),
{
    lemma_enc_digests(a.transactions@, b.transactions@);
    lemma_enc_digests(b.transactions@, a.transactions@);
    lemma_effect_digests(a.effects@, b.effects@);
    lemma_effect_digests(b.effects@, a.effects@);
    let p = spec_u64_to_le_bytes(a.sequence) + opt_digest_bytes(a.previous_digest) + spec_u64_to_le_bytes(
        a.timestamp,
    );
    let tail = a.state_root@ + spec_u64_to_le_bytes(a.epoch);
    if checkpoint_preimage(a) == checkpoint_preimage(b) {
        if a.effects == b.effects {
            let ed = effect_digests(a.effects@);
            assert(checkpoint_preimage(a) =~= p + enc_digests(a.transactions@) + (ed + tail));
            assert(checkpoint_preimage(b) =~= p + enc_digests(b.transactions@) + (ed + tail));
            assert(checkpoint_preimage(a).len() == checkpoint_preimage(b).len());
            lemma_same_frame(p, enc_digests(a.transactions@), enc_digests(b.transactions@), ed + tail);
        } else {
            let pt = p + enc_digests(a.transactions@);
            assert(checkpoint_preimage(a) =~= pt + effect_digests(a.effects@) + tail);
            assert(checkpoint_preimage(b) =~= pt + effect_digests(b.effects@) + tail);
            assert(checkpoint_preimage(a).len() == checkpoint_preimage(b).len());
            lemma_same_frame(pt, effect_digests(a.effects@), effect_digests(b.effects@), tail);
        }
    }
}


/// Whether a transaction's effects create, modify or delete the object with
/// id `x`.
pub open spec fn effect_touches(e: TransactionEffects, x: Seq<u8>) -> bool {
    ||| exists|i: int| 0 <= i < e.created_objects@.len() && (#[trigger] e.created_objects@[i]).0@ == x
    ||| exists|i: int| 0 <= i < e.modified_objects@.len() && (#[trigger] e.modified_objects@[i]).0@ == x
    ||| exists|i: int| 0 <= i < e.deleted_objects@.len() && (#[trigger] e.deleted_objects@[i])@ == x
}

/// Putting objects none of which has id `x` leaves `x` as it was.
proof fn lemma_insert_other(m: Map<Seq<u8>, ObjectView>, s: Seq<(ObjectID, Object)>, x: Seq<u8>)
    requires
        forall|i: int| 0 <= i < s.len() ==> (#[trigger] s[i]).0@ != x,
    ensures
        insert_objects(m, s).contains_key(x) == m.contains_key(x),
        m.contains_key(x) ==> insert_objects(m, s)[x] == m[x],
    decreases s.len(),
{
    if s.len() > 0 {
        assert(s[s.len() - 1].0@ != x);
        lemma_insert_other(m, s.drop_last(), x);
    }
}

/// After putting objects, `x` holds the last object put under it.
proof fn lemma_insert_last(m: Map<Seq<u8>, ObjectView>, s: Seq<(ObjectID, Object)>, c: int, x: Seq<u8>)
    requires
        0 <= c < s.len(),
        s[c].0@ == x,
        forall|i: int| c < i < s.len() ==> (#[trigger] s[i]).0@ != x,
    ensures
        insert_objects(m, s).contains_key(x),
        insert_objects(m, s)[x] == s[c].1@,
    decreases s.len(),
{
    if c < s.len() - 1 {
        assert(s[s.len() - 1].0@ != x);
        assert(s.drop_last()[c] == s[c]);
        lemma_insert_last(m, s.drop_last(), c, x);
    }
}

/// Taking out ids none of which is `x` leaves `x` as it was.
proof fn lemma_remove_other(m: Map<Seq<u8>, ObjectView>, ids: Seq<ObjectID>, x: Seq<u8>)
    requires
        forall|i: int| 0 <= i < ids.len() ==> (#[trigger] ids[i])@ != x,
    ensures
        remove_objects(m, ids).contains_key(x) == m.contains_key(x),
        m.contains_key(x) ==> remove_objects(m, ids)[x] == m[x],
    decreases ids.len(),
{
    if ids.len() > 0 {
        assert(ids[ids.len() - 1]@ != x);
        lemma_remove_other(m, ids.drop_last(), x);
    }
}

/// Taking out a list of ids that holds `x` leaves no object under `x`.
proof fn lemma_remove_hit(m: Map<Seq<u8>, ObjectView>, ids: Seq<ObjectID>, d: int, x: Seq<u8>)
    requires
        0 <= d < ids.len(),
        ids[d]@ == x,
    ensures
        !remove_objects(m, ids).contains_key(x),
    decreases ids.len(),
{
    if d < ids.len() - 1 {
        assert(ids.drop_last()[d] == ids[d]);
        lemma_remove_hit(m, ids.drop_last(), d, x);
    }
}

/// Effects that do not touch `x` leave it as it was.
proof fn lemma_apply_other(m: Map<Seq<u8>, ObjectView>, e: TransactionEffects, x: Seq<u8>)
    requires
        !effect_touches(e, x),
    ensures
        apply_effects(m, e).contains_key(x) == m.contains_key(x),
        m.contains_key(x) ==> apply_effects(m, e)[x] == m[x],
{
    lemma_insert_other(m, e.created_objects@, x);
    lemma_insert_other(insert_objects(m, e.created_objects@), e.modified_objects@, x);
    lemma_remove_other(insert_objects(insert_objects(m, e.created_objects@), e.modified_objects@), e.deleted_objects@, x);
}

/// Law: replaying effects is cumulative. An object that the effects at
/// position `k` create, and that neither the rest of those effects nor any
/// later effects touch, is in the rebuilt state as it was created.
pub proof fn law_replay_keeps_created(es: Seq<TransactionEffects>, k: int, c: int)
    requires
        0 <= k < es.len(),
        0 <= c < es[k].created_objects@.len(),
        forall|i: int|
            c < i < es[k].created_objects@.len() ==> (#[trigger] es[k].created_objects@[i]).0@
                != es[k].created_objects@[c].0@,
        forall|i: int|
            0 <= i < es[k].modified_objects@.len() ==> (#[trigger] es[k].modified_objects@[i]).0@
                != es[k].created_objects@[c].0@,
        forall|i: int|
            0 <= i < es[k].deleted_objects@.len() ==> (#[trigger] es[k].deleted_objects@[i])@
                != es[k].created_objects@[c].0@,
        forall|j: int| k < j < es.len() ==> !effect_touches(#[trigger] es[j], es[k].created_objects@[c].0@),
    ensures
        state_after(es).contains_key(es[k].created_objects@[c].0@),
        state_after(es)[es[k].created_objects@[c].0@] == es[k].created_objects@[c].1@,
    decreases es.len(),
{
    let x = es[k].created_objects@[c].0@;
    let pre = es.drop_last();
    let e = es.last();
    if k == es.len() - 1 {
        let m0 = state_after(pre);
        lemma_insert_last(m0, e.created_objects@, c, x);
        lemma_insert_other(insert_objects(m0, e.created_objects@), e.modified_objects@, x);
        lemma_remove_other(insert_objects(insert_objects(m0, e.created_objects@), e.modified_objects@), e.deleted_objects@, x);
    } else {
        assert(pre[k] == es[k]);
        assert forall|j: int| k < j < pre.len() implies !effect_touches(#[trigger] pre[j], x) by {
            assert(pre[j] == es[j]);
        }
        law_replay_keeps_created(pre, k, c);
        assert(!effect_touches(es[es.len() - 1], x));
        lemma_apply_other(state_after(pre), e, x);
    }
}

/// Law: an object that the effects at position `k` modify, and that the
/// rest of those modifications, their deletions and all later effects leave
/// alone, is in the rebuilt state as it was modified.
pub proof fn law_replay_keeps_modified(es: Seq<TransactionEffects>, k: int, c: int)
    requires
        0 <= k < es.len(),
        0 <= c < es[k].modified_objects@.len(),
        forall|i: int|
            c < i < es[k].modified_objects@.len() ==> (#[trigger] es[k].modified_objects@[i]).0@
                != es[k].modified_objects@[c].0@,
        forall|i: int|
            0 <= i < es[k].deleted_objects@.len() ==> (#[trigger] es[k].deleted_objects@[i])@
                != es[k].modified_objects@[c].0@,
        forall|j: int| k < j < es.len() ==> !effect_touches(#[trigger] es[j], es[k].modified_objects@[c].0@),
    ensures
        state_after(es).contains_key(es[k].modified_objects@[c].0@),
        state_after(es)[es[k].modified_objects@[c].0@] == es[k].modified_objects@[c].1@,
    decreases es.len(),
{
    let x = es[k].modified_objects@[c].0@;
    let pre = es.drop_last();
    let e = es.last();
    if k == es.len() - 1 {
        let m0 = state_after(pre);
        lemma_insert_last(insert_objects(m0, e.created_objects@), e.modified_objects@, c, x);
        lemma_remove_other(insert_objects(insert_objects(m0, e.created_objects@), e.modified_objects@), e.deleted_objects@, x);
    } else {
        assert(pre[k] == es[k]);
        assert forall|j: int| k < j < pre.len() implies !effect_touches(#[trigger] pre[j], x) by {
            assert(pre[j] == es[j]);
        }
        law_replay_keeps_modified(pre, k, c);
        assert(!effect_touches(es[es.len() - 1], x));
        lemma_apply_other(state_after(pre), e, x);
    }
}

/// Law: an object that the effects at position `k` delete, and that no
/// later effects touch, is not in the rebuilt state.
pub proof fn law_replay_drops_deleted(es: Seq<TransactionEffects>, k: int, d: int)
    requires
        0 <= k < es.len(),
        0 <= d < es[k].deleted_objects@.len(),
        forall|j: int| k < j < es.len() ==> !effect_touches(#[trigger] es[j], es[k].deleted_objects@[d]@),
    ensures
        !state_after(es).contains_key(es[k].deleted_objects@[d]@),
    decreases es.len(),
{
    let x = es[k].deleted_objects@[d]@;
    let pre = es.drop_last();
    let e = es.last();
    if k == es.len() - 1 {
        let m0 = state_after(pre);
        lemma_remove_hit(insert_objects(insert_objects(m0, e.created_objects@), e.modified_objects@), e.deleted_objects@, d, x);
    } else {
        assert(pre[k] == es[k]);
        assert forall|j: int| k < j < pre.len() implies !effect_touches(#[trigger] pre[j], x) by {
            assert(pre[j] == es[j]);
        }
        law_replay_drops_deleted(pre, k, d);
        assert(!effect_touches(es[es.len() - 1], x));
        lemma_apply_other(state_after(pre), e, x);
    }
}

/// Law: an object that no effects touch is not in the rebuilt state.
pub proof fn law_replay_only_touched(es: Seq<TransactionEffects>, x: Seq<u8>)
    requires
        forall|j: int| 0 <= j < es.len() ==> !effect_touches(#[trigger] es[j], x),
    ensures
        !state_after(es).contains_key(x),
    decreases es.len(),
{
    if es.len() > 0 {
        let pre = es.drop_last();
        assert forall|j: int| 0 <= j < pre.len() implies !effect_touches(#[trigger] pre[j], x) by {
            assert(pre[j] == es[j]);
        }
        law_replay_only_touched(pre, x);
        assert(!effect_touches(es[es.len() - 1], x));
        lemma_apply_other(state_after(pre), es.last(), x);
    }
}

} // verus!
