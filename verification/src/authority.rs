//! The authority: it checks transactions and certificates against its epoch
//! and committee, signs transactions, follows epoch changes, and meters the
//! transactions its validator executes.
use vstd::prelude::*;
use crate::crypto::{KeyPair, PublicKey, Signature, spec_bls_sign, spec_ed25519_sign, spec_ed25519_public,
    spec_bls_public, spec_signature_valid, SignatureScheme};
use crate::epoch::{AuthorityState, AuthorityView, CommitteeInfo, CommitteeView, EpochInfo, validator_index};
use crate::errors::AuthorityError;
use crate::hashing::spec_sha256;
use crate::protocol::{SignedTransaction, enc_data, enc_signed};
use crate::certificate::TransactionCertificate;
use crate::validation::RuntimeConfig;
use crate::object::{Object, ObjectID};
use crate::effects::{Event, ExecutionStatus};
use crate::authority_checkpoint::TransactionEffects;
use crate::protocol::TransactionDigest;
use crate::types::SequenceNumber;

verus! {

/// The public key of a key pair.
pub open spec fn key_public(k: KeyPair) -> (SignatureScheme, Seq<u8>) {
    (k@.0, match k@.0 {
        SignatureScheme::Ed25519 => spec_ed25519_public(k@.1),
        SignatureScheme::BLS => spec_bls_public(k@.1),
    })
}

/// The signature of `msg` under a key pair.
pub open spec fn key_sign(k: KeyPair, msg: Seq<u8>) -> (SignatureScheme, Seq<u8>) {
    (k@.0, match k@.0 {
        SignatureScheme::Ed25519 => spec_ed25519_sign(k@.1, msg),
        SignatureScheme::BLS => spec_bls_sign(k@.1, msg),
    })
}

/// The stake that a committee credits to a signer: that of the first member
/// with its key, none for a stranger.
pub open spec fn stake_of(committee: CommitteeView, pk: (SignatureScheme, Seq<u8>)) -> int {
    match validator_index(committee.validators, pk) {
        Some(i) => committee.validators[i].stake as int,
        None => 0,
    }
}

/// The stake credited to a list of signers, each counted as often as it
/// signs.
pub open spec fn signed_stake(sigs: Seq<(PublicKey, Signature)>, committee: CommitteeView) -> int
    decreases sigs.len(),
{
    if sigs.len() == 0 {
        0
    } else {
        signed_stake(sigs.drop_last(), committee) + stake_of(committee, sigs.last().0@)
    }
}

/// Index of the first signature that does not verify over `msg`, or the
/// length of the list when all do.
pub open spec fn first_bad_signature(sigs: Seq<(PublicKey, Signature)>, msg: Seq<u8>) -> int
    decreases sigs.len(),
{
    if sigs.len() == 0 {
        0
    } else if !spec_signature_valid(sigs[0].0@, msg, sigs[0].1@) {
        0
    } else {
        first_bad_signature(sigs.drop_first(), msg) + 1
    }
}

pub proof fn lemma_first_bad_signature(sigs: Seq<(PublicKey, Signature)>, msg: Seq<u8>)
    ensures
        0 <= first_bad_signature(sigs, msg) <= sigs.len(),
        forall|j: int|
            0 <= j < first_bad_signature(sigs, msg) ==> spec_signature_valid(
                (#[trigger] sigs[j]).0@,
                msg,
                sigs[j].1@,
            ),
        first_bad_signature(sigs, msg) < sigs.len() ==> !spec_signature_valid(
            sigs[first_bad_signature(sigs, msg)].0@,
            msg,
            sigs[first_bad_signature(sigs, msg)].1@,
        ),
    decreases sigs.len(),
{
    if sigs.len() > 0 && spec_signature_valid(sigs[0].0@, msg, sigs[0].1@) {
        lemma_first_bad_signature(sigs.drop_first(), msg);
        assert forall|j: int| 1 <= j < sigs.len() implies sigs[j] == sigs.drop_first()[j - 1] by {}
    }
}

/// What checking a quorum of signatures over `msg` gives: the first bad
/// signature is refused; otherwise the credited stake must reach the
/// threshold.
pub open spec fn quorum_check(sigs: Seq<(PublicKey, Signature)>, msg: Seq<u8>, committee: CommitteeView) -> Option<
    int,
> {
    if first_bad_signature(sigs, msg) < sigs.len() {
        Some(0)
    } else if signed_stake(sigs, committee) < committee.quorum_threshold {
        Some(1)
    } else {
        None
    }
}

/// The stake credited to `n` signers is at most `n` times the largest
/// stake.
pub proof fn lemma_signed_stake_bound(sigs: Seq<(PublicKey, Signature)>, committee: CommitteeView)
    ensures
        0 <= signed_stake(sigs, committee) <= sigs.len() * (u64::MAX as int),
    decreases sigs.len(),
{
    if sigs.len() > 0 {
        lemma_signed_stake_bound(sigs.drop_last(), committee);
        let k = sigs.last().0@;
        match validator_index(committee.validators, k) {
            Some(i) => {},
            None => {},
        }
    }
}

/// Check signatures over `message` against the committee: every signature
/// must verify, and the stake of the signers that are members must reach the
/// quorum threshold.
pub fn verify_quorum_signatures(
    message: &[u8],
    signatures: &Vec<(PublicKey, Signature)>,
    committee: &CommitteeInfo,
) -> (r: Result<(), AuthorityError>)
    ensures
        match quorum_check(signatures@, message@, committee@) {
            None => r is Ok,
            Some(k) => r matches Err(e) && (if k == 0 {
                e is InvalidSignature
            } else {
                e is InvalidStake
            }),
        },
{
    let ghost sigs = signatures@;
    let ghost msg = message@;
    proof {
        lemma_first_bad_signature(sigs, msg);
    }
    let n = signatures.len();
    let mut total_stake: u128 = 0;
    let mut i: usize = 0;
    while i < n
        invariant
            n == sigs.len(),
            sigs == signatures@,
            msg == message@,
            i <= n,
            0 <= first_bad_signature(sigs, msg) <= sigs.len(),
            forall|j: int| 0 <= j < first_bad_signature(sigs, msg) ==> spec_signature_valid(
                (#[trigger] sigs[j]).0@,
                msg,
                sigs[j].1@,
            ),
            first_bad_signature(sigs, msg) < sigs.len() ==> !spec_signature_valid(
                sigs[first_bad_signature(sigs, msg)].0@,
                msg,
                sigs[first_bad_signature(sigs, msg)].1@,
            ),
            i <= first_bad_signature(sigs, msg),
            total_stake == signed_stake(sigs.take(i as int), committee@),
        decreases n - i,
    {
        let public_key = &signatures[i].0;
        let signature = &signatures[i].1;
        if !signature.verify(message, public_key) {
            proof {
                if i < first_bad_signature(sigs, msg) {
                    assert(spec_signature_valid(sigs[i as int].0@, msg, sigs[i as int].1@));
                }
            }
            return Err(AuthorityError::InvalidSignature);
        }
        proof {
            assert(sigs.take(i + 1).drop_last() == sigs.take(i as int));
            lemma_signed_stake_bound(sigs.take(i as int), committee@);
            assert((i as int) * (u64::MAX as int) <= (usize::MAX as int) * (u64::MAX as int)) by (nonlinear_arith)
                requires
                    i <= usize::MAX,
            ;
            assert((usize::MAX as int) * (u64::MAX as int) + (u64::MAX as int) <= u128::MAX) by (nonlinear_arith)
                requires
                    usize::MAX <= u64::MAX,
            ;
        }
        match committee.get_validator(public_key) {
            Some(validator) => {
                total_stake = total_stake + validator.stake as u128;
            },
            None => {},
        }
        i = i + 1;
    }
    assert(sigs.take(n as int) == sigs);
    if total_stake < committee.quorum_threshold as u128 {
        return Err(AuthorityError::InvalidStake("Insufficient stake for quorum".to_string()));
    }
    Ok(())
}

/// Authority implementation
pub struct Authority {
    /// Keypair for signing
    keypair: KeyPair,
    /// Current state
    state: AuthorityState,
}

impl Authority {
    /// The signing key.
    pub closed spec fn spec_keypair(&self) -> KeyPair {
        self.keypair
    }

    /// The current state.
    pub closed spec fn spec_state(&self) -> AuthorityView {
        self.state@
    }

    /// An authority in epoch 0 with its own public key, address and stake.
    pub fn new(keypair: KeyPair, network_address: String, initial_stake: u64) -> (a: Authority)
        ensures
            a.spec_keypair() == keypair,
            a.spec_state().public_key == key_public(keypair),
            a.spec_state().epoch == 0,
            a.spec_state().stake == initial_stake,
            a.spec_state().network_address == network_address@,
    {
        let public_key = keypair.public();
        let state = AuthorityState { public_key, epoch: 0, stake: initial_stake, network_address };
        Authority { keypair, state }
    }

    /// The current state.
    pub fn state(&self) -> (s: &AuthorityState)
        ensures
            s@ == self.spec_state(),
    {
        &self.state
    }

    /// Verify transaction: it belongs to the current epoch and carries its
    /// sender's signature.
    pub fn verify_transaction(&self, transaction: &SignedTransaction, epoch: u64) -> (r: Result<(), AuthorityError>)
        ensures
            epoch != self.spec_state().epoch ==> r == Err::<(), AuthorityError>(AuthorityError::InvalidEpoch {
                expected: self.spec_state().epoch,
                actual: epoch,
            }),
            epoch == self.spec_state().epoch ==> (r is Ok <==> spec_signature_valid(
                transaction.data.sender@,
                enc_data(transaction.data),
                transaction.signature@,
            )) && (r matches Err(e) ==> e is InvalidSignature),
    {
        if epoch != self.state.epoch {
            return Err(AuthorityError::InvalidEpoch { expected: self.state.epoch, actual: epoch });
        }
        if !transaction.verify_signature() {
            return Err(AuthorityError::InvalidSignature);
        }
        Ok(())
    }

    /// Verify certificate: its transaction passes `verify_transaction`, and
    /// the signatures over the transaction's digest carry a quorum of the
    /// committee's stake.
    pub fn verify_certificate(
        &self,
        certificate: &TransactionCertificate,
        epoch: u64,
        committee: &CommitteeInfo,
    ) -> (r: Result<(), AuthorityError>)
        ensures
            ({
                let tx = certificate.transaction;
                let msg = spec_sha256(enc_signed(tx));
                if epoch != self.spec_state().epoch {
                    r == Err::<(), AuthorityError>(AuthorityError::InvalidEpoch {
                        expected: self.spec_state().epoch,
                        actual: epoch,
                    })
                } else if !spec_signature_valid(tx.data.sender@, enc_data(tx.data), tx.signature@) {
                    r matches Err(e) && e is InvalidSignature
                } else {
                    match quorum_check(certificate.authority_signatures@, msg, committee@) {
                        None => r is Ok,
                        Some(k) => r matches Err(e) && (if k == 0 {
                            e is InvalidSignature
                        } else {
                            e is InvalidStake
                        }),
                    }
                }
            }),
    {
        self.verify_transaction(&certificate.transaction, epoch)?;
        let digest = certificate.transaction.digest();
        verify_quorum_signatures(digest.0.as_slice(), &certificate.authority_signatures, committee)
    }

    /// Sign transaction: once it passes `verify_transaction`, sign its
    /// digest with the authority's key.
    pub fn sign_transaction(&self, transaction: &SignedTransaction, epoch: u64) -> (r: Result<
        Signature,
        AuthorityError,
    >)
        ensures
            epoch != self.spec_state().epoch ==> r == Err::<Signature, AuthorityError>(
                AuthorityError::InvalidEpoch { expected: self.spec_state().epoch, actual: epoch },
            ),
            epoch == self.spec_state().epoch ==> (r is Ok <==> spec_signature_valid(
                transaction.data.sender@,
                enc_data(transaction.data),
                transaction.signature@,
            )),
            r matches Ok(sig) ==> sig@ == key_sign(self.spec_keypair(), spec_sha256(enc_signed(*transaction))),
            r matches Err(e) ==> e is InvalidEpoch || e is InvalidSignature,
    {
        self.verify_transaction(transaction, epoch)?;
        let digest = transaction.digest();
        Ok(self.keypair.sign(digest.0.as_slice()))
    }

    /// Update epoch: take the new epoch's number, and the stake the new
    /// committee gives this authority; refused when the committee does not
    /// hold it, after the epoch number has been taken.
    pub fn update_epoch(&mut self, new_epoch: &EpochInfo) -> (r: Result<(), AuthorityError>)
        ensures
            final(self).spec_keypair() == old(self).spec_keypair(),
            final(self).spec_state().public_key == old(self).spec_state().public_key,
            final(self).spec_state().network_address == old(self).spec_state().network_address,
            final(self).spec_state().epoch == new_epoch.epoch,
            match validator_index(new_epoch@.committee.validators, old(self).spec_state().public_key) {
                Some(i) => r is Ok && final(self).spec_state().stake == new_epoch@.committee.validators[i].stake,
                None => r matches Err(e) && e is InvalidStake && final(self).spec_state().stake == old(
                    self,
                ).spec_state().stake,
            },
    {
        self.state.epoch = new_epoch.epoch;
        match new_epoch.get_stake(&self.state.public_key) {
            Some(stake) => {
                self.state.stake = stake;
                Ok(())
            },
            None => Err(AuthorityError::InvalidStake("Validator not in committee".to_string())),
        }
    }
}

/// Key of an object version in the authority's store
#[derive(Debug, Clone, Copy)]
pub struct ObjectKey {
    /// Object ID
    pub id: ObjectID,
    /// Version
    pub version: SequenceNumber,
}

impl ObjectKey {
    pub fn new(id: ObjectID, version: SequenceNumber) -> (k: ObjectKey)
        ensures
            k.id == id,
            k.version == version,
    {
        ObjectKey { id, version }
    }

    /// The key that stands for the latest version of an object: the highest
    /// sequence number.
    pub fn latest(id: &ObjectID) -> (k: ObjectKey)
        ensures
            k.id == *id,
            k.version.0 == u64::MAX,
    {
        ObjectKey { id: *id, version: SequenceNumber(u64::MAX) }
    }
}

/// Validator configuration
#[derive(Debug, Clone, Copy)]
pub struct ValidatorConfig {
    /// Runtime configuration
    pub runtime_config: RuntimeConfig,
    /// Maximum gas per transaction
    pub max_gas_per_tx: u64,
    /// Maximum concurrent transactions
    pub max_concurrent_txs: usize,
}

/// Validator metrics
#[derive(Debug, Clone, Copy, PartialEq, Eq, Structural)]
pub struct ValidatorMetrics {
    /// Last executed sequence
    pub last_sequence: u64,
    /// Gas used in current epoch
    pub gas_used: u64,
    /// Transaction count in current epoch
    pub tx_count: u64,
}

/// Execution context of one transaction run by a validator: its sequence
/// number, its gas limit, and what the run records.
#[derive(Debug)]
pub struct ExecutionContext {
    /// Sequence number
    sequence: u64,
    /// Gas limit
    gas_limit: u64,
    /// Modified objects
    modified_objects: Vec<Object>,
    /// Created objects
    created_objects: Vec<Object>,
    /// Deleted objects
    deleted_objects: Vec<ObjectID>,
    /// Events
    events: Vec<Event>,
}

impl ExecutionContext {
    pub closed spec fn spec_sequence(&self) -> u64 {
        self.sequence
    }

    pub closed spec fn spec_gas_limit(&self) -> u64 {
        self.gas_limit
    }

    pub closed spec fn spec_modified(&self) -> Seq<Object> {
        self.modified_objects@
    }

    pub closed spec fn spec_created(&self) -> Seq<Object> {
        self.created_objects@
    }

    pub closed spec fn spec_deleted(&self) -> Seq<ObjectID> {
        self.deleted_objects@
    }

    pub closed spec fn spec_events(&self) -> Seq<Event> {
        self.events@
    }

    pub fn new(sequence: u64, gas_limit: u64) -> (c: ExecutionContext)
        ensures
            c.spec_sequence() == sequence,
            c.spec_gas_limit() == gas_limit,
            c.spec_modified().len() == 0,
            c.spec_created().len() == 0,
            c.spec_deleted().len() == 0,
            c.spec_events().len() == 0,
    {
        ExecutionContext {
            sequence,
            gas_limit,
            modified_objects: Vec::new(),
            created_objects: Vec::new(),
            deleted_objects: Vec::new(),
            events: Vec::new(),
        }
    }

    pub fn sequence(&self) -> (s: u64)
        ensures
            s == self.spec_sequence(),
    {
        self.sequence
    }

    pub fn gas_limit(&self) -> (g: u64)
        ensures
            g == self.spec_gas_limit(),
    {
        self.gas_limit
    }

    pub fn add_modified_object(&mut self, object: Object)
        ensures
            final(self).spec_modified() == old(self).spec_modified().push(object),
            final(self).spec_sequence() == old(self).spec_sequence(),
            final(self).spec_gas_limit() == old(self).spec_gas_limit(),
            final(self).spec_created() == old(self).spec_created(),
            final(self).spec_deleted() == old(self).spec_deleted(),
            final(self).spec_events() == old(self).spec_events(),
    {
        self.modified_objects.push(object);
    }

    pub fn add_created_object(&mut self, object: Object)
        ensures
            final(self).spec_created() == old(self).spec_created().push(object),
            final(self).spec_sequence() == old(self).spec_sequence(),
            final(self).spec_gas_limit() == old(self).spec_gas_limit(),
            final(self).spec_modified() == old(self).spec_modified(),
            final(self).spec_deleted() == old(self).spec_deleted(),
            final(self).spec_events() == old(self).spec_events(),
    {
        self.created_objects.push(object);
    }

    pub fn add_deleted_object(&mut self, id: ObjectID)
        ensures
            final(self).spec_deleted() == old(self).spec_deleted().push(id),
            final(self).spec_sequence() == old(self).spec_sequence(),
            final(self).spec_gas_limit() == old(self).spec_gas_limit(),
            final(self).spec_modified() == old(self).spec_modified(),
            final(self).spec_created() == old(self).spec_created(),
            final(self).spec_events() == old(self).spec_events(),
    {
        self.deleted_objects.push(id);
    }

    pub fn add_event(&mut self, event: Event)
        ensures
            final(self).spec_events() == old(self).spec_events().push(event),
            final(self).spec_sequence() == old(self).spec_sequence(),
            final(self).spec_gas_limit() == old(self).spec_gas_limit(),
            final(self).spec_modified() == old(self).spec_modified(),
            final(self).spec_created() == old(self).spec_created(),
            final(self).spec_deleted() == old(self).spec_deleted(),
    {
        self.events.push(event);
    }
}

/// What a run of the runtime reports: its status, the gas it used, and the
/// objects and events it produced.
#[derive(Debug)]
pub struct ExecutionOutcome {
    /// Execution status
    pub status: ExecutionStatus,
    /// Gas used
    pub gas_used: u64,
    /// Modified objects, by id
    pub modified_objects: Vec<(ObjectID, Object)>,
    /// Created objects, by id
    pub created_objects: Vec<(ObjectID, Object)>,
    /// Deleted objects
    pub deleted_objects: Vec<ObjectID>,
    /// Events
    pub events: Vec<Event>,
}

/// Validator implementation: the metering around the executions that the
/// runtime carries out.
pub struct Validator {
    /// Configuration
    config: ValidatorConfig,
    /// Keypair for signing
    keypair: KeyPair,
    /// State
    state: ValidatorMetrics,
}

impl Validator {
    /// The configuration.
    pub closed spec fn spec_config(&self) -> ValidatorConfig {
        self.config
    }

    /// The counters.
    pub closed spec fn spec_metrics(&self) -> ValidatorMetrics {
        self.state
    }

    /// A validator with its counters at zero.
    pub fn new(config: ValidatorConfig, keypair: KeyPair) -> (v: Validator)
        ensures
            v.spec_config() == config,
            v.spec_metrics() == (ValidatorMetrics { last_sequence: 0, gas_used: 0, tx_count: 0 }),
    {
        Validator { config, keypair, state: ValidatorMetrics { last_sequence: 0, gas_used: 0, tx_count: 0 } }
    }

    /// Create execution context: the next sequence number, metered up to the
    /// per-transaction maximum.
    fn create_execution_context(&self) -> (c: ExecutionContext)
        requires
            self.spec_metrics().last_sequence < u64::MAX,
        ensures
            c.spec_sequence() == self.spec_metrics().last_sequence + 1,
            c.spec_gas_limit() == self.spec_config().max_gas_per_tx,
            c.spec_modified().len() == 0,
            c.spec_created().len() == 0,
            c.spec_deleted().len() == 0,
            c.spec_events().len() == 0,
    {
        ExecutionContext::new(self.state.last_sequence + 1, self.config.max_gas_per_tx)
    }

    /// Before an execution: the transaction's gas budget may not exceed the
    /// per-transaction maximum; the execution then gets its context.
    pub fn begin_execution(&self, transaction: &SignedTransaction) -> (r: Result<
        ExecutionContext,
        AuthorityError,
    >)
        requires
            self.spec_metrics().last_sequence < u64::MAX,
        ensures
            transaction.data.gas_budget > self.spec_config().max_gas_per_tx ==> (r matches Err(e)
                && e is ExceedGasLimit),
            transaction.data.gas_budget <= self.spec_config().max_gas_per_tx ==> (r matches Ok(c)
                && c.spec_sequence() == self.spec_metrics().last_sequence + 1
                && c.spec_gas_limit() == self.spec_config().max_gas_per_tx && c.spec_modified().len() == 0
                && c.spec_created().len() == 0 && c.spec_deleted().len() == 0 && c.spec_events().len() == 0),
    {
        if transaction.gas_budget() > self.config.max_gas_per_tx {
            return Err(AuthorityError::ExceedGasLimit);
        }
        Ok(self.create_execution_context())
    }

    /// After an execution that used `gas_used`: one more transaction in
    /// sequence.
    fn complete_execution(&mut self, gas_used: u64)
        requires
            old(self).spec_metrics().last_sequence < u64::MAX,
            old(self).spec_metrics().tx_count < u64::MAX,
            old(self).spec_metrics().gas_used + gas_used <= u64::MAX,
        ensures
            final(self).spec_config() == old(self).spec_config(),
            final(self).spec_metrics() == (ValidatorMetrics {
                last_sequence: (old(self).spec_metrics().last_sequence + 1) as u64,
                gas_used: (old(self).spec_metrics().gas_used + gas_used) as u64,
                tx_count: (old(self).spec_metrics().tx_count + 1) as u64,
            }),
    {
        self.state.last_sequence = self.state.last_sequence + 1;
        self.state.gas_used = self.state.gas_used + gas_used;
        self.state.tx_count = self.state.tx_count + 1;
    }

    /// After the run of `transaction`: the validator counts one more
    /// transaction in sequence and the gas the run used, and the effects
    /// record the transaction's digest, what the run reported, the
    /// transaction's dependencies, and no epoch change.
    pub fn finish_execution(
        &mut self,
        transaction: &SignedTransaction,
        run: ExecutionOutcome,
        dependencies: Vec<TransactionDigest>,
    ) -> (eff: TransactionEffects)
        requires
            old(self).spec_metrics().last_sequence < u64::MAX,
            old(self).spec_metrics().tx_count < u64::MAX,
            old(self).spec_metrics().gas_used + run.gas_used <= u64::MAX,
        ensures
            eff.transaction_digest@ == spec_sha256(enc_signed(*transaction)),
            eff.status == run.status,
            eff.gas_used == run.gas_used,
            eff.modified_objects@ == run.modified_objects@,
            eff.created_objects@ == run.created_objects@,
            eff.deleted_objects@ == run.deleted_objects@,
            eff.events@ == run.events@,
            eff.dependencies@ == dependencies@,
            eff.epoch_change is None,
            final(self).spec_config() == old(self).spec_config(),
            final(self).spec_metrics() == (ValidatorMetrics {
                last_sequence: (old(self).spec_metrics().last_sequence + 1) as u64,
                gas_used: (old(self).spec_metrics().gas_used + eff.gas_used) as u64,
                tx_count: (old(self).spec_metrics().tx_count + 1) as u64,
            }),
    {
        let transaction_digest = transaction.digest();
        self.complete_execution(run.gas_used);
        TransactionEffects {
            transaction_digest,
            status: run.status,
            gas_used: run.gas_used,
            modified_objects: run.modified_objects,
            created_objects: run.created_objects,
            deleted_objects: run.deleted_objects,
            events: run.events,
            dependencies,
            epoch_change: None,
        }
    }

    /// Verify certificate: it belongs to the validator's epoch, and its
    /// signatures carry a quorum of the committee's stake.
    pub fn verify_certificate(
        &self,
        certificate: &TransactionCertificate,
        certificate_epoch: u64,
        epoch: u64,
        committee: &CommitteeInfo,
    ) -> (r: Result<(), AuthorityError>)
        ensures
            certificate_epoch != epoch ==> r == Err::<(), AuthorityError>(AuthorityError::InvalidEpoch {
                expected: epoch,
                actual: certificate_epoch,
            }),
            certificate_epoch == epoch ==> match quorum_check(
                certificate.authority_signatures@,
                spec_sha256(enc_signed(certificate.transaction)),
                committee@,
            ) {
                None => r is Ok,
                Some(k) => r matches Err(e) && (if k == 0 {
                    e is InvalidSignature
                } else {
                    e is InvalidStake
                }),
            },
    {
        if certificate_epoch != epoch {
            return Err(AuthorityError::InvalidEpoch { expected: epoch, actual: certificate_epoch });
        }
        let digest = certificate.transaction.digest();
        verify_quorum_signatures(digest.0.as_slice(), &certificate.authority_signatures, committee)
    }

    /// Get validator metrics
    pub fn get_metrics(&self) -> (m: ValidatorMetrics)
        ensures
            m == self.spec_metrics(),
    {
        self.state
    }
}

/// Law: when a committee's threshold is the quorum of its total stake, a
/// set of signatures that passes the quorum check carries more than two
/// thirds of that stake, so two such sets share more than a third of it.
pub proof fn law_accepted_signatures_hold_supermajority(
    sigs: Seq<(PublicKey, Signature)>,
    msg: Seq<u8>,
    committee: CommitteeView,
)
    requires
        committee.quorum_threshold == crate::epoch::quorum_of(committee.total_stake as int),
        quorum_check(sigs, msg, committee) is None,
    ensures
        3 * signed_stake(sigs, committee) > 2 * committee.total_stake,
{
}

} // verus!
