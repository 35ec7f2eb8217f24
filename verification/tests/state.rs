use swift_network::accumulator::{AccumulatorNode, StateAccumulator};
use swift_network::authority::{verify_quorum_signatures, Authority, ExecutionOutcome, ObjectKey, Validator, ValidatorConfig, ValidatorMetrics};
use swift_network::authority_checkpoint::{self as ack, TransactionEffects};
use swift_network::certificate::TransactionCertificate;
use swift_network::checkpoint::{Checkpoint, CheckpointStore, PruneConfig, StatePruner, StateVersion};
use swift_network::crypto::{KeyPair, PublicKey, SignatureScheme};
use swift_network::effects::{ExecutionStatus, Event};
use swift_network::epoch::{AuthorityState, CommitteeInfo, EpochConfig, EpochInfo, EpochManager};
use swift_network::errors::{AuthorityError, StateError};
use sha2::Digest;
use swift_network::object::{Object, ObjectID, Owner};
use swift_network::protocol::{SignedTransaction, TransactionData, TransactionDigest, TransactionKind};
use swift_network::types::{SequenceNumber, TypeTag};
use swift_network::validation::{ExecutionConfig, RuntimeConfig};

fn sha256(data: &[u8]) -> [u8; 32] {
    sha2::Sha256::digest(data).into()
}

fn digest(b: u8) -> TransactionDigest {
    TransactionDigest([b; 32])
}

#[test]
fn accumulator_two_leaves_root() {
    let mut acc = StateAccumulator::new();
    assert!(acc.append(b"a").is_ok());
    assert!(acc.append(b"b").is_ok());
    let expect = AccumulatorNode::internal(AccumulatorNode::leaf(b"a"), AccumulatorNode::leaf(b"b")).hash;
    assert_eq!(acc.root_hash(), Some(expect));
}

#[test]
fn accumulator_three_leaves_pad_with_empty_subtree() {
    let mut acc = StateAccumulator::new();
    for d in [&b"a"[..], &b"b"[..], &b"c"[..]] {
        acc.append(d).unwrap();
    }
    let empty = AccumulatorNode { hash: [0u8; 32], left: None, right: None };
    let ab = AccumulatorNode::internal(AccumulatorNode::leaf(b"a"), AccumulatorNode::leaf(b"b"));
    let c = AccumulatorNode::internal(AccumulatorNode::leaf(b"c"), empty);
    assert_eq!(acc.root_hash(), Some(AccumulatorNode::internal(ab, c).hash));
}

#[test]
fn accumulator_every_leaf_proof_verifies() {
    let data: Vec<Vec<u8>> = (0u8..9).map(|i| vec![i, i.wrapping_mul(7)]).collect();
    let mut acc = StateAccumulator::new();
    for (n, d) in data.iter().enumerate() {
        acc.append(d).unwrap();
        let root = acc.root_hash().unwrap();
        for i in 0..=n {
            let proof = acc.get_proof(i).unwrap();
            assert!(StateAccumulator::verify_proof(root, &data[i], &proof, i));
            assert!(!StateAccumulator::verify_proof(root, b"not a leaf", &proof, i));
            if n > 0 {
                assert!(!StateAccumulator::verify_proof(root, &data[i], &proof, i ^ 1));
            }
        }
        assert!(matches!(acc.get_proof(n + 1), Err(StateError::InvalidState(_))));
    }
}

#[test]
fn accumulator_single_leaf_root_and_proof() {
    let mut acc = StateAccumulator::new();
    assert!(acc.root_hash().is_none());
    acc.append(b"leaf").unwrap();
    let mut pre = vec![0u8];
    pre.extend_from_slice(b"leaf");
    let root = acc.root_hash().unwrap();
    assert_eq!(root, sha256(&pre));
    let proof = acc.get_proof(0).unwrap();
    assert!(proof.is_empty());
    assert!(StateAccumulator::verify_proof(root, b"leaf", &proof, 0));
    assert!(!StateAccumulator::verify_proof(root, b"other", &proof, 0));
    assert!(matches!(acc.get_proof(1), Err(StateError::InvalidState(_))));
}

#[test]
fn accumulator_proof_of_two_leaves() {
    let a = AccumulatorNode::leaf(b"a");
    let b = AccumulatorNode::leaf(b"b");
    let (ha, hb) = (a.hash, b.hash);
    let root = AccumulatorNode::internal(a, b);
    let mut pre = vec![1u8];
    pre.extend_from_slice(&ha);
    pre.extend_from_slice(&hb);
    assert_eq!(root.hash, sha256(&pre));
    assert!(StateAccumulator::verify_proof(root.hash, b"a", &[hb], 0));
    assert!(StateAccumulator::verify_proof(root.hash, b"b", &[ha], 1));
    assert!(!StateAccumulator::verify_proof(root.hash, b"b", &[ha], 0));
}

#[test]
fn checkpoint_digest_covers_contents() {
    let c = Checkpoint::new(3, Some([1u8; 32]), 10, vec![digest(2)], [3u8; 32], 1);
    assert!(c.verify());
    let mut pre = Vec::new();
    pre.extend_from_slice(&3u64.to_le_bytes());
    pre.extend_from_slice(&[1u8; 32]);
    pre.extend_from_slice(&10u64.to_le_bytes());
    pre.extend_from_slice(&[2u8; 32]);
    pre.extend_from_slice(&[3u8; 32]);
    pre.extend_from_slice(&1u64.to_le_bytes());
    assert_eq!(c.digest, sha256(&pre));
    let d = Checkpoint::new(3, None, 10, vec![digest(2)], [3u8; 32], 1);
    assert_ne!(c.digest, d.digest);
}

#[test]
fn checkpoint_store_reads_back_and_refuses_tampering() {
    let mut s = CheckpointStore::new();
    let c = Checkpoint::new(5, None, 1, vec![], [0u8; 32], 0);
    s.put_checkpoint(c).unwrap();
    assert_eq!(s.get_checkpoint(5).unwrap().timestamp, 1);
    assert!(s.get_checkpoint(4).is_none());
    let mut bad = Checkpoint::new(6, None, 1, vec![], [0u8; 32], 0);
    bad.timestamp = 2;
    assert!(matches!(s.put_checkpoint(bad), Err(StateError::InvalidState(_))));
    assert!(s.get_checkpoint(6).is_none());
    s.put_checkpoint(Checkpoint::new(5, None, 9, vec![], [0u8; 32], 0)).unwrap();
    assert_eq!(s.get_checkpoint(5).unwrap().timestamp, 9);
}

#[test]
fn latest_checkpoint_has_highest_sequence() {
    let mut s = CheckpointStore::new();
    assert!(s.get_latest_checkpoint().is_none());
    for seq in [4u64, 9, 2] {
        s.put_checkpoint(Checkpoint::new(seq, None, seq, vec![], [0u8; 32], 0)).unwrap();
    }
    assert_eq!(s.get_latest_checkpoint().unwrap().sequence, 9);
    s.delete_checkpoint(9);
    assert_eq!(s.get_latest_checkpoint().unwrap().sequence, 4);
}

#[test]
fn prune_defaults_and_target() {
    let c = PruneConfig::default();
    assert_eq!(c.min_checkpoints, 1000);
    assert_eq!(c.max_checkpoints, 10000);
    assert_eq!(c.prune_interval_ms, 3_600_000);
    let p = StatePruner::new(c);
    assert_eq!(p.prune_target(None), None);
    assert_eq!(p.prune_target(Some(10000)), None);
    assert_eq!(p.prune_target(Some(10500)), None);
    assert_eq!(p.prune_target(Some(11000)), Some(1000));
    assert_eq!(p.prune_target(Some(20000)), Some(10000));
}

#[test]
fn prune_drops_checkpoints_below_target() {
    let p = StatePruner::new(PruneConfig { min_checkpoints: 1, max_checkpoints: 3, prune_interval_ms: 1 });
    let mut s = CheckpointStore::new();
    for seq in 0u64..8 {
        s.put_checkpoint(Checkpoint::new(seq, None, 0, vec![], [0u8; 32], 0)).unwrap();
    }
    assert_eq!(p.prune(&mut s), Some(4));
    for seq in 0u64..4 {
        assert!(s.get_checkpoint(seq).is_none());
    }
    for seq in 4u64..8 {
        assert!(s.get_checkpoint(seq).is_some());
    }
    assert_eq!(p.prune(&mut s), Some(4));
    let mut small = CheckpointStore::new();
    small.put_checkpoint(Checkpoint::new(2, None, 0, vec![], [0u8; 32], 0)).unwrap();
    assert_eq!(p.prune(&mut small), None);
    assert!(small.get_checkpoint(2).is_some());
}

#[test]
fn state_version_compares() {
    assert!(StateVersion(3) == StateVersion(3));
    assert!(StateVersion(3) != StateVersion(4));
}

fn obj(id: u8, data: u8) -> Object {
    Object::new(ObjectID::from_bytes([id; 32]), Owner::Immutable, TypeTag::U8, vec![data])
}

fn effects(d: u8, created: Vec<(u8, u8)>, modified: Vec<(u8, u8)>, deleted: Vec<u8>) -> TransactionEffects {
    TransactionEffects {
        transaction_digest: digest(d),
        status: ExecutionStatus::Success,
        gas_used: 0,
        modified_objects: modified.into_iter().map(|(i, v)| (ObjectID::from_bytes([i; 32]), obj(i, v))).collect(),
        created_objects: created.into_iter().map(|(i, v)| (ObjectID::from_bytes([i; 32]), obj(i, v))).collect(),
        deleted_objects: deleted.into_iter().map(|i| ObjectID::from_bytes([i; 32])).collect(),
        events: vec![Event { type_: "e".to_string(), timestamp: 0 }],
        dependencies: vec![],
        epoch_change: None,
    }
}

#[test]
fn authority_checkpoint_replays_effects() {
    let effs = vec![
        effects(1, vec![(1, 1), (2, 2)], vec![], vec![]),
        effects(2, vec![(3, 3)], vec![(1, 9)], vec![2]),
    ];
    let c = ack::Checkpoint::new(1, None, 0, vec![digest(1), digest(2)], effs, [0u8; 32], 0, None);
    assert!(c.verify());
    let mut s = ack::CheckpointStore::new();
    s.put_checkpoint(c).unwrap();
    let state = s.get_state_at_checkpoint(1).unwrap();
    assert_eq!(state.len(), 2);
    assert_eq!(state.get(&ObjectID::from_bytes([1u8; 32])).unwrap().data(), &[9u8][..]);
    assert!(!state.contains(&ObjectID::from_bytes([2u8; 32])));
    assert!(state.contains(&ObjectID::from_bytes([3u8; 32])));
    assert!(matches!(s.get_state_at_checkpoint(7), Err(AuthorityError::CheckpointNotFound(7))));
}

#[test]
fn authority_checkpoint_digest_covers_effects() {
    let a = ack::Checkpoint::new(1, None, 0, vec![], vec![effects(1, vec![], vec![], vec![])], [0u8; 32], 0, None);
    let b = ack::Checkpoint::new(1, None, 0, vec![], vec![effects(2, vec![], vec![], vec![])], [0u8; 32], 0, None);
    assert_ne!(a.digest, b.digest);
    let mut tampered = ack::Checkpoint::new(1, None, 0, vec![], vec![], [0u8; 32], 0, None);
    tampered.epoch = 5;
    let mut s = ack::CheckpointStore::new();
    assert!(matches!(s.put_checkpoint(tampered), Err(AuthorityError::InvalidCheckpoint(_))));
}

#[test]
fn authority_checkpoint_range_and_latest() {
    let mut s = ack::CheckpointStore::new();
    for seq in [1u64, 3, 5, 7] {
        s.put_checkpoint(ack::Checkpoint::new(seq, None, 0, vec![], vec![], [0u8; 32], 0, None)).unwrap();
    }
    let r = s.get_checkpoint_range(2, 6);
    assert_eq!(r.iter().map(|c| c.sequence).collect::<Vec<_>>(), vec![3, 5]);
    assert!(s.get_checkpoint_range(8, 9).is_empty());
    assert_eq!(s.get_latest_checkpoint().unwrap().sequence, 7);
    assert_eq!(s.get_checkpoint(3).unwrap().sequence, 3);
}

fn epoch_config() -> EpochConfig {
    EpochConfig { epoch_duration_ms: 1000, min_validator_stake: 10, max_validator_count: 3 }
}

fn key() -> PublicKey {
    KeyPair::generate(SignatureScheme::Ed25519).public()
}

#[test]
fn genesis_epoch_is_empty() {
    let g = EpochInfo::genesis();
    assert_eq!(g.epoch, 0);
    assert_eq!(g.committee.validators.len(), 0);
    assert_eq!(g.committee.total_stake(), 0);
    assert!(g.has_ended(0));
}

#[test]
fn prepare_next_epoch_builds_committee() {
    let mut m = EpochManager::new(epoch_config(), None);
    let (a, b) = (key(), key());
    let c = m.prepare_next_epoch(vec![(a.clone(), 10), (b.clone(), 20)]).unwrap();
    assert_eq!(c.epoch, 1);
    assert_eq!(c.total_stake, 30);
    assert_eq!(c.quorum_threshold, 21);
    assert!(c.has_quorum(21));
    assert!(!c.has_quorum(20));
    assert_eq!(c.get_validator(&b).unwrap().stake, 20);
    assert!(c.get_validator(&key()).is_none());
    assert_eq!(m.get_next_committee().unwrap().total_stake, 30);
}

#[test]
fn prepare_next_epoch_refusals() {
    let mut m = EpochManager::new(epoch_config(), None);
    let r = m.prepare_next_epoch(vec![(key(), 10), (key(), 10), (key(), 10), (key(), 10)]);
    assert!(matches!(r, Err(AuthorityError::TooManyValidators)));
    let r = m.prepare_next_epoch(vec![(key(), 10), (key(), 9)]);
    assert!(matches!(r, Err(AuthorityError::InsufficientValidatorStake)));
    assert!(m.get_next_committee().is_none());
}

#[test]
fn start_new_epoch_uses_prepared_committee_once() {
    let mut m = EpochManager::new(epoch_config(), None);
    assert!(matches!(m.start_new_epoch(5), Err(AuthorityError::NoNextEpochCommittee)));
    let a = key();
    m.prepare_next_epoch(vec![(a.clone(), 50)]).unwrap();
    let e = m.start_new_epoch(100).unwrap();
    assert_eq!(e.epoch, 1);
    assert_eq!(e.start_timestamp, 100);
    assert_eq!(e.end_timestamp, 1100);
    assert_eq!(e.get_stake(&a), Some(50));
    assert_eq!(m.get_current_epoch().epoch, 1);
    assert!(!m.should_end_epoch(1099));
    assert!(m.should_end_epoch(1100));
    assert!(matches!(m.start_new_epoch(200), Err(AuthorityError::NoNextEpochCommittee)));
}

#[test]
fn epoch_statistics_accumulate() {
    let mut m = EpochManager::new(epoch_config(), Some(EpochInfo::genesis()));
    m.update_statistics(5).unwrap();
    m.update_statistics(7).unwrap();
    let e = m.get_current_epoch();
    assert_eq!(e.total_transactions, 2);
    assert_eq!(e.total_gas_used, 12);
}

fn signed(kp: &KeyPair) -> SignedTransaction {
    let data = TransactionData {
        sender: kp.public(),
        kind: TransactionKind::Publish { modules: vec![vec![1, 2, 3]] },
        gas_budget: 50,
        gas_price: 1,
        expiration: 0,
    };
    let signature = kp.sign(&data.encode());
    SignedTransaction { data, signature }
}

fn committee(members: &[(&KeyPair, u64)]) -> CommitteeInfo {
    let validators: Vec<AuthorityState> = members
        .iter()
        .map(|(k, s)| AuthorityState { public_key: k.public(), epoch: 1, stake: *s, network_address: String::new() })
        .collect();
    let total: u64 = members.iter().map(|(_, s)| *s).sum();
    CommitteeInfo { epoch: 1, validators, quorum_threshold: total * 2 / 3 + 1, total_stake: total }
}

#[test]
fn authority_verifies_epoch_and_signature() {
    let me = KeyPair::generate(SignatureScheme::Ed25519);
    let auth = Authority::new(me.clone(), "addr".to_string(), 100);
    assert_eq!(auth.state().stake, 100);
    assert_eq!(auth.state().epoch, 0);
    let sender = KeyPair::generate(SignatureScheme::Ed25519);
    let tx = signed(&sender);
    assert!(auth.verify_transaction(&tx, 0).is_ok());
    assert!(matches!(auth.verify_transaction(&tx, 1), Err(AuthorityError::InvalidEpoch { expected: 0, actual: 1 })));
    let forged = SignedTransaction { data: signed(&sender).data, signature: me.sign(b"x") };
    assert!(matches!(auth.verify_transaction(&forged, 0), Err(AuthorityError::InvalidSignature)));
    let sig = auth.sign_transaction(&tx, 0).unwrap();
    assert!(me.public().verify(tx.digest().as_bytes(), &sig));
}

#[test]
fn authority_certificate_needs_quorum_stake() {
    let me = KeyPair::generate(SignatureScheme::Ed25519);
    let auth = Authority::new(me, "addr".to_string(), 1);
    let (a, b, c) = (
        KeyPair::generate(SignatureScheme::Ed25519),
        KeyPair::generate(SignatureScheme::Ed25519),
        KeyPair::generate(SignatureScheme::Ed25519),
    );
    let comm = committee(&[(&a, 2), (&b, 2), (&c, 1)]);
    assert_eq!(comm.quorum_threshold, 4);
    let tx = signed(&KeyPair::generate(SignatureScheme::Ed25519));
    let d = tx.digest();
    let good = TransactionCertificate {
        transaction: tx.clone(),
        authority_signatures: vec![(a.public(), a.sign(d.as_bytes())), (b.public(), b.sign(d.as_bytes()))],
    };
    assert!(auth.verify_certificate(&good, 0, &comm).is_ok());
    let weak = TransactionCertificate {
        transaction: tx.clone(),
        authority_signatures: vec![(a.public(), a.sign(d.as_bytes()))],
    };
    assert!(matches!(auth.verify_certificate(&weak, 0, &comm), Err(AuthorityError::InvalidStake(_))));
    let bad = TransactionCertificate {
        transaction: tx,
        authority_signatures: vec![(a.public(), a.sign(b"nope")), (b.public(), b.sign(d.as_bytes()))],
    };
    assert!(matches!(auth.verify_certificate(&bad, 0, &comm), Err(AuthorityError::InvalidSignature)));
    assert!(matches!(auth.verify_certificate(&bad, 3, &comm), Err(AuthorityError::InvalidEpoch { .. })));
}

#[test]
fn stranger_signatures_add_no_stake() {
    let a = KeyPair::generate(SignatureScheme::Ed25519);
    let s = KeyPair::generate(SignatureScheme::Ed25519);
    let comm = committee(&[(&a, 3)]);
    let sigs = vec![(s.public(), s.sign(b"m"))];
    assert!(matches!(verify_quorum_signatures(b"m", &sigs, &comm), Err(AuthorityError::InvalidStake(_))));
    let ok = vec![(a.public(), a.sign(b"m"))];
    assert!(verify_quorum_signatures(b"m", &ok, &comm).is_ok());
}

#[test]
fn authority_follows_epoch_change() {
    let me = KeyPair::generate(SignatureScheme::Ed25519);
    let mut auth = Authority::new(me.clone(), "addr".to_string(), 1);
    let mut m = EpochManager::new(epoch_config(), None);
    m.prepare_next_epoch(vec![(me.public(), 77)]).unwrap();
    let e = m.start_new_epoch(0).unwrap();
    auth.update_epoch(&e).unwrap();
    assert_eq!(auth.state().epoch, 1);
    assert_eq!(auth.state().stake, 77);
    let mut outsider = Authority::new(KeyPair::generate(SignatureScheme::Ed25519), "x".to_string(), 5);
    assert!(matches!(outsider.update_epoch(&e), Err(AuthorityError::InvalidStake(_))));
    assert_eq!(outsider.state().epoch, 1);
    assert_eq!(outsider.state().stake, 5);
}

#[test]
fn validator_meters_executions() {
    let config = ValidatorConfig {
        runtime_config: RuntimeConfig { execution: ExecutionConfig { max_gas_per_tx: 100, max_events: 10 } },
        max_gas_per_tx: 100,
        max_concurrent_txs: 4,
    };
    let mut v = Validator::new(config, KeyPair::generate(SignatureScheme::Ed25519));
    let tx = signed(&KeyPair::generate(SignatureScheme::Ed25519));
    let ctx = v.begin_execution(&tx).unwrap();
    assert_eq!((ctx.sequence(), ctx.gas_limit()), (1, 100));
    v.finish_execution(&tx, outcome(30, vec![], vec![]), vec![]);
    let mut ctx = v.begin_execution(&tx).unwrap();
    assert_eq!((ctx.sequence(), ctx.gas_limit()), (2, 100));
    ctx.add_created_object(obj(1, 1));
    ctx.add_modified_object(obj(2, 2));
    ctx.add_deleted_object(ObjectID::from_bytes([3u8; 32]));
    ctx.add_event(Event { type_: "x".to_string(), timestamp: 0 });
    assert_eq!(ctx.sequence(), 2);
    v.finish_execution(&tx, outcome(12, vec![], vec![]), vec![]);
    assert!(v.get_metrics() == ValidatorMetrics { last_sequence: 2, gas_used: 42, tx_count: 2 });
    let mut greedy = signed(&KeyPair::generate(SignatureScheme::Ed25519));
    greedy.data.gas_budget = 101;
    assert!(matches!(v.begin_execution(&greedy), Err(AuthorityError::ExceedGasLimit)));
}

fn outcome(gas_used: u64, created: Vec<Object>, deleted: Vec<ObjectID>) -> ExecutionOutcome {
    ExecutionOutcome {
        status: ExecutionStatus::Success,
        gas_used,
        modified_objects: vec![],
        created_objects: created.into_iter().map(|o| (o.id(), o)).collect(),
        deleted_objects: deleted,
        events: vec![Event { type_: "ran".to_string(), timestamp: 7 }],
    }
}

#[test]
fn validator_effects_record_the_run() {
    let config = ValidatorConfig {
        runtime_config: RuntimeConfig { execution: ExecutionConfig { max_gas_per_tx: 100, max_events: 10 } },
        max_gas_per_tx: 100,
        max_concurrent_txs: 4,
    };
    let mut v = Validator::new(config, KeyPair::generate(SignatureScheme::Ed25519));
    let tx = signed(&KeyPair::generate(SignatureScheme::Ed25519));
    v.begin_execution(&tx).unwrap();
    let dep = TransactionDigest([9u8; 32]);
    let eff = v.finish_execution(&tx, outcome(25, vec![obj(4, 4)], vec![ObjectID::from_bytes([5u8; 32])]), vec![dep]);
    assert_eq!(eff.transaction_digest.0, tx.digest().0);
    assert_ne!(eff.transaction_digest.0, [0u8; 32]);
    assert!(matches!(eff.status, ExecutionStatus::Success));
    assert_eq!(eff.gas_used, 25);
    assert_eq!(eff.created_objects.len(), 1);
    assert_eq!(eff.created_objects[0].0, ObjectID::from_bytes([4u8; 32]));
    assert!(eff.modified_objects.is_empty());
    assert_eq!(eff.deleted_objects, vec![ObjectID::from_bytes([5u8; 32])]);
    assert_eq!(eff.events.len(), 1);
    assert_eq!(eff.events[0].timestamp, 7);
    assert_eq!(eff.dependencies.len(), 1);
    assert_eq!(eff.dependencies[0].0, [9u8; 32]);
    assert!(eff.epoch_change.is_none());
    assert!(v.get_metrics() == ValidatorMetrics { last_sequence: 1, gas_used: 25, tx_count: 1 });
}

#[test]
fn object_key_latest_is_max_version() {
    let id = ObjectID::from_bytes([1u8; 32]);
    assert_eq!(ObjectKey::latest(&id).version.value(), u64::MAX);
    assert_eq!(ObjectKey::new(id, SequenceNumber::new(3)).version.value(), 3);
}

#[test]
fn accepted_signatures_carry_two_thirds() {
    let keys: Vec<KeyPair> = (0..4).map(|_| KeyPair::generate(SignatureScheme::Ed25519)).collect();
    let comm = committee(&[(&keys[0], 1), (&keys[1], 1), (&keys[2], 1), (&keys[3], 1)]);
    assert_eq!(comm.quorum_threshold, 3);
    let sigs: Vec<(PublicKey, swift_network::crypto::Signature)> =
        keys[..3].iter().map(|k| (k.public(), k.sign(b"m"))).collect();
    assert!(verify_quorum_signatures(b"m", &sigs, &comm).is_ok());
    assert!(3 * 3 > 2 * comm.total_stake);
    assert!(verify_quorum_signatures(b"m", &sigs[..2].to_vec(), &comm).is_err());
}

#[test]
fn quorum_threshold_examples() {
    let mut m = EpochManager::new(EpochConfig { epoch_duration_ms: 1, min_validator_stake: 0, max_validator_count: 10 }, None);
    for (total, expected) in [(1u64, 1u64), (2, 2), (3, 3), (4, 3), (100, 67)] {
        let c = m.prepare_next_epoch(vec![(key(), total)]).unwrap();
        assert_eq!(c.quorum_threshold, expected);
        assert!(3 * c.quorum_threshold > 2 * c.total_stake);
        assert!(c.quorum_threshold <= c.total_stake);
    }
    let empty = m.prepare_next_epoch(vec![]).unwrap();
    assert_eq!(empty.quorum_threshold, 1);
    assert!(!empty.has_quorum(0));
}
