use swift_network::crypto::{KeyPair, SignatureScheme};
use swift_network::protocol::{SignedTransaction, TransactionData, TransactionDigest, TransactionKind};
use swift_network::quorum_driver::{DriverConfig, DriverError, DriverStatus, QuorumDriver};

fn tx(kp: &KeyPair, budget: u64) -> SignedTransaction {
    let data = TransactionData {
        sender: kp.public(),
        kind: TransactionKind::Publish { modules: vec![] },
        gas_budget: budget,
        gas_price: 1,
        expiration: 0,
    };
    let signature = kp.sign(&data.encode());
    SignedTransaction { data, signature }
}

#[test]
fn driver_config_defaults() {
    let c = DriverConfig::default();
    assert_eq!(c.quorum_size, 2);
    assert_eq!(c.timeout_ms, 30_000);
    assert_eq!(c.max_pending_transactions, 10000);
    assert_eq!(c.max_concurrent_tasks, 100);
}

#[test]
fn quorum_turns_pending_transaction_into_certificate() {
    let kp = KeyPair::generate(SignatureScheme::Ed25519);
    let mut d = QuorumDriver::new(DriverConfig::default());
    let t = tx(&kp, 1);
    let digest = d.process_transaction(t.clone()).unwrap();
    assert_eq!(digest.as_bytes(), t.digest().as_bytes());
    assert!(d.poll_quorum(&digest).unwrap().is_none());
    let (a, b) = (KeyPair::generate(SignatureScheme::Ed25519), KeyPair::generate(SignatureScheme::Ed25519));
    d.handle_signature(digest, a.public(), a.sign(digest.as_bytes())).unwrap();
    assert!(d.poll_quorum(&digest).unwrap().is_none());
    d.handle_signature(digest, b.public(), b.sign(digest.as_bytes())).unwrap();
    let cert = d.poll_quorum(&digest).unwrap().unwrap();
    assert_eq!(cert.authority_signatures.len(), 2);
    assert_eq!(cert.transaction.digest().as_bytes(), digest.as_bytes());
    assert!(matches!(d.poll_quorum(&digest), Err(DriverError::ConsensusError(_))));
}

#[test]
fn unknown_digest_is_refused() {
    let kp = KeyPair::generate(SignatureScheme::Ed25519);
    let mut d = QuorumDriver::new(DriverConfig::default());
    let r = d.handle_signature(TransactionDigest([1u8; 32]), kp.public(), kp.sign(b"x"));
    assert!(matches!(r, Err(DriverError::ConsensusError(_))));
}

#[test]
fn inactive_driver_refuses_transactions() {
    let kp = KeyPair::generate(SignatureScheme::Ed25519);
    let mut d = QuorumDriver::new(DriverConfig::default());
    assert_eq!(d.status(), DriverStatus::Active);
    d.set_status(DriverStatus::Paused);
    assert!(matches!(d.process_transaction(tx(&kp, 1)), Err(DriverError::ConsensusError(_))));
    d.set_status(DriverStatus::Active);
    assert!(d.process_transaction(tx(&kp, 1)).is_ok());
}

#[test]
fn timed_out_transaction_is_dropped() {
    let kp = KeyPair::generate(SignatureScheme::Ed25519);
    let mut d = QuorumDriver::new(DriverConfig::default());
    let digest = d.process_transaction(tx(&kp, 1)).unwrap();
    let other = d.process_transaction(tx(&kp, 2)).unwrap();
    d.remove_pending(&digest);
    assert!(d.poll_quorum(&digest).is_err());
    assert!(d.poll_quorum(&other).unwrap().is_none());
}

#[test]
fn resubmitting_starts_over() {
    let kp = KeyPair::generate(SignatureScheme::Ed25519);
    let mut d = QuorumDriver::new(DriverConfig { quorum_size: 1, ..DriverConfig::default() });
    let digest = d.process_transaction(tx(&kp, 1)).unwrap();
    d.handle_signature(digest, kp.public(), kp.sign(b"s")).unwrap();
    d.process_transaction(tx(&kp, 1)).unwrap();
    assert!(d.poll_quorum(&digest).unwrap().is_none());
}
