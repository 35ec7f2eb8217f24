use swift_network::crypto::{KeyPair, SignatureScheme};
use swift_network::errors::MempoolError;
use swift_network::mempool::{Mempool, MempoolConfig, TransactionPrioritizer};
use swift_network::object::ObjectID;
use swift_network::protocol::{SignedTransaction, TransactionData, TransactionKind};
use swift_network::types::SequenceNumber;

fn tx(kp: &KeyPair, gas_price: u64, object: u8) -> SignedTransaction {
    let data = TransactionData {
        sender: kp.public(),
        kind: TransactionKind::TransferObject {
            object_id: ObjectID::from_bytes([object; 32]),
            recipient: kp.public(),
            version: SequenceNumber::new(1),
        },
        gas_budget: 100,
        gas_price,
        expiration: 0,
    };
    let signature = kp.sign(&data.encode());
    SignedTransaction { data, signature }
}

fn config(capacity: usize, per_account: usize) -> MempoolConfig {
    MempoolConfig { capacity, transaction_timeout: 1000, per_account_limit: per_account }
}

#[test]
fn mempool_config_defaults() {
    let c = MempoolConfig::default();
    assert_eq!(c.capacity, 10_000);
    assert_eq!(c.transaction_timeout, 30_000_000_000);
    assert_eq!(c.per_account_limit, 100);
}

#[test]
fn priority_is_price_per_encoded_byte() {
    let kp = KeyPair::generate(SignatureScheme::Ed25519);
    let t = tx(&kp, 3, 1);
    let p = TransactionPrioritizer::new();
    assert_eq!(p.calculate_priority(&t).0, 3_000_000 / t.encoded_size() as u64);
    let cheap = tx(&kp, 1, 2);
    assert_eq!(p.compare(&cheap, &t), std::cmp::Ordering::Less);
    assert_eq!(p.compare(&t, &t), std::cmp::Ordering::Equal);
}

#[test]
fn priority_saturates() {
    let kp = KeyPair::generate(SignatureScheme::Ed25519);
    let t = tx(&kp, u64::MAX, 1);
    let p = TransactionPrioritizer::new();
    assert_eq!(p.calculate_priority(&t).0, u64::MAX / t.encoded_size() as u64);
}

#[test]
fn duplicate_transaction_is_refused() {
    let kp = KeyPair::generate(SignatureScheme::Ed25519);
    let mut m = Mempool::new(config(10, 10));
    assert!(m.add_transaction_at(tx(&kp, 1, 1), 0).is_ok());
    assert!(matches!(m.add_transaction_at(tx(&kp, 1, 1), 0), Err(MempoolError::DuplicateTransaction)));
}

#[test]
fn full_pool_is_refused() {
    let kp = KeyPair::generate(SignatureScheme::Ed25519);
    let mut m = Mempool::new(config(2, 10));
    assert!(m.add_transaction_at(tx(&kp, 1, 1), 0).is_ok());
    assert!(m.add_transaction_at(tx(&kp, 1, 2), 0).is_ok());
    assert!(matches!(m.add_transaction_at(tx(&kp, 1, 3), 0), Err(MempoolError::MempoolFull)));
}

#[test]
fn per_account_limit_is_enforced() {
    let a = KeyPair::generate(SignatureScheme::Ed25519);
    let b = KeyPair::generate(SignatureScheme::Ed25519);
    let mut m = Mempool::new(config(10, 1));
    assert!(m.add_transaction_at(tx(&a, 1, 1), 0).is_ok());
    assert!(matches!(m.add_transaction_at(tx(&a, 1, 2), 0), Err(MempoolError::MempoolFull)));
    assert!(m.add_transaction_at(tx(&b, 1, 2), 0).is_ok());
}

#[test]
fn batch_takes_highest_priority_first_then_arrival_order() {
    let kp = KeyPair::generate(SignatureScheme::Ed25519);
    let mut m = Mempool::new(config(10, 10));
    let low = tx(&kp, 1, 1);
    let high = tx(&kp, 9, 2);
    let high2 = tx(&kp, 9, 3);
    m.add_transaction_at(low.clone(), 0).unwrap();
    m.add_transaction_at(high.clone(), 0).unwrap();
    m.add_transaction_at(high2.clone(), 0).unwrap();
    let batch = m.get_batch_at(2, 0);
    assert_eq!(batch.len(), 2);
    assert_eq!(batch[0].digest().as_bytes(), high.digest().as_bytes());
    assert_eq!(batch[1].digest().as_bytes(), high2.digest().as_bytes());
    let again = m.get_batch_at(10, 0);
    assert!(again.is_empty());
}

#[test]
fn removed_and_expired_transactions_are_skipped() {
    let kp = KeyPair::generate(SignatureScheme::Ed25519);
    let mut m = Mempool::new(config(10, 10));
    let t1 = tx(&kp, 1, 1);
    let t2 = tx(&kp, 2, 2);
    m.add_transaction_at(t1.clone(), 0).unwrap();
    m.add_transaction_at(t2.clone(), 0).unwrap();
    m.remove_transactions(&[t2.digest()]);
    let batch = m.get_batch_at(10, 5000);
    assert!(batch.is_empty());
    let mut m2 = Mempool::new(config(10, 10));
    m2.add_transaction_at(t1.clone(), 0).unwrap();
    let fresh = m2.get_batch_at(10, 1000);
    assert_eq!(fresh.len(), 1);
}

#[test]
fn garbage_collection_frees_room() {
    let kp = KeyPair::generate(SignatureScheme::Ed25519);
    let mut m = Mempool::new(config(1, 10));
    m.add_transaction_at(tx(&kp, 1, 1), 0).unwrap();
    m.garbage_collect_at(500);
    assert!(m.add_transaction_at(tx(&kp, 1, 2), 500).is_err());
    m.garbage_collect_at(2000);
    assert!(m.add_transaction_at(tx(&kp, 1, 2), 2000).is_ok());
}

#[test]
fn removing_a_transaction_frees_its_sender() {
    let kp = KeyPair::generate(SignatureScheme::Ed25519);
    let mut m = Mempool::new(config(10, 1));
    let t1 = tx(&kp, 1, 1);
    m.add_transaction_at(t1.clone(), 0).unwrap();
    m.remove_transactions(&[t1.digest()]);
    assert!(m.add_transaction_at(tx(&kp, 1, 2), 0).is_ok());
}

#[test]
fn wall_clock_variants() {
    let kp = KeyPair::generate(SignatureScheme::Ed25519);
    let mut m = Mempool::new(MempoolConfig { capacity: 10, transaction_timeout: 60_000_000_000, per_account_limit: 10 });
    assert!(m.add_transaction(tx(&kp, 1, 1)).is_ok());
    m.garbage_collect();
    let batch = m.get_batch(10);
    assert_eq!(batch.len(), 1);
}
