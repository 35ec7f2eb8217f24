use swift_network::certificate::{CertificateBuilder, Committee, TransactionCertificate};
use swift_network::crypto::{KeyPair, PublicKey, Signature, SignatureScheme};
use swift_network::errors::{CryptoError, ProtocolError};
use sha2::Digest;
use swift_network::object::ObjectID;
use swift_network::protocol::{CallArg, SignedTransaction, TransactionData, TransactionKind};
use swift_network::types::{SequenceNumber, TypeTag};

fn sha256(data: &[u8]) -> [u8; 32] {
    sha2::Sha256::digest(data).into()
}

fn transfer_data(sender: PublicKey, gas_price: u64) -> TransactionData {
    let recipient = KeyPair::generate(SignatureScheme::Ed25519).public();
    TransactionData {
        sender,
        kind: TransactionKind::TransferObject {
            object_id: ObjectID::from_bytes([1u8; 32]),
            recipient,
            version: SequenceNumber::new(1),
        },
        gas_budget: 1000,
        gas_price,
        expiration: 0,
    }
}

fn signed_transfer(kp: &KeyPair, gas_price: u64) -> SignedTransaction {
    let data = transfer_data(kp.public(), gas_price);
    let signature = kp.sign(&data.encode());
    SignedTransaction { data, signature }
}

#[test]
fn ed25519_sign_then_verify() {
    let kp = KeyPair::generate(SignatureScheme::Ed25519);
    assert_eq!(kp.scheme(), SignatureScheme::Ed25519);
    let pk = kp.public();
    let sig = kp.sign(b"hello");
    assert!(pk.verify(b"hello", &sig));
    assert!(sig.verify(b"hello", &pk));
    assert!(!pk.verify(b"hellp", &sig));
    assert_eq!(pk.to_bytes().len(), 32);
    assert_eq!(sig.to_bytes().len(), 64);
}

#[test]
fn bls_sign_then_verify() {
    let kp = KeyPair::generate(SignatureScheme::BLS);
    let pk = kp.public();
    assert_eq!(pk.scheme(), SignatureScheme::BLS);
    let sig = kp.sign(b"block");
    assert!(pk.verify(b"block", &sig));
    assert!(!pk.verify(b"other", &sig));
    assert_eq!(pk.to_bytes().len(), 48);
    assert_eq!(sig.to_bytes().len(), 96);
}

#[test]
fn generated_keys_differ() {
    let a = KeyPair::generate(SignatureScheme::Ed25519);
    let b = KeyPair::generate(SignatureScheme::Ed25519);
    assert!(!(a.public() == b.public()));
    let c = KeyPair::generate(SignatureScheme::BLS);
    let d = KeyPair::generate(SignatureScheme::BLS);
    assert!(!(c.public() == d.public()));
}

#[test]
fn signature_of_other_scheme_does_not_verify() {
    let ed = KeyPair::generate(SignatureScheme::Ed25519);
    let bls = KeyPair::generate(SignatureScheme::BLS);
    let sig = bls.sign(b"m");
    assert!(!ed.public().verify(b"m", &sig));
}

#[test]
fn keypair_from_private_key_bytes() {
    let kp = KeyPair::from_private_key_bytes(SignatureScheme::Ed25519, &[5u8; 32]).unwrap();
    let again = KeyPair::from_private_key_bytes(SignatureScheme::Ed25519, &[5u8; 32]).unwrap();
    assert!(kp.public() == again.public());
    assert_ne!(kp.public().to_bytes(), vec![5u8; 32]);
    let sig = kp.sign(b"x");
    assert!(again.public().verify(b"x", &sig));
    assert!(matches!(
        KeyPair::from_private_key_bytes(SignatureScheme::Ed25519, &[5u8; 31]),
        Err(CryptoError::InvalidKey(_))
    ));
    assert!(matches!(
        KeyPair::from_private_key_bytes(SignatureScheme::BLS, &[0u8; 32]),
        Err(CryptoError::InvalidKey(_))
    ));
}

#[test]
fn signature_from_bytes() {
    let kp = KeyPair::generate(SignatureScheme::Ed25519);
    let sig = kp.sign(b"abc");
    let parsed = Signature::from_bytes(SignatureScheme::Ed25519, &sig.to_bytes()).unwrap();
    assert!(kp.public().verify(b"abc", &parsed));
    assert!(matches!(
        Signature::from_bytes(SignatureScheme::Ed25519, &[0u8; 63]),
        Err(CryptoError::InvalidSignature(_))
    ));
    let mut bad = [0u8; 64];
    bad[63] = 0xff;
    assert!(Signature::from_bytes(SignatureScheme::Ed25519, &bad).is_err());
    assert!(Signature::from_bytes(SignatureScheme::BLS, &[1u8; 10]).is_err());
    let bls = KeyPair::generate(SignatureScheme::BLS);
    let bsig = bls.sign(b"abc");
    let bparsed = Signature::from_bytes(SignatureScheme::BLS, &bsig.to_bytes()).unwrap();
    assert!(bls.public().verify(b"abc", &bparsed));
}

#[test]
fn transaction_signature_and_digest() {
    let kp = KeyPair::generate(SignatureScheme::Ed25519);
    let tx = signed_transfer(&kp, 5);
    assert!(tx.verify_signature());
    assert_eq!(tx.gas_price(), 5);
    assert_eq!(tx.gas_budget(), 1000);
    assert!(*tx.sender() == kp.public());
    let enc = tx.encode();
    assert_eq!(enc.len(), tx.encoded_size());
    assert_eq!(tx.digest().as_bytes(), &sha256(&enc));
    let copy = tx.clone();
    assert_eq!(copy.digest().as_bytes(), tx.digest().as_bytes());
    let other = KeyPair::generate(SignatureScheme::Ed25519);
    let forged = SignedTransaction { data: transfer_data(kp.public(), 5), signature: other.sign(&tx.data.encode()) };
    assert!(!forged.verify_signature());
}

#[test]
fn move_call_encoding_covers_arguments() {
    let kp = KeyPair::generate(SignatureScheme::Ed25519);
    let mk = |arg: u8| TransactionData {
        sender: kp.public(),
        kind: TransactionKind::MoveCall {
            package: ObjectID::from_bytes([2u8; 32]),
            module: "m".to_string(),
            function: "f".to_string(),
            type_arguments: vec![TypeTag::U64],
            arguments: vec![CallArg::Pure(vec![arg])],
        },
        gas_budget: 1,
        gas_price: 1,
        expiration: 0,
    };
    assert_ne!(mk(1).encode(), mk(2).encode());
}

fn committee_of(keys: &[&KeyPair], weight: u64) -> Committee {
    let vals: Vec<(PublicKey, u64)> = keys.iter().map(|k| (k.public(), weight)).collect();
    Committee::new(vals, weight * keys.len() as u64)
}

#[test]
fn committee_weights_and_threshold() {
    let a = KeyPair::generate(SignatureScheme::Ed25519);
    let b = KeyPair::generate(SignatureScheme::Ed25519);
    let c = committee_of(&[&a, &b], 5);
    assert_eq!(c.weight(&a.public()), Some(5));
    assert_eq!(c.weight(&KeyPair::generate(SignatureScheme::Ed25519).public()), None);
    assert_eq!(c.quorum_threshold(), 7);
}

#[test]
fn certificate_builder_and_verify() {
    let sender = KeyPair::generate(SignatureScheme::Ed25519);
    let tx = signed_transfer(&sender, 1);
    let msg = tx.data.encode();
    let a = KeyPair::generate(SignatureScheme::Ed25519);
    let b = KeyPair::generate(SignatureScheme::Ed25519);
    let committee = committee_of(&[&a, &b], 1);
    let mut builder = CertificateBuilder::new(tx.clone());
    assert!(builder.add_signature(a.public(), a.sign(&msg)).is_ok());
    assert!(matches!(
        builder.add_signature(a.public(), a.sign(&msg)),
        Err(ProtocolError::InvalidCertificate(_))
    ));
    assert!(matches!(
        builder.add_signature(b.public(), b.sign(b"wrong")),
        Err(ProtocolError::InvalidSignature(_))
    ));
    assert!(builder.add_signature(b.public(), b.sign(&msg)).is_ok());
    let cert = builder.build().unwrap();
    assert_eq!(cert.authority_signatures.len(), 2);
    assert!(cert.verify(&committee).is_ok());
}

#[test]
fn certificate_below_quorum_or_with_stranger_is_refused() {
    let sender = KeyPair::generate(SignatureScheme::Ed25519);
    let tx = signed_transfer(&sender, 1);
    let msg = tx.data.encode();
    let a = KeyPair::generate(SignatureScheme::Ed25519);
    let b = KeyPair::generate(SignatureScheme::Ed25519);
    let c = KeyPair::generate(SignatureScheme::Ed25519);
    let d = KeyPair::generate(SignatureScheme::Ed25519);
    let committee = committee_of(&[&a, &b, &c, &d], 1);
    let weak = TransactionCertificate {
        transaction: tx.clone(),
        authority_signatures: vec![(a.public(), a.sign(&msg)), (b.public(), b.sign(&msg))],
    };
    assert!(matches!(weak.verify(&committee), Err(ProtocolError::InvalidCertificate(_))));
    let stranger = KeyPair::generate(SignatureScheme::Ed25519);
    let with_stranger = TransactionCertificate {
        transaction: tx.clone(),
        authority_signatures: vec![(stranger.public(), stranger.sign(&msg))],
    };
    assert!(matches!(with_stranger.verify(&committee), Err(ProtocolError::InvalidCertificate(_))));
    let bad_sig = TransactionCertificate {
        transaction: tx,
        authority_signatures: vec![(a.public(), a.sign(b"other"))],
    };
    assert!(matches!(bad_sig.verify(&committee), Err(ProtocolError::InvalidSignature(_))));
}

#[test]
fn builder_needs_two_signatures() {
    let sender = KeyPair::generate(SignatureScheme::Ed25519);
    let tx = signed_transfer(&sender, 1);
    let builder = CertificateBuilder::new(tx);
    assert!(matches!(builder.build(), Err(ProtocolError::InvalidCertificate(_))));
}

#[test]
fn seeded_keys_are_reproducible() {
    let a = KeyPair::from_seed(SignatureScheme::Ed25519, [3u8; 32]);
    let b = KeyPair::from_private_key_bytes(SignatureScheme::Ed25519, &[3u8; 32]).unwrap();
    assert!(a.public() == b.public());
    let c = KeyPair::from_seed(SignatureScheme::BLS, [3u8; 32]);
    let d = KeyPair::from_seed(SignatureScheme::BLS, [3u8; 32]);
    assert!(c.public() == d.public());
    let sig = c.sign(b"seed");
    assert!(d.public().verify(b"seed", &sig));
    assert!(!(KeyPair::from_seed(SignatureScheme::BLS, [4u8; 32]).public() == c.public()));
}
