//! Transaction certificates: authority signatures over a transaction, and the
//! committee whose weights decide a quorum.
use vstd::prelude::*;
use crate::crypto::{PublicKey, Signature, SignatureScheme, spec_signature_valid};
use crate::errors::ProtocolError;
use crate::protocol::{SignedTransaction, enc_data};

verus! {

/// Committee: validators with their weights, and the total weight.
pub struct Committee {
    /// Validators and weights
    validators: Vec<(PublicKey, u64)>,
    /// Total weight
    total_weight: u64,
}

/// The weight of `key` in a validator list: that of its first entry.
pub open spec fn weight_of(vals: Seq<(PublicKey, u64)>, key: (SignatureScheme, Seq<u8>)) -> Option<u64>
    decreases vals.len(),
{
    if vals.len() == 0 {
        None
    } else if vals[0].0@ == key {
        Some(vals[0].1)
    } else {
        weight_of(vals.drop_first(), key)
    }
}

/// Two thirds of the total weight, rounded down, plus one.
pub open spec fn quorum_of(total: u64) -> int {
    (total * 2) / 3 + 1
}

impl Committee {
    /// The validator list.
    pub closed spec fn validators(&self) -> Seq<(PublicKey, u64)> {
        self.validators@
    }

    /// The total weight.
    pub closed spec fn total_weight(&self) -> u64 {
        self.total_weight
    }

    /// A committee from validators and their weights, and a total weight.
    pub fn new(validators: Vec<(PublicKey, u64)>, total_weight: u64) -> (c: Committee)
        ensures
            c.validators() == validators@,
            c.total_weight() == total_weight,
    {
        Committee { validators, total_weight }
    }

    /// Weight of an authority, if it is in the committee.
    pub fn weight(&self, authority: &PublicKey) -> (w: Option<u64>)
        ensures
            w == weight_of(self.validators(), authority@),
    {
        let n = self.validators.len();
        let mut i: usize = 0;
        assert(self.validators@.skip(0) == self.validators@);
        while i < n
            invariant
                n == self.validators@.len(),
                i <= n,
                weight_of(self.validators@, authority@) == weight_of(
                    self.validators@.skip(i as int),
                    authority@,
                ),
            decreases n - i,
        {
            assert(self.validators@.skip(i as int).drop_first() == self.validators@.skip(i + 1));
            if self.validators[i].0 == *authority {
                return Some(self.validators[i].1);
            }
            i = i + 1;
        }
        None
    }

    /// Quorum threshold: two thirds of the total weight plus one.
    pub fn quorum_threshold(&self) -> (q: u64)
        requires
            self.total_weight() * 2 <= u64::MAX,
        ensures
            q == quorum_of(self.total_weight()),
    {
        (self.total_weight * 2) / 3 + 1
    }
}

/// Why a certificate check stopped.
pub enum CertFault {
    NotInCommittee,
    BadSignature,
}

/// Scans signatures in order: the first one whose authority is not in the
/// committee or whose signature does not verify decides the fault; else the
/// weights of all signers are summed (an authority listed twice counts twice).
pub open spec fn cert_scan(
    sigs: Seq<(PublicKey, Signature)>,
    vals: Seq<(PublicKey, u64)>,
    msg: Seq<u8>,
) -> Result<int, CertFault>
    decreases sigs.len(),
{
    if sigs.len() == 0 {
        Ok(0)
    } else {
        match cert_scan(sigs.drop_last(), vals, msg) {
            Err(f) => Err(f),
            Ok(w) => {
                let (auth, sig) = sigs.last();
                match weight_of(vals, auth@) {
                    None => Err(CertFault::NotInCommittee),
                    Some(aw) => if !spec_signature_valid(auth@, msg, sig@) {
                        Err(CertFault::BadSignature)
                    } else {
                        Ok(w + aw)
                    },
                }
            },
        }
    }
}

/// A weight sum never exceeds the number of signatures times the largest
/// weight.
proof fn lemma_cert_scan_bound(sigs: Seq<(PublicKey, Signature)>, vals: Seq<(PublicKey, u64)>, msg: Seq<u8>)
    ensures
        cert_scan(sigs, vals, msg) matches Ok(w) ==> 0 <= w <= sigs.len() * u64::MAX,
    decreases sigs.len(),
{
    if sigs.len() > 0 {
        lemma_cert_scan_bound(sigs.drop_last(), vals, msg);
    }
}

/// Transaction certificate
#[derive(Debug)]
pub struct TransactionCertificate {
    pub transaction: SignedTransaction,
    pub authority_signatures: Vec<(PublicKey, Signature)>,
}

impl TransactionCertificate {
    /// Verify: every authority is in the committee and signed the transaction
    /// data, and their weights reach the quorum threshold.
    pub fn verify(&self, committee: &Committee) -> (r: Result<(), ProtocolError>)
        requires
            committee.total_weight() * 2 <= u64::MAX,
            self.authority_signatures@.len() < 0x1_0000_0000_0000_0000,
        ensures
            ({
                let scan = cert_scan(
                    self.authority_signatures@,
                    committee.validators(),
                    enc_data(self.transaction.data),
                );
                match r {
                    Ok(()) => scan matches Ok(w) && w >= quorum_of(committee.total_weight()),
                    Err(e) => match scan {
                        Err(CertFault::NotInCommittee) => e is InvalidCertificate,
                        Err(CertFault::BadSignature) => e is InvalidSignature,
                        Ok(w) => w < quorum_of(committee.total_weight()) && e is InvalidCertificate,
                    },
                }
            }),
    {
        let msg = self.transaction.data.encode();
        let ghost vals = committee.validators();
        let n = self.authority_signatures.len();
        let mut weight: u128 = 0;
        let mut i: usize = 0;
        while i < n
            invariant
                n == self.authority_signatures@.len(),
                n < 0x1_0000_0000_0000_0000,
                i <= n,
                vals == committee.validators(),
                msg@ == enc_data(self.transaction.data),
                cert_scan(self.authority_signatures@.take(i as int), vals, msg@) == Ok::<int, CertFault>(
                    weight as int,
                ),
            decreases n - i,
        {
            let (authority, signature) = &self.authority_signatures[i];
            assert(self.authority_signatures@.take(i + 1).drop_last()
                == self.authority_signatures@.take(i as int));
            assert(self.authority_signatures@.take(i + 1).last() == self.authority_signatures@[i as int]);
            assert(*authority == self.authority_signatures@[i as int].0);
            assert(*signature == self.authority_signatures@[i as int].1);
            let auth_weight = match committee.weight(authority) {
                Some(w) => w,
                None => {
                    proof {
                        let t = self.authority_signatures@.take(i + 1);
                        assert(weight_of(vals, t.last().0@) is None);
                        assert(cert_scan(t, vals, msg@) == Err::<int, CertFault>(CertFault::NotInCommittee));
                        lemma_cert_scan_prefix_err(self.authority_signatures@, vals, msg@, i + 1);
                    }
                    return Err(ProtocolError::InvalidCertificate("Authority not in committee".to_string()));
                },
            };
            if !signature.verify(msg.as_slice(), authority) {
                proof {
                    let t = self.authority_signatures@.take(i + 1);
                    assert(cert_scan(t, vals, msg@) == Err::<int, CertFault>(CertFault::BadSignature));
                    lemma_cert_scan_prefix_err(self.authority_signatures@, vals, msg@, i + 1);
                }
                return Err(ProtocolError::InvalidSignature("Invalid authority signature".to_string()));
            }
            proof {
                lemma_cert_scan_bound(self.authority_signatures@.take(i as int), vals, msg@);
                assert(weight <= i * u64::MAX);
                assert(i * u64::MAX + u64::MAX <= 0x1_0000_0000_0000_0000 * u64::MAX) by (nonlinear_arith)
                    requires i < 0x1_0000_0000_0000_0000;
            }
            weight = weight + auth_weight as u128;
            i = i + 1;
        }
        assert(self.authority_signatures@.take(n as int) == self.authority_signatures@);
        if weight < committee.quorum_threshold() as u128 {
            return Err(ProtocolError::InvalidCertificate("Insufficient quorum".to_string()));
        }
        Ok(())
    }
}

/// Once a prefix of the signatures fails the scan, the whole list fails the
/// same way.
proof fn lemma_cert_scan_prefix_err(
    sigs: Seq<(PublicKey, Signature)>,
    vals: Seq<(PublicKey, u64)>,
    msg: Seq<u8>,
    k: int,
)
    requires
        0 <= k <= sigs.len(),
        cert_scan(sigs.take(k), vals, msg) is Err,
    ensures
        cert_scan(sigs, vals, msg) == cert_scan(sigs.take(k), vals, msg),
    decreases sigs.len(),
{
    if k < sigs.len() {
        assert(sigs.drop_last().take(k) == sigs.take(k));
        lemma_cert_scan_prefix_err(sigs.drop_last(), vals, msg, k);
    } else {
        assert(sigs.take(k) == sigs);
    }
}

/// Collects distinct authorities' valid signatures over a transaction.
pub struct CertificateBuilder {
    transaction: SignedTransaction,
    signatures: Vec<(PublicKey, Signature)>,
    signers: Vec<PublicKey>,
}

impl CertificateBuilder {
    /// The transaction being certified.
    pub closed spec fn transaction(&self) -> SignedTransaction {
        self.transaction
    }

    /// The signatures collected, in order.
    pub closed spec fn signatures(&self) -> Seq<(PublicKey, Signature)> {
        self.signatures@
    }

    /// The signer list mirrors the authorities of the signatures.
    pub closed spec fn signers_ok(&self) -> bool {
        &&& self.signers@.len() == self.signatures@.len()
        &&& forall|i: int| 0 <= i < self.signers@.len() ==> #[trigger] self.signers@[i]@ == self.signatures@[i].0@
    }

    /// The signers mirror the signatures, no authority signed twice, and
    /// every signature verifies over the transaction data.
    pub open spec fn wf(&self) -> bool {
        &&& self.signers_ok()
        &&& forall|i: int, j: int|
            0 <= i < j < self.signatures().len() ==> self.signatures()[i].0@
                != self.signatures()[j].0@
        &&& forall|i: int|
            0 <= i < self.signatures().len() ==> spec_signature_valid(
                #[trigger] self.signatures()[i].0@,
                enc_data(self.transaction().data),
                self.signatures()[i].1@,
            )
    }

    /// Start collecting signatures for a transaction.
    pub fn new(transaction: SignedTransaction) -> (b: CertificateBuilder)
        ensures
            b.transaction() == transaction,
            b.signatures().len() == 0,
            b.wf(),
    {
        CertificateBuilder { transaction, signatures: Vec::new(), signers: Vec::new() }
    }

    fn has_signer(&self, authority: &PublicKey) -> (r: bool)
        requires
            self.signers_ok(),
        ensures
            r == exists|i: int| 0 <= i < self.signatures().len() && self.signatures()[i].0@ == authority@,
    {
        let n = self.signers.len();
        let mut i: usize = 0;
        while i < n
            invariant
                n == self.signers@.len(),
                i <= n,
                self.signers@.len() == self.signatures@.len(),
                forall|k: int| 0 <= k < self.signers@.len() ==> #[trigger] self.signers@[k]@ == self.signatures@[k].0@,
                forall|k: int| 0 <= k < i ==> self.signatures@[k].0@ != authority@,
            decreases n - i,
        {
            if self.signers[i] == *authority {
                assert(self.signatures@[i as int].0@ == authority@);
                assert(0 <= i < self.signatures().len() && self.signatures()[i as int].0@ == authority@);
                return true;
            }
            i = i + 1;
        }
        false
    }

    /// Add an authority's signature: refused if the authority already
    /// signed, or if the signature does not verify over the transaction data.
    pub fn add_signature(&mut self, authority: PublicKey, signature: Signature) -> (r: Result<(), ProtocolError>)
        requires
            old(self).wf(),
        ensures
            final(self).wf(),
            final(self).transaction() == old(self).transaction(),
            ({
                let dup = exists|i: int|
                    0 <= i < old(self).signatures().len() && old(self).signatures()[i].0@
                        == authority@;
                let valid = spec_signature_valid(
                    authority@,
                    enc_data(old(self).transaction().data),
                    signature@,
                );
                match r {
                    Ok(()) => !dup && valid && final(self).signatures() == old(self).signatures().push(
                        (authority, signature),
                    ),
                    Err(e) => final(self).signatures() == old(self).signatures() && (if dup {
                        e is InvalidCertificate
                    } else {
                        !valid && e is InvalidSignature
                    }),
                }
            }),
    {
        if self.has_signer(&authority) {
            return Err(ProtocolError::InvalidCertificate("Duplicate authority signature".to_string()));
        }
        let msg = self.transaction.data.encode();
        if !signature.verify(msg.as_slice(), &authority) {
            return Err(ProtocolError::InvalidSignature("Invalid authority signature".to_string()));
        }
        let signer = authority.clone();
        self.signatures.push((authority, signature));
        self.signers.push(signer);
        proof {
            let n = self.signatures@.len() - 1;
            assert(self.signers@[n]@ == self.signatures@[n].0@);
            assert forall|i: int| 0 <= i < self.signers@.len() implies #[trigger] self.signers@[i]@ == self.signatures@[i].0@ by {
                if i < n {
                    assert(self.signers@[i] == old(self).signers@[i]);
                }
            }
        }
        Ok(())
    }

    /// Build the certificate: at least two signatures are needed.
    pub fn build(self) -> (r: Result<TransactionCertificate, ProtocolError>)
        ensures
            match r {
                Ok(c) => self.signatures().len() >= 2 && c.transaction == self.transaction()
                    && c.authority_signatures@ == self.signatures(),
                Err(e) => self.signatures().len() < 2 && e is InvalidCertificate,
            },
    {
        if self.signatures.len() < 2 {
            return Err(ProtocolError::InvalidCertificate("Insufficient signatures".to_string()));
        }
        Ok(TransactionCertificate {
            transaction: self.transaction,
            authority_signatures: self.signatures,
        })
    }
}

} // verus!
