//! Transactions, their digests and certificates, and the committee that
//! weighs authority signatures.
use vstd::prelude::*;
use vstd::std_specs::cmp::PartialEqSpecImpl;
use crate::crypto::{PublicKey, Signature, SignatureScheme, spec_signature_valid, copy_bytes};
use crate::encoding::{enc_u64, enc_bytes, enc_str, enc_type_tag, enc_type_tags, put_u64, put_bytes, put_str, put_type_tag, copy_type_tag};
use crate::errors::ProtocolError;
use crate::hashing::{append_bytes, bytes_eq, sha256, spec_sha256};
use crate::object::ObjectID;
use crate::types::{SequenceNumber, StructTag, TypeTag, tag_height, lemma_tags_height};

verus! {

/// Transaction digest
#[derive(Debug, Clone, Copy)]
pub struct TransactionDigest(pub [u8; 32]);

impl View for TransactionDigest {
    type V = Seq<u8>;

    open spec fn view(&self) -> Seq<u8> {
        self.0@
    }
}

impl PartialEq for TransactionDigest {
    fn eq(&self, other: &Self) -> (r: bool) {
        bytes_eq(self.0.as_slice(), other.0.as_slice())
    }
}

impl PartialEqSpecImpl for TransactionDigest {
    open spec fn obeys_eq_spec() -> bool {
        true
    }

    open spec fn eq_spec(&self, other: &TransactionDigest) -> bool {
        self@ == other@
    }
}

/// Digests with the same bytes are the same digest.
pub proof fn lemma_digest_view_eq(a: TransactionDigest, b: TransactionDigest)
    requires
        a@ == b@,
    ensures
        a == b,
{
    assert forall|i: int| 0 <= i < 32 implies a.0[i] == b.0[i] by {
        assert(a.0@[i] == b.0@[i]);
    }
    assert(a.0 =~= b.0);
}

impl TransactionDigest {
    /// The digest bytes
    pub fn as_bytes(&self) -> (b: &[u8; 32])
        ensures
            *b == self.0,
    {
        &self.0
    }
}

/// Call argument
#[derive(Debug, Clone)]
pub enum CallArg {
    Pure(Vec<u8>),
    Object(ObjectID),
    ObjVec(Vec<ObjectID>),
}

/// Transaction kind
#[derive(Debug)]
pub enum TransactionKind {
    /// Transfer an object
    TransferObject { object_id: ObjectID, recipient: PublicKey, version: SequenceNumber },
    /// Publish a package
    Publish { modules: Vec<Vec<u8>> },
    /// Call a function
    MoveCall {
        package: ObjectID,
        module: String,
        function: String,
        type_arguments: Vec<TypeTag>,
        arguments: Vec<CallArg>,
    },
}

/// Transaction data
#[derive(Debug)]
pub struct TransactionData {
    /// Sender
    pub sender: PublicKey,
    /// Kind
    pub kind: TransactionKind,
    /// Gas budget
    pub gas_budget: u64,
    /// Gas price
    pub gas_price: u64,
    /// Expiration time
    pub expiration: u64,
}

/// Signed transaction
#[derive(Debug)]
pub struct SignedTransaction {
    pub data: TransactionData,
    pub signature: Signature,
}

/// Encoding of a key or signature: a scheme byte, then the bytes.
pub open spec fn enc_key(k: (SignatureScheme, Seq<u8>)) -> Seq<u8> {
    seq![if k.0 == SignatureScheme::Ed25519 { 0u8 } else { 1u8 }] + enc_bytes(k.1)
}

/// Concatenated object ids.
pub open spec fn enc_ids(ids: Seq<ObjectID>) -> Seq<u8>
    decreases ids.len(),
{
    if ids.len() == 0 {
        Seq::empty()
    } else {
        enc_ids(ids.drop_last()) + ids.last()@
    }
}

/// Encoding of a call argument.
pub open spec fn enc_call_arg(a: CallArg) -> Seq<u8> {
    match a {
        CallArg::Pure(b) => seq![0u8] + enc_bytes(b@),
        CallArg::Object(id) => seq![1u8] + id@,
        CallArg::ObjVec(ids) => seq![2u8] + enc_u64(ids@.len() as u64) + enc_ids(ids@),
    }
}

/// Concatenated encodings of call arguments.
pub open spec fn enc_call_args(args: Seq<CallArg>) -> Seq<u8>
    decreases args.len(),
{
    if args.len() == 0 {
        Seq::empty()
    } else {
        enc_call_args(args.drop_last()) + enc_call_arg(args.last())
    }
}

/// Concatenated encodings of byte strings.
pub open spec fn enc_byte_strings(ms: Seq<Vec<u8>>) -> Seq<u8>
    decreases ms.len(),
{
    if ms.len() == 0 {
        Seq::empty()
    } else {
        enc_byte_strings(ms.drop_last()) + enc_bytes(ms.last()@)
    }
}

/// Encoding of a transaction kind.
pub open spec fn enc_kind(k: TransactionKind) -> Seq<u8> {
    match k {
        TransactionKind::TransferObject { object_id, recipient, version } => seq![0u8] + object_id@
            + enc_key(recipient@) + enc_u64(version.0),
        TransactionKind::Publish { modules } => seq![1u8] + enc_u64(modules@.len() as u64)
            + enc_byte_strings(modules@),
        TransactionKind::MoveCall { package, module, function, type_arguments, arguments } =>
            seq![2u8] + package@ + enc_str(module@) + enc_str(function@) + enc_u64(
            type_arguments@.len() as u64,
        ) + enc_type_tags(type_arguments@) + enc_u64(arguments@.len() as u64) + enc_call_args(
            arguments@,
        ),
    }
}

/// Encoding of transaction data: the bytes that the sender signs.
pub open spec fn enc_data(d: TransactionData) -> Seq<u8> {
    enc_key(d.sender@) + enc_kind(d.kind) + enc_u64(d.gas_budget) + enc_u64(d.gas_price) + enc_u64(
        d.expiration,
    )
}

/// Encoding of a signed transaction.
pub open spec fn enc_signed(t: SignedTransaction) -> Seq<u8> {
    enc_data(t.data) + enc_key(t.signature@)
}

fn put_key(out: &mut Vec<u8>, scheme: SignatureScheme, bytes: &[u8])
    ensures
        final(out)@ == old(out)@ + enc_key((scheme, bytes@)),
{
    match scheme {
        SignatureScheme::Ed25519 => out.push(0u8),
        SignatureScheme::BLS => out.push(1u8),
    }
    put_bytes(out, bytes);
}

fn put_public_key(out: &mut Vec<u8>, k: &PublicKey)
    ensures
        final(out)@ == old(out)@ + enc_key(k@),
{
    match k {
        PublicKey::Ed25519(b) => put_key(out, SignatureScheme::Ed25519, b.as_slice()),
        PublicKey::BLS(b) => put_key(out, SignatureScheme::BLS, b.as_slice()),
    }
}

fn put_signature(out: &mut Vec<u8>, s: &Signature)
    ensures
        final(out)@ == old(out)@ + enc_key(s@),
{
    match s {
        Signature::Ed25519(b) => put_key(out, SignatureScheme::Ed25519, b.as_slice()),
        Signature::BLS(b) => put_key(out, SignatureScheme::BLS, b.as_slice()),
    }
}

fn put_ids(out: &mut Vec<u8>, ids: &Vec<ObjectID>)
    ensures
        final(out)@ == old(out)@ + enc_ids(ids@),
{
    let n = ids.len();
    let mut i: usize = 0;
    while i < n
        invariant
            n == ids@.len(),
            i <= n,
            out@ == old(out)@ + enc_ids(ids@.take(i as int)),
        decreases n - i,
    {
        append_bytes(out, ids[i].0.as_slice());
        assert(ids@.take(i + 1).drop_last() == ids@.take(i as int));
        i = i + 1;
    }
    assert(ids@.take(n as int) == ids@);
}

fn put_call_arg(out: &mut Vec<u8>, a: &CallArg)
    ensures
        final(out)@ == old(out)@ + enc_call_arg(*a),
{
    match a {
        CallArg::Pure(b) => {
            out.push(0u8);
            put_bytes(out, b.as_slice());
        },
        CallArg::Object(id) => {
            out.push(1u8);
            append_bytes(out, id.0.as_slice());
        },
        CallArg::ObjVec(ids) => {
            out.push(2u8);
            put_u64(out, ids.len() as u64);
            put_ids(out, ids);
        },
    }
}

fn put_call_args(out: &mut Vec<u8>, args: &Vec<CallArg>)
    ensures
        final(out)@ == old(out)@ + enc_call_args(args@),
{
    let n = args.len();
    let mut i: usize = 0;
    while i < n
        invariant
            n == args@.len(),
            i <= n,
            out@ == old(out)@ + enc_call_args(args@.take(i as int)),
        decreases n - i,
    {
        put_call_arg(out, &args[i]);
        assert(args@.take(i + 1).drop_last() == args@.take(i as int));
        i = i + 1;
    }
    assert(args@.take(n as int) == args@);
}

fn put_byte_strings(out: &mut Vec<u8>, ms: &Vec<Vec<u8>>)
    ensures
        final(out)@ == old(out)@ + enc_byte_strings(ms@),
{
    let n = ms.len();
    let mut i: usize = 0;
    while i < n
        invariant
            n == ms@.len(),
            i <= n,
            out@ == old(out)@ + enc_byte_strings(ms@.take(i as int)),
        decreases n - i,
    {
        put_bytes(out, ms[i].as_slice());
        assert(ms@.take(i + 1).drop_last() == ms@.take(i as int));
        i = i + 1;
    }
    assert(ms@.take(n as int) == ms@);
}

fn put_type_tags(out: &mut Vec<u8>, ts: &Vec<TypeTag>)
    ensures
        final(out)@ == old(out)@ + enc_type_tags(ts@),
{
    let n = ts.len();
    let mut i: usize = 0;
    while i < n
        invariant
            n == ts@.len(),
            i <= n,
            out@ == old(out)@ + enc_type_tags(ts@.take(i as int)),
        decreases n - i,
    {
        put_type_tag(out, &ts[i]);
        assert(ts@.take(i + 1).drop_last() == ts@.take(i as int));
        i = i + 1;
    }
    assert(ts@.take(n as int) == ts@);
}

fn put_kind(out: &mut Vec<u8>, k: &TransactionKind)
    ensures
        final(out)@ == old(out)@ + enc_kind(*k),
{
    match k {
        TransactionKind::TransferObject { object_id, recipient, version } => {
            out.push(0u8);
            append_bytes(out, object_id.0.as_slice());
            put_public_key(out, recipient);
            put_u64(out, version.0);
        },
        TransactionKind::Publish { modules } => {
            out.push(1u8);
            put_u64(out, modules.len() as u64);
            put_byte_strings(out, modules);
        },
        TransactionKind::MoveCall { package, module, function, type_arguments, arguments } => {
            out.push(2u8);
            append_bytes(out, package.0.as_slice());
            put_str(out, module.as_str());
            put_str(out, function.as_str());
            put_u64(out, type_arguments.len() as u64);
            put_type_tags(out, type_arguments);
            put_u64(out, arguments.len() as u64);
            put_call_args(out, arguments);
        },
    }
}

fn copy_ids(ids: &Vec<ObjectID>) -> (r: Vec<ObjectID>)
    ensures
        r@ == ids@,
{
    let n = ids.len();
    let mut out: Vec<ObjectID> = Vec::new();
    let mut i: usize = 0;
    while i < n
        invariant
            n == ids@.len(),
            i <= n,
            out@ == ids@.take(i as int),
        decreases n - i,
    {
        out.push(ids[i]);
        assert(out@ == ids@.take(i + 1));
        i = i + 1;
    }
    assert(ids@.take(n as int) == ids@);
    out
}

fn copy_call_arg(a: &CallArg) -> (r: CallArg)
    ensures
        enc_call_arg(r) == enc_call_arg(*a),
{
    match a {
        CallArg::Pure(b) => CallArg::Pure(copy_bytes(b)),
        CallArg::Object(id) => CallArg::Object(*id),
        CallArg::ObjVec(ids) => CallArg::ObjVec(copy_ids(ids)),
    }
}

fn copy_call_args(args: &Vec<CallArg>) -> (r: Vec<CallArg>)
    ensures
        r@.len() == args@.len(),
        enc_call_args(r@) == enc_call_args(args@),
{
    let n = args.len();
    let mut out: Vec<CallArg> = Vec::new();
    let mut i: usize = 0;
    while i < n
        invariant
            n == args@.len(),
            i <= n,
            out@.len() == i,
            enc_call_args(out@) == enc_call_args(args@.take(i as int)),
        decreases n - i,
    {
        let c = copy_call_arg(&args[i]);
        let ghost prev = out@;
        out.push(c);
        assert(out@.drop_last() == prev);
        assert(args@.take(i + 1).drop_last() == args@.take(i as int));
        i = i + 1;
    }
    assert(args@.take(n as int) == args@);
    out
}

fn copy_byte_strings(ms: &Vec<Vec<u8>>) -> (r: Vec<Vec<u8>>)
    ensures
        r@.len() == ms@.len(),
        enc_byte_strings(r@) == enc_byte_strings(ms@),
{
    let n = ms.len();
    let mut out: Vec<Vec<u8>> = Vec::new();
    let mut i: usize = 0;
    while i < n
        invariant
            n == ms@.len(),
            i <= n,
            out@.len() == i,
            enc_byte_strings(out@) == enc_byte_strings(ms@.take(i as int)),
        decreases n - i,
    {
        let c = copy_bytes(&ms[i]);
        let ghost prev = out@;
        out.push(c);
        assert(out@.drop_last() == prev);
        assert(ms@.take(i + 1).drop_last() == ms@.take(i as int));
        i = i + 1;
    }
    assert(ms@.take(n as int) == ms@);
    out
}

fn copy_kind(k: &TransactionKind) -> (r: TransactionKind)
    ensures
        enc_kind(r) == enc_kind(*k),
{
    match k {
        TransactionKind::TransferObject { object_id, recipient, version } => {
            TransactionKind::TransferObject {
                object_id: *object_id,
                recipient: recipient.clone(),
                version: *version,
            }
        },
        TransactionKind::Publish { modules } => TransactionKind::Publish {
            modules: copy_byte_strings(modules),
        },
        TransactionKind::MoveCall { package, module, function, type_arguments, arguments } => {
            let mut tas: Vec<TypeTag> = Vec::new();
            let n = type_arguments.len();
            let mut i: usize = 0;
            while i < n
                invariant
                    n == type_arguments@.len(),
                    i <= n,
                    tas@.len() == i,
                    enc_type_tags(tas@) == enc_type_tags(type_arguments@.take(i as int)),
                decreases n - i,
            {
                let c = copy_type_tag(&type_arguments[i]);
                let ghost prev = tas@;
                tas.push(c);
                assert(tas@.drop_last() == prev);
                assert(type_arguments@.take(i + 1).drop_last() == type_arguments@.take(i as int));
                i = i + 1;
            }
            assert(type_arguments@.take(n as int) == type_arguments@);
            TransactionKind::MoveCall {
                package: *package,
                module: module.as_str().to_string(),
                function: function.as_str().to_string(),
                type_arguments: tas,
                arguments: copy_call_args(arguments),
            }
        },
    }
}

impl Clone for SignedTransaction {
    /// A copy with the same encoding, hence the same digest.
    fn clone(&self) -> (r: SignedTransaction)
        ensures
            enc_signed(r) == enc_signed(*self),
            r.data.sender@ == self.data.sender@,
            r.data.gas_budget == self.data.gas_budget,
            r.data.gas_price == self.data.gas_price,
            r.data.expiration == self.data.expiration,
            r.signature@ == self.signature@,
    {
        SignedTransaction {
            data: TransactionData {
                sender: self.data.sender.clone(),
                kind: copy_kind(&self.data.kind),
                gas_budget: self.data.gas_budget,
                gas_price: self.data.gas_price,
                expiration: self.data.expiration,
            },
            signature: self.signature.clone(),
        }
    }
}

impl TransactionData {
    /// The canonical encoding: the bytes that the sender signs.
    pub fn encode(&self) -> (b: Vec<u8>)
        ensures
            b@ == enc_data(*self),
    {
        let mut out: Vec<u8> = Vec::new();
        put_public_key(&mut out, &self.sender);
        put_kind(&mut out, &self.kind);
        put_u64(&mut out, self.gas_budget);
        put_u64(&mut out, self.gas_price);
        put_u64(&mut out, self.expiration);
        assert(out@ =~= enc_data(*self));
        out
    }
}

impl SignedTransaction {
    /// The canonical encoding of the transaction and its signature.
    pub fn encode(&self) -> (b: Vec<u8>)
        ensures
            b@ == enc_signed(*self),
    {
        let mut out = self.data.encode();
        put_signature(&mut out, &self.signature);
        out
    }

    /// Digest: SHA-256 of the canonical encoding.
    pub fn digest(&self) -> (d: TransactionDigest)
        ensures
            d@ == spec_sha256(enc_signed(*self)),
    {
        let bytes = self.encode();
        TransactionDigest(sha256(bytes.as_slice()))
    }

    /// Length of the canonical encoding.
    pub fn encoded_size(&self) -> (n: usize)
        ensures
            n == enc_signed(*self).len(),
    {
        self.encode().len()
    }

    /// The sender
    pub fn sender(&self) -> (s: &PublicKey)
        ensures
            *s == self.data.sender,
    {
        &self.data.sender
    }

    /// The gas price
    pub fn gas_price(&self) -> (p: u64)
        ensures
            p == self.data.gas_price,
    {
        self.data.gas_price
    }

    /// The gas budget
    pub fn gas_budget(&self) -> (b: u64)
        ensures
            b == self.data.gas_budget,
    {
        self.data.gas_budget
    }

    /// Whether the signature is the sender's over the encoded data.
    pub fn verify_signature(&self) -> (r: bool)
        ensures
            r == spec_signature_valid(self.data.sender@, enc_data(self.data), self.signature@),
    {
        let bytes = self.data.encode();
        self.signature.verify(bytes.as_slice(), &self.data.sender)
    }
}

} // verus!
