//! Objects: identifiers, ownership and the object record.
use vstd::prelude::*;
use vstd::std_specs::cmp::PartialEqSpecImpl;
use rand::RngCore;
use crate::hashing::bytes_eq;
use crate::types::{Address, SequenceNumber, TypeTag};
use crate::encoding::{enc_type_tag, copy_type_tag};
use crate::crypto::copy_bytes;

verus! {

/// Fills 32 bytes from `rand::thread_rng()`.
/// Trusted: nothing is claimed of the bytes; they come from the thread-local
/// random generator.
#[verifier::external_body]
fn random_bytes32() -> [u8; 32] {
    let mut bytes = [0u8; 32];
    rand::thread_rng().fill_bytes(&mut bytes);
    bytes
}

/// Object ID
#[derive(Debug, Clone, Copy)]
pub struct ObjectID(pub [u8; 32]);

impl View for ObjectID {
    type V = Seq<u8>;

    open spec fn view(&self) -> Seq<u8> {
        self.0@
    }
}

impl PartialEq for ObjectID {
    fn eq(&self, other: &Self) -> (r: bool) {
        bytes_eq(self.0.as_slice(), other.0.as_slice())
    }
}

impl PartialEqSpecImpl for ObjectID {
    open spec fn obeys_eq_spec() -> bool {
        true
    }

    open spec fn eq_spec(&self, other: &ObjectID) -> bool {
        self@ == other@
    }
}

impl ObjectID {
    /// Create random object ID
    pub fn random() -> (id: ObjectID)
        ensures
            id@.len() == 32,
    {
        ObjectID(random_bytes32())
    }

    /// Create from bytes
    pub fn from_bytes(bytes: [u8; 32]) -> (id: ObjectID)
        ensures
            id.0 == bytes,
    {
        ObjectID(bytes)
    }

    /// Get bytes
    pub fn as_bytes(&self) -> (b: &[u8; 32])
        ensures
            *b == self.0,
    {
        &self.0
    }
}

/// Object owner
#[derive(Debug, Clone, Copy)]
pub enum Owner {
    /// Address owner
    AddressOwner(Address),
    /// Object owner
    ObjectOwner(ObjectID),
    /// Shared object
    Shared { initial_shared_version: SequenceNumber },
    /// Immutable object
    Immutable,
}

impl Owner {
    /// Get address if address owner
    pub fn get_address_owner(&self) -> (r: Option<&Address>)
        ensures
            r == (match self {
                Owner::AddressOwner(a) => Some(a),
                _ => None::<&Address>,
            }),
    {
        match self {
            Owner::AddressOwner(addr) => Some(addr),
            _ => None,
        }
    }

    /// Get object ID if object owner
    pub fn get_object_owner(&self) -> (r: Option<&ObjectID>)
        ensures
            r == (match self {
                Owner::ObjectOwner(id) => Some(id),
                _ => None::<&ObjectID>,
            }),
    {
        match self {
            Owner::ObjectOwner(id) => Some(id),
            _ => None,
        }
    }

    /// Check if shared
    pub fn is_shared(&self) -> (r: bool)
        ensures
            r == (self is Shared),
    {
        matches!(self, Owner::Shared { .. })
    }

    /// Check if immutable
    pub fn is_immutable(&self) -> (r: bool)
        ensures
            r == (self is Immutable),
    {
        matches!(self, Owner::Immutable)
    }
}

/// What an object holds, as the contracts see it.
pub ghost struct ObjectView {
    pub id: Seq<u8>,
    pub version: u64,
    pub owner: Owner,
    /// The object's type, by its canonical encoding.
    pub type_: Seq<u8>,
    pub data: Seq<u8>,
    pub previous_transaction: Seq<u8>,
}

/// Object data
#[derive(Debug)]
pub struct Object {
    /// Object ID
    id: ObjectID,
    /// Object version
    version: SequenceNumber,
    /// Object owner
    owner: Owner,
    /// Object type
    type_: TypeTag,
    /// Object data
    data: Vec<u8>,
    /// Previous transaction
    previous_transaction: [u8; 32],
}

impl View for Object {
    type V = ObjectView;

    closed spec fn view(&self) -> ObjectView {
        ObjectView {
            id: self.id@,
            version: self.version.0,
            owner: self.owner,
            type_: enc_type_tag(self.type_),
            data: self.data@,
            previous_transaction: self.previous_transaction@,
        }
    }
}

impl Clone for Object {
    /// A copy with the same contents.
    fn clone(&self) -> (r: Object)
        ensures
            r@ == self@,
    {
        Object {
            id: self.id,
            version: self.version,
            owner: self.owner,
            type_: copy_type_tag(&self.type_),
            data: copy_bytes(&self.data),
            previous_transaction: self.previous_transaction,
        }
    }
}

impl Object {
    /// Create new object
    pub fn new(id: ObjectID, owner: Owner, type_: TypeTag, data: Vec<u8>) -> (o: Object)
        ensures
            o@.id == id@,
            o@.version == 0,
            o@.owner == owner,
            o@.type_ == enc_type_tag(type_),
            o@.data == data@,
            o@.previous_transaction == Seq::new(32, |i: int| 0u8),
    {
        let o = Object {
            id,
            version: SequenceNumber::new(0),
            owner,
            type_,
            data,
            previous_transaction: [0u8; 32],
        };
        assert(o.previous_transaction@ =~= Seq::new(32, |i: int| 0u8));
        o
    }

    /// Get object ID
    pub fn id(&self) -> (id: ObjectID)
        ensures
            id@ == self@.id,
    {
        self.id
    }

    /// Get version
    pub fn version(&self) -> (v: SequenceNumber)
        ensures
            v.0 == self@.version,
    {
        self.version
    }

    /// Get owner
    pub fn owner(&self) -> (o: &Owner)
        ensures
            *o == self@.owner,
    {
        &self.owner
    }

    /// Get type
    pub fn type_(&self) -> (t: &TypeTag)
        ensures
            enc_type_tag(*t) == self@.type_,
    {
        &self.type_
    }

    /// Get data
    pub fn data(&self) -> (d: &[u8])
        ensures
            d@ == self@.data,
    {
        self.data.as_slice()
    }

    /// Get previous transaction
    pub fn previous_transaction(&self) -> (t: &[u8; 32])
        ensures
            t@ == self@.previous_transaction,
    {
        &self.previous_transaction
    }

    /// Set version
    pub fn set_version(&mut self, version: SequenceNumber)
        ensures
            final(self)@ == (ObjectView { version: version.0, ..old(self)@ }),
            final(self)@.id == old(self)@.id,
    {
        self.version = version;
    }

    /// Set owner
    pub fn set_owner(&mut self, owner: Owner)
        ensures
            final(self)@ == (ObjectView { owner: owner, ..old(self)@ }),
            final(self)@.id == old(self)@.id,
    {
        self.owner = owner;
    }

    /// Set data
    pub fn set_data(&mut self, data: Vec<u8>)
        ensures
            final(self)@ == (ObjectView { data: data@, ..old(self)@ }),
            final(self)@.id == old(self)@.id,
    {
        self.data = data;
    }

    /// Set previous transaction
    pub fn set_previous_transaction(&mut self, tx: [u8; 32])
        ensures
            final(self)@ == (ObjectView { previous_transaction: tx@, ..old(self)@ }),
            final(self)@.id == old(self)@.id,
    {
        self.previous_transaction = tx;
    }

    /// Check if owned by address
    pub fn is_owned_by(&self, address: &Address) -> (r: bool)
        ensures
            r == (self@.owner matches Owner::AddressOwner(a) && a@ == address@),
    {
        match &self.owner {
            Owner::AddressOwner(addr) => *addr == *address,
            _ => false,
        }
    }

    /// Check if shared
    pub fn is_shared(&self) -> (r: bool)
        ensures
            r == (self@.owner is Shared),
    {
        self.owner.is_shared()
    }

    /// Check if immutable
    pub fn is_immutable(&self) -> (r: bool)
        ensures
            r == (self@.owner is Immutable),
    {
        self.owner.is_immutable()
    }
}

} // verus!
