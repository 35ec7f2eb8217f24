//! Core value types: addresses, sequence numbers, balances and type tags.
use vstd::prelude::*;
use vstd::std_specs::cmp::PartialEqSpecImpl;
use vstd::std_specs::cmp::PartialOrdSpecImpl;
use core::cmp::Ordering;
use crate::errors::CoreError;
use crate::hashing::bytes_eq;

verus! {

/// Address type (20 bytes)
#[derive(Debug, Clone, Copy, Hash)]
pub struct Address(pub [u8; 20]);

impl View for Address {
    type V = Seq<u8>;

    open spec fn view(&self) -> Seq<u8> {
        self.0@
    }
}

impl PartialEq for Address {
    fn eq(&self, other: &Self) -> (r: bool) {
        bytes_eq(self.0.as_slice(), other.0.as_slice())
    }
}

impl PartialEqSpecImpl for Address {
    open spec fn obeys_eq_spec() -> bool {
        true
    }

    open spec fn eq_spec(&self, other: &Address) -> bool {
        self@ == other@
    }
}

impl Address {
    /// Create from bytes
    pub fn from_bytes(bytes: [u8; 20]) -> (a: Address)
        ensures
            a.0 == bytes,
    {
        Address(bytes)
    }

    /// Get bytes
    pub fn as_bytes(&self) -> (b: &[u8; 20])
        ensures
            *b == self.0,
    {
        &self.0
    }
}

/// Sequence number
#[derive(Debug, Clone, Copy, PartialEq, Eq, Structural, Ord, Hash)]
pub struct SequenceNumber(pub u64);

/// Sequence numbers are ordered by their value.
impl PartialOrd for SequenceNumber {
    fn partial_cmp(&self, other: &Self) -> (r: Option<Ordering>) {
        if self.0 < other.0 {
            Some(Ordering::Less)
        } else if self.0 == other.0 {
            Some(Ordering::Equal)
        } else {
            Some(Ordering::Greater)
        }
    }
}

impl PartialOrdSpecImpl for SequenceNumber {
    open spec fn obeys_partial_cmp_spec() -> bool {
        true
    }

    open spec fn partial_cmp_spec(&self, other: &SequenceNumber) -> Option<Ordering> {
        if self.0 < other.0 {
            Some(Ordering::Less)
        } else if self.0 == other.0 {
            Some(Ordering::Equal)
        } else {
            Some(Ordering::Greater)
        }
    }
}

impl SequenceNumber {
    /// Create new sequence number
    pub fn new(value: u64) -> (s: SequenceNumber)
        ensures
            s.0 == value,
    {
        SequenceNumber(value)
    }

    /// Get value
    pub fn value(&self) -> (v: u64)
        ensures
            v == self.0,
    {
        self.0
    }

    /// Increment
    pub fn increment(&mut self)
        requires
            old(self).0 < u64::MAX,
        ensures
            final(self).0 == old(self).0 + 1,
    {
        self.0 = self.0 + 1;
    }
}

/// Balance type
#[derive(Debug, Clone, Copy, PartialEq, Eq, Structural)]
pub struct Balance(pub u64);

impl Balance {
    /// Create new balance
    pub fn new(value: u64) -> (b: Balance)
        ensures
            b.0 == value,
    {
        Balance(value)
    }

    /// Get value
    pub fn value(&self) -> (v: u64)
        ensures
            v == self.0,
    {
        self.0
    }

    /// Add amount; fails on overflow and leaves the balance unchanged.
    pub fn add(&mut self, amount: u64) -> (r: Result<(), CoreError>)
        ensures
            match r {
                Ok(()) => old(self).0 + amount <= u64::MAX && final(self).0 == old(self).0 + amount,
                Err(e) => old(self).0 + amount > u64::MAX && *final(self) == *old(self)
                    && e is InvalidBalance,
            },
    {
        match self.0.checked_add(amount) {
            Some(v) => {
                self.0 = v;
                Ok(())
            },
            None => Err(CoreError::InvalidBalance("Overflow".to_string())),
        }
    }

    /// Subtract amount; fails on underflow and leaves the balance unchanged.
    pub fn sub(&mut self, amount: u64) -> (r: Result<(), CoreError>)
        ensures
            match r {
                Ok(()) => amount <= old(self).0 && final(self).0 == old(self).0 - amount,
                Err(e) => amount > old(self).0 && *final(self) == *old(self) && e is InvalidBalance,
            },
    {
        match self.0.checked_sub(amount) {
            Some(v) => {
                self.0 = v;
                Ok(())
            },
            None => Err(CoreError::InvalidBalance("Underflow".to_string())),
        }
    }
}

/// Coin type
#[derive(Debug)]
pub struct Coin {
    /// Coin type
    pub type_: TypeTag,
    /// Balance
    pub balance: Balance,
}

/// Type tag
#[derive(Debug)]
pub enum TypeTag {
    /// Bool
    Bool,
    /// U8
    U8,
    /// U64
    U64,
    /// U128
    U128,
    /// Address
    Address,
    /// Vector
    Vector(Box<TypeTag>),
    /// Struct
    Struct(StructTag),
}

/// Height of a type tag: one more than the highest of its parts.
pub open spec fn tag_height(t: TypeTag) -> nat
    decreases t,
{
    match t {
        TypeTag::Vector(inner) => 1 + tag_height(*inner),
        TypeTag::Struct(st) => 1 + tags_height(st.type_params@),
        _ => 1,
    }
}

/// Highest height among a list of type tags.
pub open spec fn tags_height(ts: Seq<TypeTag>) -> nat
    decreases ts,
{
    if ts.len() == 0 {
        0
    } else {
        let a = tags_height(ts.drop_last());
        let b = tag_height(ts.last());
        if a >= b {
            a
        } else {
            b
        }
    }
}

/// Each tag of a list is no higher than the list.
pub proof fn lemma_tags_height(ts: Seq<TypeTag>, i: int)
    requires
        0 <= i < ts.len(),
    ensures
        tag_height(ts[i]) <= tags_height(ts),
    decreases ts.len(),
{
    if i < ts.len() - 1 {
        lemma_tags_height(ts.drop_last(), i);
    }
}

/// Struct tag
#[derive(Debug)]
pub struct StructTag {
    /// Address
    pub address: Address,
    /// Module
    pub module: String,
    /// Name
    pub name: String,
    /// Type parameters
    pub type_params: Vec<TypeTag>,
}

/// Law: subtracting what was just added gives the balance back; both steps
/// succeed exactly when the sum fits in a `u64`.
pub proof fn law_balance_add_then_sub(value: u64, amount: u64)
    requires
        value + amount <= u64::MAX,
    ensures
        amount <= (value + amount) as u64,
        ((value + amount) as u64 - amount) as u64 == value,
{
}

} // verus!
