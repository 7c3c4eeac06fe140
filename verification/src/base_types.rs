//! Identifiers, owners and the instances of the key traits for them.

use crate::collections::{DeepClone, Key};
use vstd::prelude::*;

verus! {

/// The version of an object; versions of one object increase over time.
pub type SequenceNumber = u64;

/// An object at one version: its identifier, version and digest.
pub type ObjectRef = (ObjectID, SequenceNumber, ObjectDigest);

/// The identifier of an object: thirty-two bytes, held as two big-endian halves.
#[derive(Clone, Copy, Debug, PartialEq, Eq, Structural, Hash, PartialOrd, Ord)]
pub struct ObjectID {
    pub hi: u128,
    pub lo: u128,
}

impl View for ObjectID {
    type V = ObjectID;

    open spec fn view(&self) -> ObjectID {
        *self
    }
}

impl DeepClone for ObjectID {
    open spec fn valid(&self) -> bool {
        true
    }

    fn deep_clone(&self) -> (r: Self) {
        *self
    }
}

impl Key for ObjectID {
    fn key_eq(&self, other: &Self) -> (r: bool) {
        *self == *other
    }

    proof fn lemma_key_valid(&self) {
    }

    open spec fn spec_code(v: ObjectID) -> u64 {
        (v.lo % 0x1_0000_0000_0000_0000) as u64
    }

    fn code(&self) -> (h: u64) {
        let low: u128 = self.lo % 0x1_0000_0000_0000_0000;
        low as u64
    }
}

/// An account address: thirty-two bytes, held as two big-endian halves.
#[derive(Clone, Copy, Debug, PartialEq, Eq, Structural, Hash, PartialOrd, Ord)]
pub struct SuiAddress {
    pub hi: u128,
    pub lo: u128,
}

impl View for SuiAddress {
    type V = SuiAddress;

    open spec fn view(&self) -> SuiAddress {
        *self
    }
}

impl DeepClone for SuiAddress {
    open spec fn valid(&self) -> bool {
        true
    }

    fn deep_clone(&self) -> (r: Self) {
        *self
    }
}

impl Key for SuiAddress {
    fn key_eq(&self, other: &Self) -> (r: bool) {
        *self == *other
    }

    proof fn lemma_key_valid(&self) {
    }

    open spec fn spec_code(v: SuiAddress) -> u64 {
        (v.lo % 0x1_0000_0000_0000_0000) as u64
    }

    fn code(&self) -> (h: u64) {
        let low: u128 = self.lo % 0x1_0000_0000_0000_0000;
        low as u64
    }
}

/// The content hash that identifies a transaction.
#[derive(Clone, Copy, Debug, PartialEq, Eq, Structural, Hash, PartialOrd, Ord)]
pub struct TransactionDigest {
    pub hi: u128,
    pub lo: u128,
}

impl View for TransactionDigest {
    type V = TransactionDigest;

    open spec fn view(&self) -> TransactionDigest {
        *self
    }
}

impl DeepClone for TransactionDigest {
    open spec fn valid(&self) -> bool {
        true
    }

    fn deep_clone(&self) -> (r: Self) {
        *self
    }
}

impl Key for TransactionDigest {
    fn key_eq(&self, other: &Self) -> (r: bool) {
        *self == *other
    }

    proof fn lemma_key_valid(&self) {
    }

    open spec fn spec_code(v: TransactionDigest) -> u64 {
        (v.lo % 0x1_0000_0000_0000_0000) as u64
    }

    fn code(&self) -> (h: u64) {
        let low: u128 = self.lo % 0x1_0000_0000_0000_0000;
        low as u64
    }
}

/// The content hash of one version of an object.
#[derive(Clone, Copy, Debug, PartialEq, Eq, Structural, Hash, PartialOrd, Ord)]
pub struct ObjectDigest {
    pub hi: u128,
    pub lo: u128,
}

impl View for ObjectDigest {
    type V = ObjectDigest;

    open spec fn view(&self) -> ObjectDigest {
        *self
    }
}

impl DeepClone for ObjectDigest {
    open spec fn valid(&self) -> bool {
        true
    }

    fn deep_clone(&self) -> (r: Self) {
        *self
    }
}

impl Key for ObjectDigest {
    fn key_eq(&self, other: &Self) -> (r: bool) {
        *self == *other
    }

    proof fn lemma_key_valid(&self) {
    }

    open spec fn spec_code(v: ObjectDigest) -> u64 {
        (v.lo % 0x1_0000_0000_0000_0000) as u64
    }

    fn code(&self) -> (h: u64) {
        let low: u128 = self.lo % 0x1_0000_0000_0000_0000;
        low as u64
    }
}

/// Who may use an object.
#[derive(Clone, Copy, Debug, PartialEq, Eq, Structural, Hash, PartialOrd, Ord)]
pub enum Owner {
    /// Owned by one account.
    AddressOwner(SuiAddress),
    /// A child of the object with this identifier.
    ObjectOwner(SuiAddress),
    /// Usable by anyone, through consensus.
    Shared { initial_shared_version: SequenceNumber },
    /// Frozen: readable by anyone, changed by no one.
    Immutable,
}

impl View for Owner {
    type V = Owner;

    open spec fn view(&self) -> Owner {
        *self
    }
}

impl DeepClone for Owner {
    open spec fn valid(&self) -> bool {
        true
    }

    fn deep_clone(&self) -> (r: Self) {
        *self
    }
}

impl Key for Owner {
    fn key_eq(&self, other: &Self) -> (r: bool) {
        *self == *other
    }

    proof fn lemma_key_valid(&self) {
    }

    open spec fn spec_code(v: Owner) -> u64 {
        match v {
            Owner::AddressOwner(a) => SuiAddress::spec_code(a),
            Owner::ObjectOwner(a) => SuiAddress::spec_code(a),
            Owner::Shared { initial_shared_version } => initial_shared_version,
            Owner::Immutable => 0,
        }
    }

    fn code(&self) -> (h: u64) {
        match self {
            Owner::AddressOwner(a) => a.code(),
            Owner::ObjectOwner(a) => a.code(),
            Owner::Shared { initial_shared_version } => *initial_shared_version,
            Owner::Immutable => 0,
        }
    }
}

impl Owner {
    pub fn is_address_owned(&self) -> (b: bool)
        ensures
            b == (*self is AddressOwner),
    {
        match self {
            Owner::AddressOwner(_) => true,
            _ => false,
        }
    }

    pub fn is_child_object(&self) -> (b: bool)
        ensures
            b == (*self is ObjectOwner),
    {
        match self {
            Owner::ObjectOwner(_) => true,
            _ => false,
        }
    }

    /// The account that owns the object, if an account does.
    pub fn get_address_owner_address(&self) -> (r: Option<SuiAddress>)
        ensures
            r == match *self {
                Owner::AddressOwner(a) => Some(a),
                _ => None,
            },
    {
        match self {
            Owner::AddressOwner(a) => Some(*a),
            _ => None,
        }
    }
}

impl DeepClone for u64 {
    open spec fn valid(&self) -> bool {
        true
    }

    fn deep_clone(&self) -> (r: Self) {
        *self
    }
}

impl Key for u64 {
    fn key_eq(&self, other: &Self) -> (r: bool) {
        *self == *other
    }

    proof fn lemma_key_valid(&self) {
    }

    open spec fn spec_code(v: u64) -> u64 {
        v
    }

    fn code(&self) -> (h: u64) {
        *self
    }
}

impl DeepClone for String {
    open spec fn valid(&self) -> bool {
        true
    }

    fn deep_clone(&self) -> (r: Self) {
        let r = self.clone();
        assert(r.valid());
        r
    }
}

/// A code of some bytes: each byte is folded into what the bytes before it
/// gave.
pub open spec fn bytes_code(bytes: Seq<u8>) -> u64
    decreases bytes.len(),
{
    if bytes.len() == 0 {
        0
    } else {
        ((bytes_code(bytes.drop_last()) % 0x1_0000_0000) * 31 + bytes.last()) as u64
    }
}

impl Key for String {
    fn key_eq(&self, other: &Self) -> (r: bool) {
        *self == *other
    }

    proof fn lemma_key_valid(&self) {
    }

    open spec fn spec_code(v: Seq<char>) -> u64 {
        bytes_code(vstd::utf8::encode_utf8(v))
    }

    fn code(&self) -> (h: u64) {
        let bytes = self.as_str().as_bytes();
        let mut h: u64 = 0;
        let mut i: usize = 0;
        assert(bytes@.take(0) =~= Seq::<u8>::empty());
        while i < bytes.len()
            invariant
                i <= bytes@.len(),
                h == bytes_code(bytes@.take(i as int)),
            decreases bytes@.len() - i,
        {
            proof {
                let next = bytes@.take(i + 1);
                assert(next.drop_last() =~= bytes@.take(i as int));
                assert(next.last() == bytes@[i as int]);
            }
            let low: u64 = h % 0x1_0000_0000;
            h = low * 31 + bytes[i] as u64;
            i += 1;
        }
        assert(bytes@.take(i as int) =~= bytes@);
        h
    }
}

impl DeepClone for Vec<u8> {
    open spec fn valid(&self) -> bool {
        true
    }

    fn deep_clone(&self) -> (r: Self) {
        let r = self.clone();
        assert(r@ =~= self@);
        assert(r.valid());
        r
    }
}

impl<A: DeepClone, B: DeepClone> DeepClone for (A, B) {
    open spec fn valid(&self) -> bool {
        self.0.valid() && self.1.valid()
    }

    fn deep_clone(&self) -> (r: Self) {
        let r = (self.0.deep_clone(), self.1.deep_clone());
        assert(self.valid() ==> r.valid());
        r
    }
}

impl<A: Key, B: Key> Key for (A, B) {
    fn key_eq(&self, other: &Self) -> (r: bool) {
        self.0.key_eq(&other.0) && self.1.key_eq(&other.1)
    }

    proof fn lemma_key_valid(&self) {
        self.0.lemma_key_valid();
        self.1.lemma_key_valid();
    }

    open spec fn spec_code(v: (A::V, B::V)) -> u64 {
        ((A::spec_code(v.0) % 0x1_0000_0000) * 31 + B::spec_code(v.1) % 0x1_0000_0000) as u64
    }

    fn code(&self) -> (h: u64) {
        let a: u64 = self.0.code() % 0x1_0000_0000;
        let b: u64 = self.1.code() % 0x1_0000_0000;
        a * 31 + b
    }
}

} // verus!
