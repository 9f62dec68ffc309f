//! The state diff of a block: what the block writes, taken apart into one
//! record for each contract and kind of change.

use crate::error::StorageError;
use crate::felt::{zero_felt_bytes, Felt};
use vstd::prelude::*;

verus! {

/// The four kinds of change that a block can make.
#[derive(Clone, Copy, Debug, PartialEq, Eq, Hash, Structural)]
pub enum RecordKind {
    /// A storage cell of a contract takes a value.
    StorageWrite,
    /// A contract takes a nonce.
    NonceUpdate,
    /// A class is declared, with the hash of its compiled form.
    DeclaredClass,
    /// A contract is deployed, with the hash of its class.
    DeployedContract,
}

/// What a record is found by, within one block.
#[derive(Clone, Copy, Debug, PartialEq, Eq, Hash)]
pub struct SubKey {
    pub kind: RecordKind,
    /// The contract's address; for a declared class, its class hash.
    pub owner: Felt,
    /// The storage key of a storage write; zero for the other kinds.
    pub cell: Felt,
}

/// One change of a block.
#[derive(Clone, Copy, Debug, PartialEq, Eq, Hash)]
pub struct Record {
    pub key: SubKey,
    pub value: Felt,
}

/// The changes of one block, in the order in which they were first made.
/// No two records have the same key.
#[derive(Debug, PartialEq, Eq)]
pub struct StateDiff {
    records: Vec<Record>,
}

impl SubKey {
    /// A key is valid when its elements are valid, the owner of anything but
    /// a class is an address, and the cell is a storage key for a storage
    /// write and zero otherwise.
    pub open spec fn wf(&self) -> bool {
        &&& self.owner.wf()
        &&& self.cell.wf()
        &&& match self.kind {
            RecordKind::StorageWrite => self.owner.is_address_spec()
                && self.cell.is_address_spec(),
            RecordKind::NonceUpdate => self.owner.is_address_spec() && self.cell@
                == zero_felt_bytes(),
            RecordKind::DeclaredClass => self.cell@ == zero_felt_bytes(),
            RecordKind::DeployedContract => self.owner.is_address_spec() && self.cell@
                == zero_felt_bytes(),
        }
    }

    /// Whether the key is valid.
    pub fn is_valid(&self) -> (r: bool)
        ensures
            r == self.wf(),
    {
        proof {
            use_type_invariant(&self.owner);
            use_type_invariant(&self.cell);
        }
        let zero = Felt::zero();
        match self.kind {
            RecordKind::StorageWrite => self.owner.is_address() && self.cell.is_address(),
            RecordKind::NonceUpdate => self.owner.is_address() && self.cell.same(&zero),
            RecordKind::DeclaredClass => self.cell.same(&zero),
            RecordKind::DeployedContract => self.owner.is_address() && self.cell.same(&zero),
        }
    }

    /// Whether both keys are the same key.
    pub fn same(&self, other: &SubKey) -> (r: bool)
        ensures
            r == (*self == *other),
    {
        self.kind == other.kind && self.owner.same(&other.owner) && self.cell.same(&other.cell)
    }
}

impl Record {
    pub open spec fn wf(&self) -> bool {
        self.key.wf() && self.value.wf()
    }
}

/// The key of what the storage cell `key` of the contract at `address` takes.
pub open spec fn storage_key(address: Felt, key: Felt) -> SubKey {
    SubKey { kind: RecordKind::StorageWrite, owner: address, cell: key }
}

/// The key of the nonce that the contract at `address` takes.
pub open spec fn nonce_key(address: Felt) -> SubKey {
    SubKey { kind: RecordKind::NonceUpdate, owner: address, cell: Felt::spec_zero() }
}

/// The key of the declaration of the class `class_hash`.
pub open spec fn class_key(class_hash: Felt) -> SubKey {
    SubKey { kind: RecordKind::DeclaredClass, owner: class_hash, cell: Felt::spec_zero() }
}

/// The key of the deployment of the contract at `address`.
pub open spec fn contract_key(address: Felt) -> SubKey {
    SubKey { kind: RecordKind::DeployedContract, owner: address, cell: Felt::spec_zero() }
}

/// Whether some record of `s` has the key `k`.
pub open spec fn has_key(s: Seq<Record>, k: SubKey) -> bool {
    exists|i: int| 0 <= i < s.len() && #[trigger] s[i].key == k
}

/// A position in `s` of a record with the key `k`, if there is one.
pub open spec fn slot(s: Seq<Record>, k: SubKey) -> int {
    choose|i: int| 0 <= i < s.len() && #[trigger] s[i].key == k
}

/// What `s` holds under the key `k`.
pub open spec fn lookup(s: Seq<Record>, k: SubKey) -> Option<Felt> {
    if has_key(s, k) {
        Some(s[slot(s, k)].value)
    } else {
        None
    }
}

/// `s` with `v` under the key `k`: in the place of the record that had the
/// key, or behind all the others if none had it.
pub open spec fn put(s: Seq<Record>, k: SubKey, v: Felt) -> Seq<Record> {
    if has_key(s, k) {
        s.update(slot(s, k), Record { key: k, value: v })
    } else {
        s.push(Record { key: k, value: v })
    }
}

/// No two records of `s` have the same key.
pub open spec fn distinct_keys(s: Seq<Record>) -> bool {
    forall|i: int, j: int|
        0 <= i < j < s.len() ==> (#[trigger] s[i]).key != (#[trigger] s[j]).key
}

/// The records of a valid state diff: valid each, and no key twice.
pub open spec fn valid_records(s: Seq<Record>) -> bool {
    &&& distinct_keys(s)
    &&& forall|i: int| 0 <= i < s.len() ==> (#[trigger] s[i]).wf()
}

/// Where keys are distinct, the record with a key is found at its one place.
pub proof fn lemma_slot_unique(s: Seq<Record>, k: SubKey, i: int)
    requires
        distinct_keys(s),
        0 <= i < s.len(),
        s[i].key == k,
    ensures
        has_key(s, k),
        slot(s, k) == i,
        lookup(s, k) == Some(s[i].value),
{
}

/// Putting a valid record into valid records leaves them valid.
pub proof fn lemma_put_valid(s: Seq<Record>, k: SubKey, v: Felt)
    requires
        valid_records(s),
        k.wf(),
        v.wf(),
    ensures
        valid_records(put(s, k, v)),
        lookup(put(s, k, v), k) == Some(v),
        forall|other: SubKey| other != k ==> lookup(put(s, k, v), other) == lookup(s, other),
{
    let t = put(s, k, v);
    let at = if has_key(s, k) {
        slot(s, k)
    } else {
        s.len() as int
    };
    assert forall|i: int| 0 <= i < t.len() implies (#[trigger] t[i]).key == (if i == at {
        k
    } else {
        s[i].key
    }) && t[i].wf() by {}
    assert(distinct_keys(t));
    lemma_slot_unique(t, k, at);
    assert forall|other: SubKey| other != k implies lookup(t, other) == lookup(s, other) by {
        if has_key(s, other) {
            let i = slot(s, other);
            lemma_slot_unique(s, other, i);
            lemma_slot_unique(t, other, i);
        }
    }
}

impl View for StateDiff {
    type V = Seq<Record>;

    closed spec fn view(&self) -> Seq<Record> {
        self.records@
    }
}

impl StateDiff {
    /// A state diff is valid when its records are.
    pub open spec fn wf(&self) -> bool {
        valid_records(self@)
    }

    /// The state diff that changes nothing.
    pub fn new() -> (r: StateDiff)
        ensures
            r@ == Seq::<Record>::empty(),
            r.wf(),
    {
        StateDiff { records: Vec::new() }
    }

    /// The number of records.
    pub fn len(&self) -> (r: usize)
        ensures
            r == self@.len(),
    {
        self.records.len()
    }

    /// The record at position `i`.
    pub fn record(&self, i: usize) -> (r: Option<Record>)
        ensures
            r == if i < self@.len() { Some(self@[i as int]) } else { None },
    {
        if i < self.records.len() {
            Some(self.records[i])
        } else {
            None
        }
    }

    /// A copy with the same records.
    pub fn copy(&self) -> (r: StateDiff)
        ensures
            r@ == self@,
    {
        let mut records: Vec<Record> = Vec::with_capacity(self.records.len());
        let mut i: usize = 0;
        while i < self.records.len()
            invariant
                i <= self.records@.len(),
                records@ == self.records@.subrange(0, i as int),
            decreases self.records@.len() - i,
        {
            records.push(self.records[i]);
            i += 1;
        }
        StateDiff { records }
    }

    /// The position of the record with the key `k`.
    fn find(&self, k: &SubKey) -> (r: Option<usize>)
        requires
            self.wf(),
        ensures
            r.is_some() <==> has_key(self@, *k),
            r.is_some() ==> r.unwrap() == slot(self@, *k) && r.unwrap() < self@.len(),
    {
        let mut i: usize = 0;
        while i < self.records.len()
            invariant
                i <= self.records@.len(),
                distinct_keys(self.records@),
                forall|j: int| 0 <= j < i ==> (#[trigger] self.records@[j]).key != *k,
            decreases self.records@.len() - i,
        {
            if self.records[i].key.same(k) {
                proof {
                    lemma_slot_unique(self.records@, *k, i as int);
                }
                return Some(i);
            }
            i += 1;
        }
        None
    }

    /// What is recorded under the key `k`.
    pub fn get(&self, k: &SubKey) -> (r: Option<Felt>)
        requires
            self.wf(),
        ensures
            r == lookup(self@, *k),
    {
        match self.find(k) {
            Some(i) => Some(self.records[i].value),
            None => None,
        }
    }

    /// Records `v` under the valid key `k`, in the place of what was there.
    fn put_valid(&mut self, k: SubKey, v: Felt)
        requires
            old(self).wf(),
            k.wf(),
        ensures
            final(self)@ == put(old(self)@, k, v),
            final(self).wf(),
    {
        proof {
            use_type_invariant(&v);
            lemma_put_valid(self.records@, k, v);
        }
        let rec = Record { key: k, value: v };
        match self.find(&k) {
            Some(i) => {
                self.records[i] = rec;
            },
            None => {
                self.records.push(rec);
            },
        }
    }

    /// Puts `rec` behind the other records, if it is valid and none of them
    /// has its key; says whether it did.
    pub fn insert_record(&mut self, rec: Record) -> (r: bool)
        requires
            old(self).wf(),
        ensures
            final(self).wf(),
            r == (rec.wf() && !has_key(old(self)@, rec.key)),
            final(self)@ == if r { old(self)@.push(rec) } else { old(self)@ },
    {
        proof {
            use_type_invariant(&rec.value);
        }
        if !rec.key.is_valid() {
            return false;
        }
        if self.find(&rec.key).is_some() {
            return false;
        }
        proof {
            lemma_put_valid(self.records@, rec.key, rec.value);
        }
        self.records.push(rec);
        true
    }

    /// Records that the storage cell `key` of the contract at `address`
    /// takes `value`. Refused when the address or the key is out of range.
    pub fn set_storage(&mut self, address: Felt, key: Felt, value: Felt) -> (r: Result<
        (),
        StorageError,
    >)
        requires
            old(self).wf(),
        ensures
            final(self).wf(),
            r.is_ok() <==> address.is_address_spec() && key.is_address_spec(),
            r.is_ok() ==> final(self)@ == put(old(self)@, storage_key(address, key), value),
            r.is_err() ==> r.unwrap_err() == StorageError::AddressOutOfRange && final(self)@
                == old(self)@,
    {
        if !address.is_address() || !key.is_address() {
            return Err(StorageError::AddressOutOfRange);
        }
        proof {
            use_type_invariant(&address);
            use_type_invariant(&key);
        }
        self.put_valid(SubKey { kind: RecordKind::StorageWrite, owner: address, cell: key }, value);
        Ok(())
    }

    /// Records that the contract at `address` takes `nonce`. Refused when
    /// the address is out of range.
    pub fn set_nonce(&mut self, address: Felt, nonce: Felt) -> (r: Result<(), StorageError>)
        requires
            old(self).wf(),
        ensures
            final(self).wf(),
            r.is_ok() <==> address.is_address_spec(),
            r.is_ok() ==> final(self)@ == put(old(self)@, nonce_key(address), nonce),
            r.is_err() ==> r.unwrap_err() == StorageError::AddressOutOfRange && final(self)@
                == old(self)@,
    {
        if !address.is_address() {
            return Err(StorageError::AddressOutOfRange);
        }
        proof {
            use_type_invariant(&address);
        }
        self.put_valid(
            SubKey { kind: RecordKind::NonceUpdate, owner: address, cell: Felt::zero() },
            nonce,
        );
        Ok(())
    }

    /// Records that the class `class_hash` is declared, with the hash of its
    /// compiled form.
    pub fn declare_class(&mut self, class_hash: Felt, compiled_class_hash: Felt)
        requires
            old(self).wf(),
        ensures
            final(self).wf(),
            final(self)@ == put(old(self)@, class_key(class_hash), compiled_class_hash),
    {
        proof {
            use_type_invariant(&class_hash);
        }
        self.put_valid(
            SubKey { kind: RecordKind::DeclaredClass, owner: class_hash, cell: Felt::zero() },
            compiled_class_hash,
        );
    }

    /// Records that a contract of the class `class_hash` is deployed at
    /// `address`. Refused when the address is out of range.
    pub fn deploy_contract(&mut self, address: Felt, class_hash: Felt) -> (r: Result<
        (),
        StorageError,
    >)
        requires
            old(self).wf(),
        ensures
            final(self).wf(),
            r.is_ok() <==> address.is_address_spec(),
            r.is_ok() ==> final(self)@ == put(old(self)@, contract_key(address), class_hash),
            r.is_err() ==> r.unwrap_err() == StorageError::AddressOutOfRange && final(self)@
                == old(self)@,
    {
        if !address.is_address() {
            return Err(StorageError::AddressOutOfRange);
        }
        proof {
            use_type_invariant(&address);
        }
        self.put_valid(
            SubKey { kind: RecordKind::DeployedContract, owner: address, cell: Felt::zero() },
            class_hash,
        );
        Ok(())
    }

    /// What the storage cell `key` of the contract at `address` takes.
    pub fn storage_at(&self, address: Felt, key: Felt) -> (r: Option<Felt>)
        requires
            self.wf(),
        ensures
            r == lookup(self@, storage_key(address, key)),
    {
        self.get(&SubKey { kind: RecordKind::StorageWrite, owner: address, cell: key })
    }

    /// The nonce that the contract at `address` takes.
    pub fn nonce_of(&self, address: Felt) -> (r: Option<Felt>)
        requires
            self.wf(),
        ensures
            r == lookup(self@, nonce_key(address)),
    {
        self.get(&SubKey { kind: RecordKind::NonceUpdate, owner: address, cell: Felt::zero() })
    }

    /// The hash of the compiled form of the declared class `class_hash`.
    pub fn compiled_class_of(&self, class_hash: Felt) -> (r: Option<Felt>)
        requires
            self.wf(),
        ensures
            r == lookup(self@, class_key(class_hash)),
    {
        self.get(&SubKey { kind: RecordKind::DeclaredClass, owner: class_hash, cell: Felt::zero() })
    }

    /// The class hash of the contract deployed at `address`.
    pub fn class_of(&self, address: Felt) -> (r: Option<Felt>)
        requires
            self.wf(),
        ensures
            r == lookup(self@, contract_key(address)),
    {
        self.get(
            &SubKey { kind: RecordKind::DeployedContract, owner: address, cell: Felt::zero() },
        )
    }
}

} // verus!
