//! Field elements: the 32-byte values that name blocks, contracts, classes
//! and storage cells.

use starknet_api::hash::StarkFelt;
use vstd::prelude::*;

verus! {

/// An element of the Stark field, held as 32 big-endian bytes.
#[derive(Clone, Copy, Debug, PartialEq, Eq, Hash)]
pub struct Felt {
    bytes: [u8; 32],
}

impl View for Felt {
    type V = Seq<u8>;

    closed spec fn view(&self) -> Seq<u8> {
        self.bytes@
    }
}

/// The big-endian form of `x`, padded with zero bytes to 32 bytes.
pub open spec fn u64_felt_bytes(x: u64) -> Seq<u8> {
    Seq::new(
        32,
        |i: int|
            if i < 24 {
                0u8
            } else {
                ((x >> (((31 - i) * 8) as u64)) & 0xff) as u8
            },
    )
}

/// Thirty-two zero bytes.
pub open spec fn zero_felt_bytes() -> Seq<u8> {
    Seq::new(32, |i: int| 0u8)
}

/// Whether 32 big-endian bytes are below 2^252, the range that a field
/// element is kept in.
pub open spec fn in_felt_range(bytes: Seq<u8>) -> bool {
    bytes.len() == 32 && bytes[0] < 0x10
}

/// Whether 32 big-endian bytes are below 2^251, the range of contract
/// addresses and storage keys.
pub open spec fn in_address_range(bytes: Seq<u8>) -> bool {
    bytes.len() == 32 && bytes[0] < 0x08
}

/// `StarkFelt::from(u64)` of starknet_api, with the bytes of the result
/// copied out. Trusted: the result is the argument in big-endian form,
/// behind 24 zero bytes.
#[verifier::external_body]
fn stark_felt_from_u64(x: u64) -> (r: Vec<u8>)
    ensures
        r@ == u64_felt_bytes(x),
{
    StarkFelt::from(x).bytes().to_vec()
}

/// `ContractAddress::try_from(StarkHash)` of starknet_api, asked whether it
/// accepts. Trusted: it accepts exactly the values below 2^251, which are
/// those whose first byte is below 8.
#[verifier::external_body]
fn contract_address_accepts(bytes: &[u8; 32]) -> (r: bool)
    ensures
        r == in_address_range(bytes@),
{
    starknet_api::core::ContractAddress::try_from(StarkFelt::new_unchecked(*bytes)).is_ok()
}

/// `GlobalRoot::default()` of starknet_api, with the bytes of the root
/// copied out. Trusted: the default root is the zero element.
#[verifier::external_body]
fn default_global_root() -> (r: Vec<u8>)
    ensures
        r@ == zero_felt_bytes(),
{
    starknet_api::core::GlobalRoot::default().0.bytes().to_vec()
}

/// The array that holds the 32 bytes of `v`.
fn array_of(v: &Vec<u8>) -> (r: [u8; 32])
    requires
        v@.len() == 32,
    ensures
        r@ == v@,
{
    let mut out = [0u8;32];
    let mut i: usize = 0;
    while i < 32
        invariant
            i <= 32,
            v@.len() == 32,
            forall|j: int| 0 <= j < i ==> out@[j] == v@[j],
        decreases 32 - i,
    {
        out[i] = v[i];
        i += 1;
    }
    out
}

impl Felt {
    /// Every element holds 32 bytes.
    pub proof fn lemma_len(self)
        ensures
            self@.len() == 32,
    {
    }

    /// Every element holds 32 bytes, the first of them below 16.
    pub proof fn lemma_in_range(self)
        requires
            self.wf(),
        ensures
            in_felt_range(self@),
    {
    }

    /// Elements with the same bytes are the same element.
    pub proof fn lemma_view_injective(self, other: Felt)
        requires
            self@ == other@,
        ensures
            self == other,
    {
        assert(self.bytes == other.bytes);
    }

    /// Validity of an element: its top nibble is zero. Every element that
    /// executable code holds is valid.
    #[verifier::type_invariant]
    pub closed spec fn wf(&self) -> bool {
        self.bytes@[0] < 0x10
    }

    /// Whether the element may name a contract or a storage cell.
    pub open spec fn is_address_spec(&self) -> bool {
        in_address_range(self@)
    }

    /// The element with the given big-endian bytes, if they are in range.
    pub fn new(bytes: [u8; 32]) -> (r: Option<Felt>)
        ensures
            r.is_some() <==> in_felt_range(bytes@),
            r.is_some() ==> r.unwrap()@ == bytes@ && r.unwrap().wf(),
    {
        if bytes[0] < 0x10 {
            Some(Felt { bytes })
        } else {
            None
        }
    }

    /// The element whose value is `x`.
    pub fn from_u64(x: u64) -> (r: Felt)
        ensures
            r@ == u64_felt_bytes(x),
            r.wf(),
            r.is_address_spec(),
    {
        let bytes = array_of(&stark_felt_from_u64(x));
        Felt { bytes }
    }

    /// The zero element.
    pub closed spec fn spec_zero() -> Felt {
        Felt { bytes: vstd::array::spec_array_fill_for_copy_type::<u8, 32>(0u8) }
    }

    /// The zero element holds 32 zero bytes.
    pub proof fn lemma_zero()
        ensures
            Felt::spec_zero()@ == zero_felt_bytes(),
            Felt::spec_zero().wf(),
            Felt::spec_zero().is_address_spec(),
    {
        vstd::array::axiom_spec_array_fill_for_copy_type::<u8, 32>(0u8);
    }

    /// The zero element, which is the root of the empty global state.
    pub fn zero() -> (r: Felt)
        ensures
            r == Felt::spec_zero(),
            r@ == zero_felt_bytes(),
            r.wf(),
            r.is_address_spec(),
    {
        let bytes = array_of(&default_global_root());
        let r = Felt { bytes };
        proof {
            Felt::lemma_zero();
            r.lemma_view_injective(Felt::spec_zero());
        }
        r
    }

    /// Whether the element is below 2^251.
    pub fn is_address(&self) -> (r: bool)
        ensures
            r == self.is_address_spec(),
    {
        contract_address_accepts(&self.bytes)
    }

    /// The byte at position `i`, counted from the most significant.
    pub fn byte(&self, i: usize) -> (r: u8)
        requires
            i < 32,
        ensures
            r == self@[i as int],
    {
        self.bytes[i]
    }

    /// The 32 big-endian bytes.
    pub fn to_bytes(&self) -> (r: Vec<u8>)
        ensures
            r@ == self@,
    {
        let mut out: Vec<u8> = Vec::with_capacity(32);
        let mut i: usize = 0;
        while i < 32
            invariant
                i <= 32,
                out@ == self@.subrange(0, i as int),
            decreases 32 - i,
        {
            out.push(self.bytes[i]);
            i += 1;
        }
        out
    }

    /// Whether both elements hold the same bytes.
    pub fn same(&self, other: &Felt) -> (r: bool)
        ensures
            r == (self@ == other@),
            r == (*self == *other),
    {
        let mut i: usize = 0;
        while i < 32
            invariant
                i <= 32,
                forall|j: int| 0 <= j < i ==> self@[j] == other@[j],
            decreases 32 - i,
        {
            if self.bytes[i] != other.bytes[i] {
                return false;
            }
            i += 1;
        }
        assert(self@ =~= other@);
        proof {
            self.lemma_view_injective(*other);
        }
        true
    }
}

} // verus!
