//! The keys under which the blocks are kept in tables that are ordered by
//! key: one key for each block, and one for each record of a block.

use crate::codec::{kind_of, kind_tag, push_felt, read_felt, tag_of};
use crate::error::StorageError;
use crate::state_diff::SubKey;
use vstd::bytes::{spec_u64_from_le_bytes, spec_u64_to_le_bytes};
use vstd::prelude::*;

verus! {

/// The length of the key of a block.
pub const BLOCK_KEY_BYTES: usize = 8;

/// The length of the key of a record.
pub const RECORD_KEY_BYTES: usize = 73;

/// The key of block `n`: its number, most significant byte first.
pub open spec fn block_key_bytes(n: u64) -> Seq<u8> {
    spec_u64_to_le_bytes(n).reverse()
}

/// The key of the record of block `n` with the key `k`: the key of the
/// block, then the tag of the kind, the owner and the cell.
pub open spec fn record_key_bytes(n: u64, k: SubKey) -> Seq<u8> {
    block_key_bytes(n) + seq![kind_tag(k.kind)] + k.owner@ + k.cell@
}

/// Whether `a` comes before `b` from position `i` on, byte by byte.
pub open spec fn precedes_from(a: Seq<u8>, b: Seq<u8>, i: int) -> bool
    decreases a.len() - i,
{
    if i < 0 || i >= a.len() || i >= b.len() {
        a.len() < b.len()
    } else if a[i] != b[i] {
        a[i] < b[i]
    } else {
        precedes_from(a, b, i + 1)
    }
}

/// Whether `a` comes before `b` in a table ordered by key.
pub open spec fn precedes(a: Seq<u8>, b: Seq<u8>) -> bool {
    precedes_from(a, b, 0)
}

/// What decoding the key of a block from `bytes` may return.
pub open spec fn block_key_decoded(bytes: Seq<u8>, r: Result<u64, StorageError>) -> bool {
    match r {
        Ok(n) => block_key_bytes(n) == bytes,
        Err(e) => e == StorageError::CodecError && forall|n: u64|
            #[trigger] block_key_bytes(n) != bytes,
    }
}

/// What decoding the key of a record from `bytes` may return.
pub open spec fn record_key_decoded(bytes: Seq<u8>, r: Result<(u64, SubKey), StorageError>) -> bool {
    match r {
        Ok((n, k)) => k.wf() && record_key_bytes(n, k) == bytes,
        Err(e) => e == StorageError::CodecError && forall|n: u64, k: SubKey|
            k.wf() ==> #[trigger] record_key_bytes(n, k) != bytes,
    }
}

/// The bytes of the key of a block.
pub proof fn lemma_block_key_layout(n: u64)
    ensures
        block_key_bytes(n).len() == 8,
        block_key_bytes(n)[0] == ((n >> 56) & 0xff) as u8,
        block_key_bytes(n)[1] == ((n >> 48) & 0xff) as u8,
        block_key_bytes(n)[2] == ((n >> 40) & 0xff) as u8,
        block_key_bytes(n)[3] == ((n >> 32) & 0xff) as u8,
        block_key_bytes(n)[4] == ((n >> 24) & 0xff) as u8,
        block_key_bytes(n)[5] == ((n >> 16) & 0xff) as u8,
        block_key_bytes(n)[6] == ((n >> 8) & 0xff) as u8,
        block_key_bytes(n)[7] == (n & 0xff) as u8,
        spec_u64_from_le_bytes(block_key_bytes(n).reverse()) == n,
{
    vstd::bytes::spec_u64_to_le_bytes_to_open(n);
    vstd::bytes::lemma_auto_spec_u64_to_from_le_bytes();
    assert(block_key_bytes(n).reverse() =~= spec_u64_to_le_bytes(n));
}

/// Blocks with the same key are the same block.
pub proof fn law_block_key_injective(n: u64, m: u64)
    requires
        block_key_bytes(n) == block_key_bytes(m),
    ensures
        n == m,
{
    lemma_block_key_layout(n);
    lemma_block_key_layout(m);
}

/// A table ordered by key holds the blocks in the order of their numbers.
pub proof fn law_block_keys_ordered(n: u64, m: u64)
    ensures
        n < m <==> precedes(block_key_bytes(n), block_key_bytes(m)),
{
    lemma_block_key_layout(n);
    lemma_block_key_layout(m);
    let a0 = (n >> 56) & 0xff;
    let a1 = (n >> 48) & 0xff;
    let a2 = (n >> 40) & 0xff;
    let a3 = (n >> 32) & 0xff;
    let a4 = (n >> 24) & 0xff;
    let a5 = (n >> 16) & 0xff;
    let a6 = (n >> 8) & 0xff;
    let a7 = n & 0xff;
    let b0 = (m >> 56) & 0xff;
    let b1 = (m >> 48) & 0xff;
    let b2 = (m >> 40) & 0xff;
    let b3 = (m >> 32) & 0xff;
    let b4 = (m >> 24) & 0xff;
    let b5 = (m >> 16) & 0xff;
    let b6 = (m >> 8) & 0xff;
    let b7 = m & 0xff;
    assert(a0 <= 0xff && a1 <= 0xff && a2 <= 0xff && a3 <= 0xff && a4 <= 0xff && a5 <= 0xff && a6
        <= 0xff && a7 <= 0xff) by (bit_vector)
        requires
            a0 == (n >> 56) & 0xff,
            a1 == (n >> 48) & 0xff,
            a2 == (n >> 40) & 0xff,
            a3 == (n >> 32) & 0xff,
            a4 == (n >> 24) & 0xff,
            a5 == (n >> 16) & 0xff,
            a6 == (n >> 8) & 0xff,
            a7 == n & 0xff,
    ;
    assert(b0 <= 0xff && b1 <= 0xff && b2 <= 0xff && b3 <= 0xff && b4 <= 0xff && b5 <= 0xff && b6
        <= 0xff && b7 <= 0xff) by (bit_vector)
        requires
            b0 == (m >> 56) & 0xff,
            b1 == (m >> 48) & 0xff,
            b2 == (m >> 40) & 0xff,
            b3 == (m >> 32) & 0xff,
            b4 == (m >> 24) & 0xff,
            b5 == (m >> 16) & 0xff,
            b6 == (m >> 8) & 0xff,
            b7 == m & 0xff,
    ;
    assert(n < m <==> (a0 < b0 || (a0 == b0 && (a1 < b1 || (a1 == b1 && (a2 < b2 || (a2 == b2 && (a3
        < b3 || (a3 == b3 && (a4 < b4 || (a4 == b4 && (a5 < b5 || (a5 == b5 && (a6 < b6 || (a6 == b6
        && a7 < b7))))))))))))))) by (bit_vector)
        requires
            a0 == (n >> 56) & 0xff,
            a1 == (n >> 48) & 0xff,
            a2 == (n >> 40) & 0xff,
            a3 == (n >> 32) & 0xff,
            a4 == (n >> 24) & 0xff,
            a5 == (n >> 16) & 0xff,
            a6 == (n >> 8) & 0xff,
            a7 == n & 0xff,
            b0 == (m >> 56) & 0xff,
            b1 == (m >> 48) & 0xff,
            b2 == (m >> 40) & 0xff,
            b3 == (m >> 32) & 0xff,
            b4 == (m >> 24) & 0xff,
            b5 == (m >> 16) & 0xff,
            b6 == (m >> 8) & 0xff,
            b7 == m & 0xff,
    ;
    reveal_with_fuel(precedes_from, 10);
}

/// Where the parts of the key of a record lie.
pub proof fn lemma_record_key_layout(n: u64, k: SubKey)
    ensures
        record_key_bytes(n, k).len() == 73,
        record_key_bytes(n, k).subrange(0, 8) == block_key_bytes(n),
        record_key_bytes(n, k)[8] == kind_tag(k.kind),
        record_key_bytes(n, k).subrange(9, 41) == k.owner@,
        record_key_bytes(n, k).subrange(41, 73) == k.cell@,
{
    lemma_block_key_layout(n);
    k.owner.lemma_len();
    k.cell.lemma_len();
}

/// Records with the same key are records of the same block with the same
/// key in it.
pub proof fn law_record_key_injective(n: u64, k: SubKey, m: u64, l: SubKey)
    requires
        record_key_bytes(n, k) == record_key_bytes(m, l),
    ensures
        n == m,
        k == l,
{
    lemma_record_key_layout(n, k);
    lemma_record_key_layout(m, l);
    law_block_key_injective(n, m);
    k.owner.lemma_view_injective(l.owner);
    k.cell.lemma_view_injective(l.cell);
}

/// Decoding the key of a block gives its number back.
pub proof fn law_block_key_round_trip(n: u64, r: Result<u64, StorageError>)
    requires
        block_key_decoded(block_key_bytes(n), r),
    ensures
        r == Ok::<u64, StorageError>(n),
{
    if let Ok(m) = r {
        law_block_key_injective(m, n);
    }
}

/// Decoding the key of a valid record gives its block and its key back.
pub proof fn law_record_key_round_trip(n: u64, k: SubKey, r: Result<(u64, SubKey), StorageError>)
    requires
        k.wf(),
        record_key_decoded(record_key_bytes(n, k), r),
    ensures
        r == Ok::<(u64, SubKey), StorageError>((n, k)),
{
    if let Ok((m, l)) = r {
        law_record_key_injective(m, l, n, k);
    }
}

/// The key of block `n`.
pub fn block_key(n: u64) -> (r: Vec<u8>)
    ensures
        r@ == block_key_bytes(n),
{
    let le = vstd::bytes::u64_to_le_bytes(n);
    let mut out: Vec<u8> = Vec::with_capacity(BLOCK_KEY_BYTES);
    let mut i: usize = 0;
    while i < 8
        invariant
            i <= 8,
            le@.len() == 8,
            out@.len() == i,
            forall|j: int| 0 <= j < i ==> out@[j] == le@[7 - j],
        decreases 8 - i,
    {
        out.push(le[7 - i]);
        i += 1;
    }
    out
}

/// The number of the block whose key is `bytes`. Refused where `bytes` is
/// the key of no block.
pub fn decode_block_key(bytes: &[u8]) -> (r: Result<u64, StorageError>)
    ensures
        block_key_decoded(bytes@, r),
{
    proof {
        assert forall|n: u64| #[trigger] block_key_bytes(n) == bytes@ implies bytes@.len() == 8 by {
            lemma_block_key_layout(n);
        }
    }
    if bytes.len() != BLOCK_KEY_BYTES {
        return Err(StorageError::CodecError);
    }
    let mut le: Vec<u8> = Vec::with_capacity(BLOCK_KEY_BYTES);
    let mut i: usize = 0;
    while i < 8
        invariant
            i <= 8,
            bytes@.len() == 8,
            le@.len() == i,
            forall|j: int| 0 <= j < i ==> le@[j] == bytes@[7 - j],
        decreases 8 - i,
    {
        le.push(bytes[7 - i]);
        i += 1;
    }
    let n = vstd::bytes::u64_from_le_bytes(le.as_slice());
    proof {
        vstd::bytes::lemma_auto_spec_u64_to_from_le_bytes();
        assert(block_key_bytes(n) =~= bytes@);
    }
    Ok(n)
}

/// The key of the record of block `n` with the key `k`.
pub fn record_key(n: u64, k: &SubKey) -> (r: Vec<u8>)
    ensures
        r@ == record_key_bytes(n, *k),
{
    let mut out = block_key(n);
    out.push(tag_of(k.kind));
    push_felt(&mut out, &k.owner);
    push_felt(&mut out, &k.cell);
    out
}

/// The block and the key in it of the record whose key is `bytes`. Refused
/// where `bytes` is the key of no valid record.
pub fn decode_record_key(bytes: &[u8]) -> (r: Result<(u64, SubKey), StorageError>)
    ensures
        record_key_decoded(bytes@, r),
{
    proof {
        assert forall|n: u64, k: SubKey| k.wf() && #[trigger] record_key_bytes(n, k) == bytes@ implies {
            &&& bytes@.len() == 73
            &&& bytes@.subrange(0, 8) == block_key_bytes(n)
            &&& bytes@[8] == kind_tag(k.kind)
            &&& bytes@.subrange(9, 41) == k.owner@
            &&& bytes@.subrange(41, 73) == k.cell@
            &&& crate::felt::in_felt_range(k.owner@)
            &&& crate::felt::in_felt_range(k.cell@)
        } by {
            lemma_record_key_layout(n, k);
            k.owner.lemma_in_range();
            k.cell.lemma_in_range();
        }
    }
    if bytes.len() != RECORD_KEY_BYTES {
        return Err(StorageError::CodecError);
    }
    let n = match decode_block_key(vstd::slice::slice_subrange(bytes, 0, 8)) {
        Ok(n) => n,
        Err(e) => {
            return Err(e);
        },
    };
    let kind = match kind_of(bytes[8]) {
        Some(kind) => kind,
        None => {
            return Err(StorageError::CodecError);
        },
    };
    let owner = match read_felt(bytes, 9) {
        Some(f) => f,
        None => {
            return Err(StorageError::CodecError);
        },
    };
    let cell = match read_felt(bytes, 41) {
        Some(f) => f,
        None => {
            return Err(StorageError::CodecError);
        },
    };
    let k = SubKey { kind, owner, cell };
    proof {
        assert forall|m: u64, l: SubKey| l.wf() && #[trigger] record_key_bytes(m, l) == bytes@ implies l
            == k by {
            l.owner.lemma_view_injective(owner);
            l.cell.lemma_view_injective(cell);
        }
    }
    if !k.is_valid() {
        return Err(StorageError::CodecError);
    }
    assert(record_key_bytes(n, k) =~= bytes@);
    Ok((n, k))
}

} // verus!
