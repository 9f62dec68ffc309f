//! The byte form of headers and state diffs, as the storage keeps them:
//! fixed-width fields one behind the other, integers in little-endian
//! order, field elements as their 32 bytes.

use crate::error::StorageError;
use crate::felt::{in_felt_range, Felt};
use crate::header::BlockHeader;
use crate::state_diff::{has_key, valid_records, Record, RecordKind, StateDiff, SubKey};
use vstd::bytes::{spec_u128_to_le_bytes, spec_u64_from_le_bytes, spec_u64_to_le_bytes};
use vstd::prelude::*;

verus! {

/// The length of an encoded header.
pub const HEADER_BYTES: usize = 160;

/// The encoding of a header.
pub open spec fn header_bytes(h: BlockHeader) -> Seq<u8> {
    h.block_hash@ + h.parent_hash@ + spec_u64_to_le_bytes(h.block_number) + spec_u64_to_le_bytes(
        h.timestamp,
    ) + h.sequencer_address@ + spec_u128_to_le_bytes(h.gas_price) + h.state_root@
}

/// What decoding a header from `bytes` may return: the valid header that
/// `bytes` encodes, or a codec error where there is none.
pub open spec fn header_decoded(bytes: Seq<u8>, r: Result<BlockHeader, StorageError>) -> bool {
    match r {
        Ok(h) => h.wf() && header_bytes(h) == bytes,
        Err(e) => e == StorageError::CodecError && forall|h: BlockHeader|
            h.wf() ==> #[trigger] header_bytes(h) != bytes,
    }
}

/// Where the fields of a header lie in its encoding.
pub proof fn lemma_header_layout(h: BlockHeader)
    ensures
        header_bytes(h).len() == 160,
        header_bytes(h).subrange(0, 32) == h.block_hash@,
        header_bytes(h).subrange(32, 64) == h.parent_hash@,
        header_bytes(h).subrange(64, 72) == spec_u64_to_le_bytes(h.block_number),
        header_bytes(h).subrange(72, 80) == spec_u64_to_le_bytes(h.timestamp),
        header_bytes(h).subrange(80, 112) == h.sequencer_address@,
        header_bytes(h).subrange(112, 128) == spec_u128_to_le_bytes(h.gas_price),
        header_bytes(h).subrange(128, 160) == h.state_root@,
{
    h.block_hash.lemma_len();
    h.parent_hash.lemma_len();
    h.sequencer_address.lemma_len();
    h.state_root.lemma_len();
    vstd::bytes::lemma_auto_spec_u64_to_from_le_bytes();
    vstd::bytes::lemma_auto_spec_u128_to_from_le_bytes();
}

/// Headers with the same encoding are the same header.
pub proof fn lemma_header_bytes_injective(a: BlockHeader, b: BlockHeader)
    requires
        header_bytes(a) == header_bytes(b),
    ensures
        a == b,
{
    lemma_header_layout(a);
    lemma_header_layout(b);
    vstd::bytes::lemma_auto_spec_u64_to_from_le_bytes();
    vstd::bytes::lemma_auto_spec_u128_to_from_le_bytes();
    a.block_hash.lemma_view_injective(b.block_hash);
    a.parent_hash.lemma_view_injective(b.parent_hash);
    a.sequencer_address.lemma_view_injective(b.sequencer_address);
    a.state_root.lemma_view_injective(b.state_root);
}

/// Encoding a valid header and decoding the bytes gives the header back.
pub proof fn law_header_round_trip(h: BlockHeader, r: Result<BlockHeader, StorageError>)
    requires
        h.wf(),
        header_decoded(header_bytes(h), r),
    ensures
        r == Ok::<BlockHeader, StorageError>(h),
{
    if let Ok(g) = r {
        lemma_header_bytes_injective(g, h);
    }
}

/// Puts the bytes of `more` behind those of `out`.
pub(crate) fn push_bytes(out: &mut Vec<u8>, more: &[u8])
    ensures
        final(out)@ == old(out)@ + more@,
{
    let mut i: usize = 0;
    while i < more.len()
        invariant
            i <= more@.len(),
            out@ == old(out)@ + more@.subrange(0, i as int),
        decreases more@.len() - i,
    {
        out.push(more[i]);
        i += 1;
    }
}

/// Puts the 32 bytes of `f` behind those of `out`.
pub(crate) fn push_felt(out: &mut Vec<u8>, f: &Felt)
    ensures
        final(out)@ == old(out)@ + f@,
{
    let bytes = f.to_bytes();
    push_bytes(out, bytes.as_slice());
}

/// The field element whose 32 bytes stand at `pos`, if they are in range.
pub(crate) fn read_felt(bytes: &[u8], pos: usize) -> (r: Option<Felt>)
    requires
        pos + 32 <= bytes@.len(),
    ensures
        r.is_some() <==> in_felt_range(bytes@.subrange(pos as int, pos + 32)),
        r.is_some() ==> r.unwrap()@ == bytes@.subrange(pos as int, pos + 32) && r.unwrap().wf(),
{
    let len = bytes.len();
    let mut arr = [0u8;32];
    let mut i: usize = 0;
    while i < 32
        invariant
            i <= 32,
            pos + 32 <= bytes@.len() == len,
            forall|j: int| 0 <= j < i ==> arr@[j] == bytes@[pos + j],
        decreases 32 - i,
    {
        arr[i] = bytes[pos + i];
        i += 1;
    }
    Felt::new(arr)
}

/// The encoding of `h`.
pub fn encode_header(h: &BlockHeader) -> (r: Vec<u8>)
    ensures
        r@ == header_bytes(*h),
{
    let mut out: Vec<u8> = Vec::with_capacity(HEADER_BYTES);
    push_felt(&mut out, &h.block_hash);
    push_felt(&mut out, &h.parent_hash);
    push_bytes(&mut out, vstd::bytes::u64_to_le_bytes(h.block_number).as_slice());
    push_bytes(&mut out, vstd::bytes::u64_to_le_bytes(h.timestamp).as_slice());
    push_felt(&mut out, &h.sequencer_address);
    push_bytes(&mut out, vstd::bytes::u128_to_le_bytes(h.gas_price).as_slice());
    push_felt(&mut out, &h.state_root);
    out
}

/// The valid header that `bytes` encodes. Refused where `bytes` encodes
/// none.
pub fn decode_header(bytes: &[u8]) -> (r: Result<BlockHeader, StorageError>)
    ensures
        header_decoded(bytes@, r),
{
    proof {
        vstd::bytes::lemma_auto_spec_u64_to_from_le_bytes();
        vstd::bytes::lemma_auto_spec_u128_to_from_le_bytes();
        assert forall|h: BlockHeader| h.wf() && #[trigger] header_bytes(h) == bytes@ implies {
            &&& bytes@.len() == 160
            &&& in_felt_range(bytes@.subrange(0, 32))
            &&& in_felt_range(bytes@.subrange(32, 64))
            &&& in_felt_range(bytes@.subrange(80, 112))
            &&& bytes@.subrange(80, 112)[0] < 0x08
            &&& in_felt_range(bytes@.subrange(128, 160))
        } by {
            lemma_header_layout(h);
            h.block_hash.lemma_in_range();
            h.parent_hash.lemma_in_range();
            h.sequencer_address.lemma_in_range();
            h.state_root.lemma_in_range();
        }
    }
    if bytes.len() != HEADER_BYTES {
        return Err(StorageError::CodecError);
    }
    let block_hash = match read_felt(bytes, 0) {
        Some(f) => f,
        None => {
            return Err(StorageError::CodecError);
        },
    };
    let parent_hash = match read_felt(bytes, 32) {
        Some(f) => f,
        None => {
            return Err(StorageError::CodecError);
        },
    };
    let block_number = vstd::bytes::u64_from_le_bytes(vstd::slice::slice_subrange(bytes, 64, 72));
    let timestamp = vstd::bytes::u64_from_le_bytes(vstd::slice::slice_subrange(bytes, 72, 80));
    let sequencer_address = match read_felt(bytes, 80) {
        Some(f) => f,
        None => {
            return Err(StorageError::CodecError);
        },
    };
    if !sequencer_address.is_address() {
        return Err(StorageError::CodecError);
    }
    let gas_price = vstd::bytes::u128_from_le_bytes(vstd::slice::slice_subrange(bytes, 112, 128));
    let state_root = match read_felt(bytes, 128) {
        Some(f) => f,
        None => {
            return Err(StorageError::CodecError);
        },
    };
    let h = BlockHeader {
        block_hash,
        parent_hash,
        block_number,
        timestamp,
        sequencer_address,
        gas_price,
        state_root,
    };
    assert(header_bytes(h) =~= bytes@);
    Ok(h)
}

/// The length of an encoded record.
pub const RECORD_BYTES: usize = 97;

/// The byte that stands for a kind of record.
pub open spec fn kind_tag(kind: RecordKind) -> u8 {
    match kind {
        RecordKind::StorageWrite => 0,
        RecordKind::NonceUpdate => 1,
        RecordKind::DeclaredClass => 2,
        RecordKind::DeployedContract => 3,
    }
}

/// The encoding of a record: the tag of its kind, then owner, cell and
/// value.
pub open spec fn record_bytes(r: Record) -> Seq<u8> {
    seq![kind_tag(r.key.kind)] + r.key.owner@ + r.key.cell@ + r.value@
}

/// The encodings of records, one behind the other.
pub open spec fn records_bytes(s: Seq<Record>) -> Seq<u8>
    decreases s.len(),
{
    if s.len() == 0 {
        Seq::empty()
    } else {
        records_bytes(s.drop_last()) + record_bytes(s.last())
    }
}

/// The encoding of a state diff: the number of its records, then the
/// records.
pub open spec fn state_diff_bytes(s: Seq<Record>) -> Seq<u8> {
    spec_u64_to_le_bytes(s.len() as u64) + records_bytes(s)
}

/// Records that a state diff can hold and its encoding can count.
pub open spec fn encodable(s: Seq<Record>) -> bool {
    valid_records(s) && s.len() <= u64::MAX
}

/// What decoding a state diff from `bytes` may return: the valid records
/// that `bytes` encodes, or a codec error where there are none.
pub open spec fn state_diff_decoded(bytes: Seq<u8>, r: Result<Seq<Record>, StorageError>) -> bool {
    match r {
        Ok(s) => encodable(s) && state_diff_bytes(s) == bytes,
        Err(e) => e == StorageError::CodecError && forall|s: Seq<Record>|
            encodable(s) ==> #[trigger] state_diff_bytes(s) != bytes,
    }
}

/// The records of a decoded state diff.
pub open spec fn records_of(r: Result<StateDiff, StorageError>) -> Result<
    Seq<Record>,
    StorageError,
> {
    match r {
        Ok(d) => Ok(d@),
        Err(e) => Err(e),
    }
}

/// Where the fields of a record lie in its encoding.
pub proof fn lemma_record_layout(r: Record)
    ensures
        record_bytes(r).len() == 97,
        record_bytes(r)[0] == kind_tag(r.key.kind),
        record_bytes(r).subrange(1, 33) == r.key.owner@,
        record_bytes(r).subrange(33, 65) == r.key.cell@,
        record_bytes(r).subrange(65, 97) == r.value@,
{
    r.key.owner.lemma_len();
    r.key.cell.lemma_len();
    r.value.lemma_len();
}

/// Records with the same encoding are the same record.
pub proof fn lemma_record_bytes_injective(a: Record, b: Record)
    requires
        record_bytes(a) == record_bytes(b),
    ensures
        a == b,
{
    lemma_record_layout(a);
    lemma_record_layout(b);
    a.key.owner.lemma_view_injective(b.key.owner);
    a.key.cell.lemma_view_injective(b.key.cell);
    a.value.lemma_view_injective(b.value);
}

/// One more record makes the encoding longer by that record's.
pub proof fn lemma_records_push(s: Seq<Record>, r: Record)
    ensures
        records_bytes(s.push(r)) == records_bytes(s) + record_bytes(r),
{
    assert(s.push(r).drop_last() =~= s);
}

/// Every record takes 97 bytes.
pub proof fn lemma_records_len(s: Seq<Record>)
    ensures
        records_bytes(s).len() == 97 * s.len(),
    decreases s.len(),
{
    if s.len() > 0 {
        lemma_records_len(s.drop_last());
        lemma_record_layout(s.last());
    }
}

/// The record at position `i` is encoded in the bytes from `97 * i` on.
pub proof fn lemma_records_chunk(s: Seq<Record>, i: int)
    requires
        0 <= i < s.len(),
    ensures
        records_bytes(s).len() == 97 * s.len(),
        records_bytes(s).subrange(97 * i, 97 * i + 97) == record_bytes(s[i]),
    decreases s.len(),
{
    lemma_records_len(s);
    lemma_records_len(s.drop_last());
    lemma_record_layout(s.last());
    if i < s.len() - 1 {
        lemma_records_chunk(s.drop_last(), i);
    }
}

/// Where the count and the records lie in the encoding of a state diff.
pub proof fn lemma_state_diff_layout(s: Seq<Record>)
    requires
        s.len() <= u64::MAX,
    ensures
        state_diff_bytes(s).len() == 8 + 97 * s.len(),
        spec_u64_from_le_bytes(state_diff_bytes(s).subrange(0, 8)) == s.len(),
        forall|i: int|
            0 <= i < s.len() ==> #[trigger] state_diff_bytes(s).subrange(
                8 + 97 * i,
                8 + 97 * i + 97,
            ) == record_bytes(s[i]),
{
    vstd::bytes::lemma_auto_spec_u64_to_from_le_bytes();
    lemma_records_len(s);
    let all = state_diff_bytes(s);
    assert(all.subrange(0, 8) =~= spec_u64_to_le_bytes(s.len() as u64));
    assert forall|i: int| 0 <= i < s.len() implies #[trigger] all.subrange(
        8 + 97 * i,
        8 + 97 * i + 97,
    ) == record_bytes(s[i]) by {
        lemma_records_chunk(s, i);
        assert(all.subrange(8 + 97 * i, 8 + 97 * i + 97) =~= records_bytes(s).subrange(
            97 * i,
            97 * i + 97,
        ));
    }
}

/// State diffs with the same encoding hold the same records.
pub proof fn lemma_state_diff_bytes_injective(a: Seq<Record>, b: Seq<Record>)
    requires
        a.len() <= u64::MAX,
        b.len() <= u64::MAX,
        state_diff_bytes(a) == state_diff_bytes(b),
    ensures
        a == b,
{
    lemma_state_diff_layout(a);
    lemma_state_diff_layout(b);
    assert forall|i: int| 0 <= i < a.len() implies a[i] == b[i] by {
        assert(state_diff_bytes(a).subrange(8 + 97 * i, 8 + 97 * i + 97) == record_bytes(a[i]));
        lemma_record_bytes_injective(a[i], b[i]);
    }
}

/// Encoding a valid state diff and decoding the bytes gives its records
/// back.
pub proof fn law_state_diff_round_trip(s: Seq<Record>, r: Result<Seq<Record>, StorageError>)
    requires
        encodable(s),
        state_diff_decoded(state_diff_bytes(s), r),
    ensures
        r == Ok::<Seq<Record>, StorageError>(s),
{
    if let Ok(t) = r {
        lemma_state_diff_bytes_injective(t, s);
    }
}

/// The tag of a kind.
pub(crate) fn tag_of(kind: RecordKind) -> (r: u8)
    ensures
        r == kind_tag(kind),
{
    match kind {
        RecordKind::StorageWrite => 0,
        RecordKind::NonceUpdate => 1,
        RecordKind::DeclaredClass => 2,
        RecordKind::DeployedContract => 3,
    }
}

/// The kind that a tag stands for.
pub(crate) fn kind_of(tag: u8) -> (r: Option<RecordKind>)
    ensures
        match r {
            Some(kind) => kind_tag(kind) == tag,
            None => forall|kind: RecordKind| kind_tag(kind) != tag,
        },
{
    if tag == 0 {
        Some(RecordKind::StorageWrite)
    } else if tag == 1 {
        Some(RecordKind::NonceUpdate)
    } else if tag == 2 {
        Some(RecordKind::DeclaredClass)
    } else if tag == 3 {
        Some(RecordKind::DeployedContract)
    } else {
        None
    }
}

/// The encoding of `d`.
pub fn encode_state_diff(d: &StateDiff) -> (r: Vec<u8>)
    ensures
        r@ == state_diff_bytes(d@),
        d@.len() <= u64::MAX,
{
    let n = d.len();
    let mut out: Vec<u8> = Vec::new();
    push_bytes(&mut out, vstd::bytes::u64_to_le_bytes(n as u64).as_slice());
    let mut i: usize = 0;
    while i < n
        invariant
            i <= n == d@.len(),
            out@ == spec_u64_to_le_bytes(n as u64) + records_bytes(d@.take(i as int)),
        decreases n - i,
    {
        if let Some(rec) = d.record(i) {
            out.push(tag_of(rec.key.kind));
            push_felt(&mut out, &rec.key.owner);
            push_felt(&mut out, &rec.key.cell);
            push_felt(&mut out, &rec.value);
            proof {
                lemma_records_push(d@.take(i as int), rec);
                assert(d@.take(i as int).push(rec) =~= d@.take(i + 1));
            }
        }
        i += 1;
    }
    assert(d@.take(n as int) =~= d@);
    out
}

/// The record whose encoding stands at `pos`, if there is one.
fn read_record(bytes: &[u8], pos: usize) -> (r: Option<Record>)
    requires
        pos + 97 <= bytes@.len(),
    ensures
        match r {
            Some(rec) => record_bytes(rec) == bytes@.subrange(pos as int, pos + 97)
                && rec.key.owner.wf() && rec.key.cell.wf() && rec.value.wf(),
            None => forall|rec: Record|
                rec.wf() ==> #[trigger] record_bytes(rec) != bytes@.subrange(pos as int, pos + 97),
        },
{
    let ghost chunk = bytes@.subrange(pos as int, pos + 97);
    proof {
        assert forall|rec: Record| rec.wf() && #[trigger] record_bytes(rec) == chunk implies {
            &&& kind_tag(rec.key.kind) == bytes@[pos as int]
            &&& in_felt_range(bytes@.subrange(pos + 1, pos + 33))
            &&& in_felt_range(bytes@.subrange(pos + 33, pos + 65))
            &&& in_felt_range(bytes@.subrange(pos + 65, pos + 97))
        } by {
            lemma_record_layout(rec);
            rec.key.owner.lemma_in_range();
            rec.key.cell.lemma_in_range();
            rec.value.lemma_in_range();
            assert(chunk[0] == bytes@[pos as int]);
        }
    }
    let kind = match kind_of(bytes[pos]) {
        Some(kind) => kind,
        None => {
            return None;
        },
    };
    let owner = match read_felt(bytes, pos + 1) {
        Some(f) => f,
        None => {
            return None;
        },
    };
    let cell = match read_felt(bytes, pos + 33) {
        Some(f) => f,
        None => {
            return None;
        },
    };
    let value = match read_felt(bytes, pos + 65) {
        Some(f) => f,
        None => {
            return None;
        },
    };
    Some(Record { key: SubKey { kind, owner, cell }, value })
}

/// The valid state diff that `bytes` encodes. Refused where `bytes` encodes
/// none.
pub fn decode_state_diff(bytes: &[u8]) -> (r: Result<StateDiff, StorageError>)
    ensures
        state_diff_decoded(bytes@, records_of(r)),
        r.is_ok() ==> r.unwrap().wf(),
{
    let len = bytes.len();
    proof {
        assert forall|s: Seq<Record>| encodable(s) && #[trigger] state_diff_bytes(s) == bytes@ implies {
            &&& len == 8 + 97 * s.len()
            &&& spec_u64_from_le_bytes(bytes@.subrange(0, 8)) == s.len()
        } by {
            lemma_state_diff_layout(s);
        }
    }
    if len < 8 {
        return Err(StorageError::CodecError);
    }
    let announced = vstd::bytes::u64_from_le_bytes(vstd::slice::slice_subrange(bytes, 0, 8));
    let body = len - 8;
    if body % RECORD_BYTES != 0 {
        return Err(StorageError::CodecError);
    }
    let count = body / RECORD_BYTES;
    if count as u64 != announced {
        return Err(StorageError::CodecError);
    }
    let mut diff = StateDiff::new();
    let mut i: usize = 0;
    let mut pos: usize = 8;
    while i < count
        invariant
            i <= count,
            pos == 8 + 97 * i,
            len == bytes@.len() == 8 + 97 * count,
            count == announced == spec_u64_from_le_bytes(bytes@.subrange(0, 8)),
            diff.wf(),
            diff@.len() == i,
            records_bytes(diff@) == bytes@.subrange(8, pos as int),
            forall|s: Seq<Record>|
                encodable(s) && #[trigger] state_diff_bytes(s) == bytes@ ==> s.take(i as int)
                    == diff@,
        decreases count - i,
    {
        let ghost chunk = bytes@.subrange(pos as int, pos + 97);
        proof {
            assert forall|s: Seq<Record>| encodable(s) && #[trigger] state_diff_bytes(s) == bytes@ implies {
                &&& s.len() == count
                &&& s[i as int].wf()
                &&& record_bytes(s[i as int]) == chunk
                &&& !has_key(s.take(i as int), s[i as int].key)
            } by {
                lemma_state_diff_layout(s);
                assert(state_diff_bytes(s).subrange(8 + 97 * i, 8 + 97 * i + 97) == record_bytes(
                    s[i as int],
                ));
            }
        }
        let rec = match read_record(bytes, pos) {
            Some(rec) => rec,
            None => {
                return Err(StorageError::CodecError);
            },
        };
        proof {
            assert forall|s: Seq<Record>| encodable(s) && #[trigger] state_diff_bytes(s) == bytes@ implies s[i as int]
                == rec by {
                lemma_record_bytes_injective(s[i as int], rec);
            }
        }
        let ghost before = diff@;
        if !diff.insert_record(rec) {
            return Err(StorageError::CodecError);
        }
        proof {
            lemma_records_push(before, rec);
        }
        i += 1;
        pos += RECORD_BYTES;
        proof {
            assert forall|s: Seq<Record>| encodable(s) && #[trigger] state_diff_bytes(s) == bytes@ implies s.take(
                i as int,
            ) == diff@ by {}
        }
    }
    proof {
        vstd::bytes::lemma_auto_spec_u64_to_from_le_bytes();
        assert(state_diff_bytes(diff@) =~= bytes@);
    }
    Ok(diff)
}

} // verus!
