use block_ledger::codec::{
    decode_header, decode_state_diff, encode_header, encode_state_diff, HEADER_BYTES, RECORD_BYTES,
};
use block_ledger::error::StorageError;
use block_ledger::felt::Felt;
use block_ledger::header::{BlockHeader, BlockInfo};
use block_ledger::keys::{
    block_key, decode_block_key, decode_record_key, record_key, BLOCK_KEY_BYTES, RECORD_KEY_BYTES,
};
use block_ledger::state_diff::{Record, RecordKind, StateDiff, SubKey};

fn felt_with(first: u8, last: u8) -> Felt {
    let mut bytes = [0u8; 32];
    bytes[0] = first;
    bytes[31] = last;
    Felt::new(bytes).unwrap()
}

fn sample_header() -> BlockHeader {
    BlockHeader {
        block_hash: Felt::from_u64(0x0102),
        parent_hash: felt_with(0x0f, 0x01),
        block_number: 0x0a0b,
        timestamp: 1,
        sequencer_address: felt_with(0x07, 0x02),
        gas_price: (1u128 << 100) + 5,
        state_root: Felt::zero(),
    }
}

fn sample_diff() -> StateDiff {
    let mut diff = StateDiff::new();
    diff.set_storage(Felt::from_u64(1), Felt::from_u64(2), Felt::from_u64(3)).unwrap();
    diff.set_nonce(Felt::from_u64(1), Felt::from_u64(9)).unwrap();
    diff.declare_class(felt_with(0x0f, 0xaa), Felt::from_u64(0xcc));
    diff.deploy_contract(Felt::from_u64(4), felt_with(0x0f, 0xaa)).unwrap();
    diff.set_storage(Felt::from_u64(1), Felt::from_u64(5), Felt::from_u64(6)).unwrap();
    diff
}

#[test]
fn felt_from_u64_is_big_endian() {
    let f = Felt::from_u64(0x0102_0304_0506_0708);
    let bytes = f.to_bytes();
    assert_eq!(bytes.len(), 32);
    assert!(bytes[..24].iter().all(|b| *b == 0));
    assert_eq!(&bytes[24..], &[1, 2, 3, 4, 5, 6, 7, 8]);
    assert_eq!(f.byte(24), 1);
    assert_eq!(f.byte(31), 8);
    assert_eq!(Felt::from_u64(u64::MAX).to_bytes()[24..], [0xff; 8]);
    assert_eq!(Felt::from_u64(0), Felt::zero());
    assert_eq!(Felt::zero().to_bytes(), vec![0u8; 32]);
}

#[test]
fn felt_range_is_below_two_to_the_252() {
    let mut bytes = [0xffu8; 32];
    assert_eq!(Felt::new(bytes), None);
    bytes[0] = 0x10;
    assert_eq!(Felt::new(bytes), None);
    bytes[0] = 0x0f;
    let f = Felt::new(bytes).unwrap();
    assert_eq!(f.to_bytes(), bytes.to_vec());
    assert!(f.same(&f));
    assert!(!f.same(&Felt::zero()));
}

#[test]
fn address_range_is_below_two_to_the_251() {
    assert!(Felt::zero().is_address());
    assert!(Felt::from_u64(u64::MAX).is_address());
    let mut bytes = [0xffu8; 32];
    bytes[0] = 0x07;
    assert!(Felt::new(bytes).unwrap().is_address());
    let mut bytes = [0u8; 32];
    bytes[0] = 0x08;
    assert!(!Felt::new(bytes).unwrap().is_address());
    assert!(!felt_with(0x0f, 0).is_address());
}

#[test]
fn header_from_block_info() {
    let info = BlockInfo {
        block_number: 12,
        block_timestamp: 34,
        sequencer_address: Felt::from_u64(56),
        gas_price: 78,
    };
    let h = BlockHeader::from_block_info(1000, 999, &info).unwrap();
    assert_eq!(h.block_hash, Felt::from_u64(1000));
    assert_eq!(h.parent_hash, Felt::from_u64(999));
    assert_eq!(h.block_number, 12);
    assert_eq!(h.timestamp, 34);
    assert_eq!(h.sequencer_address, Felt::from_u64(56));
    assert_eq!(h.gas_price, 78);
    assert_eq!(h.state_root, Felt::zero());

    let bad = BlockInfo { sequencer_address: felt_with(0x08, 0), ..info };
    assert_eq!(
        BlockHeader::from_block_info(1000, 999, &bad),
        Err(StorageError::AddressOutOfRange)
    );
}

#[test]
fn header_encoding_is_exact() {
    let bytes = encode_header(&sample_header());
    assert_eq!(bytes.len(), HEADER_BYTES);
    assert_eq!(bytes.len(), 160);
    let mut expected = vec![0u8; 160];
    expected[30] = 0x01;
    expected[31] = 0x02;
    expected[32] = 0x0f;
    expected[63] = 0x01;
    expected[64] = 0x0b;
    expected[65] = 0x0a;
    expected[72] = 0x01;
    expected[80] = 0x07;
    expected[111] = 0x02;
    expected[112] = 0x05;
    expected[112 + 12] = 0x10;
    assert_eq!(bytes, expected);
}

#[test]
fn header_round_trip() {
    let h = sample_header();
    assert_eq!(decode_header(&encode_header(&h)), Ok(h));
    let info = BlockInfo {
        block_number: u64::MAX,
        block_timestamp: u64::MAX,
        sequencer_address: Felt::from_u64(u64::MAX),
        gas_price: u128::MAX,
    };
    let h = BlockHeader::from_block_info(u64::MAX, 0, &info).unwrap();
    assert_eq!(decode_header(&encode_header(&h)), Ok(h));
}

#[test]
fn header_decoding_refuses_what_is_no_encoding() {
    let good = encode_header(&sample_header());
    assert_eq!(decode_header(&[]), Err(StorageError::CodecError));
    assert_eq!(decode_header(&good[..159]), Err(StorageError::CodecError));
    let mut longer = good.clone();
    longer.push(0);
    assert_eq!(decode_header(&longer), Err(StorageError::CodecError));
    for at in [0usize, 32, 128] {
        let mut bad = good.clone();
        bad[at] = 0x10;
        assert_eq!(decode_header(&bad), Err(StorageError::CodecError));
    }
    let mut bad = good.clone();
    bad[80] = 0x08;
    assert_eq!(decode_header(&bad), Err(StorageError::CodecError));
}

#[test]
fn state_diff_is_a_mapping() {
    let mut diff = sample_diff();
    assert_eq!(diff.len(), 5);
    assert_eq!(diff.storage_at(Felt::from_u64(1), Felt::from_u64(2)), Some(Felt::from_u64(3)));
    assert_eq!(diff.storage_at(Felt::from_u64(1), Felt::from_u64(5)), Some(Felt::from_u64(6)));
    assert_eq!(diff.storage_at(Felt::from_u64(2), Felt::from_u64(2)), None);
    assert_eq!(diff.nonce_of(Felt::from_u64(1)), Some(Felt::from_u64(9)));
    assert_eq!(diff.nonce_of(Felt::from_u64(4)), None);
    assert_eq!(diff.compiled_class_of(felt_with(0x0f, 0xaa)), Some(Felt::from_u64(0xcc)));
    assert_eq!(diff.class_of(Felt::from_u64(4)), Some(felt_with(0x0f, 0xaa)));
    assert_eq!(diff.class_of(Felt::from_u64(1)), None);

    diff.set_storage(Felt::from_u64(1), Felt::from_u64(2), Felt::from_u64(33)).unwrap();
    assert_eq!(diff.len(), 5);
    assert_eq!(diff.storage_at(Felt::from_u64(1), Felt::from_u64(2)), Some(Felt::from_u64(33)));
    assert_eq!(
        diff.record(0),
        Some(Record {
            key: SubKey {
                kind: RecordKind::StorageWrite,
                owner: Felt::from_u64(1),
                cell: Felt::from_u64(2),
            },
            value: Felt::from_u64(33),
        })
    );
    assert_eq!(diff.record(5), None);
    assert_eq!(diff.copy(), diff);
}

#[test]
fn state_diff_refuses_addresses_out_of_range() {
    let mut diff = StateDiff::new();
    let big = felt_with(0x08, 0);
    let ok = Felt::from_u64(1);
    assert_eq!(diff.set_storage(big, ok, ok), Err(StorageError::AddressOutOfRange));
    assert_eq!(diff.set_storage(ok, big, ok), Err(StorageError::AddressOutOfRange));
    assert_eq!(diff.set_nonce(big, ok), Err(StorageError::AddressOutOfRange));
    assert_eq!(diff.deploy_contract(big, ok), Err(StorageError::AddressOutOfRange));
    assert_eq!(diff.len(), 0);
    assert_eq!(diff.set_storage(ok, ok, big), Ok(()));
    diff.declare_class(big, big);
    assert_eq!(diff.len(), 2);
}

#[test]
fn state_diff_encoding_is_exact() {
    let mut diff = StateDiff::new();
    assert_eq!(encode_state_diff(&diff), vec![0u8; 8]);
    diff.set_nonce(Felt::from_u64(0x11), Felt::from_u64(0x22)).unwrap();
    let bytes = encode_state_diff(&diff);
    assert_eq!(bytes.len(), 8 + RECORD_BYTES);
    let mut expected = vec![0u8; 8 + 97];
    expected[0] = 1;
    expected[8] = 1;
    expected[8 + 32] = 0x11;
    expected[8 + 96] = 0x22;
    assert_eq!(bytes, expected);
}

#[test]
fn state_diff_round_trip() {
    let diff = sample_diff();
    let bytes = encode_state_diff(&diff);
    assert_eq!(bytes.len(), 8 + 5 * 97);
    assert_eq!(decode_state_diff(&bytes), Ok(diff));
    assert_eq!(decode_state_diff(&encode_state_diff(&StateDiff::new())), Ok(StateDiff::new()));
}

#[test]
fn state_diff_decoding_refuses_what_is_no_encoding() {
    let good = encode_state_diff(&sample_diff());
    let refused = Err(StorageError::CodecError);
    assert_eq!(decode_state_diff(&[]), refused);
    assert_eq!(decode_state_diff(&good[..good.len() - 1]), refused);
    assert_eq!(decode_state_diff(&good[..good.len() - 97]), refused);
    let mut bad = good.clone();
    bad[0] = 4;
    assert_eq!(decode_state_diff(&bad), refused);
    let mut bad = good.clone();
    bad[8] = 4;
    assert_eq!(decode_state_diff(&bad), refused);
    let mut bad = good.clone();
    bad[9] = 0x08;
    assert_eq!(decode_state_diff(&bad), refused);
    let mut bad = good.clone();
    bad[8 + 65] = 0x10;
    assert_eq!(decode_state_diff(&bad), refused);
    let mut bad = good.clone();
    bad[8 + 97 + 64] = 1;
    assert_eq!(decode_state_diff(&bad), refused);
    let mut twice = vec![0u8; 8];
    twice[0] = 2;
    twice.extend_from_slice(&good[8..8 + 97]);
    twice.extend_from_slice(&good[8..8 + 97]);
    assert_eq!(decode_state_diff(&twice), refused);
}

#[test]
fn records_go_in_once() {
    let mut diff = StateDiff::new();
    let rec = Record {
        key: SubKey { kind: RecordKind::DeployedContract, owner: Felt::from_u64(1), cell: Felt::zero() },
        value: Felt::from_u64(2),
    };
    assert!(rec.key.is_valid());
    assert!(diff.insert_record(rec));
    assert!(!diff.insert_record(rec));
    let odd = Record {
        key: SubKey { kind: RecordKind::DeployedContract, owner: Felt::from_u64(1), cell: Felt::from_u64(1) },
        value: Felt::from_u64(2),
    };
    assert!(!odd.key.is_valid());
    assert!(!diff.insert_record(odd));
    assert_eq!(diff.len(), 1);
    assert_eq!(diff.get(&rec.key), Some(Felt::from_u64(2)));
    assert!(rec.key.same(&rec.key));
    assert!(!rec.key.same(&odd.key));
}

#[test]
fn block_keys_are_big_endian_and_sort_by_number() {
    assert_eq!(block_key(0), vec![0u8; 8]);
    assert_eq!(block_key(0x0102_0304_0506_0708), vec![1, 2, 3, 4, 5, 6, 7, 8]);
    assert_eq!(block_key(u64::MAX), vec![0xff; 8]);
    assert_eq!(block_key(7).len(), BLOCK_KEY_BYTES);
    let numbers = [0u64, 1, 255, 256, 65_535, 65_536, 1 << 32, u64::MAX - 1, u64::MAX];
    for pair in numbers.windows(2) {
        assert!(block_key(pair[0]) < block_key(pair[1]));
    }
    for n in numbers {
        assert_eq!(decode_block_key(&block_key(n)), Ok(n));
    }
    assert_eq!(decode_block_key(&[0u8; 7]), Err(StorageError::CodecError));
    assert_eq!(decode_block_key(&[0u8; 9]), Err(StorageError::CodecError));
    assert_eq!(decode_block_key(&[]), Err(StorageError::CodecError));
}

#[test]
fn record_keys_hold_block_and_sub_key() {
    let key = SubKey {
        kind: RecordKind::StorageWrite,
        owner: Felt::from_u64(0x11),
        cell: Felt::from_u64(0x22),
    };
    let bytes = record_key(0x0300, &key);
    assert_eq!(bytes.len(), RECORD_KEY_BYTES);
    let mut expected = vec![0u8; 73];
    expected[6] = 0x03;
    expected[8] = 0;
    expected[40] = 0x11;
    expected[72] = 0x22;
    assert_eq!(bytes, expected);
    assert_eq!(decode_record_key(&bytes), Ok((0x0300, key)));

    let nonce = SubKey { kind: RecordKind::NonceUpdate, owner: Felt::from_u64(5), cell: Felt::zero() };
    let bytes = record_key(u64::MAX, &nonce);
    assert_eq!(bytes[8], 1);
    assert_eq!(decode_record_key(&bytes), Ok((u64::MAX, nonce)));

    let refused = Err(StorageError::CodecError);
    assert_eq!(decode_record_key(&bytes[..72]), refused);
    let mut bad = bytes.clone();
    bad[8] = 9;
    assert_eq!(decode_record_key(&bad), refused);
    let mut bad = bytes.clone();
    bad[9] = 0x08;
    assert_eq!(decode_record_key(&bad), refused);
    let mut bad = bytes.clone();
    bad[72] = 1;
    assert_eq!(decode_record_key(&bad), refused);
    let mut bad = bytes.clone();
    bad[41] = 0x10;
    assert_eq!(decode_record_key(&bad), refused);
}
