use block_ledger::error::StorageError;
use block_ledger::felt::Felt;
use block_ledger::header::BlockHeader;
use block_ledger::ledger::{check_append, check_revert, Ledger};
use block_ledger::state_diff::{RecordKind, StateDiff, SubKey};
use block_ledger::storage::{check_config, Storage};

fn header(number: u64) -> BlockHeader {
    BlockHeader {
        block_hash: Felt::from_u64(number + 1),
        parent_hash: Felt::from_u64(number),
        block_number: number,
        timestamp: 0,
        sequencer_address: Felt::from_u64(1),
        gas_price: 1,
        state_root: Felt::zero(),
    }
}

fn diff(address: u64, nonce: u64) -> StateDiff {
    let mut d = StateDiff::new();
    d.set_nonce(Felt::from_u64(address), Felt::from_u64(nonce)).unwrap();
    d
}

#[test]
fn only_the_next_block_is_admitted() {
    assert_eq!(check_append(0, 0), Ok(()));
    assert_eq!(check_append(0, 1), Err(StorageError::OutOfOrderAppend));
    assert_eq!(check_append(5, 5), Ok(()));
    assert_eq!(check_append(5, 4), Err(StorageError::OutOfOrderAppend));
    assert_eq!(check_append(5, 6), Err(StorageError::OutOfOrderAppend));
    assert_eq!(check_append(u64::MAX, u64::MAX), Ok(()));
    assert_eq!(check_append(u64::MAX, 0), Err(StorageError::OutOfOrderAppend));
}

#[test]
fn only_the_last_block_is_given_up() {
    assert_eq!(check_revert(0, 0), Err(StorageError::NotTip));
    assert_eq!(check_revert(0, u64::MAX), Err(StorageError::NotTip));
    assert_eq!(check_revert(1, 0), Ok(()));
    assert_eq!(check_revert(1, 1), Err(StorageError::NotTip));
    assert_eq!(check_revert(5, 4), Ok(()));
    assert_eq!(check_revert(5, 3), Err(StorageError::NotTip));
    assert_eq!(check_revert(5, 5), Err(StorageError::NotTip));
    assert_eq!(check_revert(u64::MAX, u64::MAX - 1), Ok(()));
    assert_eq!(check_revert(u64::MAX, u64::MAX), Err(StorageError::NotTip));
}

#[test]
fn ledger_keeps_blocks_by_number() {
    let mut ledger = Ledger::new();
    assert_eq!(ledger.state_marker(), 0);
    assert_eq!(ledger.header_marker(), 0);
    assert_eq!(ledger.block_header(0), None);
    assert_eq!(ledger.state_diff(0), None);

    assert_eq!(ledger.append_state_diff(0, diff(1, 10)), Ok(()));
    assert_eq!(ledger.state_marker(), 1);
    assert_eq!(ledger.header_marker(), 0);
    assert_eq!(ledger.block_header(0), None);
    assert_eq!(ledger.append_header(0, &header(0)), Ok(()));
    assert_eq!(ledger.append_state_diff(1, diff(2, 20)), Ok(()));
    assert_eq!(ledger.append_header(1, &header(1)), Ok(()));
    assert_eq!(ledger.state_marker(), 2);
    assert_eq!(ledger.header_marker(), 2);
    assert_eq!(ledger.block_header(1), Some(header(1)));
    assert_eq!(ledger.state_diff(0), Some(diff(1, 10)));
    assert_eq!(ledger.state_diff(1), Some(diff(2, 20)));
    assert_eq!(ledger.state_diff(2), None);

    let copy = ledger.copy();
    assert_eq!(copy, ledger);

    assert_eq!(ledger.revert_state_diff(0), Err(StorageError::NotTip));
    assert_eq!(ledger.revert_state_diff(1), Ok(diff(2, 20)));
    assert_eq!(ledger.state_marker(), 1);
    assert_eq!(ledger.header_marker(), 2);
    assert_eq!(ledger.block_header(1), None);
    assert_eq!(ledger.block_header(0), Some(header(0)));
    assert_eq!(ledger.revert_header(0), Err(StorageError::NotTip));
    assert_eq!(ledger.revert_header(1), Ok(()));
    assert_eq!(ledger.header_marker(), 1);
    assert_eq!(copy.state_marker(), 2);
}

#[test]
fn one_record_of_a_block_can_be_read() {
    let mut storage = Storage::open(String::from("records"), 1 << 20).unwrap();
    assert_eq!(storage.path(), "records");
    let mut d = diff(7, 70);
    d.set_storage(Felt::from_u64(7), Felt::from_u64(8), Felt::from_u64(9)).unwrap();
    let mut txn = storage.begin_rw_txn().unwrap();
    txn.append_state_diff(0, d).unwrap();
    txn.append_header(0, &header(0)).unwrap();
    storage.commit(txn).unwrap();

    let read = storage.begin_ro_txn();
    let nonce = SubKey { kind: RecordKind::NonceUpdate, owner: Felt::from_u64(7), cell: Felt::zero() };
    let cell = SubKey {
        kind: RecordKind::StorageWrite,
        owner: Felt::from_u64(7),
        cell: Felt::from_u64(8),
    };
    let other = SubKey { kind: RecordKind::DeployedContract, ..nonce };
    assert_eq!(read.get_record(0, &nonce), Some(Felt::from_u64(70)));
    assert_eq!(read.get_record(0, &cell), Some(Felt::from_u64(9)));
    assert_eq!(read.get_record(0, &other), None);
    assert_eq!(read.get_record(1, &nonce), None);
}

#[test]
fn a_configuration_needs_a_path_and_a_size() {
    assert_eq!(check_config("db", 1), Ok(()));
    assert_eq!(check_config("", 1), Err(StorageError::StorageOpenError));
    assert_eq!(check_config("db", 0), Err(StorageError::StorageOpenError));
    assert_eq!(check_config("", 0), Err(StorageError::StorageOpenError));
}
