//! The storage: the committed ledger, snapshots of it for readers, and the
//! one read-write transaction that may be open at a time.

use crate::error::StorageError;
use crate::header::{is_header_of, BlockHeader, BlockInfo};
use crate::ledger::{Ledger, LedgerView};
use crate::felt::Felt;
use crate::state_diff::{Record, StateDiff, SubKey};
use vstd::prelude::*;

verus! {

/// The size bound that `Storage::new` opens a storage with: 32 GiB.
pub const DEFAULT_MAX_SIZE: u64 = 34359738368;

/// What a storage is to its callers: the committed ledger, and whether a
/// read-write transaction is open.
pub struct StorageView {
    pub committed: LedgerView,
    pub writer_open: bool,
}

impl StorageView {
    /// A storage as it is opened: empty and idle.
    pub open spec fn empty() -> StorageView {
        StorageView { committed: LedgerView::empty(), writer_open: false }
    }

    /// What a read-only transaction sees that begins now.
    pub open spec fn snapshot(self) -> LedgerView {
        self.committed
    }

    /// Opening a read-write transaction: refused while one is open.
    pub open spec fn begin_rw(self) -> Result<StorageView, StorageError> {
        if self.writer_open {
            Err(StorageError::TransactionConflict)
        } else {
            Ok(StorageView { committed: self.committed, writer_open: true })
        }
    }

    /// Committing the open transaction: what it staged becomes the
    /// committed ledger, all of it at once.
    pub open spec fn commit(self, staged: LedgerView) -> Result<StorageView, StorageError> {
        if self.writer_open {
            Ok(StorageView { committed: staged, writer_open: false })
        } else {
            Err(StorageError::TransactionConflict)
        }
    }

    /// Giving up the open transaction: nothing of it stays.
    pub open spec fn abort(self) -> Result<StorageView, StorageError> {
        if self.writer_open {
            Ok(StorageView { committed: self.committed, writer_open: false })
        } else {
            Err(StorageError::TransactionConflict)
        }
    }

    /// Why a whole block cannot be appended in one transaction, if it
    /// cannot; the first reason that applies.
    pub open spec fn append_refusal(self, info: BlockInfo) -> Option<StorageError> {
        if self.writer_open {
            Some(StorageError::TransactionConflict)
        } else if info.block_number != self.committed.state_marker() {
            Some(StorageError::OutOfOrderAppend)
        } else if !info.sequencer_address.is_address_spec() {
            Some(StorageError::AddressOutOfRange)
        } else if info.block_number != self.committed.header_marker() {
            Some(StorageError::OutOfOrderAppend)
        } else {
            None
        }
    }

    /// Why the last block cannot be reverted in one transaction, if it
    /// cannot.
    pub open spec fn revert_refusal(self, n: u64) -> Option<StorageError> {
        if self.writer_open {
            Some(StorageError::TransactionConflict)
        } else if n + 1 != self.committed.state_marker() || n + 1
            != self.committed.header_marker() {
            Some(StorageError::NotTip)
        } else {
            None
        }
    }
}

/// `after` is `before` with one more block: the state diff `diff`, and the
/// header made of the other arguments.
pub open spec fn block_appended(
    before: LedgerView,
    after: LedgerView,
    block_id: u64,
    previous_block_id: u64,
    info: BlockInfo,
    diff: Seq<Record>,
) -> bool {
    &&& after.diffs == before.diffs.push(diff)
    &&& after.headers.len() == before.headers.len() + 1
    &&& after.headers.drop_last() == before.headers
    &&& is_header_of(after.headers.last(), block_id, previous_block_id, info)
}

/// `after` is `before` without its last block.
pub open spec fn block_reverted(before: LedgerView, after: LedgerView) -> bool {
    &&& after.diffs == before.diffs.drop_last()
    &&& after.headers == before.headers.drop_last()
}

/// Admits a configuration: the path must not be empty, nor the size bound
/// zero.
pub fn check_config(path: &str, max_size_bytes: u64) -> (r: Result<(), StorageError>)
    ensures
        r.is_ok() <==> path@.len() > 0 && max_size_bytes > 0,
        r.is_err() ==> r.unwrap_err() == StorageError::StorageOpenError,
{
    if path.is_empty() || max_size_bytes == 0 {
        Err(StorageError::StorageOpenError)
    } else {
        Ok(())
    }
}

/// A storage of blocks.
#[derive(Debug)]
pub struct Storage {
    path: String,
    max_size: u64,
    committed: Ledger,
    writer_open: bool,
}

/// A read-only transaction: the ledger as it was committed when the
/// transaction began.
#[derive(Debug)]
pub struct ReadTxn {
    snapshot: Ledger,
}

/// The read-write transaction: the ledger as it will be committed.
#[derive(Debug)]
pub struct WriteTxn {
    staged: Ledger,
}

impl View for Storage {
    type V = StorageView;

    closed spec fn view(&self) -> StorageView {
        StorageView { committed: self.committed@, writer_open: self.writer_open }
    }
}

impl View for ReadTxn {
    type V = LedgerView;

    closed spec fn view(&self) -> LedgerView {
        self.snapshot@
    }
}

impl View for WriteTxn {
    type V = LedgerView;

    closed spec fn view(&self) -> LedgerView {
        self.staged@
    }
}

impl ReadTxn {
    /// The number of the next block to append, as the snapshot has it.
    pub fn get_state_marker(&self) -> (r: u64)
        ensures
            r == self@.state_marker(),
    {
        self.snapshot.state_marker()
    }

    /// The header of block `n`, as the snapshot has it.
    pub fn get_block_header(&self, n: u64) -> (r: Option<BlockHeader>)
        ensures
            r == self@.block_header(n),
    {
        self.snapshot.block_header(n)
    }

    /// The state diff of block `n`, as the snapshot has it.
    pub fn get_state_diff(&self, n: u64) -> (r: Option<StateDiff>)
        ensures
            match r {
                Some(d) => self@.state_diff(n) == Some(d@),
                None => self@.state_diff(n).is_none(),
            },
            self@.wf() && r.is_some() ==> r.unwrap().wf(),
    {
        self.snapshot.state_diff(n)
    }

    /// What block `n` records under the key `key`, as the snapshot has it.
    pub fn get_record(&self, n: u64, key: &SubKey) -> (r: Option<Felt>)
        requires
            self@.wf(),
        ensures
            r == self@.record(n, *key),
    {
        self.snapshot.record(n, key)
    }
}

impl WriteTxn {
    /// The number of the next block to append, as staged.
    pub fn get_state_marker(&self) -> (r: u64)
        ensures
            r == self@.state_marker(),
    {
        self.staged.state_marker()
    }

    /// The header of block `n`, as staged.
    pub fn get_block_header(&self, n: u64) -> (r: Option<BlockHeader>)
        ensures
            r == self@.block_header(n),
    {
        self.staged.block_header(n)
    }

    /// Stages the state diff of block `n`, which must be the next block.
    pub fn append_state_diff(&mut self, n: u64, diff: StateDiff) -> (r: Result<(), StorageError>)
        ensures
            match r {
                Ok(()) => old(self)@.append_state_diff(n, diff@) == Ok::<
                    LedgerView,
                    StorageError,
                >(final(self)@),
                Err(e) => old(self)@.append_state_diff(n, diff@) == Err::<
                    LedgerView,
                    StorageError,
                >(e) && final(self)@ == old(self)@,
            },
            old(self)@.wf() && diff.wf() ==> final(self)@.wf(),
    {
        self.staged.append_state_diff(n, diff)
    }

    /// Stages the header of block `n`, whose state diff must be there.
    pub fn append_header(&mut self, n: u64, header: &BlockHeader) -> (r: Result<(), StorageError>)
        ensures
            match r {
                Ok(()) => old(self)@.append_header(n, *header) == Ok::<LedgerView, StorageError>(
                    final(self)@,
                ),
                Err(e) => old(self)@.append_header(n, *header) == Err::<LedgerView, StorageError>(
                    e,
                ) && final(self)@ == old(self)@,
            },
            old(self)@.wf() ==> final(self)@.wf(),
    {
        self.staged.append_header(n, header)
    }

    /// Stages the removal of the state diff of block `n`, which must be the
    /// last block, and hands the state diff out.
    pub fn revert_state_diff(&mut self, n: u64) -> (r: Result<StateDiff, StorageError>)
        ensures
            match r {
                Ok(d) => old(self)@.revert_state_diff(n) == Ok::<
                    (LedgerView, Seq<Record>),
                    StorageError,
                >((final(self)@, d@)),
                Err(e) => old(self)@.revert_state_diff(n) == Err::<
                    (LedgerView, Seq<Record>),
                    StorageError,
                >(e) && final(self)@ == old(self)@,
            },
            old(self)@.wf() ==> final(self)@.wf(),
            old(self)@.wf() && r.is_ok() ==> r.unwrap().wf(),
    {
        self.staged.revert_state_diff(n)
    }

    /// Stages the removal of the header of block `n`, which must be the
    /// last header.
    pub fn revert_header(&mut self, n: u64) -> (r: Result<(), StorageError>)
        ensures
            match r {
                Ok(()) => old(self)@.revert_header(n) == Ok::<LedgerView, StorageError>(
                    final(self)@,
                ),
                Err(e) => old(self)@.revert_header(n) == Err::<LedgerView, StorageError>(e)
                    && final(self)@ == old(self)@,
            },
            old(self)@.wf() ==> final(self)@.wf(),
    {
        self.staged.revert_header(n)
    }
}

impl Storage {
    /// The path that the storage was opened with.
    pub closed spec fn path_spec(&self) -> Seq<char> {
        self.path@
    }

    /// The size bound that the storage was opened with.
    pub closed spec fn max_size_spec(&self) -> u64 {
        self.max_size
    }

    /// A storage is valid when its committed ledger is.
    pub open spec fn wf(&self) -> bool {
        self@.committed.wf()
    }

    /// Opens an empty storage. Refused when the path is empty or the size
    /// bound is zero.
    pub fn open(path: String, max_size_bytes: u64) -> (r: Result<Storage, StorageError>)
        ensures
            r.is_ok() <==> path@.len() > 0 && max_size_bytes > 0,
            r.is_ok() ==> {
                &&& r.unwrap()@ == StorageView::empty()
                &&& r.unwrap().wf()
                &&& r.unwrap().path_spec() == path@
                &&& r.unwrap().max_size_spec() == max_size_bytes
            },
            r.is_err() ==> r.unwrap_err() == StorageError::StorageOpenError,
    {
        check_config(path.as_str(), max_size_bytes)?;
        Ok(Storage { path, max_size: max_size_bytes, committed: Ledger::new(), writer_open: false })
    }

    /// Opens an empty storage at `path` with the default size bound.
    pub fn new(path: String) -> (r: Result<Storage, StorageError>)
        ensures
            r.is_ok() <==> path@.len() > 0,
            r.is_ok() ==> {
                &&& r.unwrap()@ == StorageView::empty()
                &&& r.unwrap().wf()
                &&& r.unwrap().path_spec() == path@
                &&& r.unwrap().max_size_spec() == DEFAULT_MAX_SIZE
            },
            r.is_err() ==> r.unwrap_err() == StorageError::StorageOpenError,
    {
        Storage::open(path, DEFAULT_MAX_SIZE)
    }

    /// The path that the storage was opened with.
    pub fn path(&self) -> (r: &String)
        ensures
            r@ == self.path_spec(),
    {
        &self.path
    }

    /// The size bound that the storage was opened with.
    pub fn max_size(&self) -> (r: u64)
        ensures
            r == self.max_size_spec(),
    {
        self.max_size
    }

    /// Whether a read-write transaction is open.
    pub fn writer_open(&self) -> (r: bool)
        ensures
            r == self@.writer_open,
    {
        self.writer_open
    }

    /// Begins a read-only transaction on the ledger as committed now.
    pub fn begin_ro_txn(&self) -> (txn: ReadTxn)
        ensures
            txn@ == self@.snapshot(),
    {
        ReadTxn { snapshot: self.committed.copy() }
    }

    /// Begins the read-write transaction, on the ledger as committed now.
    /// Refused while another is open.
    pub fn begin_rw_txn(&mut self) -> (r: Result<WriteTxn, StorageError>)
        ensures
            match r {
                Ok(txn) => old(self)@.begin_rw() == Ok::<StorageView, StorageError>(final(self)@)
                    && txn@ == old(self)@.committed,
                Err(e) => old(self)@.begin_rw() == Err::<StorageView, StorageError>(e)
                    && final(self)@ == old(self)@,
            },
            final(self).path_spec() == old(self).path_spec(),
            final(self).max_size_spec() == old(self).max_size_spec(),
    {
        if self.writer_open {
            return Err(StorageError::TransactionConflict);
        }
        self.writer_open = true;
        Ok(WriteTxn { staged: self.committed.copy() })
    }

    /// Commits the open transaction: all that it staged becomes visible to
    /// the read-only transactions that begin from now on. Refused when no
    /// read-write transaction is open.
    pub fn commit(&mut self, txn: WriteTxn) -> (r: Result<(), StorageError>)
        ensures
            match r {
                Ok(()) => old(self)@.commit(txn@) == Ok::<StorageView, StorageError>(
                    final(self)@,
                ),
                Err(e) => old(self)@.commit(txn@) == Err::<StorageView, StorageError>(e)
                    && final(self)@ == old(self)@,
            },
            final(self).path_spec() == old(self).path_spec(),
            final(self).max_size_spec() == old(self).max_size_spec(),
    {
        if !self.writer_open {
            return Err(StorageError::TransactionConflict);
        }
        self.committed = txn.staged;
        self.writer_open = false;
        Ok(())
    }

    /// Gives up the open transaction: the committed ledger stays as it is.
    /// Refused when no read-write transaction is open.
    pub fn abort(&mut self, txn: WriteTxn) -> (r: Result<(), StorageError>)
        ensures
            match r {
                Ok(()) => old(self)@.abort() == Ok::<StorageView, StorageError>(final(self)@),
                Err(e) => old(self)@.abort() == Err::<StorageView, StorageError>(e)
                    && final(self)@ == old(self)@,
            },
            final(self).path_spec() == old(self).path_spec(),
            final(self).max_size_spec() == old(self).max_size_spec(),
    {
        if !self.writer_open {
            return Err(StorageError::TransactionConflict);
        }
        self.writer_open = false;
        Ok(())
    }

    /// The number of the next block to append: the one that is not there
    /// yet.
    pub fn get_state_marker(&self) -> (r: Result<u64, StorageError>)
        ensures
            r.is_ok(),
            r.unwrap() == self@.committed.state_marker(),
    {
        Ok(self.committed.state_marker())
    }

    /// The 32 bytes of the hash of block `block_number`, if its header is
    /// committed.
    pub fn get_block_hash(&self, block_number: u64) -> (r: Result<Option<Vec<u8>>, StorageError>)
        ensures
            r.is_ok(),
            match self@.committed.block_header(block_number) {
                Some(h) => r.unwrap().is_some() && r.unwrap().unwrap()@ == h.block_hash@,
                None => r.unwrap().is_none(),
            },
    {
        match self.committed.block_header(block_number) {
            Some(h) => Ok(Some(h.block_hash.to_bytes())),
            None => Ok(None),
        }
    }

    /// Reverts block `block_number`, its state diff and its header, in one
    /// transaction. The block must be the last one, with both. When
    /// refused, nothing changes.
    pub fn revert_state_diff(&mut self, block_number: u64) -> (r: Result<(), StorageError>)
        ensures
            match r {
                Ok(()) => {
                    &&& old(self)@.revert_refusal(block_number).is_none()
                    &&& block_reverted(old(self)@.committed, final(self)@.committed)
                    &&& !final(self)@.writer_open
                },
                Err(e) => old(self)@.revert_refusal(block_number) == Some(e) && final(self)@
                    == old(self)@,
            },
            old(self).wf() ==> final(self).wf(),
            final(self).path_spec() == old(self).path_spec(),
            final(self).max_size_spec() == old(self).max_size_spec(),
    {
        let mut txn = match self.begin_rw_txn() {
            Ok(txn) => txn,
            Err(e) => {
                return Err(e);
            },
        };
        if let Err(e) = txn.revert_state_diff(block_number) {
            let _ = self.abort(txn);
            return Err(e);
        }
        if let Err(e) = txn.revert_header(block_number) {
            let _ = self.abort(txn);
            return Err(e);
        }
        self.commit(txn)
    }

    /// Appends a block, its state diff and its header, in one transaction.
    /// The header is made of the two identifiers and of `block_info`, whose
    /// block number must be the next one. When refused, nothing changes.
    pub fn append_state_diff(
        &mut self,
        block_id: u64,
        previous_block_id: u64,
        block_info: BlockInfo,
        state_diff: StateDiff,
    ) -> (r: Result<(), StorageError>)
        ensures
            match r {
                Ok(()) => {
                    &&& old(self)@.append_refusal(block_info).is_none()
                    &&& block_appended(
                        old(self)@.committed,
                        final(self)@.committed,
                        block_id,
                        previous_block_id,
                        block_info,
                        state_diff@,
                    )
                    &&& !final(self)@.writer_open
                },
                Err(e) => old(self)@.append_refusal(block_info) == Some(e) && final(self)@
                    == old(self)@,
            },
            old(self).wf() && state_diff.wf() ==> final(self).wf(),
            final(self).path_spec() == old(self).path_spec(),
            final(self).max_size_spec() == old(self).max_size_spec(),
    {
        let block_number = block_info.block_number;
        let mut txn = match self.begin_rw_txn() {
            Ok(txn) => txn,
            Err(e) => {
                return Err(e);
            },
        };
        if let Err(e) = txn.append_state_diff(block_number, state_diff) {
            let _ = self.abort(txn);
            return Err(e);
        }
        let header = match BlockHeader::from_block_info(block_id, previous_block_id, &block_info) {
            Ok(header) => header,
            Err(e) => {
                let _ = self.abort(txn);
                return Err(e);
            },
        };
        if let Err(e) = txn.append_header(block_number, &header) {
            let _ = self.abort(txn);
            return Err(e);
        }
        let r = self.commit(txn);
        proof {
            let before = old(self)@.committed;
            let after = self@.committed;
            assert(after.headers.drop_last() =~= before.headers);
        }
        r
    }
}

} // verus!
