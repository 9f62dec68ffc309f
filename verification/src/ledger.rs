//! The ledger: the headers and the state diffs of the blocks, by block
//! number, and the four changes that a transaction can make to them.

use crate::error::StorageError;
use crate::header::BlockHeader;
use crate::felt::Felt;
use crate::state_diff::{lookup, valid_records, Record, StateDiff, SubKey};
use vstd::prelude::*;

verus! {

/// Whether block `n` is the next block of a table with the marker `marker`.
pub open spec fn is_next(marker: nat, n: u64) -> bool {
    n == marker
}

/// Whether block `n` is the last block of a table with the marker `marker`.
pub open spec fn is_tip(marker: nat, n: u64) -> bool {
    n + 1 == marker
}

/// Admits an append of block `n` to a table with the marker `marker`:
/// only the next block is taken.
pub fn check_append(marker: u64, n: u64) -> (r: Result<(), StorageError>)
    ensures
        r.is_ok() <==> is_next(marker as nat, n),
        r.is_err() ==> r.unwrap_err() == StorageError::OutOfOrderAppend,
{
    if n == marker {
        Ok(())
    } else {
        Err(StorageError::OutOfOrderAppend)
    }
}

/// Admits a revert of block `n` from a table with the marker `marker`:
/// only the last block is given up, and an empty table has none.
pub fn check_revert(marker: u64, n: u64) -> (r: Result<(), StorageError>)
    ensures
        r.is_ok() <==> is_tip(marker as nat, n),
        r.is_err() ==> r.unwrap_err() == StorageError::NotTip,
{
    if marker > 0 && n == marker - 1 {
        Ok(())
    } else {
        Err(StorageError::NotTip)
    }
}

/// What a ledger holds: the headers of the blocks `0 .. headers.len()` and
/// the state diffs of the blocks `0 .. diffs.len()`.
pub struct LedgerView {
    pub headers: Seq<BlockHeader>,
    pub diffs: Seq<Seq<Record>>,
}

impl LedgerView {
    /// The ledger without blocks.
    pub open spec fn empty() -> LedgerView {
        LedgerView { headers: Seq::empty(), diffs: Seq::empty() }
    }

    /// Every state diff in the ledger is valid.
    pub open spec fn wf(self) -> bool {
        forall|i: int| 0 <= i < self.diffs.len() ==> valid_records(#[trigger] self.diffs[i])
    }

    /// The number of the next block to append: one past the highest block
    /// whose state diff is stored, zero when none is.
    pub open spec fn state_marker(self) -> nat {
        self.diffs.len()
    }

    /// One past the highest block whose header is stored.
    pub open spec fn header_marker(self) -> nat {
        self.headers.len()
    }

    /// The header of block `n`: absent from the state marker on, and where
    /// none is stored.
    pub open spec fn block_header(self, n: u64) -> Option<BlockHeader> {
        if n < self.state_marker() && n < self.header_marker() {
            Some(self.headers[n as int])
        } else {
            None
        }
    }

    /// The state diff of block `n`: absent from the state marker on.
    pub open spec fn state_diff(self, n: u64) -> Option<Seq<Record>> {
        if n < self.state_marker() {
            Some(self.diffs[n as int])
        } else {
            None
        }
    }

    /// What block `n` records under the key `key`: nothing from the state
    /// marker on, and nothing where the block has no record with that key.
    pub open spec fn record(self, n: u64, key: SubKey) -> Option<Felt> {
        match self.state_diff(n) {
            Some(diff) => lookup(diff, key),
            None => None,
        }
    }

    /// The ledger after an operation: what the operation made of it, or the
    /// ledger itself where the operation was refused.
    pub open spec fn settled(self, r: Result<LedgerView, StorageError>) -> LedgerView {
        match r {
            Ok(l) => l,
            Err(_) => self,
        }
    }

    /// Appending the state diff of block `n`: only the next block is taken.
    pub open spec fn append_state_diff(self, n: u64, diff: Seq<Record>) -> Result<
        LedgerView,
        StorageError,
    > {
        if is_next(self.state_marker(), n) {
            Ok(LedgerView { headers: self.headers, diffs: self.diffs.push(diff) })
        } else {
            Err(StorageError::OutOfOrderAppend)
        }
    }

    /// Appending the header of block `n`: its state diff must be there
    /// already, and the headers of all blocks before it and of none after.
    pub open spec fn append_header(self, n: u64, header: BlockHeader) -> Result<
        LedgerView,
        StorageError,
    > {
        if n < self.state_marker() && is_next(self.header_marker(), n) {
            Ok(LedgerView { headers: self.headers.push(header), diffs: self.diffs })
        } else {
            Err(StorageError::OutOfOrderAppend)
        }
    }

    /// Reverting the state diff of block `n`: only that of the last block
    /// is given up, and it is handed out.
    pub open spec fn revert_state_diff(self, n: u64) -> Result<
        (LedgerView, Seq<Record>),
        StorageError,
    > {
        if is_tip(self.state_marker(), n) {
            Ok(
                (
                    LedgerView { headers: self.headers, diffs: self.diffs.drop_last() },
                    self.diffs.last(),
                ),
            )
        } else {
            Err(StorageError::NotTip)
        }
    }

    /// Reverting the header of block `n`: only the last header is given up.
    pub open spec fn revert_header(self, n: u64) -> Result<LedgerView, StorageError> {
        if is_tip(self.header_marker(), n) {
            Ok(LedgerView { headers: self.headers.drop_last(), diffs: self.diffs })
        } else {
            Err(StorageError::NotTip)
        }
    }
}

/// Headers and state diffs by block number.
#[derive(Debug, PartialEq, Eq)]
pub struct Ledger {
    headers: Vec<BlockHeader>,
    diffs: Vec<StateDiff>,
}

impl View for Ledger {
    type V = LedgerView;

    closed spec fn view(&self) -> LedgerView {
        LedgerView {
            headers: self.headers@,
            diffs: Seq::new(self.diffs@.len(), |i: int| self.diffs@[i]@),
        }
    }
}

impl Ledger {
    /// A ledger is valid when its state diffs are.
    pub open spec fn wf(&self) -> bool {
        self@.wf()
    }

    /// The ledger without blocks.
    pub fn new() -> (r: Ledger)
        ensures
            r@ == LedgerView::empty(),
            r.wf(),
    {
        let r = Ledger { headers: Vec::new(), diffs: Vec::new() };
        assert(r@.diffs =~= Seq::empty());
        r
    }

    /// A copy that holds the same blocks.
    pub fn copy(&self) -> (r: Ledger)
        ensures
            r@ == self@,
    {
        let mut headers: Vec<BlockHeader> = Vec::with_capacity(self.headers.len());
        let mut i: usize = 0;
        while i < self.headers.len()
            invariant
                i <= self.headers@.len(),
                headers@ == self.headers@.subrange(0, i as int),
            decreases self.headers@.len() - i,
        {
            headers.push(self.headers[i]);
            i += 1;
        }
        assert(headers@ =~= self.headers@);
        let mut diffs: Vec<StateDiff> = Vec::with_capacity(self.diffs.len());
        let mut j: usize = 0;
        while j < self.diffs.len()
            invariant
                j <= self.diffs@.len(),
                diffs@.len() == j,
                forall|k: int| 0 <= k < j ==> (#[trigger] diffs@[k])@ == self.diffs@[k]@,
            decreases self.diffs@.len() - j,
        {
            diffs.push(self.diffs[j].copy());
            j += 1;
        }
        let r = Ledger { headers, diffs };
        assert(r@.diffs =~= self@.diffs);
        r
    }

    /// The number of the next block to append.
    pub fn state_marker(&self) -> (r: u64)
        ensures
            r == self@.state_marker(),
    {
        self.diffs.len() as u64
    }

    /// One past the highest block whose header is stored.
    pub fn header_marker(&self) -> (r: u64)
        ensures
            r == self@.header_marker(),
    {
        self.headers.len() as u64
    }

    /// The header of block `n`.
    pub fn block_header(&self, n: u64) -> (r: Option<BlockHeader>)
        ensures
            r == self@.block_header(n),
    {
        if n < self.diffs.len() as u64 && n < self.headers.len() as u64 {
            Some(self.headers[n as usize])
        } else {
            None
        }
    }

    /// A copy of the state diff of block `n`.
    pub fn state_diff(&self, n: u64) -> (r: Option<StateDiff>)
        ensures
            match r {
                Some(d) => self@.state_diff(n) == Some(d@),
                None => self@.state_diff(n).is_none(),
            },
            self.wf() && r.is_some() ==> r.unwrap().wf(),
    {
        if n < self.diffs.len() as u64 {
            let d = self.diffs[n as usize].copy();
            Some(d)
        } else {
            None
        }
    }

    /// What block `n` records under the key `key`, read without copying
    /// the rest of the block's state diff.
    pub fn record(&self, n: u64, key: &SubKey) -> (r: Option<Felt>)
        requires
            self.wf(),
        ensures
            r == self@.record(n, *key),
    {
        if n < self.diffs.len() as u64 {
            self.diffs[n as usize].get(key)
        } else {
            None
        }
    }

    /// Appends the state diff of block `n`, which must be the next block.
    pub fn append_state_diff(&mut self, n: u64, diff: StateDiff) -> (r: Result<(), StorageError>)
        ensures
            match r {
                Ok(()) => old(self)@.append_state_diff(n, diff@) == Ok::<
                    LedgerView,
                    StorageError,
                >(final(self)@),
                Err(e) => old(self)@.append_state_diff(n, diff@) == Err::<
                    LedgerView,
                    StorageError,
                >(e) && final(self)@ == old(self)@,
            },
            old(self).wf() && diff.wf() ==> final(self).wf(),
    {
        check_append(self.state_marker(), n)?;
        self.diffs.push(diff);
        assert(self@.diffs =~= old(self)@.diffs.push(diff@));
        Ok(())
    }

    /// Appends the header of block `n`, whose state diff must be there.
    pub fn append_header(&mut self, n: u64, header: &BlockHeader) -> (r: Result<(), StorageError>)
        ensures
            match r {
                Ok(()) => old(self)@.append_header(n, *header) == Ok::<LedgerView, StorageError>(
                    final(self)@,
                ),
                Err(e) => old(self)@.append_header(n, *header) == Err::<LedgerView, StorageError>(
                    e,
                ) && final(self)@ == old(self)@,
            },
            old(self).wf() ==> final(self).wf(),
    {
        if n >= self.state_marker() {
            return Err(StorageError::OutOfOrderAppend);
        }
        check_append(self.header_marker(), n)?;
        self.headers.push(*header);
        Ok(())
    }

    /// Gives up the state diff of block `n`, which must be the last block,
    /// and hands it out.
    pub fn revert_state_diff(&mut self, n: u64) -> (r: Result<StateDiff, StorageError>)
        ensures
            match r {
                Ok(d) => old(self)@.revert_state_diff(n) == Ok::<
                    (LedgerView, Seq<Record>),
                    StorageError,
                >((final(self)@, d@)),
                Err(e) => old(self)@.revert_state_diff(n) == Err::<
                    (LedgerView, Seq<Record>),
                    StorageError,
                >(e) && final(self)@ == old(self)@,
            },
            old(self).wf() ==> final(self).wf(),
            old(self).wf() && r.is_ok() ==> r.unwrap().wf(),
    {
        check_revert(self.state_marker(), n)?;
        match self.diffs.pop() {
            Some(d) => {
                assert(self@.diffs =~= old(self)@.diffs.drop_last());
                Ok(d)
            },
            None => Err(StorageError::NotTip),
        }
    }

    /// Gives up the header of block `n`, which must be the last header.
    pub fn revert_header(&mut self, n: u64) -> (r: Result<(), StorageError>)
        ensures
            match r {
                Ok(()) => old(self)@.revert_header(n) == Ok::<LedgerView, StorageError>(
                    final(self)@,
                ),
                Err(e) => old(self)@.revert_header(n) == Err::<LedgerView, StorageError>(e)
                    && final(self)@ == old(self)@,
            },
            old(self).wf() ==> final(self).wf(),
    {
        check_revert(self.header_marker(), n)?;
        match self.headers.pop() {
            Some(_) => {
                Ok(())
            },
            None => Err(StorageError::NotTip),
        }
    }
}

} // verus!
