//! What holds of the ledger and the storage whatever they hold.

use crate::error::StorageError;
use crate::header::BlockHeader;
use crate::ledger::LedgerView;
use crate::state_diff::Record;
use crate::storage::StorageView;
use vstd::prelude::*;

verus! {

/// The state marker is one past the highest stored block: block `n` has a
/// state diff if and only if `n` is below the marker, a header is shown
/// only below the marker, and the marker of the empty ledger is zero.
pub proof fn law_marker_bounds_blocks(ledger: LedgerView, n: u64)
    ensures
        ledger.state_diff(n).is_some() <==> n < ledger.state_marker(),
        ledger.block_header(n).is_some() ==> n < ledger.state_marker(),
        LedgerView::empty().state_marker() == 0,
        LedgerView::empty().block_header(n).is_none(),
{
}

/// The state marker moves by appends of the next block only: after the
/// state diff and the header of block `n` are appended to a ledger with
/// state marker `m`, the marker is `m + 1` if and only if `n == m`; for any
/// other `n` the state diff is refused as out of order and the marker stays
/// `m`.
pub proof fn law_monotonic_marker(
    ledger: LedgerView,
    n: u64,
    diff: Seq<Record>,
    header: BlockHeader,
)
    ensures
        ({
            let m = ledger.state_marker();
            let with_diff = ledger.settled(ledger.append_state_diff(n, diff));
            let with_header = with_diff.settled(with_diff.append_header(n, header));
            &&& with_header.state_marker() == m + 1 <==> n == m
            &&& n == m ==> ledger.append_state_diff(n, diff).is_ok()
            &&& n != m ==> ledger.append_state_diff(n, diff) == Err::<LedgerView, StorageError>(
                StorageError::OutOfOrderAppend,
            ) && with_header.state_marker() == m
        }),
{
}

/// The same, with the transaction around it: appending block `n` in a
/// transaction of its own and committing leaves the committed state marker
/// at `m + 1` if and only if `n == m`, and at `m` otherwise.
pub proof fn law_monotonic_marker_committed(
    storage: StorageView,
    n: u64,
    diff: Seq<Record>,
    header: BlockHeader,
)
    requires
        !storage.writer_open,
    ensures
        ({
            let m = storage.committed.state_marker();
            let open = storage.begin_rw().unwrap();
            let with_diff = storage.committed.settled(storage.committed.append_state_diff(n, diff));
            let with_header = with_diff.settled(with_diff.append_header(n, header));
            let done = open.commit(with_header);
            &&& done.is_ok()
            &&& done.unwrap().committed.state_marker() == m + 1 <==> n == m
            &&& n != m ==> done.unwrap().committed.state_marker() == m
        }),
{
}

/// Reverting undoes appending: where the state diff and the header of block
/// `n` are appended and committed, and then the state diff and the header
/// of block `n` are reverted and committed, the storage is as it was before,
/// and the state diff handed out is the one that was appended.
pub proof fn law_revert_inverts_append(
    storage: StorageView,
    n: u64,
    diff: Seq<Record>,
    header: BlockHeader,
)
    requires
        !storage.writer_open,
        storage.committed.append_state_diff(n, diff).is_ok(),
        storage.committed.append_state_diff(n, diff).unwrap().append_header(n, header).is_ok(),
    ensures
        ({
            let appended = storage.committed.append_state_diff(n, diff).unwrap().append_header(
                n,
                header,
            ).unwrap();
            let first = storage.begin_rw().unwrap().commit(appended).unwrap();
            let without_diff = first.committed.revert_state_diff(n);
            let without_header = without_diff.unwrap().0.revert_header(n);
            let second = first.begin_rw().unwrap().commit(without_header.unwrap());
            &&& first.committed == appended
            &&& without_diff.is_ok()
            &&& without_diff.unwrap().1 == diff
            &&& without_header.is_ok()
            &&& second == Ok::<StorageView, StorageError>(storage)
        }),
{
    let with_diff = storage.committed.append_state_diff(n, diff).unwrap();
    let appended = with_diff.append_header(n, header).unwrap();
    let without_diff = appended.revert_state_diff(n).unwrap().0;
    assert(appended.diffs.drop_last() =~= storage.committed.diffs);
    assert(without_diff.headers.drop_last() =~= storage.committed.headers);
}

/// Only the last block can be reverted: the state diff of block `n` is
/// given up if and only if `n` is one below the state marker, and any other
/// `n` is refused as not the tip. In the empty ledger every `n` is refused.
pub proof fn law_tip_only_revert(ledger: LedgerView, n: u64)
    ensures
        n + 1 == ledger.state_marker() <==> ledger.revert_state_diff(n).is_ok(),
        n + 1 != ledger.state_marker() ==> ledger.revert_state_diff(n) == Err::<
            (LedgerView, Seq<Record>),
            StorageError,
        >(StorageError::NotTip),
        ledger.state_marker() == 0 ==> ledger.revert_state_diff(n).is_err(),
        ledger.revert_state_diff(n).is_ok() ==> ledger.revert_state_diff(n).unwrap().0.state_marker()
            + 1 == ledger.state_marker(),
{
}

/// A read-only transaction sees the ledger as it was committed when the
/// transaction began: a commit that comes later changes nothing of what
/// the transaction sees, and a transaction that begins after the commit sees
/// all that was committed.
pub proof fn law_snapshot_isolation(storage: StorageView, staged: LedgerView)
    requires
        storage.writer_open,
    ensures
        ({
            let seen_before = storage.snapshot();
            let after = storage.commit(staged);
            &&& after.is_ok()
            &&& seen_before == storage.committed
            &&& after.unwrap().snapshot() == staged
        }),
{
}

/// One writer at a time: while a read-write transaction is open, a second
/// one is refused as a conflict; once the first is committed or given up,
/// the next one is accepted.
pub proof fn law_single_writer(storage: StorageView, staged: LedgerView)
    requires
        !storage.writer_open,
    ensures
        ({
            let open = storage.begin_rw();
            &&& open.is_ok()
            &&& open.unwrap().begin_rw() == Err::<StorageView, StorageError>(
                StorageError::TransactionConflict,
            )
            &&& open.unwrap().commit(staged).is_ok()
            &&& open.unwrap().commit(staged).unwrap().begin_rw().is_ok()
            &&& open.unwrap().abort().is_ok()
            &&& open.unwrap().abort().unwrap().begin_rw().is_ok()
            &&& open.unwrap().abort().unwrap().committed == storage.committed
        }),
{
}

} // verus!
