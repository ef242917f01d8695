//! The submit task: for the block after `last_submitted`, get its layer-1
//! transaction (the stored one, or a newly composed one that is stored
//! before anything else happens), register it with the local-cell manager,
//! wait until layer 1's median time has reached the transaction's `since`,
//! and broadcast it.
//!
//! The task is a state machine. The caller performs what each answer asks
//! for (compose, poll, sleep, send) and hands the outcome back.

use vstd::prelude::*;
use vstd::string::*;
use crate::local_cells::{apply_tx_available, apply_tx_reservations};
use crate::invariants::{lemma_register_keeps_match, register_sound};
use crate::psc::PSCContext;
use crate::recovery::{cells_match, lemma_applied_frame};
use crate::since::{greater_since, greater_since_spec, Since, MAX_TIMESTAMP_MILLIS};
use crate::store::{deposits_view, StoreView};
use crate::text::{contains, contains_text, decimal, decimal_string};
use crate::types::{
    copy_bytes, hash_eq, DepositInfo, NumberHash, Transaction, TransactionView,
};

verus! {

/// Seconds between two looks at layer 1's median time.
pub const MEDIAN_POLL_SECS: u64 = 3;

/// A layer-2 block as far as the submit task reads it.
#[derive(Clone, Debug, PartialEq, Eq)]
pub struct L2Block {
    /// Milliseconds of unix time.
    pub timestamp: u64,
    /// The hash of each withdrawal in the block, in order.
    pub withdrawal_hashes: Vec<[u8; 32]>,
    /// The serialized block.
    pub raw: Vec<u8>,
}

/// The record that is stored beside a withdrawal of a block.
#[derive(Clone, Debug, PartialEq, Eq)]
pub struct WithdrawalExtra {
    pub hash: [u8; 32],
    pub raw: Vec<u8>,
}

/// What the chain store holds of the block to submit: the outcome of each
/// lookup, `None` where the store has nothing.
#[derive(Debug)]
pub struct BlockSnapshot {
    pub block: Option<L2Block>,
    /// One lookup per withdrawal of the block, in order.
    pub withdrawal_extras: Vec<Option<WithdrawalExtra>>,
    /// The serialized global state after the block.
    pub global_state: Option<Vec<u8>>,
}

/// What the composer needs to build the submission transaction, besides a
/// look at the local-cell manager.
#[derive(Debug)]
pub struct ComposeSubmitTxArgs {
    pub deposit_cells: Vec<DepositInfo>,
    pub block: L2Block,
    pub global_state: Vec<u8>,
    pub since: Since,
    pub withdrawal_extras: Vec<WithdrawalExtra>,
}

/// Why a submit attempt ended without sending. The task sleeps and starts
/// over.
#[derive(Clone, Copy, Debug, PartialEq, Eq)]
pub enum SubmitError {
    /// The store has no `last_submitted` yet: the pipeline was not started.
    NotStarted,
    /// `last_submitted` is the highest block number there is.
    NoNextBlock,
    /// The store does not know the hash of the next block.
    MissingBlockHash,
    /// The store does not hold the next block.
    MissingBlock,
    /// The block's timestamp is so large that its `since` cannot be read
    /// back in milliseconds.
    TimestampOutOfRange,
    /// The record of the withdrawal at this place is missing.
    MissingWithdrawal(usize),
    /// The record of the withdrawal at this place has another hash than the
    /// block gives.
    WithdrawalHashMismatch(usize),
    /// The block has no stored deposit list.
    MissingDepositInfo,
    /// The global state after the block is missing.
    MissingGlobalState,
}

impl SubmitError {
    /// True if trying again cannot help: the pipeline was not started, or
    /// the store is damaged, in that a record that must be there is missing
    /// or does not belong to the block.
    pub open spec fn fatal(self) -> bool {
        self is NotStarted || self is MissingWithdrawal || self is WithdrawalHashMismatch || self
            is MissingDepositInfo
    }

    /// True if trying again cannot help: the pipeline was not started, or
    /// the store is damaged, in that a record that must be there is missing
    /// or does not belong to the block.
    pub fn is_fatal(&self) -> (r: bool)
        ensures
            r == self.fatal(),
    {
        match self {
            SubmitError::NotStarted => true,
            SubmitError::MissingWithdrawal(_) => true,
            SubmitError::WithdrawalHashMismatch(_) => true,
            SubmitError::MissingDepositInfo => true,
            _ => false,
        }
    }

    /// What went wrong, in words.
    pub open spec fn message_spec(self) -> Seq<char> {
        match self {
            SubmitError::NotStarted => "get last submitted block number"@,
            SubmitError::NoNextBlock => "no block after the last submitted block"@,
            SubmitError::MissingBlockHash => "failed to get next block hash"@,
            SubmitError::MissingBlock => "get_block"@,
            SubmitError::TimestampOutOfRange => "block timestamp out of range"@,
            SubmitError::MissingWithdrawal(i) => "get withdrawal "@ + decimal(i as nat),
            SubmitError::WithdrawalHashMismatch(i) => "withdrawal hash mismatch "@ + decimal(
                i as nat,
            ),
            SubmitError::MissingDepositInfo => "failed to get deposit info vec"@,
            SubmitError::MissingGlobalState => "failed to get block global_state"@,
        }
    }

    /// What went wrong, in words.
    pub fn message(&self) -> (r: String)
        ensures
            r@ == self.message_spec(),
    {
        match self {
            SubmitError::NotStarted => String::from_str("get last submitted block number"),
            SubmitError::NoNextBlock => String::from_str("no block after the last submitted block"),
            SubmitError::MissingBlockHash => String::from_str("failed to get next block hash"),
            SubmitError::MissingBlock => String::from_str("get_block"),
            SubmitError::TimestampOutOfRange => String::from_str("block timestamp out of range"),
            SubmitError::MissingWithdrawal(i) => {
                let mut r = String::from_str("get withdrawal ");
                r.append(decimal_string(*i as u64).as_str());
                r
            },
            SubmitError::WithdrawalHashMismatch(i) => {
                let mut r = String::from_str("withdrawal hash mismatch ");
                r.append(decimal_string(*i as u64).as_str());
                r
            },
            SubmitError::MissingDepositInfo => String::from_str("failed to get deposit info vec"),
            SubmitError::MissingGlobalState => String::from_str("failed to get block global_state"),
        }
    }
}

/// Where a submit task stands.
#[derive(Clone, Copy, Debug, PartialEq, Eq)]
pub enum SubmitPhase {
    /// The composer is asked for the transaction.
    Composing,
    /// The composed transaction is in the store, which is to be committed
    /// before anything else happens.
    Persisting,
    /// The transaction is registered; layer 1's median time is awaited.
    WaitingMedian,
    /// The transaction is handed to layer 1.
    Sending,
    /// The attempt is over.
    Done,
}

/// What the caller does next.
#[derive(Debug)]
pub enum SubmitAction {
    /// Compose the transaction and hand it to `composed`.
    Compose(ComposeSubmitTxArgs),
    /// Commit the store, so that the transaction is durable, then call
    /// `persisted`.
    Persist,
    /// Ask layer 1 for the median time of its tip and hand it to
    /// `median_polled`.
    PollMedian,
    /// Sleep for `MEDIAN_POLL_SECS`, then do as for `PollMedian`.
    SleepThenPollMedian,
    /// Broadcast the stored transaction of the task's block and hand the
    /// outcome to `sent`.
    Send,
    /// The block is submitted: hand this to the controller.
    Finished(NumberHash),
    /// Layer 1 refused the transaction. Where `diagnose` is set, look at the
    /// transaction's inputs first, for the log.
    Failed { diagnose: bool },
    /// The task did not ask for this: nothing has changed.
    OutOfTurn,
}

/// One attempt to submit the block after `last_submitted`.
#[derive(Debug)]
pub struct SubmitTask {
    number: u64,
    block_hash: [u8; 32],
    since: Since,
    since_millis: u64,
    phase: SubmitPhase,
}

/// The mathematical value of a [`SubmitTask`].
pub struct SubmitTaskView {
    pub number: u64,
    pub block_hash: [u8; 32],
    pub since: Since,
    pub since_millis: u64,
    pub phase: SubmitPhase,
}

impl View for SubmitTask {
    type V = SubmitTaskView;

    closed spec fn view(&self) -> SubmitTaskView {
        SubmitTaskView {
            number: self.number,
            block_hash: self.block_hash,
            since: self.since,
            since_millis: self.since_millis,
            phase: self.phase,
        }
    }
}

/// What is wrong with the stored record of the withdrawal at `idx`, if
/// anything.
pub open spec fn withdrawal_fault(
    hashes: Seq<[u8; 32]>,
    extras: Seq<Option<WithdrawalExtra>>,
    idx: int,
) -> Option<SubmitError> {
    if idx >= extras.len() || extras[idx] is None {
        Some(SubmitError::MissingWithdrawal(idx as usize))
    } else if extras[idx]->0.hash != hashes[idx] {
        Some(SubmitError::WithdrawalHashMismatch(idx as usize))
    } else {
        None
    }
}

/// True if the records of the first `n` withdrawals are in order.
pub open spec fn withdrawals_sound(
    hashes: Seq<[u8; 32]>,
    extras: Seq<Option<WithdrawalExtra>>,
    n: int,
) -> bool {
    forall|i: int| 0 <= i < n ==> (#[trigger] withdrawal_fault(hashes, extras, i)) is None
}

/// The first fault among the withdrawal records of a block, if there is one.
pub open spec fn first_withdrawal_fault(
    hashes: Seq<[u8; 32]>,
    extras: Seq<Option<WithdrawalExtra>>,
) -> Option<SubmitError> {
    if withdrawals_sound(hashes, extras, hashes.len() as int) {
        None
    } else {
        let i = choose|i: int|
            0 <= i < hashes.len() && withdrawal_fault(hashes, extras, i) is Some
                && withdrawals_sound(hashes, extras, i);
        withdrawal_fault(hashes, extras, i)
    }
}

/// Why the submit task cannot start on this store and snapshot, if it
/// cannot. The lookups are made in this order, and the first that fails
/// decides. Where the transaction is stored already, the records that only
/// the composer needs are not looked at.
pub open spec fn begin_fault(st: StoreView, snap: BlockSnapshot) -> Option<SubmitError> {
    let n = st.submitted() + 1;
    if st.last_submitted is None {
        Some(SubmitError::NotStarted)
    } else if n > u64::MAX {
        Some(SubmitError::NoNextBlock)
    } else if !st.block_hashes.dom().contains(n as u64) {
        Some(SubmitError::MissingBlockHash)
    } else if snap.block is None {
        Some(SubmitError::MissingBlock)
    } else if snap.block->0.timestamp > MAX_TIMESTAMP_MILLIS {
        Some(SubmitError::TimestampOutOfRange)
    } else if st.submit_txs.dom().contains(n as u64) {
        None
    } else if first_withdrawal_fault(snap.block->0.withdrawal_hashes@, snap.withdrawal_extras@)
        is Some {
        first_withdrawal_fault(snap.block->0.withdrawal_hashes@, snap.withdrawal_extras@)
    } else if !st.deposits.dom().contains(n as u64) {
        Some(SubmitError::MissingDepositInfo)
    } else if snap.global_state is None {
        Some(SubmitError::MissingGlobalState)
    } else {
        None
    }
}

/// The store after the submission transaction of block `n` was handed in: it
/// is stored unless the block has one already, which then stays.
pub open spec fn record_submit_tx(st: StoreView, n: u64, tx: TransactionView) -> StoreView {
    if st.submit_txs.dom().contains(n) {
        st
    } else {
        StoreView { submit_txs: st.submit_txs.insert(n, tx), ..st }
    }
}

/// Check that layer 1's median time has reached `timestamp_millis`. A
/// missing median time has not.
pub fn median_gte(median_millis: Option<u64>, timestamp_millis: u64) -> (r: bool)
    ensures
        r == (median_millis is Some && median_millis->0 >= timestamp_millis),
{
    match median_millis {
        Some(m) => m >= timestamp_millis,
        None => false,
    }
}

/// True if layer 1 refused a transaction because it could not resolve one
/// of its inputs.
pub fn is_resolve_failure(message: &str) -> (r: bool)
    ensures
        r == contains_text(message@, "TransactionFailedToResolve"@),
{
    contains(message, "TransactionFailedToResolve")
}

/// Checks the stored record of each withdrawal against the hash that the
/// block gives, in order, and returns copies of the records.
pub fn check_withdrawal_extras(
    hashes: &Vec<[u8; 32]>,
    extras: &Vec<Option<WithdrawalExtra>>,
) -> (r: Result<Vec<WithdrawalExtra>, SubmitError>)
    ensures
        match r {
            Ok(v) => first_withdrawal_fault(hashes@, extras@) is None && v@.len() == hashes@.len()
                && forall|i: int|
                0 <= i < v@.len() ==> (#[trigger] v@[i]).hash == extras@[i]->0.hash && v@[i].raw@
                    == extras@[i]->0.raw@,
            Err(e) => first_withdrawal_fault(hashes@, extras@) == Some(e),
        },
{
    let mut out: Vec<WithdrawalExtra> = Vec::new();
    let mut i: usize = 0;
    while i < hashes.len()
        invariant
            i <= hashes@.len(),
            out@.len() == i,
            withdrawals_sound(hashes@, extras@, i as int),
            forall|k: int|
                0 <= k < i ==> (#[trigger] out@[k]).hash == extras@[k]->0.hash && out@[k].raw@
                    == extras@[k]->0.raw@,
        decreases hashes@.len() - i,
    {
        if i >= extras.len() {
            proof {
                lemma_first_fault(hashes@, extras@, i as int);
            }
            return Err(SubmitError::MissingWithdrawal(i));
        }
        match &extras[i] {
            None => {
                proof {
                    lemma_first_fault(hashes@, extras@, i as int);
                }
                return Err(SubmitError::MissingWithdrawal(i));
            },
            Some(extra) => {
                if !hash_eq(&extra.hash, &hashes[i]) {
                    proof {
                        lemma_first_fault(hashes@, extras@, i as int);
                    }
                    return Err(SubmitError::WithdrawalHashMismatch(i));
                }
                out.push(WithdrawalExtra { hash: extra.hash, raw: copy_bytes(&extra.raw) });
            },
        }
        assert(withdrawal_fault(hashes@, extras@, i as int) is None);
        i = i + 1;
    }
    Ok(out)
}

/// The first fault is the fault at the lowest place that has one.
pub proof fn lemma_first_fault(hashes: Seq<[u8; 32]>, extras: Seq<Option<WithdrawalExtra>>, i: int)
    requires
        0 <= i < hashes.len(),
        withdrawals_sound(hashes, extras, i),
        withdrawal_fault(hashes, extras, i) is Some,
    ensures
        first_withdrawal_fault(hashes, extras) == withdrawal_fault(hashes, extras, i),
{
    assert(!withdrawals_sound(hashes, extras, hashes.len() as int));
    let j = choose|j: int|
        0 <= j < hashes.len() && withdrawal_fault(hashes, extras, j) is Some && withdrawals_sound(
            hashes,
            extras,
            j,
        );
    if j < i {
        assert(withdrawal_fault(hashes, extras, j) is None);
    }
    if i < j {
        assert(withdrawal_fault(hashes, extras, i) is None);
    }
}

/// A copy of a list of deposits.
pub fn copy_deposits(v: &Vec<DepositInfo>) -> (r: Vec<DepositInfo>)
    ensures
        deposits_view(r@) == deposits_view(v@),
{
    let mut r: Vec<DepositInfo> = Vec::new();
    let mut i: usize = 0;
    while i < v.len()
        invariant
            i <= v@.len(),
            r@.len() == i,
            forall|k: int| 0 <= k < i ==> (#[trigger] r@[k])@ == v@[k]@,
        decreases v@.len() - i,
    {
        let d = &v[i];
        let asset_script = match &d.asset_script {
            Some(s) => Some(copy_bytes(s)),
            None => None,
        };
        r.push(DepositInfo { out_point: d.out_point, request: copy_bytes(&d.request), asset_script });
        i = i + 1;
    }
    assert(deposits_view(r@) =~= deposits_view(v@));
    r
}

impl SubmitTask {
    /// The number of the block that the task submits.
    pub fn number(&self) -> (r: u64)
        ensures
            r == self@.number,
    {
        self.number
    }

    /// The hash of the block that the task submits.
    pub fn block_hash(&self) -> (r: [u8; 32])
        ensures
            r == self@.block_hash,
    {
        self.block_hash
    }

    /// The `since` of the submission.
    pub fn since(&self) -> (r: Since)
        ensures
            r == self@.since,
    {
        self.since
    }

    /// The time, in milliseconds, that layer 1's median time must reach
    /// before the transaction is sent.
    pub fn since_millis(&self) -> (r: u64)
        ensures
            r == self@.since_millis,
    {
        self.since_millis
    }

    pub fn phase(&self) -> (r: SubmitPhase)
        ensures
            r == self@.phase,
    {
        self.phase
    }

    /// What stands against an attempt on the block after `last_submitted`,
    /// if anything: the first lookup that fails, in the order in which the
    /// attempt makes them. Nothing is changed.
    pub fn check(ctx: &PSCContext, snapshot: &BlockSnapshot) -> (r: Option<SubmitError>)
        ensures
            r == begin_fault(ctx.store@, *snapshot),
    {
        let last: u64 = match ctx.store.last_submitted() {
            Some(nh) => nh.number,
            None => {
                return Some(SubmitError::NotStarted);
            },
        };
        if last == u64::MAX {
            return Some(SubmitError::NoNextBlock);
        }
        let number: u64 = last + 1;
        if ctx.store.get_block_hash_by_number(number).is_none() {
            return Some(SubmitError::MissingBlockHash);
        }
        let block: &L2Block = match &snapshot.block {
            Some(b) => b,
            None => {
                return Some(SubmitError::MissingBlock);
            },
        };
        if block.timestamp > MAX_TIMESTAMP_MILLIS {
            return Some(SubmitError::TimestampOutOfRange);
        }
        if ctx.store.get_submit_tx(number).is_some() {
            return None;
        }
        match check_withdrawal_extras(&block.withdrawal_hashes, &snapshot.withdrawal_extras) {
            Ok(_) => {},
            Err(e) => {
                return Some(e);
            },
        }
        if ctx.store.get_block_deposit_info_vec(number).is_none() {
            return Some(SubmitError::MissingDepositInfo);
        }
        if snapshot.global_state.is_none() {
            return Some(SubmitError::MissingGlobalState);
        }
        None
    }

    /// Starts an attempt on the block after `last_submitted`. Where the
    /// block's transaction is stored, it is registered with the local-cell
    /// manager as it is and the task waits for the median time. Otherwise the
    /// composer is asked. On an error nothing has changed and the attempt
    /// may be made again later. The store must not be damaged, as `check`
    /// tells: the pipeline was started, and where the transaction is to be
    /// composed, the block's deposit list and the record of each of its
    /// withdrawals are there and belong to it.
    pub fn begin(ctx: &mut PSCContext, snapshot: BlockSnapshot) -> (r: Result<
        (SubmitTask, SubmitAction),
        SubmitError,
    >)
        requires
            !(begin_fault(old(ctx).store@, snapshot) matches Some(e) && e.fatal()),
        ensures
            r matches Err(e) ==> !e.fatal(),
            final(ctx).store@ == old(ctx).store@,
            r is Ok && old(ctx).store@.submit_txs.dom().contains(
                (old(ctx).store@.submitted() + 1) as u64,
            ) ==> registered(*old(ctx), *final(ctx), old(ctx).store@.submitted()),
            match r {
                Err(e) => begin_fault(old(ctx).store@, snapshot) == Some(e) && final(ctx).local_cells_manager == old(ctx).local_cells_manager,
                Ok((task, action)) => {
                    let st = old(ctx).store@;
                    let n = (st.submitted() + 1) as u64;
                    let block = snapshot.block->0;
                    &&& begin_fault(st, snapshot) is None
                    &&& task@.number == n
                    &&& task@.block_hash == st.block_hashes[n]
                    &&& task@.since == greater_since_spec(block.timestamp)
                    &&& task@.since_millis == task@.since.timestamp_ms()
                    &&& block.timestamp < task@.since_millis <= block.timestamp + 1000
                    &&& if st.submit_txs.dom().contains(n) {
                        &&& task@.phase == SubmitPhase::WaitingMedian
                        &&& action is PollMedian
                        &&& final(ctx).local_cells_manager.reservations() == apply_tx_reservations(
                            old(ctx).local_cells_manager.reservations(),
                            st.submit_txs[n],
                        )
                        &&& final(ctx).local_cells_manager.available() == apply_tx_available(
                            old(ctx).local_cells_manager.available(),
                            st.submit_txs[n],
                        )
                    } else {
                        &&& task@.phase == SubmitPhase::Composing
                        &&& final(ctx).local_cells_manager == old(ctx).local_cells_manager
                        &&& action matches SubmitAction::Compose(args)
                        &&& deposits_view(args.deposit_cells@) == st.deposits[n]
                        &&& args.block == block
                        &&& args.global_state == snapshot.global_state->0
                        &&& args.since == task@.since
                        &&& args.withdrawal_extras@.len() == block.withdrawal_hashes@.len()
                        &&& forall|i: int|
                            0 <= i < args.withdrawal_extras@.len() ==> (
                            #[trigger] args.withdrawal_extras@[i]).hash
                                == snapshot.withdrawal_extras@[i]->0.hash
                                && args.withdrawal_extras@[i].raw@
                                == snapshot.withdrawal_extras@[i]->0.raw@
                    }
                },
            },
    {
        let last: u64 = ctx.store.get_last_submitted().number;
        if last == u64::MAX {
            return Err(SubmitError::NoNextBlock);
        }
        let number: u64 = last + 1;
        let block_hash: [u8; 32] = match ctx.store.get_block_hash_by_number(number) {
            Some(h) => h,
            None => {
                return Err(SubmitError::MissingBlockHash);
            },
        };
        let BlockSnapshot { block, withdrawal_extras, global_state } = snapshot;
        let block: L2Block = match block {
            Some(b) => b,
            None => {
                return Err(SubmitError::MissingBlock);
            },
        };
        if block.timestamp > MAX_TIMESTAMP_MILLIS {
            return Err(SubmitError::TimestampOutOfRange);
        }
        let since = greater_since(block.timestamp);
        let since_millis: u64 = match since.extract_lock_value() {
            Some(crate::since::LockValue::Timestamp(ms)) => ms,
            _ => 0,
        };
        match ctx.store.get_submit_tx(number) {
            Some(tx) => {
                ctx.local_cells_manager.apply_tx(tx);
                proof {
                    lemma_registered(*old(ctx), *ctx, last as int);
                }
                let task = SubmitTask {
                    number,
                    block_hash,
                    since,
                    since_millis,
                    phase: SubmitPhase::WaitingMedian,
                };
                Ok((task, SubmitAction::PollMedian))
            },
            None => {
                let extras = match check_withdrawal_extras(
                    &block.withdrawal_hashes,
                    &withdrawal_extras,
                ) {
                    Ok(v) => v,
                    Err(e) => {
                        assert(false);
                        return Err(e);
                    },
                };
                let deposit_cells = match ctx.store.get_block_deposit_info_vec(number) {
                    Some(v) => copy_deposits(v),
                    None => {
                        assert(false);
                        return Err(SubmitError::MissingDepositInfo);
                    },
                };
                let global_state: Vec<u8> = match global_state {
                    Some(g) => g,
                    None => {
                        return Err(SubmitError::MissingGlobalState);
                    },
                };
                let task = SubmitTask {
                    number,
                    block_hash,
                    since,
                    since_millis,
                    phase: SubmitPhase::Composing,
                };
                let args = ComposeSubmitTxArgs {
                    deposit_cells,
                    block,
                    global_state,
                    since,
                    withdrawal_extras: extras,
                };
                Ok((task, SubmitAction::Compose(args)))
            },
        }
    }

    /// Takes the composed transaction: stores it for the task's block, unless
    /// the block has a stored transaction already, which then stays. From
    /// here on the block's transaction never changes. The store is to be
    /// committed next, before the transaction is registered. A task that is
    /// not composing refuses the transaction.
    pub fn composed(&mut self, ctx: &mut PSCContext, tx: Transaction) -> (r: SubmitAction)
        ensures
            final(ctx).local_cells_manager == old(ctx).local_cells_manager,
            old(self)@.phase != SubmitPhase::Composing ==> r is OutOfTurn && final(self)@ == old(self)@ && *final(ctx) == *old(ctx),
            old(self)@.phase == SubmitPhase::Composing ==> {
                &&& r is Persist
                &&& final(self)@ == (SubmitTaskView { phase: SubmitPhase::Persisting, ..old(self)@ })
                &&& final(ctx).store@ == record_submit_tx(
                    old(ctx).store@,
                    old(self)@.number,
                    tx@,
                )
                &&& final(ctx).store@.submit_txs.dom().contains(old(self)@.number)
            },
    {
        match self.phase {
            SubmitPhase::Composing => {},
            _ => {
                return SubmitAction::OutOfTurn;
            },
        }
        ctx.store.set_submit_tx(self.number, tx);
        self.phase = SubmitPhase::Persisting;
        SubmitAction::Persist
    }

    /// Registers the stored transaction of the task's block with the
    /// local-cell manager, once the store is committed. A task that is not
    /// waiting for the commit, or whose block has no stored transaction,
    /// refuses.
    pub fn persisted(&mut self, ctx: &mut PSCContext) -> (r: SubmitAction)
        ensures
            final(ctx).store@ == old(ctx).store@,
            !persist_due(old(self)@, old(ctx).store@) ==> r is OutOfTurn && final(self)@ == old(self)@ && final(ctx).local_cells_manager == old(ctx).local_cells_manager,
            persist_due(old(self)@, old(ctx).store@) ==> {
                &&& r is PollMedian
                &&& final(self)@ == (SubmitTaskView {
                    phase: SubmitPhase::WaitingMedian,
                    ..old(self)@
                })
                &&& old(self)@.number == old(ctx).store@.submitted() + 1 ==> registered(
                    *old(ctx),
                    *final(ctx),
                    old(ctx).store@.submitted(),
                )
                &&& final(ctx).local_cells_manager.reservations() == apply_tx_reservations(
                    old(ctx).local_cells_manager.reservations(),
                    old(ctx).store@.submit_txs[old(self)@.number],
                )
                &&& final(ctx).local_cells_manager.available() == apply_tx_available(
                    old(ctx).local_cells_manager.available(),
                    old(ctx).store@.submit_txs[old(self)@.number],
                )
            },
    {
        match self.phase {
            SubmitPhase::Persisting => {},
            _ => {
                return SubmitAction::OutOfTurn;
            },
        }
        match ctx.store.get_submit_tx(self.number) {
            Some(stored) => {
                ctx.local_cells_manager.apply_tx(stored);
            },
            None => {
                return SubmitAction::OutOfTurn;
            },
        }
        proof {
            if self.number == old(ctx).store@.submitted() + 1 && self.number > 0 {
                lemma_registered(*old(ctx), *ctx, old(ctx).store@.submitted());
            }
        }
        self.phase = SubmitPhase::WaitingMedian;
        SubmitAction::PollMedian
    }

    /// Takes the median time of layer 1's tip, in milliseconds, or `None`
    /// where it could not be had. Once it has reached the task's `since` the
    /// transaction is to be sent; until then the task sleeps and looks again,
    /// for as long as it takes. A task that is not waiting for the median time
    /// refuses the answer.
    pub fn median_polled(&mut self, median_millis: Option<u64>) -> (r: SubmitAction)
        ensures
            old(self)@.phase != SubmitPhase::WaitingMedian ==> r is OutOfTurn && final(self)@
                == old(self)@,
            old(self)@.phase == SubmitPhase::WaitingMedian ==> if median_millis is Some
                && median_millis->0 >= old(self)@.since_millis {
                r is Send && final(self)@ == (SubmitTaskView {
                    phase: SubmitPhase::Sending,
                    ..old(self)@
                })
            } else {
                r is SleepThenPollMedian && final(self)@ == old(self)@
            },
    {
        match self.phase {
            SubmitPhase::WaitingMedian => {},
            _ => {
                return SubmitAction::OutOfTurn;
            },
        }
        if median_gte(median_millis, self.since_millis) {
            self.phase = SubmitPhase::Sending;
            SubmitAction::Send
        } else {
            SubmitAction::SleepThenPollMedian
        }
    }

    /// Takes the outcome of the broadcast: `None` where layer 1 took the
    /// transaction, else its error message. A refusal ends the attempt,
    /// whatever a look at the inputs shows. A task that is not sending refuses
    /// the outcome.
    pub fn sent(&mut self, error: Option<&str>) -> (r: SubmitAction)
        ensures
            old(self)@.phase != SubmitPhase::Sending ==> r is OutOfTurn && final(self)@ == old(self)@,
            old(self)@.phase == SubmitPhase::Sending ==> {
                &&& final(self)@ == (SubmitTaskView { phase: SubmitPhase::Done, ..old(self)@ })
                &&& match error {
                    None => r matches SubmitAction::Finished(nh) && nh == (NumberHash {
                        number: old(self)@.number,
                        block_hash: old(self)@.block_hash,
                    }),
                    Some(message) => r matches SubmitAction::Failed { diagnose } && diagnose
                        == contains_text(message@, "TransactionFailedToResolve"@),
                }
            },
    {
        match self.phase {
            SubmitPhase::Sending => {},
            _ => {
                return SubmitAction::OutOfTurn;
            },
        }
        self.phase = SubmitPhase::Done;
        match error {
            None => SubmitAction::Finished(
                NumberHash { number: self.number, block_hash: self.block_hash },
            ),
            Some(message) => SubmitAction::Failed { diagnose: is_resolve_failure(message) },
        }
    }
}

/// True if the task waits for the commit and its block's transaction is in
/// the store.
pub open spec fn persist_due(task: SubmitTaskView, st: StoreView) -> bool {
    task.phase == SubmitPhase::Persisting && st.submit_txs.dom().contains(task.number)
}

/// What registering the submission of block `s + 1` keeps: where the
/// manager matched the store before at some `(c, s)` and the transaction
/// spends every deposit of its block, the manager matches the store at
/// `(c, s + 1)` afterwards.
pub open spec fn registered(before: PSCContext, after: PSCContext, s: int) -> bool {
    forall|c: int|
        0 <= c <= s < before.store@.valid() && #[trigger] cells_match(
            before.local_cells_manager,
            before.store@,
            c,
            s,
        ) && register_sound(after.store@, s) ==> cells_match(
            after.local_cells_manager,
            after.store@,
            c,
            s + 1,
        )
}

/// Applying the stored transaction of block `s + 1` registers the block.
pub proof fn lemma_registered(before: PSCContext, after: PSCContext, s: int)
    requires
        0 <= s < u64::MAX,
        after.store@.valid() == before.store@.valid(),
        after.store@.deposits == before.store@.deposits,
        forall|n: u64|
            n != s + 1 ==> (#[trigger] after.store@.submit_txs[n]) == before.store@.submit_txs[n],
        after.local_cells_manager.reservations() == apply_tx_reservations(
            before.local_cells_manager.reservations(),
            after.store@.submit_txs[(s + 1) as u64],
        ),
        after.local_cells_manager.available() == apply_tx_available(
            before.local_cells_manager.available(),
            after.store@.submit_txs[(s + 1) as u64],
        ),
    ensures
        registered(before, after, s),
{
    assert forall|c: int|
        0 <= c <= s < before.store@.valid() && #[trigger] cells_match(
            before.local_cells_manager,
            before.store@,
            c,
            s,
        ) && register_sound(after.store@, s) implies cells_match(
        after.local_cells_manager,
        after.store@,
        c,
        s + 1,
    ) by {
        lemma_applied_frame(before.store@.submit_txs, after.store@.submit_txs, c, s);
        lemma_register_keeps_match(
            before.local_cells_manager.reservations(),
            before.local_cells_manager.available(),
            after.store@,
            c,
            s,
        );
    }
}

/// Once a block has a stored submission transaction, handing in another one
/// changes nothing: every attempt sends the same bytes.
pub proof fn lemma_resubmit_same_tx(st: StoreView, n: u64, first: TransactionView, second: TransactionView)
    ensures
        record_submit_tx(record_submit_tx(st, n, first), n, second) == record_submit_tx(
            st,
            n,
            first,
        ),
        !st.submit_txs.dom().contains(n) ==> record_submit_tx(
            record_submit_tx(st, n, first),
            n,
            second,
        ).submit_txs[n].raw == first.raw,
        st.submit_txs.dom().contains(n) ==> record_submit_tx(st, n, second).submit_txs[n]
            == st.submit_txs[n],
{
}

} // verus!
