//! The confirm task: for the block after `last_confirmed`, watch its
//! submission on layer 1 until it is committed, sending it again where layer
//! 1 has dropped it, then wait until layer 1's tip has reached the block that
//! holds it, and release its cells in the local-cell manager.
//!
//! The task is a state machine. The caller performs what each answer asks
//! for and hands the outcome back.

use vstd::prelude::*;
use vstd::string::*;
use crate::local_cells::{confirm_tx_available, confirm_tx_reservations};
use crate::invariants::{lemma_release_keeps_match, release_sound};
use crate::psc::PSCContext;
use crate::recovery::cells_match;
use crate::store::StoreView;
use crate::types::NumberHash;

verus! {

/// Seconds between two looks at the transaction's status.
pub const STATUS_POLL_SECS: u64 = 1;

/// Milliseconds between two looks at layer 1's tip.
pub const TIP_POLL_MILLIS: u64 = 50;

/// A transaction of unknown status is sent again once more than this many
/// nanoseconds have passed since it was last sent: 20 seconds.
pub const RESEND_AFTER_NANOS: u128 = 20_000_000_000;

/// What layer 1 says of a transaction.
#[derive(Clone, Copy, Debug, PartialEq, Eq)]
pub enum TxStatus {
    Pending,
    Proposed,
    Committed,
    Rejected,
    Unknown,
}

/// What to do after a look at the transaction's status.
#[derive(Clone, Copy, Debug, PartialEq, Eq)]
pub enum PollDecision {
    /// Keep waiting.
    Wait,
    /// Send the transaction again, now.
    Resend,
    /// The transaction is on layer 1.
    Committed,
}

/// The rule of the status poll: a pending or proposed transaction is waited
/// for; a committed one ends the poll; a rejected one is sent again at once;
/// one that layer 1 does not know, or knows as unknown, is sent again once
/// more than 20 seconds have passed since it was last sent.
pub open spec fn poll_decision_spec(status: Option<TxStatus>, since_last_send_nanos: u128) -> PollDecision {
    match status {
        Some(TxStatus::Pending) | Some(TxStatus::Proposed) => PollDecision::Wait,
        Some(TxStatus::Committed) => PollDecision::Committed,
        Some(TxStatus::Rejected) => PollDecision::Resend,
        Some(TxStatus::Unknown) | None => if since_last_send_nanos > RESEND_AFTER_NANOS {
            PollDecision::Resend
        } else {
            PollDecision::Wait
        },
    }
}

/// Decides what to do after a look at the transaction's status.
pub fn poll_decision(status: Option<TxStatus>, since_last_send_nanos: u128) -> (r: PollDecision)
    ensures
        r == poll_decision_spec(status, since_last_send_nanos),
{
    match status {
        Some(TxStatus::Pending) => PollDecision::Wait,
        Some(TxStatus::Proposed) => PollDecision::Wait,
        Some(TxStatus::Committed) => PollDecision::Committed,
        Some(TxStatus::Rejected) => PollDecision::Resend,
        _ => {
            if since_last_send_nanos > RESEND_AFTER_NANOS {
                PollDecision::Resend
            } else {
                PollDecision::Wait
            }
        },
    }
}

/// Why a confirm attempt ended early. The task sleeps and starts over,
/// except where the store is damaged.
#[derive(Clone, Copy, Debug, PartialEq, Eq)]
pub enum ConfirmError {
    /// The store has no `last_confirmed` yet: the pipeline was not started.
    NotStarted,
    /// `last_confirmed` is the highest block number there is.
    NoNextBlock,
    /// The store does not know the hash of the block. The store is damaged.
    MissingBlockHash,
    /// The block has no stored submission transaction. The store is damaged.
    MissingSubmitTx,
    /// Layer 1 could not be asked.
    Rpc,
    /// Layer 1 calls the transaction committed and does not know its block.
    MissingTxBlockNumber,
    /// The task did not ask for this: nothing has changed.
    OutOfTurn,
}

impl ConfirmError {
    /// True if trying again cannot help: the pipeline was not started, or
    /// the store is damaged.
    pub open spec fn fatal(self) -> bool {
        self == ConfirmError::NotStarted || self == ConfirmError::MissingBlockHash || self
            == ConfirmError::MissingSubmitTx
    }

    /// True if trying again cannot help: the pipeline was not started, or
    /// the store is damaged.
    pub fn is_fatal(&self) -> (r: bool)
        ensures
            r == self.fatal(),
    {
        match self {
            ConfirmError::NotStarted => true,
            ConfirmError::MissingBlockHash => true,
            ConfirmError::MissingSubmitTx => true,
            _ => false,
        }
    }

    /// What went wrong, in words.
    pub open spec fn message_spec(self) -> Seq<char> {
        match self {
            ConfirmError::NotStarted => "last confirmed"@,
            ConfirmError::OutOfTurn => "confirm task out of turn"@,
            ConfirmError::NoNextBlock => "no block after the last confirmed block"@,
            ConfirmError::MissingBlockHash => "block hash"@,
            ConfirmError::MissingSubmitTx => "get submit tx"@,
            ConfirmError::Rpc => "rpc error"@,
            ConfirmError::MissingTxBlockNumber => "get tx block hash"@,
        }
    }

    /// What went wrong, in words.
    pub fn message(&self) -> (r: String)
        ensures
            r@ == self.message_spec(),
    {
        match self {
            ConfirmError::NotStarted => String::from_str("last confirmed"),
            ConfirmError::OutOfTurn => String::from_str("confirm task out of turn"),
            ConfirmError::NoNextBlock => String::from_str("no block after the last confirmed block"),
            ConfirmError::MissingBlockHash => String::from_str("block hash"),
            ConfirmError::MissingSubmitTx => String::from_str("get submit tx"),
            ConfirmError::Rpc => String::from_str("rpc error"),
            ConfirmError::MissingTxBlockNumber => String::from_str("get tx block hash"),
        }
    }
}

/// Where a confirm task stands.
#[derive(Clone, Copy, Debug, PartialEq, Eq)]
pub enum ConfirmPhase {
    /// The transaction's status is watched.
    Polling,
    /// The transaction is committed; the number of its block is asked for.
    Locating,
    /// Layer 1's tip is awaited at the block with this number.
    WaitingTip(u64),
    /// The attempt is over.
    Done,
}

/// What the caller does next.
#[derive(Clone, Copy, Debug, PartialEq, Eq)]
pub enum ConfirmAction {
    /// Ask layer 1 for the status of the stored transaction of the task's
    /// block and hand it to `status_polled`.
    PollStatus,
    /// Sleep for `STATUS_POLL_SECS`, then do as for `PollStatus`.
    SleepThenPollStatus,
    /// Send the transaction again (an error is logged, not returned), note
    /// the time, then do as for `SleepThenPollStatus`.
    Resend,
    /// Ask layer 1 for the number of the block that holds the transaction and
    /// hand it to `tx_located`.
    LocateTx,
    /// Ask layer 1 for its tip and hand its number to `tip_polled`.
    PollTip,
    /// Sleep for `TIP_POLL_MILLIS`, then do as for `PollTip`.
    SleepThenPollTip,
    /// The block is confirmed: hand this to the controller.
    Finished(NumberHash),
    /// The attempt failed.
    Failed(ConfirmError),
}

/// One attempt to confirm the block after `last_confirmed`.
#[derive(Debug)]
pub struct ConfirmTask {
    number: u64,
    block_hash: [u8; 32],
    phase: ConfirmPhase,
}

/// The mathematical value of a [`ConfirmTask`].
pub struct ConfirmTaskView {
    pub number: u64,
    pub block_hash: [u8; 32],
    pub phase: ConfirmPhase,
}

impl View for ConfirmTask {
    type V = ConfirmTaskView;

    closed spec fn view(&self) -> ConfirmTaskView {
        ConfirmTaskView { number: self.number, block_hash: self.block_hash, phase: self.phase }
    }
}

/// Why the confirm task cannot start on this store, if it cannot.
pub open spec fn confirm_fault(st: StoreView) -> Option<ConfirmError> {
    let n = st.confirmed() + 1;
    if st.last_confirmed is None {
        Some(ConfirmError::NotStarted)
    } else if n > u64::MAX {
        Some(ConfirmError::NoNextBlock)
    } else if !st.block_hashes.dom().contains(n as u64) {
        Some(ConfirmError::MissingBlockHash)
    } else if !st.submit_txs.dom().contains(n as u64) {
        Some(ConfirmError::MissingSubmitTx)
    } else {
        None
    }
}

/// What releasing the submission of block `c + 1` keeps: where the manager
/// matched the store before at some `(c, s)`, no other transaction in the
/// window has the same hash, and the transaction spends no deposit of a
/// block above `s`, the manager matches the store at `(c + 1, s)` afterwards.
pub open spec fn released(before: PSCContext, after: PSCContext, c: int) -> bool {
    forall|s: int|
        0 <= c < s <= before.store@.valid() && #[trigger] cells_match(
            before.local_cells_manager,
            before.store@,
            c,
            s,
        ) && release_sound(before.store@, c, s) ==> cells_match(
            after.local_cells_manager,
            after.store@,
            c + 1,
            s,
        )
}

/// Confirming the stored transaction of block `c + 1` releases the block.
pub proof fn lemma_released(before: PSCContext, after: PSCContext, c: int)
    requires
        0 <= c < u64::MAX,
        after.store@ == before.store@,
        after.local_cells_manager.reservations() == confirm_tx_reservations(
            before.local_cells_manager.reservations(),
            before.store@.submit_txs[(c + 1) as u64].hash,
        ),
        after.local_cells_manager.available() == confirm_tx_available(
            before.local_cells_manager.available(),
            before.store@.submit_txs[(c + 1) as u64].hash,
        ),
    ensures
        released(before, after, c),
{
    assert forall|s: int|
        0 <= c < s <= before.store@.valid() && #[trigger] cells_match(
            before.local_cells_manager,
            before.store@,
            c,
            s,
        ) && release_sound(before.store@, c, s) implies cells_match(
        after.local_cells_manager,
        after.store@,
        c + 1,
        s,
    ) by {
        lemma_release_keeps_match(
            before.local_cells_manager.reservations(),
            before.local_cells_manager.available(),
            before.store@,
            c,
            s,
        );
    }
}

/// The task after a look at layer 1's tip, and what the caller does next.
pub open spec fn tip_polled_spec(
    task: ConfirmTaskView,
    st: StoreView,
    tip_number: Option<u64>,
) -> (ConfirmTaskView, ConfirmAction) {
    let done = ConfirmTaskView { phase: ConfirmPhase::Done, ..task };
    match task.phase {
        ConfirmPhase::WaitingTip(wanted) => match tip_number {
            None => (done, ConfirmAction::Failed(ConfirmError::Rpc)),
            Some(tip) => if tip < wanted {
                (task, ConfirmAction::SleepThenPollTip)
            } else if !st.submit_txs.dom().contains(task.number) {
                (done, ConfirmAction::Failed(ConfirmError::MissingSubmitTx))
            } else {
                (
                    done,
                    ConfirmAction::Finished(
                        NumberHash { number: task.number, block_hash: task.block_hash },
                    ),
                )
            },
        },
        _ => (task, ConfirmAction::Failed(ConfirmError::OutOfTurn)),
    }
}

impl ConfirmTask {
    /// The number of the block that the task confirms.
    pub fn number(&self) -> (r: u64)
        ensures
            r == self@.number,
    {
        self.number
    }

    /// The hash of the block that the task confirms.
    pub fn block_hash(&self) -> (r: [u8; 32])
        ensures
            r == self@.block_hash,
    {
        self.block_hash
    }

    pub fn phase(&self) -> (r: ConfirmPhase)
        ensures
            r == self@.phase,
    {
        self.phase
    }

    /// What stands against an attempt on the block after `last_confirmed`,
    /// if anything. Nothing is changed.
    pub fn check(ctx: &PSCContext) -> (r: Option<ConfirmError>)
        ensures
            r == confirm_fault(ctx.store@),
    {
        let last: u64 = match ctx.store.last_confirmed() {
            Some(nh) => nh.number,
            None => {
                return Some(ConfirmError::NotStarted);
            },
        };
        if last == u64::MAX {
            return Some(ConfirmError::NoNextBlock);
        }
        let number: u64 = last + 1;
        if ctx.store.get_block_hash_by_number(number).is_none() {
            return Some(ConfirmError::MissingBlockHash);
        }
        if ctx.store.get_submit_tx(number).is_none() {
            return Some(ConfirmError::MissingSubmitTx);
        }
        None
    }

    /// Starts an attempt on the block after `last_confirmed`. The store must
    /// not be damaged, as `check` tells: the pipeline was started, and the
    /// block's hash and its submission transaction are stored.
    pub fn begin(ctx: &PSCContext) -> (r: Result<ConfirmTask, ConfirmError>)
        requires
            !(confirm_fault(ctx.store@) matches Some(e) && e.fatal()),
        ensures
            r matches Err(e) ==> e == ConfirmError::NoNextBlock,
            match r {
                Err(e) => confirm_fault(ctx.store@) == Some(e),
                Ok(task) => {
                    let n = (ctx.store@.confirmed() + 1) as u64;
                    &&& confirm_fault(ctx.store@) is None
                    &&& task@.number == n
                    &&& task@.block_hash == ctx.store@.block_hashes[n]
                    &&& task@.phase == ConfirmPhase::Polling
                },
            },
    {
        let last: u64 = ctx.store.get_last_confirmed().number;
        if last == u64::MAX {
            return Err(ConfirmError::NoNextBlock);
        }
        let number: u64 = last + 1;
        let block_hash: [u8; 32] = match ctx.store.get_block_hash_by_number(number) {
            Some(h) => h,
            None => {
                assert(false);
                return Err(ConfirmError::MissingBlockHash);
            },
        };
        Ok(ConfirmTask { number, block_hash, phase: ConfirmPhase::Polling })
    }

    /// Takes the transaction's status: `None` where layer 1 could not be
    /// asked, else what it said, which is `None` where it does not know the
    /// transaction. `since_last_send_nanos` is the time since the
    /// transaction was last sent, or since the task began.
    pub fn status_polled(
        &mut self,
        status: Option<Option<TxStatus>>,
        since_last_send_nanos: u128,
    ) -> (r: ConfirmAction)
        ensures
            final(self)@.number == old(self)@.number,
            final(self)@.block_hash == old(self)@.block_hash,
            old(self)@.phase != ConfirmPhase::Polling ==> r == ConfirmAction::Failed(
                ConfirmError::OutOfTurn,
            ) && final(self)@ == old(self)@,
            old(self)@.phase == ConfirmPhase::Polling ==> match status {
                None => r == ConfirmAction::Failed(ConfirmError::Rpc) && final(self)@.phase
                    == ConfirmPhase::Done,
                Some(s) => match poll_decision_spec(s, since_last_send_nanos) {
                    PollDecision::Wait => r == ConfirmAction::SleepThenPollStatus && final(self)@.phase == ConfirmPhase::Polling,
                    PollDecision::Resend => r == ConfirmAction::Resend && final(self)@.phase
                        == ConfirmPhase::Polling,
                    PollDecision::Committed => r == ConfirmAction::LocateTx && final(self)@.phase
                        == ConfirmPhase::Locating,
                },
            },
    {
        match self.phase {
            ConfirmPhase::Polling => {},
            _ => {
                return ConfirmAction::Failed(ConfirmError::OutOfTurn);
            },
        }
        match status {
            None => {
                self.phase = ConfirmPhase::Done;
                ConfirmAction::Failed(ConfirmError::Rpc)
            },
            Some(s) => match poll_decision(s, since_last_send_nanos) {
                PollDecision::Wait => ConfirmAction::SleepThenPollStatus,
                PollDecision::Resend => ConfirmAction::Resend,
                PollDecision::Committed => {
                    self.phase = ConfirmPhase::Locating;
                    ConfirmAction::LocateTx
                },
            },
        }
    }

    /// Takes the number of the layer-1 block that holds the transaction:
    /// `None` where layer 1 could not be asked, else what it said.
    pub fn tx_located(&mut self, block_number: Option<Option<u64>>) -> (r: ConfirmAction)
        ensures
            final(self)@.number == old(self)@.number,
            final(self)@.block_hash == old(self)@.block_hash,
            old(self)@.phase != ConfirmPhase::Locating ==> r == ConfirmAction::Failed(
                ConfirmError::OutOfTurn,
            ) && final(self)@ == old(self)@,
            old(self)@.phase == ConfirmPhase::Locating ==> match block_number {
                None => r == ConfirmAction::Failed(ConfirmError::Rpc) && final(self)@.phase
                    == ConfirmPhase::Done,
                Some(None) => r == ConfirmAction::Failed(ConfirmError::MissingTxBlockNumber)
                    && final(self)@.phase == ConfirmPhase::Done,
                Some(Some(n)) => r == ConfirmAction::PollTip && final(self)@.phase
                    == ConfirmPhase::WaitingTip(n),
            },
    {
        match self.phase {
            ConfirmPhase::Locating => {},
            _ => {
                return ConfirmAction::Failed(ConfirmError::OutOfTurn);
            },
        }
        match block_number {
            None => {
                self.phase = ConfirmPhase::Done;
                ConfirmAction::Failed(ConfirmError::Rpc)
            },
            Some(None) => {
                self.phase = ConfirmPhase::Done;
                ConfirmAction::Failed(ConfirmError::MissingTxBlockNumber)
            },
            Some(Some(n)) => {
                self.phase = ConfirmPhase::WaitingTip(n);
                ConfirmAction::PollTip
            },
        }
    }

    /// Takes the number of layer 1's tip, or `None` where layer 1 could not
    /// be asked. Once the tip has reached the block that holds the
    /// transaction, the transaction's cells are released in the local-cell
    /// manager and the block is confirmed. A task that is not waiting for the
    /// tip refuses the answer.
    pub fn tip_polled(&mut self, ctx: &mut PSCContext, tip_number: Option<u64>) -> (r:
        ConfirmAction)
        ensures
            final(ctx).store@ == old(ctx).store@,
            final(self)@.number == old(self)@.number,
            final(self)@.block_hash == old(self)@.block_hash,
            r is Finished && old(self)@.number == old(ctx).store@.confirmed() + 1 ==> released(
                *old(ctx),
                *final(ctx),
                old(ctx).store@.confirmed(),
            ),
            !(r is Finished) ==> final(ctx).local_cells_manager == old(ctx).local_cells_manager,
            (final(self)@, r) == tip_polled_spec(old(self)@, old(ctx).store@, tip_number),
            r is Finished ==> {
                let tx = old(ctx).store@.submit_txs[old(self)@.number];
                &&& final(ctx).local_cells_manager.reservations() == confirm_tx_reservations(
                    old(ctx).local_cells_manager.reservations(),
                    tx.hash,
                )
                &&& final(ctx).local_cells_manager.available() == confirm_tx_available(
                    old(ctx).local_cells_manager.available(),
                    tx.hash,
                )
            },
    {
        let wanted: u64 = match self.phase {
            ConfirmPhase::WaitingTip(n) => n,
            _ => {
                return ConfirmAction::Failed(ConfirmError::OutOfTurn);
            },
        };
        let tip: u64 = match tip_number {
            Some(tip) => tip,
            None => {
                self.phase = ConfirmPhase::Done;
                return ConfirmAction::Failed(ConfirmError::Rpc);
            },
        };
        if tip < wanted {
            return ConfirmAction::SleepThenPollTip;
        }
        self.phase = ConfirmPhase::Done;
        match ctx.store.get_submit_tx(self.number) {
            Some(tx) => {
                ctx.local_cells_manager.confirm_tx(tx);
            },
            None => {
                return ConfirmAction::Failed(ConfirmError::MissingSubmitTx);
            },
        }
        proof {
            if self.number == old(ctx).store@.confirmed() + 1 && self.number > 0 {
                lemma_released(*old(ctx), *ctx, old(ctx).store@.confirmed());
            }
        }
        ConfirmAction::Finished(NumberHash { number: self.number, block_hash: self.block_hash })
    }
}


} // verus!
