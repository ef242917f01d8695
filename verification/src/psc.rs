//! The controller of the produce–submit–confirm pipeline.
//!
//! The controller owns the progress pointers. It is driven by events: a block
//! was produced, the submit task finished, the confirm task finished. After
//! each event it says which background tasks to start. At most one submit
//! task and one confirm task run at a time.

use vstd::prelude::*;
use vstd::string::*;
use crate::local_cells::{lock_cells_spec, LocalCellsManager, Reservation};
use crate::recovery::{
    cells_match, deposits_present, first_missing_deposit_info, first_missing_submit_tx,
    lemma_locked_frame, lock_deposits, points_of, rebuild_local_cells, submit_txs_present,
};
use crate::store::{deposits_view, ProgressStore, StoreView};
use crate::text::{decimal, decimal_string};
use crate::types::{copy_bytes, DepositInfo, NumberHash, OutPoint};

verus! {

/// How many produced blocks may wait for submission.
pub const DEFAULT_LOCAL_LIMIT: u64 = 3;

/// How many submitted blocks may wait for confirmation.
pub const DEFAULT_SUBMITTED_LIMIT: u64 = 5;

/// Seconds between two attempts to produce a block.
pub const PRODUCE_INTERVAL_SECS: u64 = 3;

/// Seconds that a failed submit task waits before it tries again.
pub const SUBMIT_RETRY_SECS: u64 = 20;

/// Seconds that a failed confirm task waits before it tries again.
pub const CONFIRM_RETRY_SECS: u64 = 3;

/// What the pipeline shares between the controller and its tasks.
#[derive(Debug)]
pub struct PSCContext {
    pub store: ProgressStore,
    pub local_cells_manager: LocalCellsManager,
}

impl PSCContext {
    pub fn new(store: ProgressStore, local_cells_manager: LocalCellsManager) -> (r: PSCContext)
        ensures
            r.store == store,
            r.local_cells_manager == local_cells_manager,
    {
        PSCContext { store, local_cells_manager }
    }

    /// True if the manager holds exactly what the store calls for at the
    /// store's own pointers.
    pub open spec fn cells_settled(&self) -> bool {
        cells_match(
            self.local_cells_manager,
            self.store@,
            self.store@.confirmed(),
            self.store@.submitted(),
        )
    }
}

/// A block that was produced and accepted by the chain, as far as the
/// pipeline records it.
#[derive(Debug)]
pub struct ProducedBlock {
    pub number: u64,
    pub block_hash: [u8; 32],
    /// The deposit cells that the block takes in.
    pub deposit_cells: Vec<DepositInfo>,
    /// The custodian capacity left after the block, serialized.
    pub remaining_capacity: Vec<u8>,
}

/// The counters and flags of the controller.
#[derive(Clone, Copy, Debug, PartialEq, Eq)]
pub struct Counters {
    /// Blocks produced and not submitted.
    pub local_count: u64,
    pub local_limit: u64,
    /// Blocks submitted and not confirmed.
    pub submitted_count: u64,
    pub submitted_limit: u64,
    /// True while a submit task runs.
    pub submitting: bool,
    /// True while a confirm task runs.
    pub syncing: bool,
}

impl Counters {
    /// The counters are the distances between the stored pointers, and the
    /// pointers are in order.
    pub open spec fn counts_match(self, st: StoreView) -> bool {
        &&& st.ordered()
        &&& self.local_count == st.valid() - st.submitted()
        &&& self.submitted_count == st.submitted() - st.confirmed()
    }

    /// The submitted window is not overfull, and a running submit task has
    /// room to finish.
    pub open spec fn within_limits(self) -> bool {
        &&& self.submitted_count <= self.submitted_limit
        &&& self.submitting ==> self.submitted_count < self.submitted_limit
    }

    /// A running task has a block to work on.
    pub open spec fn tasks_have_work(self) -> bool {
        &&& self.submitting ==> self.local_count > 0
        &&& self.syncing ==> self.submitted_count > 0
    }

    /// The pointers are in order, the counters are their distances, and a
    /// running task has a block to work on.
    pub open spec fn in_step(self, st: StoreView) -> bool {
        self.counts_match(st) && self.tasks_have_work()
    }

    /// True if the produce timer may fire.
    pub open spec fn can_produce(self) -> bool {
        self.local_count < self.local_limit
    }

    /// True if a submit task is to be started.
    pub open spec fn should_submit(self) -> bool {
        !self.submitting && self.local_count > 0 && self.submitted_count < self.submitted_limit
    }

    /// True if a confirm task is to be started.
    pub open spec fn should_confirm(self) -> bool {
        !self.syncing && self.submitted_count > 0
    }

    /// The counters after the tasks that are due were started.
    pub open spec fn launched(self) -> Counters {
        Counters {
            submitting: self.submitting || self.should_submit(),
            syncing: self.syncing || self.should_confirm(),
            ..self
        }
    }
}

/// What is wrong with a store that the pipeline is to start on. Each of
/// these means that the store is damaged.
#[derive(Clone, Copy, Debug, PartialEq, Eq)]
pub enum InitError {
    /// Not `last_confirmed <= last_submitted <= last_valid`.
    PointersOutOfOrder,
    /// A submitted block has no stored submission transaction.
    MissingSubmitTx(u64),
    /// A produced block has no stored deposit list.
    MissingDepositInfo(u64),
}

/// Why an event was refused. The controller and the context are unchanged.
#[derive(Clone, Copy, Debug, PartialEq, Eq)]
pub enum PscError {
    /// The local window is full: no block may be produced now.
    LocalWindowFull,
    /// The produced block is not the one after the tip.
    NotNextBlock,
    /// No submit task runs, or the block is not the one after
    /// `last_submitted`, or its submission transaction is not stored.
    UnexpectedSubmitted,
    /// No confirm task runs, or the block is not the one after
    /// `last_confirmed`.
    UnexpectedConfirmed,
    /// The submit task panicked.
    SubmitTaskPanic,
    /// The confirm task panicked.
    SyncTaskPanic,
    /// The stored pointers are not in order, or the counters are not their
    /// distances, or a task is marked as running without a block to work on.
    OutOfStep,
}

impl InitError {
    /// What went wrong, in words.
    pub open spec fn message_spec(self) -> Seq<char> {
        match self {
            InitError::PointersOutOfOrder =>
                "last confirmed, last submitted and last valid block are out of order"@,
            InitError::MissingSubmitTx(n) => "submit tx of block "@ + decimal(n as nat)
                + " is missing"@,
            InitError::MissingDepositInfo(n) => "deposit info of block "@ + decimal(n as nat)
                + " is missing"@,
        }
    }

    /// What went wrong, in words.
    pub fn message(&self) -> (r: String)
        ensures
            r@ == self.message_spec(),
    {
        match self {
            InitError::PointersOutOfOrder => String::from_str(
                "last confirmed, last submitted and last valid block are out of order",
            ),
            InitError::MissingSubmitTx(n) => {
                let mut r = String::from_str("submit tx of block ");
                r.append(decimal_string(*n).as_str());
                r.append(" is missing");
                r
            },
            InitError::MissingDepositInfo(n) => {
                let mut r = String::from_str("deposit info of block ");
                r.append(decimal_string(*n).as_str());
                r.append(" is missing");
                r
            },
        }
    }
}

impl PscError {
    /// True if the pipeline must stop: a background task panicked, or the
    /// pointers and the counters are out of step.
    pub fn is_fatal(&self) -> (r: bool)
        ensures
            r == (*self == PscError::SubmitTaskPanic || *self == PscError::SyncTaskPanic || *self
                == PscError::OutOfStep),
    {
        match self {
            PscError::SubmitTaskPanic => true,
            PscError::SyncTaskPanic => true,
            PscError::OutOfStep => true,
            _ => false,
        }
    }

    /// What went wrong, in words.
    pub open spec fn message_spec(self) -> Seq<char> {
        match self {
            PscError::LocalWindowFull => "too many local blocks"@,
            PscError::NotNextBlock => "produced block is not the next block"@,
            PscError::UnexpectedSubmitted => "unexpected submitted block"@,
            PscError::UnexpectedConfirmed => "unexpected confirmed block"@,
            PscError::SubmitTaskPanic => "submit task panic"@,
            PscError::SyncTaskPanic => "sync task panic"@,
            PscError::OutOfStep => "progress pointers and counters are out of step"@,
        }
    }

    /// What went wrong, in words.
    pub fn message(&self) -> (r: String)
        ensures
            r@ == self.message_spec(),
    {
        match self {
            PscError::LocalWindowFull => String::from_str("too many local blocks"),
            PscError::NotNextBlock => String::from_str("produced block is not the next block"),
            PscError::UnexpectedSubmitted => String::from_str("unexpected submitted block"),
            PscError::UnexpectedConfirmed => String::from_str("unexpected confirmed block"),
            PscError::SubmitTaskPanic => String::from_str("submit task panic"),
            PscError::SyncTaskPanic => String::from_str("sync task panic"),
            PscError::OutOfStep => String::from_str(
                "progress pointers and counters are out of step",
            ),
        }
    }
}

/// What reaches the controller.
#[derive(Debug)]
pub enum Event {
    /// The produce timer fired and a block was produced and accepted.
    Produced(ProducedBlock),
    /// The produce timer fired and no block came of it.
    ProduceFailed,
    /// The submit task sent the submission of this block.
    Submitted(NumberHash),
    /// The submit task ended without a result and without a panic.
    SubmitCancelled,
    /// The submit task panicked.
    SubmitPanicked,
    /// The confirm task saw the submission of this block on layer 1.
    Confirmed(NumberHash),
    /// The confirm task ended without a result and without a panic.
    ConfirmCancelled,
    /// The confirm task panicked.
    ConfirmPanicked,
}

/// What the caller does after an event.
#[derive(Clone, Copy, Debug, PartialEq, Eq)]
pub struct Launch {
    /// Tell the mempool that this block is the new tip.
    pub notify_new_tip: Option<[u8; 32]>,
    /// Start a submit task.
    pub submit: bool,
    /// Start a confirm task.
    pub confirm: bool,
}

/// Block producing, submitting and confirming state machine.
#[derive(Debug)]
pub struct ProduceSubmitConfirm {
    counters: Counters,
}

impl View for ProduceSubmitConfirm {
    type V = Counters;

    closed spec fn view(&self) -> Counters {
        self.counters
    }
}

/// Every submitted block that is not confirmed has its submission
/// transaction stored, and every produced block that is not submitted has
/// its deposit list stored.
pub open spec fn records_present(st: StoreView) -> bool {
    &&& submit_txs_present(st, st.confirmed(), st.submitted())
    &&& deposits_present(st, st.submitted(), st.valid())
}

/// True if the end of a submit task for block `nh` is due: a submit task
/// runs, `nh` is the block after `last_submitted`, and its submission
/// transaction is stored.
pub open spec fn submitted_expected(c: Counters, st: StoreView, nh: NumberHash) -> bool {
    &&& c.submitting
    &&& nh.number == st.submitted() + 1
    &&& st.submit_txs.dom().contains(nh.number)
}

/// The serialized deposit requests of a block's deposit cells, in order: what
/// the chain takes in with the block.
pub fn deposit_requests(deposits: &Vec<DepositInfo>) -> (r: Vec<Vec<u8>>)
    ensures
        r@.len() == deposits@.len(),
        forall|i: int| 0 <= i < r@.len() ==> (#[trigger] r@[i])@ == deposits@[i].request@,
{
    let mut r: Vec<Vec<u8>> = Vec::new();
    let mut i: usize = 0;
    while i < deposits.len()
        invariant
            i <= deposits@.len(),
            r@.len() == i,
            forall|k: int| 0 <= k < i ==> (#[trigger] r@[k])@ == deposits@[k].request@,
        decreases deposits@.len() - i,
    {
        r.push(copy_bytes(&deposits[i].request));
        i = i + 1;
    }
    r
}

/// The asset type scripts among the first `n` deposits, in order: one for
/// each deposit cell that has a type script.
pub open spec fn asset_scripts_of(deposits: Seq<DepositInfo>, n: int) -> Seq<Seq<u8>>
    decreases n,
{
    if n <= 0 {
        Seq::empty()
    } else {
        match deposits[n - 1].asset_script {
            Some(script) => asset_scripts_of(deposits, n - 1).push(script@),
            None => asset_scripts_of(deposits, n - 1),
        }
    }
}

/// The values of a list of byte strings.
pub open spec fn bytes_view(v: Seq<Vec<u8>>) -> Seq<Seq<u8>> {
    v.map_values(|b: Vec<u8>| b@)
}

/// The serialized type scripts of the deposited assets, in order: one for
/// each deposit cell that has a type script.
pub fn deposit_asset_scripts(deposits: &Vec<DepositInfo>) -> (r: Vec<Vec<u8>>)
    ensures
        bytes_view(r@) == asset_scripts_of(deposits@, deposits@.len() as int),
{
    let mut r: Vec<Vec<u8>> = Vec::new();
    let mut i: usize = 0;
    while i < deposits.len()
        invariant
            i <= deposits@.len(),
            bytes_view(r@) == asset_scripts_of(deposits@, i as int),
        decreases deposits@.len() - i,
    {
        let ghost before = r@;
        match &deposits[i].asset_script {
            Some(script) => {
                r.push(copy_bytes(script));
                assert(bytes_view(r@) =~= bytes_view(before).push(script@));
            },
            None => {},
        }
        i = i + 1;
    }
    r
}

/// The store after a produced block was recorded.
pub open spec fn store_after_produced(st: StoreView, block: ProducedBlock) -> StoreView {
    StoreView {
        last_valid: NumberHash { number: block.number, block_hash: block.block_hash },
        block_hashes: st.block_hashes.insert(block.number, block.block_hash),
        deposits: st.deposits.insert(block.number, deposits_view(block.deposit_cells@)),
        capacities: st.capacities.insert(block.number, block.remaining_capacity@),
        ..st
    }
}

/// Records a produced block: stores its deposit cells and the capacity left
/// after it, moves the tip to it, and locks its deposit cells. The block must
/// be the one after the tip; otherwise nothing changes.
pub fn produce_local_block(ctx: &mut PSCContext, block: ProducedBlock) -> (r: Result<
    [u8; 32],
    PscError,
>)
    ensures
        r is Ok <==> block.number == old(ctx).store@.valid() + 1,
        r is Err ==> r == Err::<[u8; 32], PscError>(PscError::NotNextBlock) && *final(ctx) == *old(ctx),
        r is Ok ==> {
            &&& r == Ok::<[u8; 32], PscError>(block.block_hash)
            &&& final(ctx).store@ == store_after_produced(old(ctx).store@, block)
            &&& final(ctx).local_cells_manager.available() == old(ctx).local_cells_manager.available()
            &&& final(ctx).local_cells_manager.reservations() == lock_cells_spec(
                old(ctx).local_cells_manager.reservations(),
                points_of(deposits_view(block.deposit_cells@)),
                block.deposit_cells@.len() as int,
            )
        },
        forall|c: int, s: int|
            r is Ok && 0 <= s <= old(ctx).store@.valid() && #[trigger] cells_match(
                old(ctx).local_cells_manager,
                old(ctx).store@,
                c,
                s,
            ) ==> cells_match(final(ctx).local_cells_manager, final(ctx).store@, c, s),
{
    let tip: u64 = ctx.store.get_last_valid().number;
    if tip == u64::MAX || block.number != tip + 1 {
        return Err(PscError::NotNextBlock);
    }
    let ghost before = ctx.store@;
    let ghost cells = points_of(deposits_view(block.deposit_cells@));
    let ProducedBlock { number, block_hash, deposit_cells, remaining_capacity } = block;
    lock_deposits(&mut ctx.local_cells_manager, &deposit_cells);
    ctx.store.set_block_deposit_info_vec(number, deposit_cells);
    ctx.store.set_block_post_finalized_custodian_capacity(number, remaining_capacity);
    ctx.store.set_last_valid(NumberHash { number, block_hash });
    proof {
        assert(ctx.store@ == store_after_produced(before, block));
        assert forall|c: int, s: int|
            0 <= s <= before.valid() && #[trigger] cells_match(
                old(ctx).local_cells_manager,
                before,
                c,
                s,
            ) implies cells_match(ctx.local_cells_manager, ctx.store@, c, s) by {
            lemma_locked_frame(
                before.deposits,
                ctx.store@.deposits,
                crate::recovery::applied_reservations(before.submit_txs, c, s),
                s,
                before.valid(),
            );
            assert(points_of(ctx.store@.deposits[number]) == cells);
            assert(cells.len() == deposit_cells@.len());
        }
    }
    Ok(block_hash)
}

impl ProduceSubmitConfirm {
    /// The counters and flags.
    pub fn counters(&self) -> (r: Counters)
        ensures
            r == self@,
    {
        self.counters
    }

    /// What is wrong with a store that the pipeline is to start on, if
    /// anything: the pointers, once a missing one is made up for, are out of
    /// order, or a block between them lacks its record. The lowest such
    /// block is named. The store is not changed.
    pub fn check_store(store: &ProgressStore) -> (r: Option<InitError>)
        ensures
            r == init_result(store@),
    {
        let last_valid: u64 = store.get_last_valid().number;
        let (last_submitted, last_confirmed): (u64, u64) = match (
            store.last_submitted(),
            store.last_confirmed(),
        ) {
            (Some(s), Some(c)) => (s.number, c.number),
            _ => (last_valid, last_valid),
        };
        if !(last_confirmed <= last_submitted && last_submitted <= last_valid) {
            return Some(InitError::PointersOutOfOrder);
        }
        match first_missing_submit_tx(store, last_confirmed, last_submitted) {
            Some(b) => {
                return Some(InitError::MissingSubmitTx(b));
            },
            None => {},
        }
        match first_missing_deposit_info(store, last_submitted, last_valid) {
            Some(b) => {
                return Some(InitError::MissingDepositInfo(b));
            },
            None => {},
        }
        None
    }

    /// Starts the pipeline on a store. Where a progress pointer is missing,
    /// both are set to `last_valid`. Then the local-cell manager is emptied
    /// and rebuilt from the store, and the counters are taken from the
    /// pointers. The store must be sound, as `check_store` tells: a store
    /// with pointers out of order or without a record that must be there is
    /// damaged, and the pipeline does not start on it.
    pub fn init(context: &mut PSCContext) -> (r: ProduceSubmitConfirm)
        requires
            init_result(old(context).store@) is None,
        ensures
            final(context).store@ == old(context).store@.with_default_pointers(),
            started(old(context).store@, *final(context), r@),
            model_of(r, *final(context)).inv(),
    {
        context.store.default_pointers();
        let last_valid: u64 = context.store.get_last_valid().number;
        let last_submitted: u64 = context.store.get_last_submitted().number;
        let last_confirmed: u64 = context.store.get_last_confirmed().number;
        rebuild_local_cells(&context.store, &mut context.local_cells_manager);
        ProduceSubmitConfirm {
            counters: Counters {
                local_count: last_valid - last_submitted,
                local_limit: DEFAULT_LOCAL_LIMIT,
                submitted_count: last_submitted - last_confirmed,
                submitted_limit: DEFAULT_SUBMITTED_LIMIT,
                submitting: false,
                syncing: false,
            },
        }
    }

    /// Sets the two window limits. The local limit must not exceed the
    /// number of blocks after which a block is final, the submitted window
    /// must already fit the new limit, and no submit task may be running;
    /// otherwise nothing changes.
    pub fn set_limits(&mut self, local_limit: u64, submitted_limit: u64, finality_blocks: u64) -> (accepted:
        bool)
        ensures
            accepted == (local_limit <= finality_blocks && !old(self)@.submitting && old(self)@.submitted_count <= submitted_limit),
            final(self)@ == if accepted {
                Counters { local_limit, submitted_limit, ..old(self)@ }
            } else {
                old(self)@
            },
            accepted ==> final(self)@.within_limits(),
    {
        if local_limit <= finality_blocks && !self.counters.submitting
            && self.counters.submitted_count <= submitted_limit {
            self.counters.local_limit = local_limit;
            self.counters.submitted_limit = submitted_limit;
            true
        } else {
            false
        }
    }

    /// True if the produce timer may fire: the local window has room.
    pub fn can_produce(&self) -> (r: bool)
        ensures
            r == self@.can_produce(),
    {
        self.counters.local_count < self.counters.local_limit
    }

    /// True if the stored pointers are in order, the counters are their
    /// distances, and a running task has a block to work on.
    pub fn in_step(&self, ctx: &PSCContext) -> (r: bool)
        ensures
            r == self@.in_step(ctx.store@),
    {
        let valid: u64 = ctx.store.get_last_valid().number;
        let (submitted, confirmed): (u64, u64) = match (
            ctx.store.last_submitted(),
            ctx.store.last_confirmed(),
        ) {
            (Some(s), Some(c)) => (s.number, c.number),
            _ => {
                return false;
            },
        };
        let c = self.counters;
        confirmed <= submitted && submitted <= valid && c.local_count == valid - submitted
            && c.submitted_count == submitted - confirmed && (!c.submitting || c.local_count > 0)
            && (!c.syncing || c.submitted_count > 0)
    }

    /// Handles a produced block: records it and counts it, if the local
    /// window has room and the block is the one after the tip.
    fn block_produced(&mut self, ctx: &mut PSCContext, block: ProducedBlock) -> (r: Result<
        [u8; 32],
        PscError,
    >)
        requires
            old(self)@.counts_match(old(ctx).store@),
        ensures
            final(self)@.counts_match(final(ctx).store@),
            records_present(old(ctx).store@) ==> records_present(final(ctx).store@),
            r is Ok <==> old(self)@.can_produce() && block.number == old(ctx).store@.valid() + 1,
            r is Err ==> {
                &&& *final(ctx) == *old(ctx)
                &&& final(self)@ == old(self)@
                &&& r == Err::<[u8; 32], PscError>(
                    if old(self)@.can_produce() {
                        PscError::NotNextBlock
                    } else {
                        PscError::LocalWindowFull
                    },
                )
            },
            r is Ok ==> {
                &&& r == Ok::<[u8; 32], PscError>(block.block_hash)
                &&& final(self)@ == (Counters {
                    local_count: (old(self)@.local_count + 1) as u64,
                    ..old(self)@
                })
                &&& final(self)@.local_count <= final(self)@.local_limit
                &&& final(ctx).store@ == store_after_produced(old(ctx).store@, block)
                &&& final(ctx).local_cells_manager.available() == old(ctx).local_cells_manager.available()
                &&& final(ctx).local_cells_manager.reservations() == lock_cells_spec(
                    old(ctx).local_cells_manager.reservations(),
                    points_of(deposits_view(block.deposit_cells@)),
                    block.deposit_cells@.len() as int,
                )
                &&& old(ctx).cells_settled() ==> final(ctx).cells_settled()
            },
    {
        if !self.can_produce() {
            return Err(PscError::LocalWindowFull);
        }
        let r = produce_local_block(ctx, block);
        if r.is_ok() {
            self.counters.local_count = self.counters.local_count + 1;
        }
        r
    }

    /// Handles the end of the submit task that sent block `nh`: stores `nh`
    /// as `last_submitted` and moves one block from the local window to the
    /// submitted window. `nh` must be the block after `last_submitted`, its
    /// submission transaction must be stored and a submit task must be
    /// running; otherwise nothing changes.
    fn block_submitted(&mut self, ctx: &mut PSCContext, nh: NumberHash) -> (r: Result<
        (),
        PscError,
    >)
        requires
            old(self)@.counts_match(old(ctx).store@),
            old(self)@.tasks_have_work(),
        ensures
            final(self)@.counts_match(final(ctx).store@),
            final(self)@.tasks_have_work(),
            old(self)@.within_limits() ==> final(self)@.within_limits(),
            records_present(old(ctx).store@) ==> records_present(final(ctx).store@),
            final(ctx).local_cells_manager == old(ctx).local_cells_manager,
            r is Ok <==> submitted_expected(old(self)@, old(ctx).store@, nh),
            r is Ok && cells_match(
                old(ctx).local_cells_manager,
                old(ctx).store@,
                old(ctx).store@.confirmed(),
                nh.number as int,
            ) ==> final(ctx).cells_settled(),
            r is Err ==> r == Err::<(), PscError>(PscError::UnexpectedSubmitted) && final(self)@
                == old(self)@ && final(ctx).store@ == old(ctx).store@,
            r is Ok ==> {
                &&& final(ctx).store@ == (StoreView { last_submitted: Some(nh), ..old(ctx).store@ })
                &&& final(self)@ == (Counters {
                    submitted_count: (old(self)@.submitted_count + 1) as u64,
                    local_count: (old(self)@.local_count - 1) as u64,
                    submitting: false,
                    ..old(self)@
                })
            },
    {
        let last: u64 = ctx.store.get_last_submitted().number;
        if !self.counters.submitting || last == u64::MAX || nh.number != last + 1
            || ctx.store.get_submit_tx(nh.number).is_none() {
            return Err(PscError::UnexpectedSubmitted);
        }
        ctx.store.set_last_submitted(nh);
        self.counters.submitting = false;
        self.counters.submitted_count = self.counters.submitted_count + 1;
        self.counters.local_count = self.counters.local_count - 1;
        Ok(())
    }

    /// Handles the end of the confirm task that saw block `nh` on layer 1:
    /// stores `nh` as `last_confirmed` and takes one block out of the
    /// submitted window. `nh` must be the block after `last_confirmed` and a
    /// confirm task must be running; otherwise nothing changes.
    fn block_confirmed(&mut self, ctx: &mut PSCContext, nh: NumberHash) -> (r: Result<
        (),
        PscError,
    >)
        requires
            old(self)@.counts_match(old(ctx).store@),
            old(self)@.tasks_have_work(),
        ensures
            final(self)@.counts_match(final(ctx).store@),
            final(self)@.tasks_have_work(),
            old(self)@.within_limits() ==> final(self)@.within_limits(),
            records_present(old(ctx).store@) ==> records_present(final(ctx).store@),
            final(ctx).local_cells_manager == old(ctx).local_cells_manager,
            r is Ok <==> old(self)@.syncing && nh.number == old(ctx).store@.confirmed() + 1,
            r is Ok && cells_match(
                old(ctx).local_cells_manager,
                old(ctx).store@,
                nh.number as int,
                old(ctx).store@.submitted(),
            ) ==> final(ctx).cells_settled(),
            r is Err ==> r == Err::<(), PscError>(PscError::UnexpectedConfirmed) && final(self)@
                == old(self)@ && final(ctx).store@ == old(ctx).store@,
            r is Ok ==> {
                &&& final(ctx).store@ == (StoreView { last_confirmed: Some(nh), ..old(ctx).store@ })
                &&& final(self)@ == (Counters {
                    submitted_count: (old(self)@.submitted_count - 1) as u64,
                    syncing: false,
                    ..old(self)@
                })
            },
    {
        let last: u64 = ctx.store.get_last_confirmed().number;
        if !self.counters.syncing || last == u64::MAX || nh.number != last + 1 {
            return Err(PscError::UnexpectedConfirmed);
        }
        ctx.store.set_last_confirmed(nh);
        self.counters.syncing = false;
        self.counters.submitted_count = self.counters.submitted_count - 1;
        Ok(())
    }

    /// One turn of the controller: handles the event, then starts the tasks
    /// that are due. An event that is refused changes nothing. Every event is
    /// refused while the pointers and the counters are out of step.
    pub fn step(&mut self, ctx: &mut PSCContext, event: Event) -> (r: Result<Launch, PscError>)
        ensures
            model_of(*old(self), *old(ctx)).inv() ==> model_of(*final(self), *final(ctx)).inv(),
            (model_of(*final(self), *final(ctx)), r) == step_spec(
                model_of(*old(self), *old(ctx)),
                event,
            ),
            old(self)@.within_limits() ==> final(self)@.within_limits(),
            event is Produced && r is Ok ==> final(self)@.local_count <= final(self)@.local_limit,
            event is Produced && r is Ok && old(ctx).cells_settled() ==> final(ctx).cells_settled(),
            !(event is Produced) ==> final(ctx).local_cells_manager == old(ctx).local_cells_manager,
    {
        if !self.in_step(ctx) {
            return Err(PscError::OutOfStep);
        }
        let mut tip: Option<[u8; 32]> = None;
        match event {
            Event::Produced(block) => {
                match self.block_produced(ctx, block) {
                    Ok(hash) => {
                        tip = Some(hash);
                    },
                    Err(e) => {
                        return Err(e);
                    },
                }
            },
            Event::ProduceFailed => {},
            Event::Submitted(nh) => {
                match self.block_submitted(ctx, nh) {
                    Ok(_) => {},
                    Err(e) => {
                        return Err(e);
                    },
                }
            },
            Event::SubmitCancelled => {
                self.counters.submitting = false;
            },
            Event::SubmitPanicked => {
                return Err(PscError::SubmitTaskPanic);
            },
            Event::Confirmed(nh) => {
                match self.block_confirmed(ctx, nh) {
                    Ok(_) => {},
                    Err(e) => {
                        return Err(e);
                    },
                }
            },
            Event::ConfirmCancelled => {
                self.counters.syncing = false;
            },
            Event::ConfirmPanicked => {
                return Err(PscError::SyncTaskPanic);
            },
        }
        let (submit, confirm) = self.launch_tasks();
        Ok(Launch { notify_new_tip: tip, submit, confirm })
    }

    /// Runs the controller over `events`, in order, until one is refused.
    /// Returns what the caller was told after each event, or the refusal.
    pub fn run(&mut self, ctx: &mut PSCContext, events: Vec<Event>) -> (r: Result<
        Vec<Launch>,
        PscError,
    >)
        ensures
            model_of(*old(self), *old(ctx)).inv() ==> model_of(*final(self), *final(ctx)).inv(),
            old(self)@.within_limits() ==> final(self)@.within_limits(),
            model_of(*final(self), *final(ctx)) == run_spec(
                model_of(*old(self), *old(ctx)),
                events@,
                events@.len() as int,
            ).0,
            match r {
                Ok(launches) => Ok::<Seq<Launch>, PscError>(launches@),
                Err(e) => Err(e),
            } == run_spec(model_of(*old(self), *old(ctx)), events@, events@.len() as int).1,
    {
        let ghost start = model_of(*self, *ctx);
        let ghost all = events@;
        let total: usize = events.len();
        let mut rest = events;
        let mut launches: Vec<Launch> = Vec::new();
        let mut done: usize = 0;
        while rest.len() > 0
            invariant
                start.inv() ==> model_of(*self, *ctx).inv(),
                old(self)@.within_limits() ==> self@.within_limits(),
                start == model_of(*old(self), *old(ctx)),
                all == events@,
                all.len() == total,
                done + rest@.len() == all.len(),
                rest@ == all.subrange(done as int, all.len() as int),
                (model_of(*self, *ctx), Ok::<Seq<Launch>, PscError>(launches@)) == run_spec(
                    start,
                    all,
                    done as int,
                ),
            decreases rest@.len(),
        {
            let ghost before = model_of(*self, *ctx);
            let event = rest.remove(0);
            assert(event == all[done as int]);
            let answer = self.step(ctx, event);
            assert((model_of(*self, *ctx), answer) == step_spec(before, all[done as int]));
            match answer {
                Ok(launch) => {
                    launches.push(launch);
                },
                Err(e) => {
                    proof {
                        assert(run_spec(start, all, done + 1).1 == Err::<Seq<Launch>, PscError>(e));
                        lemma_run_stops(start, all, done + 1, all.len() as int);
                    }
                    return Err(e);
                },
            }
            done = done + 1;
        }
        Ok(launches)
    }

    /// Says which background tasks to start now, and marks them as running:
    /// a submit task if none runs, a block waits and the submitted window
    /// has room; a confirm task if none runs and a block waits for
    /// confirmation.
    pub fn launch_tasks(&mut self) -> (r: (bool, bool))
        ensures
            r.0 == old(self)@.should_submit(),
            r.1 == old(self)@.should_confirm(),
            final(self)@ == old(self)@.launched(),
            old(self)@.tasks_have_work() ==> final(self)@.tasks_have_work(),
            old(self)@.within_limits() ==> final(self)@.within_limits(),
    {
        let c = self.counters;
        let submit = !c.submitting && c.local_count > 0 && c.submitted_count < c.submitted_limit;
        let confirm = !c.syncing && c.submitted_count > 0;
        if submit {
            self.counters.submitting = true;
        }
        if confirm {
            self.counters.syncing = true;
        }
        (submit, confirm)
    }
}

/// The whole state of the pipeline as a mathematical value.
pub struct Model {
    pub counters: Counters,
    pub store: StoreView,
    pub reservations: Map<OutPoint, Reservation>,
    pub available: Set<OutPoint>,
}

/// The state that a controller and a context stand for.
pub open spec fn model_of(psc: ProduceSubmitConfirm, ctx: PSCContext) -> Model {
    Model {
        counters: psc@,
        store: ctx.store@,
        reservations: ctx.local_cells_manager.reservations(),
        available: ctx.local_cells_manager.available(),
    }
}

impl Model {
    /// The pointers are in order, the counters are their distances, a
    /// running task has a block to work on, and every block between the
    /// pointers has its record.
    pub open spec fn inv(self) -> bool {
        &&& self.counters.counts_match(self.store)
        &&& self.counters.tasks_have_work()
        &&& records_present(self.store)
    }
}

/// The state after the tasks that are due were started, with what the caller
/// is told.
pub open spec fn launch_spec(m: Model, tip: Option<[u8; 32]>) -> (Model, Result<Launch, PscError>) {
    (
        Model { counters: m.counters.launched(), ..m },
        Ok(
            Launch {
                notify_new_tip: tip,
                submit: m.counters.should_submit(),
                confirm: m.counters.should_confirm(),
            },
        ),
    )
}

/// One turn of the controller: the event is handled, then the tasks that are
/// due are started. An event that is refused changes nothing, and every event
/// is refused while the pointers and the counters are out of step.
pub open spec fn step_spec(m: Model, event: Event) -> (Model, Result<Launch, PscError>) {
    if m.counters.in_step(m.store) {
        handle_spec(m, event)
    } else {
        (m, Err(PscError::OutOfStep))
    }
}

/// One turn of the controller while the pointers and the counters are in
/// step.
pub open spec fn handle_spec(m: Model, event: Event) -> (Model, Result<Launch, PscError>) {
    let c = m.counters;
    match event {
        Event::Produced(block) => {
            if !c.can_produce() {
                (m, Err(PscError::LocalWindowFull))
            } else if block.number != m.store.valid() + 1 {
                (m, Err(PscError::NotNextBlock))
            } else {
                launch_spec(
                    Model {
                        counters: Counters { local_count: (c.local_count + 1) as u64, ..c },
                        store: store_after_produced(m.store, block),
                        reservations: lock_cells_spec(
                            m.reservations,
                            points_of(deposits_view(block.deposit_cells@)),
                            block.deposit_cells@.len() as int,
                        ),
                        available: m.available,
                    },
                    Some(block.block_hash),
                )
            }
        },
        Event::ProduceFailed => launch_spec(m, None),
        Event::Submitted(nh) => {
            if !submitted_expected(c, m.store, nh) {
                (m, Err(PscError::UnexpectedSubmitted))
            } else {
                launch_spec(
                    Model {
                        counters: Counters {
                            submitted_count: (c.submitted_count + 1) as u64,
                            local_count: (c.local_count - 1) as u64,
                            submitting: false,
                            ..c
                        },
                        store: StoreView { last_submitted: Some(nh), ..m.store },
                        ..m
                    },
                    None,
                )
            }
        },
        Event::SubmitCancelled => launch_spec(
            Model { counters: Counters { submitting: false, ..c }, ..m },
            None,
        ),
        Event::SubmitPanicked => (m, Err(PscError::SubmitTaskPanic)),
        Event::Confirmed(nh) => {
            if !(c.syncing && nh.number == m.store.confirmed() + 1) {
                (m, Err(PscError::UnexpectedConfirmed))
            } else {
                launch_spec(
                    Model {
                        counters: Counters {
                            submitted_count: (c.submitted_count - 1) as u64,
                            syncing: false,
                            ..c
                        },
                        store: StoreView { last_confirmed: Some(nh), ..m.store },
                        ..m
                    },
                    None,
                )
            }
        },
        Event::ConfirmCancelled => launch_spec(
            Model { counters: Counters { syncing: false, ..c }, ..m },
            None,
        ),
        Event::ConfirmPanicked => (m, Err(PscError::SyncTaskPanic)),
    }
}

/// The controller run over the first `n` events: the state it ends in, and
/// what it told the caller after each event, or the first refusal. After a
/// refusal no further event is handled.
pub open spec fn run_spec(m: Model, events: Seq<Event>, n: int) -> (Model, Result<
    Seq<Launch>,
    PscError,
>)
    decreases n,
{
    if n <= 0 {
        (m, Ok(Seq::empty()))
    } else {
        let (before, told) = run_spec(m, events, n - 1);
        match told {
            Err(e) => (before, Err(e)),
            Ok(launches) => {
                let (after, answer) = step_spec(before, events[n - 1]);
                match answer {
                    Ok(launch) => (after, Ok(launches.push(launch))),
                    Err(e) => (after, Err(e)),
                }
            },
        }
    }
}

/// Every turn keeps the pointers in order and the counters equal to their
/// distances, keeps the submitted window within its limit, and leaves the
/// local window within its limit after a block was produced.
pub proof fn lemma_step_keeps_invariants(m: Model, event: Event)
    requires
        m.inv(),
    ensures
        step_spec(m, event).0.inv(),
        m.counters.within_limits() ==> step_spec(m, event).0.counters.within_limits(),
        event is Produced && step_spec(m, event).1 is Ok ==> step_spec(
            m,
            event,
        ).0.counters.local_count <= m.counters.local_limit,
        step_spec(m, event).1 is Err ==> step_spec(m, event).0 == m,
{
}

/// At most one task of each kind runs: while a submit task runs, no turn
/// starts another one unless the event is the end of the running one, and
/// the same holds of the confirm task. A task that is started has a block to
/// work on, and a submit task is started only while the submitted window has
/// room.
pub proof fn lemma_at_most_one_task(m: Model, event: Event)
    ensures
        step_spec(m, event).1 matches Ok(launch) ==> {
            &&& launch.submit ==> step_spec(m, event).0.counters.submitting
            &&& launch.confirm ==> step_spec(m, event).0.counters.syncing
            &&& launch.submit && m.counters.submitting ==> event is Submitted || event
                is SubmitCancelled
            &&& launch.confirm && m.counters.syncing ==> event is Confirmed || event
                is ConfirmCancelled
            &&& launch.submit ==> step_spec(m, event).0.counters.local_count > 0 && step_spec(
                m,
                event,
            ).0.counters.submitted_count < m.counters.submitted_limit
            &&& launch.confirm ==> step_spec(m, event).0.counters.submitted_count > 0
        },
{
}

/// A run keeps what every turn keeps.
pub proof fn lemma_run_keeps_invariants(m: Model, events: Seq<Event>, n: int)
    requires
        m.inv(),
        0 <= n <= events.len(),
    ensures
        run_spec(m, events, n).0.inv(),
        m.counters.within_limits() ==> run_spec(m, events, n).0.counters.within_limits(),
    decreases n,
{
    if n > 0 {
        lemma_run_keeps_invariants(m, events, n - 1);
        let (before, told) = run_spec(m, events, n - 1);
        if told is Ok {
            lemma_step_keeps_invariants(before, events[n - 1]);
        }
    }
}

/// Once an event was refused, the rest of the run changes nothing.
pub proof fn lemma_run_stops(m: Model, events: Seq<Event>, k: int, n: int)
    requires
        0 <= k <= n,
        run_spec(m, events, k).1 is Err,
    ensures
        run_spec(m, events, n) == run_spec(m, events, k),
    decreases n - k,
{
    if n > k {
        lemma_run_stops(m, events, k, n - 1);
    }
}

/// What a successful start on the store `before` leaves: the store with its
/// pointers set, the manager holding exactly what that store calls for, and
/// a controller whose counters are the distances between the pointers, with
/// the default limits and no task running.
pub open spec fn started(before: StoreView, after: PSCContext, counters: Counters) -> bool {
    &&& after.store@ == before.with_default_pointers()
    &&& after.cells_settled()
    &&& counters.counts_match(after.store@)
    &&& counters.local_limit == DEFAULT_LOCAL_LIMIT
    &&& counters.submitted_limit == DEFAULT_SUBMITTED_LIMIT
    &&& !counters.submitting
    &&& !counters.syncing
}

/// A start leaves the submitted window within its limit unless the store
/// came with more submitted and unconfirmed blocks than the limit allows.
pub proof fn lemma_start_within_limits(before: StoreView, after: PSCContext, counters: Counters)
    requires
        started(before, after, counters),
    ensures
        counters.within_limits() <==> after.store@.submitted() - after.store@.confirmed()
            <= DEFAULT_SUBMITTED_LIMIT,
        counters.tasks_have_work(),
        counters.local_count <= counters.local_limit <==> after.store@.valid()
            - after.store@.submitted() <= DEFAULT_LOCAL_LIMIT,
{
}

/// Starting again on the store that a start has left changes no pointer,
/// succeeds again, and ends with the same manager state and the same
/// counters.
pub proof fn lemma_restart_is_no_op(
    before: StoreView,
    first: PSCContext,
    first_counters: Counters,
    second: PSCContext,
    second_counters: Counters,
)
    requires
        init_result(before) is None,
        started(before, first, first_counters),
        started(first.store@, second, second_counters),
    ensures
        init_result(first.store@) is None,
        second.store@ == first.store@,
        second.local_cells_manager.reservations() == first.local_cells_manager.reservations(),
        second.local_cells_manager.available() == first.local_cells_manager.available(),
        second.local_cells_manager.locked() == first.local_cells_manager.locked(),
        second.local_cells_manager.in_flight() == first.local_cells_manager.in_flight(),
        second_counters == first_counters,
{
}

/// What `check_store` answers on a store: nothing, or the first thing that
/// is wrong with it.
pub open spec fn init_result(st: StoreView) -> Option<InitError> {
    let st = st.with_default_pointers();
    if !st.ordered() {
        Some(InitError::PointersOutOfOrder)
    } else if !submit_txs_present(st, st.confirmed(), st.submitted()) {
        Some(InitError::MissingSubmitTx(first_gap(st.submit_txs.dom(), st.confirmed(), st.submitted())))
    } else if !deposits_present(st, st.submitted(), st.valid()) {
        Some(InitError::MissingDepositInfo(first_gap(st.deposits.dom(), st.submitted(), st.valid())))
    } else {
        None
    }
}

/// The lowest number in `(lo, hi]` that `have` lacks.
pub open spec fn first_gap(have: Set<u64>, lo: int, hi: int) -> u64 {
    choose|b: u64|
        lo < b <= hi && !have.contains(b) && forall|n: u64| lo < n < b ==> have.contains(n)
}

} // verus!
