use gw_psc::confirm::{poll_decision, PollDecision, TxStatus, RESEND_AFTER_NANOS};
use gw_psc::diagnose::{
    find_consumer, needs_check, tx_spends, CellCheck, CellFinding, CellStatus, CellStep, InputStep,
    L1Block, TxInputCheck, MAX_SEARCH_BLOCKS,
};
use gw_psc::local_cells::LocalCellsManager;
use gw_psc::psc::{produce_local_block, PSCContext, ProducedBlock, PscError};
use gw_psc::store::ProgressStore;
use gw_psc::submit::{
    check_withdrawal_extras, copy_deposits, is_resolve_failure, median_gte, BlockSnapshot, L2Block,
    SubmitError, SubmitTask, WithdrawalExtra,
};
use gw_psc::since::MAX_TIMESTAMP_MILLIS;
use gw_psc::types::{DepositInfo, NumberHash, OutPoint, Transaction};

fn h(b: u8) -> [u8; 32] {
    [b; 32]
}

fn op(b: u8, index: u32) -> OutPoint {
    OutPoint::new(h(b), index)
}

fn tx(hash: u8, inputs: Vec<OutPoint>) -> Transaction {
    Transaction::new(h(hash), inputs, 1, vec![hash])
}

#[test]
fn poll_decision_table() {
    let after = RESEND_AFTER_NANOS;
    assert_eq!(after, 20_000_000_000);
    for elapsed in [0, after, after + 1, u128::MAX] {
        assert_eq!(poll_decision(Some(TxStatus::Pending), elapsed), PollDecision::Wait);
        assert_eq!(poll_decision(Some(TxStatus::Proposed), elapsed), PollDecision::Wait);
        assert_eq!(
            poll_decision(Some(TxStatus::Committed), elapsed),
            PollDecision::Committed
        );
        assert_eq!(poll_decision(Some(TxStatus::Rejected), elapsed), PollDecision::Resend);
    }
    for status in [Some(TxStatus::Unknown), None] {
        assert_eq!(poll_decision(status, 0), PollDecision::Wait);
        assert_eq!(poll_decision(status, after - 1), PollDecision::Wait);
        assert_eq!(poll_decision(status, after), PollDecision::Wait);
        assert_eq!(poll_decision(status, after + 1), PollDecision::Resend);
        assert_eq!(poll_decision(status, u128::MAX), PollDecision::Resend);
    }
}

#[test]
fn median_gte_compares_with_the_since() {
    assert!(median_gte(Some(1000), 1000));
    assert!(median_gte(Some(1001), 1000));
    assert!(!median_gte(Some(999), 1000));
    assert!(!median_gte(None, 0));
    assert!(median_gte(Some(0), 0));
    assert!(median_gte(Some(u64::MAX), u64::MAX));
}

#[test]
fn resolve_failure_is_told_by_its_name() {
    assert!(is_resolve_failure("TransactionFailedToResolve"));
    assert!(is_resolve_failure("error -301: TransactionFailedToResolve: Unknown(..)"));
    assert!(!is_resolve_failure("TransactionFailedToVerify"));
    assert!(!is_resolve_failure("transactionfailedtoresolve"));
    assert!(!is_resolve_failure(""));
}

#[test]
fn find_consumer_names_the_first_spender() {
    let block = L1Block {
        number: 5,
        transactions: vec![
            tx(1, vec![op(9, 0)]),
            tx(2, vec![op(8, 0), op(7, 1)]),
            tx(3, vec![op(7, 1)]),
        ],
    };
    assert_eq!(find_consumer(&block, &op(7, 1)), Some(h(2)));
    assert_eq!(find_consumer(&block, &op(9, 0)), Some(h(1)));
    assert_eq!(find_consumer(&block, &op(7, 0)), None);
    assert_eq!(find_consumer(&L1Block { number: 5, transactions: vec![] }, &op(7, 1)), None);
    assert!(tx_spends(&block.transactions[1], &op(7, 1)));
    assert!(!tx_spends(&block.transactions[0], &op(7, 1)));
}

#[test]
fn cell_search_ends_with_the_spender() {
    let cell = op(7, 1);
    let (mut check, step) = CellCheck::start(cell, Some(Some(40)));
    assert_eq!(step, CellStep::FetchBlock(40));
    let quiet = L1Block { number: 40, transactions: vec![tx(1, vec![op(9, 0)])] };
    assert_eq!(check.block_fetched(Some(Some(&quiet))), CellStep::FetchBlock(41));
    assert_eq!(check.searched, 1);
    let busy = L1Block { number: 41, transactions: vec![tx(2, vec![cell])] };
    assert_eq!(
        check.block_fetched(Some(Some(&busy))),
        CellStep::Found(CellFinding::ConsumedBy(h(2)))
    );
}

#[test]
fn cell_search_edges() {
    let cell = op(7, 1);
    assert_eq!(CellCheck::start(cell, None).1, CellStep::Found(CellFinding::Rpc));
    assert_eq!(
        CellCheck::start(cell, Some(None)).1,
        CellStep::Found(CellFinding::NotCommitted)
    );
    // The chain ends: nothing spent the cell.
    let (mut check, _) = CellCheck::start(cell, Some(Some(40)));
    assert_eq!(check.block_fetched(Some(None)), CellStep::Clear);
    // Layer 1 cannot be asked.
    assert_eq!(check.block_fetched(None), CellStep::Found(CellFinding::Rpc));
    // The last block there can be.
    let last = L1Block { number: u64::MAX, transactions: vec![] };
    assert_eq!(check.block_fetched(Some(Some(&last))), CellStep::Clear);
}

#[test]
fn cell_search_gives_up_after_a_hundred_blocks() {
    assert_eq!(MAX_SEARCH_BLOCKS, 100);
    let cell = op(7, 1);
    let (mut check, mut step) = CellCheck::start(cell, Some(Some(1000)));
    let mut fetched = 0u64;
    loop {
        match step {
            CellStep::FetchBlock(n) => {
                assert_eq!(n, 1000 + fetched);
                fetched += 1;
                let b = L1Block { number: n, transactions: vec![tx(1, vec![op(9, 0)])] };
                step = check.block_fetched(Some(Some(&b)));
            }
            other => {
                assert_eq!(other, CellStep::Found(CellFinding::NotFound));
                break;
            }
        }
    }
    assert_eq!(fetched, 101);
    assert_eq!(check.searched, 100);
    // A spender in the hundred-and-first block is not looked at.
    let spender = L1Block { number: 1100, transactions: vec![tx(2, vec![cell])] };
    assert_eq!(
        check.block_fetched(Some(Some(&spender))),
        CellStep::Found(CellFinding::NotFound)
    );
}

#[test]
fn input_check_looks_at_every_input() {
    let t = tx(5, vec![op(1, 0), op(2, 0), op(3, 0), op(4, 0)]);
    let (mut check, step) = TxInputCheck::start(&t);
    assert_eq!(step, InputStep::QueryCell(op(1, 0)));
    assert_eq!(check.step(&t), step);
    // Not live: searched for, and found consumed.
    assert_eq!(
        check.cell_status(&t, Some(Some(CellStatus::Dead))),
        InputStep::CheckCell(op(1, 0))
    );
    assert_eq!(check.index, 0);
    assert_eq!(
        check.cell_checked(&t, Some(CellFinding::ConsumedBy(h(8)))),
        InputStep::QueryCell(op(2, 0))
    );
    assert_eq!(check.index, 1);
    // Live: passed over, no search.
    assert_eq!(
        check.cell_status(&t, Some(Some(CellStatus::Live))),
        InputStep::QueryCell(op(3, 0))
    );
    // Unknown to layer 1: searched for, in the clear.
    assert_eq!(check.cell_status(&t, Some(None)), InputStep::CheckCell(op(3, 0)));
    assert_eq!(check.cell_checked(&t, None), InputStep::QueryCell(op(4, 0)));
    // The last one: searched for and not found. The check ends with all
    // findings.
    assert_eq!(
        check.cell_status(&t, Some(Some(CellStatus::Unknown))),
        InputStep::CheckCell(op(4, 0))
    );
    assert_eq!(
        check.cell_checked(&t, Some(CellFinding::NotFound)),
        InputStep::Failed
    );
    assert_eq!(check.index, 4);
    assert_eq!(
        check.findings,
        vec![
            (op(1, 0), CellFinding::ConsumedBy(h(8))),
            (op(4, 0), CellFinding::NotFound)
        ]
    );
    assert_eq!(check.step(&t), InputStep::Failed);
    assert_eq!(check.cell_checked(&t, None), InputStep::Failed);
    assert_eq!(check.findings.len(), 2);
}

#[test]
fn input_check_is_clear_without_findings() {
    let t = tx(5, vec![op(1, 0), op(2, 0)]);
    let (mut check, _) = TxInputCheck::start(&t);
    assert_eq!(
        check.cell_status(&t, Some(Some(CellStatus::Dead))),
        InputStep::CheckCell(op(1, 0))
    );
    assert_eq!(check.cell_checked(&t, None), InputStep::QueryCell(op(2, 0)));
    assert_eq!(
        check.cell_status(&t, Some(Some(CellStatus::Live))),
        InputStep::AllClear
    );
    assert!(check.findings.is_empty());
    assert_eq!(TxInputCheck::start(&tx(5, vec![])).1, InputStep::AllClear);

    // A status that could not be had is noted, and the check goes on.
    let (mut check, _) = TxInputCheck::start(&t);
    assert_eq!(check.cell_status(&t, None), InputStep::QueryCell(op(2, 0)));
    assert_eq!(
        check.cell_status(&t, Some(Some(CellStatus::Live))),
        InputStep::Failed
    );
    assert_eq!(check.findings, vec![(op(1, 0), CellFinding::Rpc)]);
    assert!(needs_check(None));
    assert!(needs_check(Some(CellStatus::Dead)));
    assert!(needs_check(Some(CellStatus::Unknown)));
    assert!(!needs_check(Some(CellStatus::Live)));
}

fn extra(b: u8) -> WithdrawalExtra {
    WithdrawalExtra { hash: h(b), raw: vec![b] }
}

#[test]
fn withdrawal_records_are_checked_in_order() {
    let hashes = vec![h(1), h(2), h(3)];
    assert_eq!(
        check_withdrawal_extras(&hashes, &vec![Some(extra(1)), Some(extra(2)), Some(extra(3))]),
        Ok(vec![extra(1), extra(2), extra(3)])
    );
    assert_eq!(
        check_withdrawal_extras(&hashes, &vec![Some(extra(1)), None, Some(extra(9))]),
        Err(SubmitError::MissingWithdrawal(1))
    );
    assert_eq!(
        check_withdrawal_extras(&hashes, &vec![Some(extra(1)), Some(extra(9)), None]),
        Err(SubmitError::WithdrawalHashMismatch(1))
    );
    assert_eq!(
        check_withdrawal_extras(&hashes, &vec![Some(extra(1)), Some(extra(2))]),
        Err(SubmitError::MissingWithdrawal(2))
    );
    assert_eq!(check_withdrawal_extras(&vec![], &vec![None]), Ok(vec![]));
}

fn ready_context() -> PSCContext {
    let mut store = ProgressStore::new(NumberHash::new(11, h(11)));
    store.set_last_submitted(NumberHash::new(10, h(10)));
    store.set_last_confirmed(NumberHash::new(10, h(10)));
    store.set_block_deposit_info_vec(
        11,
        vec![DepositInfo { out_point: op(1, 0), request: vec![1], asset_script: Some(vec![2]) }],
    );
    PSCContext::new(store, LocalCellsManager::new())
}

fn full_snapshot() -> BlockSnapshot {
    BlockSnapshot {
        block: Some(L2Block { timestamp: 5000, withdrawal_hashes: vec![h(1)], raw: vec![7] }),
        withdrawal_extras: vec![Some(extra(1))],
        global_state: Some(vec![8]),
    }
}

#[test]
fn submit_check_names_the_first_missing_record() {
    let mut ctx = ready_context();
    assert_eq!(SubmitTask::check(&ctx, &full_snapshot()), None);
    assert!(SubmitTask::begin(&mut ctx, full_snapshot()).is_ok());

    // What may be there later: trying again can help.
    let mut snap = full_snapshot();
    snap.block = None;
    assert_eq!(SubmitTask::check(&ctx, &snap), Some(SubmitError::MissingBlock));
    assert_eq!(SubmitTask::begin(&mut ctx, snap).err(), Some(SubmitError::MissingBlock));

    let mut snap = full_snapshot();
    snap.block.as_mut().unwrap().timestamp = MAX_TIMESTAMP_MILLIS + 1;
    assert_eq!(
        SubmitTask::begin(&mut ctx, snap).err(),
        Some(SubmitError::TimestampOutOfRange)
    );
    let mut snap = full_snapshot();
    snap.block.as_mut().unwrap().timestamp = MAX_TIMESTAMP_MILLIS;
    assert!(SubmitTask::begin(&mut ctx, snap).is_ok());

    let mut snap = full_snapshot();
    snap.global_state = None;
    assert_eq!(SubmitTask::check(&ctx, &snap), Some(SubmitError::MissingGlobalState));
    assert_eq!(
        SubmitTask::begin(&mut ctx, snap).err(),
        Some(SubmitError::MissingGlobalState)
    );

    // A damaged store: the task is not begun on it.
    let mut snap = full_snapshot();
    snap.withdrawal_extras = vec![];
    snap.global_state = None;
    assert_eq!(
        SubmitTask::check(&ctx, &snap),
        Some(SubmitError::MissingWithdrawal(0))
    );
    let mut snap = full_snapshot();
    snap.withdrawal_extras = vec![Some(extra(2))];
    assert_eq!(
        SubmitTask::check(&ctx, &snap),
        Some(SubmitError::WithdrawalHashMismatch(0))
    );
    let mut store = ProgressStore::new(NumberHash::new(11, h(11)));
    store.set_last_submitted(NumberHash::new(10, h(10)));
    store.set_last_confirmed(NumberHash::new(10, h(10)));
    let mut bare = PSCContext::new(store, LocalCellsManager::new());
    let mut snap = full_snapshot();
    snap.global_state = None;
    assert_eq!(
        SubmitTask::check(&bare, &snap),
        Some(SubmitError::MissingDepositInfo)
    );
    for fatal in [
        SubmitError::MissingWithdrawal(0),
        SubmitError::WithdrawalHashMismatch(0),
        SubmitError::MissingDepositInfo,
    ] {
        assert!(fatal.is_fatal());
    }

    // With the transaction stored, the composer's records are not needed.
    bare.store.set_submit_tx(11, tx(9, vec![op(1, 0)]));
    let mut snap = full_snapshot();
    snap.withdrawal_extras = vec![];
    snap.global_state = None;
    assert_eq!(SubmitTask::check(&bare, &snap), None);
    assert!(SubmitTask::begin(&mut bare, snap).is_ok());
    assert!(bare.local_cells_manager.is_in_flight(&op(1, 0)));

    // No next block.
    let mut store = ProgressStore::new(NumberHash::new(10, h(10)));
    store.set_last_submitted(NumberHash::new(10, h(10)));
    store.set_last_confirmed(NumberHash::new(10, h(10)));
    let mut idle = PSCContext::new(store, LocalCellsManager::new());
    assert_eq!(
        SubmitTask::begin(&mut idle, full_snapshot()).err(),
        Some(SubmitError::MissingBlockHash)
    );
    let mut store = ProgressStore::new(NumberHash::new(u64::MAX, h(10)));
    store.set_last_submitted(NumberHash::new(u64::MAX, h(10)));
    store.set_last_confirmed(NumberHash::new(u64::MAX, h(10)));
    let mut top = PSCContext::new(store, LocalCellsManager::new());
    assert_eq!(
        SubmitTask::begin(&mut top, full_snapshot()).err(),
        Some(SubmitError::NoNextBlock)
    );
}

#[test]
fn produce_local_block_wants_the_next_block() {
    let mut ctx = ready_context();
    let wrong = ProducedBlock {
        number: 13,
        block_hash: h(13),
        deposit_cells: vec![],
        remaining_capacity: vec![],
    };
    assert_eq!(produce_local_block(&mut ctx, wrong), Err(PscError::NotNextBlock));
    assert_eq!(ctx.store.get_last_valid(), NumberHash::new(11, h(11)));
    let deposits = vec![
        DepositInfo { out_point: op(4, 0), request: vec![1], asset_script: None },
        DepositInfo { out_point: op(4, 1), request: vec![], asset_script: Some(vec![3, 4]) },
    ];
    let next = ProducedBlock {
        number: 12,
        block_hash: h(12),
        deposit_cells: deposits.clone(),
        remaining_capacity: vec![5, 6],
    };
    assert_eq!(produce_local_block(&mut ctx, next), Ok(h(12)));
    assert_eq!(ctx.store.get_last_valid(), NumberHash::new(12, h(12)));
    assert_eq!(ctx.store.get_block_hash_by_number(12), Some(h(12)));
    assert_eq!(ctx.store.get_block_hash_by_number(13), None);
    assert_eq!(ctx.store.get_block_deposit_info_vec(12), Some(&deposits));
    assert_eq!(copy_deposits(&deposits), deposits);
    assert_eq!(
        ctx.store.get_block_post_finalized_custodian_capacity(12),
        Some(vec![5, 6])
    );
    assert_eq!(ctx.store.get_block_post_finalized_custodian_capacity(11), None);
    assert!(ctx.local_cells_manager.is_locked(&op(4, 0)));
    assert!(ctx.local_cells_manager.is_locked(&op(4, 1)));
}
