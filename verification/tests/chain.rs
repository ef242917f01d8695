use ckb_types::bytes::Bytes;
use ckb_types::packed::WitnessArgs;
use ckb_types::prelude::{Builder, Entity, Pack};
use gw_psc::chain::{
    decode_output_type, find_rollup_cell, l2block_from, parse_l2block, Chain, HeaderInfo,
    ParseError, Signer, SyncError,
};
use gw_psc::confirm::ConfirmError;
use gw_psc::diagnose::CellFinding;
use gw_psc::psc::{deposit_asset_scripts, deposit_requests, InitError, PscError};
use gw_psc::submit::SubmitError;
use gw_psc::text::hex_string;
use gw_psc::types::{DepositInfo, OutPoint};

fn h(b: u8) -> [u8; 32] {
    [b; 32]
}

#[test]
fn chain_moves_on_with_the_next_block() {
    let mut chain = Chain::new(
        h(9),
        7,
        HeaderInfo { number: 100, block_hash: h(1) },
        Some(Signer::new(5)),
    );
    let start = chain;
    let header = HeaderInfo { number: 105, block_hash: h(2) };
    assert_eq!(
        chain.sync(HeaderInfo { number: 100, block_hash: h(2) }, 8),
        Err(SyncError::NotAboveLastSynced)
    );
    assert_eq!(
        chain.sync(HeaderInfo { number: 99, block_hash: h(2) }, 9),
        Err(SyncError::NotAboveLastSynced)
    );
    assert_eq!(chain.sync(header, 9), Err(SyncError::NotSuccessorOfTip));
    assert_eq!(chain.sync(header, 7), Err(SyncError::NotSuccessorOfTip));
    assert_eq!(chain, start);
    assert_eq!(chain.next_block_number(), Some(8));
    assert!(chain.is_above_last_synced(&header));
    assert!(!chain.is_above_last_synced(&HeaderInfo { number: 100, block_hash: h(2) }));
    assert!(!chain.is_above_last_synced(&HeaderInfo { number: 99, block_hash: h(2) }));
    assert_eq!(chain.sync(header, 8), Ok(()));
    assert_eq!(chain.last_synced, header);
    assert_eq!(chain.tip_number, 8);
    assert_eq!(chain.rollup_id, h(9));
    assert_eq!(chain.signer.map(|s| s.account_id()), Some(5));
    let mut top = Chain::new(h(9), u64::MAX, header, None);
    assert_eq!(
        top.sync(HeaderInfo { number: 106, block_hash: h(3) }, 0),
        Err(SyncError::NotSuccessorOfTip)
    );
    assert_eq!(top.next_block_number(), None);
    assert_eq!(
        SyncError::NotAboveLastSynced.message(),
        "must greater than last synced number"
    );
    assert_eq!(
        SyncError::NotSuccessorOfTip.message(),
        "new l2block number must be the successor of the tip"
    );
    let witness = witness_with_output_type(Some(vec![3, 3]));
    assert_eq!(
        chain.parse_l2block(&vec![Some(h(9))], &vec![witness.clone()]),
        Ok(vec![3, 3])
    );
    assert_eq!(
        chain.parse_l2block(&vec![Some(h(8))], &vec![witness]),
        Err(ParseError::NoRollupCell)
    );
}

#[test]
fn rollup_cell_is_the_first_output_with_the_rollup_type() {
    let hashes = vec![None, Some(h(2)), Some(h(1)), Some(h(1))];
    assert_eq!(find_rollup_cell(&hashes, &h(1)), Some(2));
    assert_eq!(find_rollup_cell(&hashes, &h(2)), Some(1));
    assert_eq!(find_rollup_cell(&hashes, &h(3)), None);
    assert_eq!(find_rollup_cell(&vec![], &h(1)), None);
}

#[test]
fn deposit_cells_give_requests_and_asset_scripts() {
    let deposits = vec![
        DepositInfo { out_point: OutPoint::new(h(1), 0), request: vec![1], asset_script: None },
        DepositInfo {
            out_point: OutPoint::new(h(1), 1),
            request: vec![2, 2],
            asset_script: Some(vec![9]),
        },
        DepositInfo {
            out_point: OutPoint::new(h(1), 2),
            request: vec![],
            asset_script: Some(vec![8, 8]),
        },
    ];
    assert_eq!(deposit_requests(&deposits), vec![vec![1], vec![2, 2], vec![]]);
    assert_eq!(deposit_asset_scripts(&deposits), vec![vec![9], vec![8, 8]]);
    assert_eq!(deposit_requests(&vec![]), Vec::<Vec<u8>>::new());
    assert_eq!(deposit_asset_scripts(&deposits[..1].to_vec()), Vec::<Vec<u8>>::new());
}

#[test]
fn errors_say_what_went_wrong() {
    assert_eq!(
        InitError::PointersOutOfOrder.message(),
        "last confirmed, last submitted and last valid block are out of order"
    );
    assert_eq!(InitError::MissingSubmitTx(12).message(), "submit tx of block 12 is missing");
    assert_eq!(
        InitError::MissingDepositInfo(7).message(),
        "deposit info of block 7 is missing"
    );
    assert_eq!(PscError::SubmitTaskPanic.message(), "submit task panic");
    assert_eq!(PscError::SyncTaskPanic.message(), "sync task panic");
    assert_eq!(PscError::LocalWindowFull.message(), "too many local blocks");
    assert_eq!(PscError::NotNextBlock.message(), "produced block is not the next block");
    assert_eq!(PscError::UnexpectedSubmitted.message(), "unexpected submitted block");
    assert_eq!(PscError::UnexpectedConfirmed.message(), "unexpected confirmed block");
    assert!(PscError::SubmitTaskPanic.is_fatal() && PscError::SyncTaskPanic.is_fatal());
    assert!(!PscError::NotNextBlock.is_fatal() && !PscError::LocalWindowFull.is_fatal());
    assert_eq!(SubmitError::MissingBlockHash.message(), "failed to get next block hash");
    assert_eq!(SubmitError::MissingBlock.message(), "get_block");
    assert_eq!(SubmitError::MissingWithdrawal(3).message(), "get withdrawal 3");
    assert_eq!(
        SubmitError::WithdrawalHashMismatch(0).message(),
        "withdrawal hash mismatch 0"
    );
    assert_eq!(SubmitError::MissingDepositInfo.message(), "failed to get deposit info vec");
    assert_eq!(
        SubmitError::MissingGlobalState.message(),
        "failed to get block global_state"
    );
    assert_eq!(SubmitError::TimestampOutOfRange.message(), "block timestamp out of range");
    assert_eq!(
        SubmitError::NoNextBlock.message(),
        "no block after the last submitted block"
    );
    assert_eq!(ConfirmError::MissingTxBlockNumber.message(), "get tx block hash");
    assert_eq!(ConfirmError::MissingSubmitTx.message(), "get submit tx");
    assert_eq!(ConfirmError::MissingBlockHash.message(), "block hash");
    assert_eq!(ConfirmError::Rpc.message(), "rpc error");
    assert_eq!(
        ConfirmError::NoNextBlock.message(),
        "no block after the last confirmed block"
    );
    assert!(ConfirmError::MissingSubmitTx.is_fatal() && ConfirmError::MissingBlockHash.is_fatal());
    assert!(!ConfirmError::Rpc.is_fatal());
    assert_eq!(CellFinding::NotCommitted.message(), "transaction not committed");
    assert_eq!(
        CellFinding::NotFound.message(),
        "didn't find consuming tx in 100 blocks"
    );
    assert_eq!(CellFinding::Rpc.message(), "rpc error");
    assert_eq!(
        CellFinding::ConsumedBy(h(0x1f)).message(),
        format!("consumed by tx 0x{}", "1f".repeat(32))
    );
    assert_eq!(hex_string(&[0x00, 0x9a, 0xff]), "0x009aff");
    assert_eq!(hex_string(&[]), "0x");
}

#[test]
fn damaged_store_errors_are_fatal() {
    assert!(SubmitError::MissingWithdrawal(0).is_fatal());
    assert!(SubmitError::WithdrawalHashMismatch(2).is_fatal());
    assert!(SubmitError::MissingDepositInfo.is_fatal());
    assert!(SubmitError::NotStarted.is_fatal());
    assert!(ConfirmError::NotStarted.is_fatal());
    assert!(!ConfirmError::OutOfTurn.is_fatal() && !ConfirmError::NoNextBlock.is_fatal());
    assert!(!ConfirmError::MissingTxBlockNumber.is_fatal());
    for e in [
        SubmitError::NoNextBlock,
        SubmitError::MissingBlockHash,
        SubmitError::MissingBlock,
        SubmitError::TimestampOutOfRange,
        SubmitError::MissingGlobalState,
    ] {
        assert!(!e.is_fatal());
    }
}

fn witness_with_output_type(output_type: Option<Vec<u8>>) -> Vec<u8> {
    WitnessArgs::new_builder()
        .lock(Some(Bytes::from(vec![7u8; 65])).pack())
        .output_type(output_type.map(Bytes::from).pack())
        .build()
        .as_slice()
        .to_vec()
}

#[test]
fn witness_output_type_is_decoded() {
    let block = vec![0xde, 0xad, 0xbe, 0xef, 0x01];
    let witness = witness_with_output_type(Some(block.clone()));
    assert_ne!(witness, block);
    assert_eq!(decode_output_type(&witness), Some(Some(block.clone())));
    assert_eq!(decode_output_type(&witness_with_output_type(None)), Some(None));
    assert_eq!(
        decode_output_type(&witness_with_output_type(Some(vec![]))),
        Some(Some(vec![]))
    );
    // By hand: three empty fields, then an output type of three bytes.
    assert_eq!(
        decode_output_type(&vec![16, 0, 0, 0, 16, 0, 0, 0, 16, 0, 0, 0, 16, 0, 0, 0]),
        Some(None)
    );
    assert_eq!(
        decode_output_type(&vec![
            23, 0, 0, 0, 16, 0, 0, 0, 16, 0, 0, 0, 16, 0, 0, 0, 3, 0, 0, 0, 1, 2, 3
        ]),
        Some(Some(vec![1, 2, 3]))
    );
    // Ill formed: empty, a wrong total size, a truncated field, a fourth field.
    assert_eq!(decode_output_type(&vec![]), None);
    assert_eq!(
        decode_output_type(&vec![17, 0, 0, 0, 16, 0, 0, 0, 16, 0, 0, 0, 16, 0, 0, 0]),
        None
    );
    assert_eq!(
        decode_output_type(&vec![
            22, 0, 0, 0, 16, 0, 0, 0, 16, 0, 0, 0, 16, 0, 0, 0, 3, 0, 0, 0, 1, 2
        ]),
        None
    );
    assert_eq!(
        decode_output_type(&vec![
            20, 0, 0, 0, 20, 0, 0, 0, 20, 0, 0, 0, 20, 0, 0, 0, 20, 0, 0, 0
        ]),
        None
    );
    assert_eq!(decode_output_type(&block), None);
}

#[test]
fn parse_l2block_reads_the_witness_of_the_rollup_cell() {
    let block = vec![9u8, 8, 7];
    let hashes = vec![None, Some(h(2)), Some(h(1))];
    let witnesses = vec![
        witness_with_output_type(Some(vec![1])),
        witness_with_output_type(None),
        witness_with_output_type(Some(block.clone())),
    ];
    assert_eq!(parse_l2block(&hashes, &witnesses, &h(1)), Ok(block));
    assert_eq!(
        parse_l2block(&hashes, &witnesses, &h(2)),
        Err(ParseError::NoOutputType)
    );
    assert_eq!(
        parse_l2block(&hashes, &witnesses, &h(3)),
        Err(ParseError::NoRollupCell)
    );
    assert_eq!(
        parse_l2block(&hashes, &witnesses[..2].to_vec(), &h(1)),
        Err(ParseError::NoWitness)
    );
    let mut broken = witnesses.clone();
    broken[2] = vec![1, 2, 3];
    assert_eq!(
        parse_l2block(&hashes, &broken, &h(1)),
        Err(ParseError::InvalidWitness)
    );
    assert_eq!(l2block_from(None), Err(ParseError::InvalidWitness));
    assert_eq!(l2block_from(Some(None)), Err(ParseError::NoOutputType));
    assert_eq!(l2block_from(Some(Some(vec![4]))), Ok(vec![4]));
    assert_eq!(ParseError::NoRollupCell.message(), "no rollup cell found");
    assert_eq!(ParseError::NoWitness.message(), "no witness");
    assert_eq!(ParseError::InvalidWitness.message(), "invalid witness");
    assert_eq!(ParseError::NoOutputType.message(), "output_type field is none");
}
