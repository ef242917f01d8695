//! What became of the inputs of a transaction that layer 1 could not
//! resolve. For each input that is not live, the layer-1 blocks from the one
//! that made the cell onwards are searched, up to a hundred of them, for the
//! transaction that spent it. The findings are for the log: they change
//! nothing in the pipeline.

use vstd::prelude::*;
use vstd::string::*;
use crate::text::{hex_lower, hex_string};
use crate::types::{OutPoint, Transaction};

verus! {

/// How many layer-1 blocks are searched for the spender of a cell.
pub const MAX_SEARCH_BLOCKS: u32 = 100;

/// What layer 1 says of a cell.
#[derive(Clone, Copy, Debug, PartialEq, Eq)]
pub enum CellStatus {
    Live,
    Dead,
    Unknown,
}

/// A layer-1 block as far as the search reads it.
#[derive(Debug)]
pub struct L1Block {
    pub number: u64,
    pub transactions: Vec<Transaction>,
}

/// What the search for the spender of a cell found.
#[derive(Clone, Copy, Debug, PartialEq, Eq)]
pub enum CellFinding {
    /// The transaction that made the cell is not on layer 1.
    NotCommitted,
    /// The transaction with this hash spent the cell.
    ConsumedBy([u8; 32]),
    /// A hundred blocks were searched and none spent the cell.
    NotFound,
    /// Layer 1 could not be asked.
    Rpc,
}

impl CellFinding {
    /// The finding, in words.
    pub open spec fn message_spec(self) -> Seq<char> {
        match self {
            CellFinding::NotCommitted => "transaction not committed"@,
            CellFinding::ConsumedBy(hash) => "consumed by tx "@ + ("0x"@ + hex_lower(hash@)),
            CellFinding::NotFound => "didn't find consuming tx in 100 blocks"@,
            CellFinding::Rpc => "rpc error"@,
        }
    }

    /// The finding, in words.
    pub fn message(&self) -> (r: String)
        ensures
            r@ == self.message_spec(),
    {
        match self {
            CellFinding::NotCommitted => String::from_str("transaction not committed"),
            CellFinding::ConsumedBy(hash) => {
                let mut r = String::from_str("consumed by tx ");
                r.append(hex_string(hash.as_slice()).as_str());
                r
            },
            CellFinding::NotFound => String::from_str("didn't find consuming tx in 100 blocks"),
            CellFinding::Rpc => String::from_str("rpc error"),
        }
    }
}

/// True if the transaction spends the cell.
pub open spec fn spends(tx: Transaction, out_point: OutPoint) -> bool {
    tx.inputs@.contains(out_point)
}

/// True if `i` is the place of the first transaction of `txs` that spends
/// the cell.
pub open spec fn is_first_spender(txs: Seq<Transaction>, out_point: OutPoint, i: int) -> bool {
    &&& 0 <= i < txs.len()
    &&& spends(txs[i], out_point)
    &&& forall|j: int| 0 <= j < i ==> !spends(#[trigger] txs[j], out_point)
}

/// True if no transaction of `txs` spends the cell.
pub open spec fn unspent_in(txs: Seq<Transaction>, out_point: OutPoint) -> bool {
    forall|j: int| 0 <= j < txs.len() ==> !spends(#[trigger] txs[j], out_point)
}

/// True if the transaction spends the cell.
pub fn tx_spends(tx: &Transaction, out_point: &OutPoint) -> (r: bool)
    ensures
        r == spends(*tx, *out_point),
{
    let mut i: usize = 0;
    while i < tx.inputs.len()
        invariant
            i <= tx.inputs@.len(),
            forall|j: int| 0 <= j < i ==> tx.inputs@[j] != *out_point,
        decreases tx.inputs@.len() - i,
    {
        if tx.inputs[i].same(out_point) {
            return true;
        }
        i = i + 1;
    }
    false
}

/// The hash of the first transaction of the block that spends the cell.
pub fn find_consumer(block: &L1Block, out_point: &OutPoint) -> (r: Option<[u8; 32]>)
    ensures
        match r {
            Some(hash) => exists|i: int|
                is_first_spender(block.transactions@, *out_point, i) && hash
                    == block.transactions@[i]@.hash,
            None => unspent_in(block.transactions@, *out_point),
        },
{
    let mut i: usize = 0;
    while i < block.transactions.len()
        invariant
            i <= block.transactions@.len(),
            forall|j: int| 0 <= j < i ==> !spends(#[trigger] block.transactions@[j], *out_point),
        decreases block.transactions@.len() - i,
    {
        if tx_spends(&block.transactions[i], out_point) {
            assert(is_first_spender(block.transactions@, *out_point, i as int));
            return Some(block.transactions[i].hash);
        }
        i = i + 1;
    }
    None
}

/// What the caller of a cell search does next.
#[derive(Clone, Copy, Debug, PartialEq, Eq)]
pub enum CellStep {
    /// Fetch the layer-1 block with this number and hand it to
    /// `block_fetched`.
    FetchBlock(u64),
    /// The search is over: nothing is wrong as far as it can tell.
    Clear,
    /// The search is over with a finding.
    Found(CellFinding),
}

/// The search for the spender of one cell.
#[derive(Clone, Copy, Debug, PartialEq, Eq)]
pub struct CellCheck {
    pub out_point: OutPoint,
    /// How many blocks were searched.
    pub searched: u32,
}

impl CellCheck {
    /// Starts the search. `tx_block_number` is the number of the layer-1
    /// block that holds the transaction which made the cell: `None` where
    /// layer 1 could not be asked, else what it said.
    pub fn start(out_point: OutPoint, tx_block_number: Option<Option<u64>>) -> (r: (
        CellCheck,
        CellStep,
    ))
        ensures
            r.0 == (CellCheck { out_point, searched: 0 }),
            r.1 == match tx_block_number {
                None => CellStep::Found(CellFinding::Rpc),
                Some(None) => CellStep::Found(CellFinding::NotCommitted),
                Some(Some(n)) => CellStep::FetchBlock(n),
            },
    {
        let check = CellCheck { out_point, searched: 0 };
        let step = match tx_block_number {
            None => CellStep::Found(CellFinding::Rpc),
            Some(None) => CellStep::Found(CellFinding::NotCommitted),
            Some(Some(n)) => CellStep::FetchBlock(n),
        };
        (check, step)
    }

    /// Takes a fetched block: `None` where layer 1 could not be asked, else
    /// what it said, which is `None` where layer 1 has no such block. After a
    /// hundred searched blocks the search gives up, whatever was fetched. A
    /// missing block ends the search in the clear. A block that spends the
    /// cell ends it with the spender. Any other block is counted and the
    /// next one is asked for.
    pub fn block_fetched(&mut self, block: Option<Option<&L1Block>>) -> (r: CellStep)
        ensures
            final(self).out_point == old(self).out_point,
            old(self).searched <= MAX_SEARCH_BLOCKS ==> final(self).searched <= MAX_SEARCH_BLOCKS,
            r == block_fetched_spec(*old(self), block).1,
            *final(self) == block_fetched_spec(*old(self), block).0,
    {
        match block {
            None => CellStep::Found(CellFinding::Rpc),
            Some(found) => {
                if self.searched >= MAX_SEARCH_BLOCKS {
                    return CellStep::Found(CellFinding::NotFound);
                }
                match found {
                    None => CellStep::Clear,
                    Some(b) => {
                        match find_consumer(b, &self.out_point) {
                            Some(hash) => {
                                proof {
                                    lemma_spender_unique(b.transactions@, self.out_point);
                                }
                                CellStep::Found(CellFinding::ConsumedBy(hash))
                            },
                            None => {
                                assert(!exists|i: int|
                                    is_first_spender(b.transactions@, self.out_point, i));
                                if b.number == u64::MAX {
                                    CellStep::Clear
                                } else {
                                    self.searched = self.searched + 1;
                                    CellStep::FetchBlock(b.number + 1)
                                }
                            },
                        }
                    },
                }
            },
        }
    }
}

/// The hash of the first transaction of `txs` that spends the cell.
pub open spec fn first_spender_hash(txs: Seq<Transaction>, out_point: OutPoint) -> [u8; 32] {
    txs[choose|i: int| is_first_spender(txs, out_point, i)]@.hash
}

/// The search after a fetched block, and what the caller does next.
pub open spec fn block_fetched_spec(check: CellCheck, block: Option<Option<&L1Block>>) -> (
    CellCheck,
    CellStep,
) {
    match block {
        None => (check, CellStep::Found(CellFinding::Rpc)),
        Some(found) => if check.searched >= MAX_SEARCH_BLOCKS {
            (check, CellStep::Found(CellFinding::NotFound))
        } else {
            match found {
                None => (check, CellStep::Clear),
                Some(b) => if exists|i: int| is_first_spender(b.transactions@, check.out_point, i) {
                    (
                        check,
                        CellStep::Found(
                            CellFinding::ConsumedBy(
                                first_spender_hash(b.transactions@, check.out_point),
                            ),
                        ),
                    )
                } else if b.number == u64::MAX {
                    (check, CellStep::Clear)
                } else {
                    (
                        CellCheck { searched: (check.searched + 1) as u32, ..check },
                        CellStep::FetchBlock((b.number + 1) as u64),
                    )
                },
            }
        },
    }
}

/// A block has at most one first spender of a cell.
pub proof fn lemma_spender_unique(txs: Seq<Transaction>, out_point: OutPoint)
    ensures
        forall|i: int, j: int|
            is_first_spender(txs, out_point, i) && is_first_spender(txs, out_point, j) ==> i == j,
{
    assert forall|i: int, j: int|
        is_first_spender(txs, out_point, i) && is_first_spender(txs, out_point, j) implies i
        == j by {
        if i < j {
            assert(!spends(txs[i], out_point));
        }
        if j < i {
            assert(!spends(txs[j], out_point));
        }
    }
}

/// True if a cell of this status is to be searched for: any but a live one.
pub fn needs_check(status: Option<CellStatus>) -> (r: bool)
    ensures
        r == (status != Some(CellStatus::Live)),
{
    match status {
        Some(CellStatus::Live) => false,
        _ => true,
    }
}

/// What the caller of an input check does next.
#[derive(Clone, Copy, Debug, PartialEq, Eq)]
pub enum InputStep {
    /// Ask layer 1 for the status of this cell and hand it to `cell_status`.
    QueryCell(OutPoint),
    /// Search for the spender of this cell and hand the outcome to
    /// `cell_checked`.
    CheckCell(OutPoint),
    /// Every input was looked at and none has a finding.
    AllClear,
    /// Every input was looked at and at least one has a finding: the check
    /// holds them all, in the order of the inputs.
    Failed,
}

/// The check of the inputs of one transaction, in order. Every input that is
/// not live is searched for, whatever was found of the inputs before it.
#[derive(Debug)]
pub struct TxInputCheck {
    /// The place of the input that is looked at.
    pub index: usize,
    /// What was found so far: each input with a finding, in order.
    pub findings: Vec<(OutPoint, CellFinding)>,
}

/// What the check answers when the input at `index` is next and `findings`
/// were made so far: the query for that input, or, where no input is left,
/// whether anything was found.
pub open spec fn step_at(
    tx: Transaction,
    index: int,
    findings: Seq<(OutPoint, CellFinding)>,
) -> InputStep {
    if 0 <= index < tx.inputs@.len() {
        InputStep::QueryCell(tx.inputs@[index])
    } else if findings.len() == 0 {
        InputStep::AllClear
    } else {
        InputStep::Failed
    }
}

/// The check after the status of the input at `index` came in, and what it
/// answers: a live input is passed over; an input whose status could not be
/// had is noted with that and passed over; any other input is to be searched
/// for.
pub open spec fn cell_status_spec(
    tx: Transaction,
    index: int,
    findings: Seq<(OutPoint, CellFinding)>,
    status: Option<Option<CellStatus>>,
) -> (int, Seq<(OutPoint, CellFinding)>, InputStep) {
    if !(0 <= index < tx.inputs@.len()) {
        (index, findings, step_at(tx, index, findings))
    } else {
        match status {
            None => {
                let noted = findings.push((tx.inputs@[index], CellFinding::Rpc));
                (index + 1, noted, step_at(tx, index + 1, noted))
            },
            Some(s) => if s == Some(CellStatus::Live) {
                (index + 1, findings, step_at(tx, index + 1, findings))
            } else {
                (index, findings, InputStep::CheckCell(tx.inputs@[index]))
            },
        }
    }
}

/// The check after the search for the input at `index` ended, and what it
/// answers: a finding is noted; either way the next input is looked at.
pub open spec fn cell_checked_spec(
    tx: Transaction,
    index: int,
    findings: Seq<(OutPoint, CellFinding)>,
    finding: Option<CellFinding>,
) -> (int, Seq<(OutPoint, CellFinding)>, InputStep) {
    if !(0 <= index < tx.inputs@.len()) {
        (index, findings, step_at(tx, index, findings))
    } else {
        let noted = match finding {
            Some(f) => findings.push((tx.inputs@[index], f)),
            None => findings,
        };
        (index + 1, noted, step_at(tx, index + 1, noted))
    }
}

impl TxInputCheck {
    /// Starts with the first input and nothing found.
    pub fn start(tx: &Transaction) -> (r: (TxInputCheck, InputStep))
        ensures
            r.0.index == 0,
            r.0.findings@ == Seq::<(OutPoint, CellFinding)>::empty(),
            r.1 == step_at(*tx, 0, r.0.findings@),
    {
        let check = TxInputCheck { index: 0, findings: Vec::new() };
        let step = check.step(tx);
        (check, step)
    }

    /// What the check answers as it stands.
    pub fn step(&self, tx: &Transaction) -> (r: InputStep)
        ensures
            r == step_at(*tx, self.index as int, self.findings@),
    {
        if self.index < tx.inputs.len() {
            InputStep::QueryCell(tx.inputs[self.index])
        } else if self.findings.len() == 0 {
            InputStep::AllClear
        } else {
            InputStep::Failed
        }
    }

    /// Takes the status of the input that is looked at: `None` where layer 1
    /// could not be asked, else what it said, which is `None` where it does
    /// not know the cell. A live input is passed over; an input whose status
    /// could not be had is noted with that and passed over; any other is to
    /// be searched for. Where no input is left to look at, nothing changes.
    pub fn cell_status(&mut self, tx: &Transaction, status: Option<Option<CellStatus>>) -> (r:
        InputStep)
        ensures
            (final(self).index as int, final(self).findings@, r) == cell_status_spec(
                *tx,
                old(self).index as int,
                old(self).findings@,
                status,
            ),
    {
        let n: usize = tx.inputs.len();
        if self.index >= n {
            return self.step(tx);
        }
        match status {
            None => {
                self.findings.push((tx.inputs[self.index], CellFinding::Rpc));
                self.index = self.index + 1;
                self.step(tx)
            },
            Some(s) => {
                if needs_check(s) {
                    InputStep::CheckCell(tx.inputs[self.index])
                } else {
                    self.index = self.index + 1;
                    self.step(tx)
                }
            },
        }
    }

    /// Takes the outcome of the search for the input that is looked at:
    /// `None` where it ended in the clear, else its finding, which is noted.
    /// Either way the next input is looked at: a finding does not end the
    /// check. Where no input is left to look at, nothing changes.
    pub fn cell_checked(&mut self, tx: &Transaction, finding: Option<CellFinding>) -> (r:
        InputStep)
        ensures
            (final(self).index as int, final(self).findings@, r) == cell_checked_spec(
                *tx,
                old(self).index as int,
                old(self).findings@,
                finding,
            ),
    {
        let n: usize = tx.inputs.len();
        if self.index >= n {
            return self.step(tx);
        }
        match finding {
            Some(f) => {
                self.findings.push((tx.inputs[self.index], f));
            },
            None => {},
        }
        self.index = self.index + 1;
        self.step(tx)
    }
}

} // verus!
