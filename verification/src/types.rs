//! Plain values that the pipeline works on: block identities, layer-1
//! out-points and the layer-1 transactions that commit blocks.

use vstd::prelude::*;

verus! {

broadcast use vstd::array::group_array_axioms;

/// True if the two 32-byte hashes are the same.
pub fn hash_eq(a: &[u8; 32], b: &[u8; 32]) -> (r: bool)
    ensures
        r == (*a == *b),
{
    let mut i: usize = 0;
    while i < 32
        invariant
            i <= 32,
            forall|j: int| 0 <= j < i ==> a[j] == b[j],
        decreases 32 - i,
    {
        if a[i] != b[i] {
            return false;
        }
        i = i + 1;
    }
    assert(*a =~= *b);
    true
}

/// A layer-2 block by number and hash.
#[derive(Clone, Copy, Debug, PartialEq, Eq)]
pub struct NumberHash {
    pub number: u64,
    pub block_hash: [u8; 32],
}

impl NumberHash {
    pub fn new(number: u64, block_hash: [u8; 32]) -> (r: NumberHash)
        ensures
            r.number == number,
            r.block_hash == block_hash,
    {
        NumberHash { number, block_hash }
    }

    /// True if both name the same block.
    pub fn same(&self, other: &NumberHash) -> (r: bool)
        ensures
            r == (*self == *other),
    {
        self.number == other.number && hash_eq(&self.block_hash, &other.block_hash)
    }
}

/// A layer-1 cell, named by the transaction that made it and its place among
/// that transaction's outputs.
#[derive(Clone, Copy, Debug, PartialEq, Eq)]
pub struct OutPoint {
    pub tx_hash: [u8; 32],
    pub index: u32,
}

impl OutPoint {
    pub fn new(tx_hash: [u8; 32], index: u32) -> (r: OutPoint)
        ensures
            r.tx_hash == tx_hash,
            r.index == index,
    {
        OutPoint { tx_hash, index }
    }

    /// True if both name the same cell.
    pub fn same(&self, other: &OutPoint) -> (r: bool)
        ensures
            r == (*self == *other),
    {
        self.index == other.index && hash_eq(&self.tx_hash, &other.tx_hash)
    }
}

/// A layer-1 transaction as the pipeline sees it. `raw` is the serialized
/// transaction that is stored and broadcast; the other fields are what the
/// pipeline reads of it.
#[derive(Clone, Debug, PartialEq, Eq)]
pub struct Transaction {
    pub hash: [u8; 32],
    pub inputs: Vec<OutPoint>,
    pub output_count: u32,
    pub raw: Vec<u8>,
}

/// The mathematical value of a [`Transaction`].
pub struct TransactionView {
    pub hash: [u8; 32],
    pub inputs: Seq<OutPoint>,
    pub output_count: u32,
    pub raw: Seq<u8>,
}

impl View for Transaction {
    type V = TransactionView;

    open spec fn view(&self) -> TransactionView {
        TransactionView {
            hash: self.hash,
            inputs: self.inputs@,
            output_count: self.output_count,
            raw: self.raw@,
        }
    }
}

impl TransactionView {
    /// The cells that the transaction creates.
    pub open spec fn outputs(self) -> Set<OutPoint> {
        Set::new(|o: OutPoint| o.tx_hash == self.hash && o.index < self.output_count)
    }
}

/// A copy of a list of out-points.
pub fn copy_out_points(v: &Vec<OutPoint>) -> (r: Vec<OutPoint>)
    ensures
        r@ == v@,
{
    let mut r: Vec<OutPoint> = Vec::new();
    let mut i: usize = 0;
    while i < v.len()
        invariant
            i <= v.len(),
            r@ == v@.take(i as int),
        decreases v.len() - i,
    {
        r.push(v[i]);
        assert(v@.take(i + 1) =~= v@.take(i as int).push(v@[i as int]));
        i = i + 1;
    }
    assert(v@.take(v.len() as int) =~= v@);
    r
}

/// A copy of a byte string.
pub fn copy_bytes(v: &Vec<u8>) -> (r: Vec<u8>)
    ensures
        r@ == v@,
{
    let mut r: Vec<u8> = Vec::new();
    let mut i: usize = 0;
    while i < v.len()
        invariant
            i <= v.len(),
            r@ == v@.take(i as int),
        decreases v.len() - i,
    {
        r.push(v[i]);
        assert(v@.take(i + 1) =~= v@.take(i as int).push(v@[i as int]));
        i = i + 1;
    }
    assert(v@.take(v.len() as int) =~= v@);
    r
}

impl Transaction {
    pub fn new(hash: [u8; 32], inputs: Vec<OutPoint>, output_count: u32, raw: Vec<u8>) -> (r:
        Transaction)
        ensures
            r@.hash == hash,
            r@.inputs == inputs@,
            r@.output_count == output_count,
            r@.raw == raw@,
    {
        Transaction { hash, inputs, output_count, raw }
    }

    /// A transaction with the same value.
    pub fn duplicate(&self) -> (r: Transaction)
        ensures
            r@ == self@,
    {
        Transaction {
            hash: self.hash,
            inputs: copy_out_points(&self.inputs),
            output_count: self.output_count,
            raw: copy_bytes(&self.raw),
        }
    }

    /// True if both serialize to the same bytes.
    pub fn same_bytes(&self, other: &Transaction) -> (r: bool)
        ensures
            r == (self@.raw == other@.raw),
    {
        if self.raw.len() != other.raw.len() {
            return false;
        }
        let mut i: usize = 0;
        while i < self.raw.len()
            invariant
                i <= self.raw.len(),
                self.raw.len() == other.raw.len(),
                forall|j: int| 0 <= j < i ==> self.raw@[j] == other.raw@[j],
            decreases self.raw.len() - i,
        {
            if self.raw[i] != other.raw[i] {
                return false;
            }
            i = i + 1;
        }
        assert(self.raw@ =~= other.raw@);
        true
    }
}

/// A layer-1 deposit cell picked for a block.
#[derive(Clone, Debug, PartialEq, Eq)]
pub struct DepositInfo {
    /// The cell that holds the deposit.
    pub out_point: OutPoint,
    /// The serialized deposit request.
    pub request: Vec<u8>,
    /// The serialized type script of the deposited asset, if the cell has one.
    pub asset_script: Option<Vec<u8>>,
}

/// The mathematical value of a [`DepositInfo`].
pub struct DepositInfoView {
    pub out_point: OutPoint,
    pub request: Seq<u8>,
    pub asset_script: Option<Seq<u8>>,
}

impl View for DepositInfo {
    type V = DepositInfoView;

    open spec fn view(&self) -> DepositInfoView {
        DepositInfoView {
            out_point: self.out_point,
            request: self.request@,
            asset_script: match self.asset_script {
                Some(s) => Some(s@),
                None => None,
            },
        }
    }
}

} // verus!
