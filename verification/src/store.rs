//! The persistent progress of the pipeline: the three block pointers and the
//! per-block records that production and submission leave behind.
//!
//! A [`ProgressStore`] is the working set of one store transaction. The
//! caller loads it from the durable store and commits it after each
//! operation of the pipeline, so every operation here is one transaction.

use std::collections::HashMap;
use vstd::prelude::*;
use crate::types::{
    copy_bytes, DepositInfo, DepositInfoView, NumberHash, Transaction, TransactionView,
};

verus! {

broadcast use vstd::std_specs::hash::group_hash_axioms;

/// The mathematical value of a [`ProgressStore`], by logical key.
#[verifier::ext_equal]
pub struct StoreView {
    /// `last_valid_tip_block`: the highest block produced here.
    pub last_valid: NumberHash,
    /// `last_submitted_block_number_hash`, absent before the first start.
    pub last_submitted: Option<NumberHash>,
    /// `last_confirmed_block_number_hash`, absent before the first start.
    pub last_confirmed: Option<NumberHash>,
    /// The hash of each known block, by number.
    pub block_hashes: Map<u64, [u8; 32]>,
    /// `submit_tx[n]`.
    pub submit_txs: Map<u64, TransactionView>,
    /// `deposit_info_vec[n]`.
    pub deposits: Map<u64, Seq<DepositInfoView>>,
    /// `post_finalized_custodian_capacity[n]`, serialized.
    pub capacities: Map<u64, Seq<u8>>,
}

impl StoreView {
    /// True once both progress pointers are stored.
    pub open spec fn initialized(self) -> bool {
        self.last_submitted is Some && self.last_confirmed is Some
    }

    /// Number of the highest produced block.
    pub open spec fn valid(self) -> int {
        self.last_valid.number as int
    }

    /// Number of the highest submitted block.
    pub open spec fn submitted(self) -> int {
        self.last_submitted->0.number as int
    }

    /// Number of the highest confirmed block.
    pub open spec fn confirmed(self) -> int {
        self.last_confirmed->0.number as int
    }

    /// `last_confirmed <= last_submitted <= last_valid`.
    pub open spec fn ordered(self) -> bool {
        self.initialized() && self.confirmed() <= self.submitted() <= self.valid()
    }

    /// The store after the start-up rule: where a progress pointer is
    /// missing, both are set to `last_valid`.
    pub open spec fn with_default_pointers(self) -> StoreView {
        if self.initialized() {
            self
        } else {
            StoreView {
                last_submitted: Some(self.last_valid),
                last_confirmed: Some(self.last_valid),
                ..self
            }
        }
    }
}

/// The values of a list of deposits.
pub open spec fn deposits_view(v: Seq<DepositInfo>) -> Seq<DepositInfoView> {
    v.map_values(|d: DepositInfo| d@)
}

/// The working set of one store transaction.
#[derive(Debug)]
pub struct ProgressStore {
    last_valid: NumberHash,
    last_submitted: Option<NumberHash>,
    last_confirmed: Option<NumberHash>,
    block_hashes: HashMap<u64, [u8; 32]>,
    submit_txs: HashMap<u64, Transaction>,
    deposits: HashMap<u64, Vec<DepositInfo>>,
    capacities: HashMap<u64, Vec<u8>>,
}

impl View for ProgressStore {
    type V = StoreView;

    closed spec fn view(&self) -> StoreView {
        StoreView {
            last_valid: self.last_valid,
            last_submitted: self.last_submitted,
            last_confirmed: self.last_confirmed,
            block_hashes: self.block_hashes@,
            submit_txs: Map::new(
                |n: u64| self.submit_txs@.dom().contains(n),
                |n: u64| self.submit_txs@[n]@,
            ),
            deposits: Map::new(
                |n: u64| self.deposits@.dom().contains(n),
                |n: u64| deposits_view(self.deposits@[n]@),
            ),
            capacities: Map::new(
                |n: u64| self.capacities@.dom().contains(n),
                |n: u64| self.capacities@[n]@,
            ),
        }
    }
}

impl ProgressStore {
    /// A store that knows the tip block and nothing else, as on a first run.
    pub fn new(last_valid: NumberHash) -> (r: ProgressStore)
        ensures
            r@.last_valid == last_valid,
            r@.last_submitted is None,
            r@.last_confirmed is None,
            r@.block_hashes == Map::<u64, [u8; 32]>::empty().insert(
                last_valid.number,
                last_valid.block_hash,
            ),
            r@.submit_txs == Map::<u64, TransactionView>::empty(),
            r@.deposits == Map::<u64, Seq<DepositInfoView>>::empty(),
            r@.capacities == Map::<u64, Seq<u8>>::empty(),
    {
        let mut block_hashes: HashMap<u64, [u8; 32]> = HashMap::new();
        block_hashes.insert(last_valid.number, last_valid.block_hash);
        let r = ProgressStore {
            last_valid,
            last_submitted: None,
            last_confirmed: None,
            block_hashes,
            submit_txs: HashMap::new(),
            deposits: HashMap::new(),
            capacities: HashMap::new(),
        };
        assert(r@.submit_txs =~= Map::<u64, TransactionView>::empty());
        assert(r@.deposits =~= Map::<u64, Seq<DepositInfoView>>::empty());
        assert(r@.capacities =~= Map::<u64, Seq<u8>>::empty());
        r
    }

    /// The highest block produced here.
    pub fn get_last_valid(&self) -> (r: NumberHash)
        ensures
            r == self@.last_valid,
    {
        self.last_valid
    }

    /// The stored submitted pointer, if there is one.
    pub fn last_submitted(&self) -> (r: Option<NumberHash>)
        ensures
            r == self@.last_submitted,
    {
        self.last_submitted
    }

    /// The stored confirmed pointer, if there is one.
    pub fn last_confirmed(&self) -> (r: Option<NumberHash>)
        ensures
            r == self@.last_confirmed,
    {
        self.last_confirmed
    }

    /// The highest block whose submission was sent.
    pub fn get_last_submitted(&self) -> (r: NumberHash)
        requires
            self@.last_submitted is Some,
        ensures
            Some(r) == self@.last_submitted,
    {
        match self.last_submitted {
            Some(nh) => nh,
            None => self.last_valid,
        }
    }

    /// The highest block whose submission is on layer 1.
    pub fn get_last_confirmed(&self) -> (r: NumberHash)
        requires
            self@.last_confirmed is Some,
        ensures
            Some(r) == self@.last_confirmed,
    {
        match self.last_confirmed {
            Some(nh) => nh,
            None => self.last_valid,
        }
    }

    /// Moves the tip to `nh` and records its hash.
    pub fn set_last_valid(&mut self, nh: NumberHash)
        ensures
            final(self)@ == (StoreView {
                last_valid: nh,
                block_hashes: old(self)@.block_hashes.insert(nh.number, nh.block_hash),
                ..old(self)@
            }),
    {
        self.last_valid = nh;
        self.block_hashes.insert(nh.number, nh.block_hash);
    }

    pub fn set_last_submitted(&mut self, nh: NumberHash)
        ensures
            final(self)@ == (StoreView { last_submitted: Some(nh), ..old(self)@ }),
    {
        self.last_submitted = Some(nh);
    }

    pub fn set_last_confirmed(&mut self, nh: NumberHash)
        ensures
            final(self)@ == (StoreView { last_confirmed: Some(nh), ..old(self)@ }),
    {
        self.last_confirmed = Some(nh);
    }

    /// The start-up rule: where a progress pointer is missing, both are set
    /// to `last_valid`. Returns true if the store changed, so that the caller
    /// commits it.
    pub fn default_pointers(&mut self) -> (changed: bool)
        ensures
            final(self)@ == old(self)@.with_default_pointers(),
            final(self)@.initialized(),
            changed == !old(self)@.initialized(),
    {
        if self.last_submitted.is_none() || self.last_confirmed.is_none() {
            self.last_submitted = Some(self.last_valid);
            self.last_confirmed = Some(self.last_valid);
            true
        } else {
            false
        }
    }

    /// The hash of block `n`, if the store knows the block.
    pub fn get_block_hash_by_number(&self, n: u64) -> (r: Option<[u8; 32]>)
        ensures
            r == if self@.block_hashes.dom().contains(n) {
                Some(self@.block_hashes[n])
            } else {
                None
            },
    {
        match self.block_hashes.get(&n) {
            Some(h) => Some(*h),
            None => None,
        }
    }

    /// Records the hash of block `n`.
    pub fn set_block_hash(&mut self, n: u64, hash: [u8; 32])
        ensures
            final(self)@ == (StoreView {
                block_hashes: old(self)@.block_hashes.insert(n, hash),
                ..old(self)@
            }),
    {
        self.block_hashes.insert(n, hash);
    }

    /// The submission transaction stored for block `n`.
    pub fn get_submit_tx(&self, n: u64) -> (r: Option<&Transaction>)
        ensures
            match r {
                Some(tx) => self@.submit_txs.dom().contains(n) && tx@ == self@.submit_txs[n],
                None => !self@.submit_txs.dom().contains(n),
            },
    {
        self.submit_txs.get(&n)
    }

    /// Stores the submission transaction of block `n`, unless one is stored
    /// already: a stored transaction is never replaced. Returns true if `tx`
    /// was stored.
    pub fn set_submit_tx(&mut self, n: u64, tx: Transaction) -> (stored: bool)
        ensures
            stored == !old(self)@.submit_txs.dom().contains(n),
            final(self)@ == if stored {
                StoreView { submit_txs: old(self)@.submit_txs.insert(n, tx@), ..old(self)@ }
            } else {
                old(self)@
            },
    {
        if self.submit_txs.contains_key(&n) {
            false
        } else {
            self.submit_txs.insert(n, tx);
            assert(self@.submit_txs =~= old(self)@.submit_txs.insert(n, tx@));
            true
        }
    }

    /// The deposit cells stored for block `n`.
    pub fn get_block_deposit_info_vec(&self, n: u64) -> (r: Option<&Vec<DepositInfo>>)
        ensures
            match r {
                Some(v) => self@.deposits.dom().contains(n) && deposits_view(v@)
                    == self@.deposits[n],
                None => !self@.deposits.dom().contains(n),
            },
    {
        self.deposits.get(&n)
    }

    /// Stores the deposit cells picked for block `n`.
    pub fn set_block_deposit_info_vec(&mut self, n: u64, deposits: Vec<DepositInfo>)
        ensures
            final(self)@ == (StoreView {
                deposits: old(self)@.deposits.insert(n, deposits_view(deposits@)),
                ..old(self)@
            }),
    {
        self.deposits.insert(n, deposits);
        assert(self@.deposits =~= old(self)@.deposits.insert(n, deposits_view(deposits@)));
    }

    /// The custodian capacity left after block `n`, serialized.
    pub fn get_block_post_finalized_custodian_capacity(&self, n: u64) -> (r: Option<Vec<u8>>)
        ensures
            match r {
                Some(v) => self@.capacities.dom().contains(n) && v@ == self@.capacities[n],
                None => !self@.capacities.dom().contains(n),
            },
    {
        match self.capacities.get(&n) {
            Some(v) => Some(copy_bytes(v)),
            None => None,
        }
    }

    /// Stores the custodian capacity left after block `n`.
    pub fn set_block_post_finalized_custodian_capacity(&mut self, n: u64, capacity: Vec<u8>)
        ensures
            final(self)@ == (StoreView {
                capacities: old(self)@.capacities.insert(n, capacity@),
                ..old(self)@
            }),
    {
        self.capacities.insert(n, capacity);
        assert(self@.capacities =~= old(self)@.capacities.insert(n, capacity@));
    }
}

} // verus!
