//! What the local-cell manager must hold for a given store, and how it is
//! rebuilt from the store at start-up.
//!
//! The manager's state is a function of the store and of two block numbers:
//! `c`, up to which submissions are released, and `s`, up to which they are
//! registered. Blocks in `(c, s]` contribute the inputs and outputs of their
//! submission transactions; blocks in `(s, v]`, with `v` the tip, contribute
//! their deposits as locked cells.

use vstd::prelude::*;
use crate::local_cells::{
    apply_tx_available, apply_tx_reservations, lock_cells_spec, LocalCellsManager, Reservation,
};
use crate::store::{deposits_view, ProgressStore, StoreView};
use crate::types::{DepositInfo, DepositInfoView, OutPoint, TransactionView};

verus! {

/// Every block in `(lo, hi]` has a stored submission transaction.
pub open spec fn submit_txs_present(st: StoreView, lo: int, hi: int) -> bool {
    forall|n: u64| lo < n <= hi ==> st.submit_txs.dom().contains(n)
}

/// Every block in `(lo, hi]` has a stored deposit list.
pub open spec fn deposits_present(st: StoreView, lo: int, hi: int) -> bool {
    forall|n: u64| lo < n <= hi ==> st.deposits.dom().contains(n)
}

/// The out-points of a list of deposits, in order.
pub open spec fn points_of(deposits: Seq<DepositInfoView>) -> Seq<OutPoint> {
    deposits.map_values(|d: DepositInfoView| d.out_point)
}

/// The reservations after applying the submission transactions of the blocks
/// in `(c, s]` to an empty manager, lowest block first.
pub open spec fn applied_reservations(txs: Map<u64, TransactionView>, c: int, s: int) -> Map<
    OutPoint,
    Reservation,
>
    decreases s - c,
{
    if s <= c {
        Map::empty()
    } else {
        apply_tx_reservations(applied_reservations(txs, c, s - 1), txs[s as u64])
    }
}

/// The spendable outputs after applying the submission transactions of the
/// blocks in `(c, s]` to an empty manager, lowest block first.
pub open spec fn applied_available(txs: Map<u64, TransactionView>, c: int, s: int) -> Set<
    OutPoint,
>
    decreases s - c,
{
    if s <= c {
        Set::empty()
    } else {
        apply_tx_available(applied_available(txs, c, s - 1), txs[s as u64])
    }
}

/// The reservations after locking, on top of `m`, the deposits of the blocks
/// in `(s, v]`, lowest block first.
pub open spec fn locked_reservations(
    deposits: Map<u64, Seq<DepositInfoView>>,
    m: Map<OutPoint, Reservation>,
    s: int,
    v: int,
) -> Map<OutPoint, Reservation>
    decreases v - s,
{
    if v <= s {
        m
    } else {
        let cells = points_of(deposits[v as u64]);
        lock_cells_spec(locked_reservations(deposits, m, s, v - 1), cells, cells.len() as int)
    }
}

/// The reservations that the store calls for when submissions are released
/// up to `c` and registered up to `s`, and the tip is `v`.
pub open spec fn rebuilt_reservations(st: StoreView, c: int, s: int, v: int) -> Map<
    OutPoint,
    Reservation,
> {
    locked_reservations(st.deposits, applied_reservations(st.submit_txs, c, s), s, v)
}

/// True if the manager holds exactly what the store calls for at `(c, s)`.
pub open spec fn cells_match(m: LocalCellsManager, st: StoreView, c: int, s: int) -> bool {
    &&& m.reservations() == rebuilt_reservations(st, c, s, st.valid())
    &&& m.available() == applied_available(st.submit_txs, c, s)
}

/// Submission transactions stored outside `(c, s]` do not change what the
/// blocks in `(c, s]` put in flight.
pub proof fn lemma_applied_frame(
    t1: Map<u64, TransactionView>,
    t2: Map<u64, TransactionView>,
    c: int,
    s: int,
)
    requires
        forall|n: u64| c < n <= s ==> t1[n] == t2[n],
        0 <= c,
        s <= u64::MAX,
    ensures
        applied_reservations(t1, c, s) == applied_reservations(t2, c, s),
        applied_available(t1, c, s) == applied_available(t2, c, s),
    decreases s - c,
{
    if s > c {
        lemma_applied_frame(t1, t2, c, s - 1);
        assert(t1[s as u64] == t2[s as u64]);
    }
}

/// Deposit lists stored above the tip do not change what the blocks up to
/// the tip lock.
pub proof fn lemma_locked_frame(
    d1: Map<u64, Seq<DepositInfoView>>,
    d2: Map<u64, Seq<DepositInfoView>>,
    m: Map<OutPoint, Reservation>,
    s: int,
    v: int,
)
    requires
        forall|n: u64| s < n <= v ==> d1[n] == d2[n],
        0 <= s,
        v <= u64::MAX,
    ensures
        locked_reservations(d1, m, s, v) == locked_reservations(d2, m, s, v),
    decreases v - s,
{
    if v > s {
        lemma_locked_frame(d1, d2, m, s, v - 1);
        assert(d1[v as u64] == d2[v as u64]);
    }
}

/// The first block in `(lo, hi]` without a stored submission transaction.
pub fn first_missing_submit_tx(store: &ProgressStore, lo: u64, hi: u64) -> (r: Option<u64>)
    ensures
        match r {
            Some(b) => lo < b <= hi && !store@.submit_txs.dom().contains(b) && submit_txs_present(
                store@,
                lo as int,
                b - 1,
            ),
            None => submit_txs_present(store@, lo as int, hi as int),
        },
{
    let mut b: u64 = lo;
    while b < hi
        invariant
            lo <= b,
            b <= hi || hi < lo,
            submit_txs_present(store@, lo as int, b as int),
        decreases hi - b,
    {
        b = b + 1;
        if store.get_submit_tx(b).is_none() {
            return Some(b);
        }
    }
    None
}

/// The first block in `(lo, hi]` without a stored deposit list.
pub fn first_missing_deposit_info(store: &ProgressStore, lo: u64, hi: u64) -> (r: Option<u64>)
    ensures
        match r {
            Some(b) => lo < b <= hi && !store@.deposits.dom().contains(b) && deposits_present(
                store@,
                lo as int,
                b - 1,
            ),
            None => deposits_present(store@, lo as int, hi as int),
        },
{
    let mut b: u64 = lo;
    while b < hi
        invariant
            lo <= b,
            b <= hi || hi < lo,
            deposits_present(store@, lo as int, b as int),
        decreases hi - b,
    {
        b = b + 1;
        if store.get_block_deposit_info_vec(b).is_none() {
            return Some(b);
        }
    }
    None
}

/// Locks every deposit cell of `deposits`, in order.
pub fn lock_deposits(manager: &mut LocalCellsManager, deposits: &Vec<DepositInfo>)
    ensures
        final(manager).available() == old(manager).available(),
        final(manager).reservations() == lock_cells_spec(
            old(manager).reservations(),
            points_of(deposits_view(deposits@)),
            deposits@.len() as int,
        ),
{
    let ghost cells = points_of(deposits_view(deposits@));
    let mut i: usize = 0;
    while i < deposits.len()
        invariant
            i <= deposits.len(),
            manager.available() == old(manager).available(),
            cells == points_of(deposits_view(deposits@)),
            manager.reservations() == lock_cells_spec(
                old(manager).reservations(),
                cells,
                i as int,
            ),
        decreases deposits.len() - i,
    {
        assert(cells[i as int] == deposits@[i as int].out_point);
        manager.lock_cell(deposits[i].out_point);
        i = i + 1;
    }
}

/// Empties the manager and fills it with what the store calls for at its
/// own pointers: the submission transactions of the blocks in
/// `(last_confirmed, last_submitted]`, then the deposits of the blocks in
/// `(last_submitted, last_valid]`.
pub fn rebuild_local_cells(store: &ProgressStore, manager: &mut LocalCellsManager)
    requires
        store@.ordered(),
        submit_txs_present(store@, store@.confirmed(), store@.submitted()),
        deposits_present(store@, store@.submitted(), store@.valid()),
    ensures
        cells_match(*final(manager), store@, store@.confirmed(), store@.submitted()),
{
    let c: u64 = store.get_last_confirmed().number;
    let s: u64 = store.get_last_submitted().number;
    let v: u64 = store.get_last_valid().number;
    manager.reset();
    let mut b: u64 = c;
    while b < s
        invariant
            c <= b <= s,
            submit_txs_present(store@, c as int, s as int),
            manager.reservations() == applied_reservations(store@.submit_txs, c as int, b as int),
            manager.available() == applied_available(store@.submit_txs, c as int, b as int),
        decreases s - b,
    {
        b = b + 1;
        match store.get_submit_tx(b) {
            Some(tx) => {
                manager.apply_tx(tx);
            },
            None => {
                assert(false);
            },
        }
    }
    let mut d: u64 = s;
    while d < v
        invariant
            s <= d <= v,
            deposits_present(store@, s as int, v as int),
            manager.reservations() == rebuilt_reservations(
                store@,
                c as int,
                s as int,
                d as int,
            ),
            manager.available() == applied_available(store@.submit_txs, c as int, s as int),
        decreases v - d,
    {
        d = d + 1;
        match store.get_block_deposit_info_vec(d) {
            Some(deposits) => {
                lock_deposits(manager, deposits);
            },
            None => {
                assert(false);
            },
        }
    }
}

} // verus!
