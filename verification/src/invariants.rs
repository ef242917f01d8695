//! What the local-cell manager holds, said directly: which cells are in
//! flight and under which hash, which are locked, which outputs may be
//! spent. The statements hold whenever the manager matches the store, which
//! it does after start-up and which production, registration and release
//! keep.

use vstd::prelude::*;
use crate::local_cells::{
    apply_tx_available, apply_tx_reservations, confirm_tx_available, confirm_tx_reservations,
    lock_cells_spec, LocalCellsManager, Reservation,
};
use crate::recovery::{
    applied_available, applied_reservations, cells_match, locked_reservations, points_of,
    rebuilt_reservations,
};
use crate::store::StoreView;
use crate::types::{DepositInfoView, OutPoint, TransactionView};

verus! {

/// The submission transaction of block `n` spends the cell.
pub open spec fn spent_by(txs: Map<u64, TransactionView>, n: u64, o: OutPoint) -> bool {
    txs[n].inputs.contains(o)
}

/// The submission transaction of some block in `(c, s]` spends the cell.
pub open spec fn spent_in(txs: Map<u64, TransactionView>, c: int, s: int, o: OutPoint) -> bool {
    exists|n: u64| c < n <= s && #[trigger] spent_by(txs, n, o)
}

/// Block `n` is the last block in `(c, s]` whose submission transaction
/// spends the cell.
pub open spec fn last_spender(
    txs: Map<u64, TransactionView>,
    c: int,
    s: int,
    o: OutPoint,
    n: u64,
) -> bool {
    &&& c < n <= s
    &&& spent_by(txs, n, o)
    &&& forall|k: u64| n < k <= s ==> !#[trigger] spent_by(txs, k, o)
}

/// The cell is a deposit of block `m`.
pub open spec fn deposited_by(deposits: Map<u64, Seq<DepositInfoView>>, m: u64, o: OutPoint) -> bool {
    points_of(deposits[m]).contains(o)
}

/// The cell is a deposit of some block in `(s, v]`.
pub open spec fn deposited_in(
    deposits: Map<u64, Seq<DepositInfoView>>,
    s: int,
    v: int,
    o: OutPoint,
) -> bool {
    exists|m: u64| s < m <= v && #[trigger] deposited_by(deposits, m, o)
}

/// The submission transaction of block `n` in `(c, s]` made the cell, and no
/// later one up to `s` spends it.
pub open spec fn spendable_from(
    txs: Map<u64, TransactionView>,
    c: int,
    s: int,
    o: OutPoint,
    n: u64,
) -> bool {
    &&& c < n <= s
    &&& txs[n].outputs().contains(o)
    &&& forall|k: u64| n < k <= s ==> !#[trigger] spent_by(txs, k, o)
}

/// Some submission transaction in `(c, s]` made the cell and no later one up
/// to `s` spends it.
pub open spec fn spendable_in(txs: Map<u64, TransactionView>, c: int, s: int, o: OutPoint) -> bool {
    exists|n: u64| #[trigger] spendable_from(txs, c, s, o, n)
}

/// After locking the first `n` of `cells`, a cell is reserved if it was
/// before or is among them; what was reserved keeps its reservation, the
/// others are locked.
pub proof fn lemma_lock_cells(m: Map<OutPoint, Reservation>, cells: Seq<OutPoint>, n: int)
    requires
        0 <= n <= cells.len(),
    ensures
        forall|o: OutPoint| #[trigger]
            lock_cells_spec(m, cells, n).dom().contains(o) <==> (m.dom().contains(o)
                || cells.take(n).contains(o)),
        forall|o: OutPoint| #[trigger]
            lock_cells_spec(m, cells, n).dom().contains(o) ==> lock_cells_spec(m, cells, n)[o]
                == if m.dom().contains(o) {
                m[o]
            } else {
                Reservation::Locked
            },
    decreases n,
{
    if n > 0 {
        lemma_lock_cells(m, cells, n - 1);
        let prev = lock_cells_spec(m, cells, n - 1);
        let c = cells[n - 1];
        let shorter = cells.take(n - 1);
        let longer = cells.take(n);
        assert(longer =~= shorter.push(c));
        assert forall|o: OutPoint| longer.contains(o) <==> (shorter.contains(o) || o == c) by {
            if shorter.contains(o) {
                let k = choose|k: int| 0 <= k < shorter.len() && shorter[k] == o;
                assert(longer[k] == o);
            }
            if o == c {
                assert(longer[n - 1] == o);
            }
        }
    } else {
        assert(cells.take(0) =~= Seq::<OutPoint>::empty());
    }
}

/// After locking the deposits of the blocks in `(s, v]` on top of `m`, a
/// cell is reserved if it was before or is a deposit of one of these blocks;
/// what was reserved keeps its reservation, the others are locked.
pub proof fn lemma_locked(
    deposits: Map<u64, Seq<DepositInfoView>>,
    m: Map<OutPoint, Reservation>,
    s: int,
    v: int,
)
    requires
        0 <= s <= v <= u64::MAX,
    ensures
        forall|o: OutPoint| #[trigger]
            locked_reservations(deposits, m, s, v).dom().contains(o) <==> (m.dom().contains(o)
                || deposited_in(deposits, s, v, o)),
        forall|o: OutPoint| #[trigger]
            locked_reservations(deposits, m, s, v).dom().contains(o) ==> locked_reservations(
                deposits,
                m,
                s,
                v,
            )[o] == if m.dom().contains(o) {
                m[o]
            } else {
                Reservation::Locked
            },
    decreases v - s,
{
    if v > s {
        lemma_locked(deposits, m, s, v - 1);
        let prev = locked_reservations(deposits, m, s, v - 1);
        let cells = points_of(deposits[v as u64]);
        lemma_lock_cells(prev, cells, cells.len() as int);
        assert(cells.take(cells.len() as int) =~= cells);
        assert forall|o: OutPoint|
            deposited_in(deposits, s, v, o) <==> (deposited_in(deposits, s, v - 1, o)
                || cells.contains(o)) by {
            if deposited_in(deposits, s, v, o) {
                let w = choose|w: u64| s < w <= v && deposited_by(deposits, w, o);
                if w < v {
                    assert(deposited_by(deposits, w, o));
                }
            }
            if deposited_in(deposits, s, v - 1, o) {
                let w = choose|w: u64| s < w <= v - 1 && deposited_by(deposits, w, o);
                assert(deposited_by(deposits, w, o));
            }
            if cells.contains(o) {
                assert(deposited_by(deposits, v as u64, o));
            }
        }
    }
}

/// After applying the submission transactions of the blocks in `(c, s]`, a
/// cell is reserved if one of them spends it, and it is in flight under the
/// hash of the last that does.
pub proof fn lemma_applied_reservations(txs: Map<u64, TransactionView>, c: int, s: int)
    requires
        0 <= c <= s <= u64::MAX,
    ensures
        forall|o: OutPoint| #[trigger]
            applied_reservations(txs, c, s).dom().contains(o) <==> spent_in(txs, c, s, o),
        forall|o: OutPoint, n: u64| #[trigger]
            last_spender(txs, c, s, o, n) ==> applied_reservations(txs, c, s)[o]
                == Reservation::InFlight(txs[n].hash),
    decreases s - c,
{
    if s > c {
        lemma_applied_reservations(txs, c, s - 1);
        let prev = applied_reservations(txs, c, s - 1);
        let top = s as u64;
        assert forall|o: OutPoint|
            spent_in(txs, c, s, o) <==> (spent_in(txs, c, s - 1, o) || spent_by(txs, top, o)) by {
            if spent_in(txs, c, s, o) {
                let n = choose|n: u64| c < n <= s && spent_by(txs, n, o);
                if n < top {
                    assert(spent_by(txs, n, o));
                }
            }
            if spent_in(txs, c, s - 1, o) {
                let n = choose|n: u64| c < n <= s - 1 && spent_by(txs, n, o);
                assert(spent_by(txs, n, o));
            }
        }
        assert forall|o: OutPoint| #[trigger]
            applied_reservations(txs, c, s).dom().contains(o) <==> spent_in(txs, c, s, o) by {
            assert(applied_reservations(txs, c, s).dom().contains(o) <==> (prev.dom().contains(o)
                || spent_by(txs, top, o)));
            assert(prev.dom().contains(o) <==> spent_in(txs, c, s - 1, o));
            assert(spent_in(txs, c, s, o) <==> (spent_in(txs, c, s - 1, o) || spent_by(
                txs,
                top,
                o,
            )));
        }
        assert forall|o: OutPoint, n: u64| #[trigger]
            last_spender(txs, c, s, o, n) implies applied_reservations(txs, c, s)[o]
            == Reservation::InFlight(txs[n].hash) by {
            if spent_by(txs, top, o) {
                if n < top {
                    assert(!spent_by(txs, top, o));
                }
            } else {
                assert(last_spender(txs, c, s - 1, o, n));
            }
        }
    }
}

/// After applying the submission transactions of the blocks in `(c, s]`, the
/// spendable outputs are the cells that one of them made and no later one
/// spends.
pub proof fn lemma_applied_available(txs: Map<u64, TransactionView>, c: int, s: int)
    requires
        0 <= c <= s <= u64::MAX,
    ensures
        forall|o: OutPoint| #[trigger]
            applied_available(txs, c, s).contains(o) <==> spendable_in(txs, c, s, o),
    decreases s - c,
{
    if s > c {
        lemma_applied_available(txs, c, s - 1);
        let prev = applied_available(txs, c, s - 1);
        let top = s as u64;
        assert forall|o: OutPoint| #[trigger]
            applied_available(txs, c, s).contains(o) <==> spendable_in(txs, c, s, o) by {
            if spendable_in(txs, c, s, o) {
                let n = choose|n: u64| spendable_from(txs, c, s, o, n);
                if n < top {
                    assert(!spent_by(txs, top, o));
                    assert(spendable_from(txs, c, s - 1, o, n));
                }
            }
            if txs[top].outputs().contains(o) {
                assert(spendable_from(txs, c, s, o, top));
            } else if prev.contains(o) && !spent_by(txs, top, o) {
                let below = s - 1;
                let n = choose|n: u64| spendable_from(txs, c, below, o, n);
                assert(spendable_from(txs, c, s, o, n));
            }
        }
    } else {
        assert forall|o: OutPoint| !spendable_in(txs, c, s, o) by {
            if spendable_in(txs, c, s, o) {
                let n = choose|n: u64| spendable_from(txs, c, s, o, n);
            }
        }
    }
}

/// What a manager holds that matches the store at `(c, s)`:
/// a cell is in flight exactly if the submission transaction of a block in
/// `(c, s]` spends it, under the hash of the last one that does; a cell is
/// locked exactly if it is a deposit of a block in `(s, v]` that none of
/// these transactions spends; an output may be spent exactly if one of these
/// transactions made it and no later one spends it.
pub proof fn lemma_cells_match_says(m: LocalCellsManager, st: StoreView, c: int, s: int)
    requires
        cells_match(m, st, c, s),
        0 <= c <= s <= st.valid(),
    ensures
        forall|o: OutPoint| #[trigger]
            m.in_flight().dom().contains(o) <==> spent_in(st.submit_txs, c, s, o),
        forall|o: OutPoint, n: u64| #[trigger]
            last_spender(st.submit_txs, c, s, o, n) ==> m.in_flight()[o] == st.submit_txs[n].hash,
        forall|o: OutPoint| #[trigger]
            m.locked().contains(o) <==> (deposited_in(st.deposits, s, st.valid(), o) && !spent_in(
                st.submit_txs,
                c,
                s,
                o,
            )),
        forall|o: OutPoint| #[trigger]
            m.available().contains(o) <==> spendable_in(st.submit_txs, c, s, o),
{
    let applied = applied_reservations(st.submit_txs, c, s);
    lemma_applied_reservations(st.submit_txs, c, s);
    lemma_applied_available(st.submit_txs, c, s);
    lemma_locked(st.deposits, applied, s, st.valid());
    assert forall|o: OutPoint| #[trigger]
        spent_in(st.submit_txs, c, s, o) implies applied[o] is InFlight by {
        lemma_last_spender_exists(st.submit_txs, c, s, o);
        let n = choose|n: u64| last_spender(st.submit_txs, c, s, o, n);
        assert(last_spender(st.submit_txs, c, s, o, n));
    }
    assert forall|o: OutPoint| #[trigger]
        m.in_flight().dom().contains(o) <==> spent_in(st.submit_txs, c, s, o) by {
        if spent_in(st.submit_txs, c, s, o) {
            assert(applied.dom().contains(o));
            assert(m.reservations().dom().contains(o));
        }
    }
    assert forall|o: OutPoint| #[trigger]
        m.locked().contains(o) <==> (deposited_in(st.deposits, s, st.valid(), o) && !spent_in(
            st.submit_txs,
            c,
            s,
            o,
        )) by {
        let res = m.reservations();
        assert(res == locked_reservations(st.deposits, applied, s, st.valid()));
        assert(res.dom().contains(o) <==> (applied.dom().contains(o) || deposited_in(
            st.deposits,
            s,
            st.valid(),
            o,
        )));
        assert(applied.dom().contains(o) <==> spent_in(st.submit_txs, c, s, o));
        if spent_in(st.submit_txs, c, s, o) {
            assert(applied[o] is InFlight);
            assert(res[o] == applied[o]);
        } else if res.dom().contains(o) {
            assert(res[o] == Reservation::Locked);
        }
    }
}

/// A cell that is spent in a window has a last spender there.
pub proof fn lemma_last_spender_exists(txs: Map<u64, TransactionView>, c: int, s: int, o: OutPoint)
    requires
        0 <= c <= s <= u64::MAX,
        spent_in(txs, c, s, o),
    ensures
        exists|n: u64| last_spender(txs, c, s, o, n),
    decreases s - c,
{
    let top = s as u64;
    if spent_by(txs, top, o) && c < s {
        assert(last_spender(txs, c, s, o, top));
    } else {
        let w = choose|w: u64| c < w <= s && spent_by(txs, w, o);
        assert(w < top);
        assert(spent_by(txs, w, o));
        assert(spent_in(txs, c, s - 1, o));
        lemma_last_spender_exists(txs, c, s - 1, o);
        let below = s - 1;
        let n = choose|n: u64| last_spender(txs, c, below, o, n);
        assert(last_spender(txs, c, s, o, n));
    }
}

/// The submission transaction of block `s + 1` spends every deposit of its
/// block.
pub open spec fn register_sound(st: StoreView, s: int) -> bool {
    forall|o: OutPoint| #[trigger]
        deposited_by(st.deposits, (s + 1) as u64, o) ==> spent_by(
            st.submit_txs,
            (s + 1) as u64,
            o,
        )
}

/// No submission transaction in `(c + 1, s]` has the hash of the one of
/// block `c + 1`, and that one spends no deposit of a block above `s`.
pub open spec fn release_sound(st: StoreView, c: int, s: int) -> bool {
    &&& forall|n: u64|
        c + 1 < n <= s ==> (#[trigger] st.submit_txs[n]).hash != st.submit_txs[(c + 1) as u64].hash
    &&& forall|o: OutPoint| #[trigger]
        spent_by(st.submit_txs, (c + 1) as u64, o) ==> !deposited_in(
            st.deposits,
            s,
            st.valid(),
            o,
        )
}

/// Registering the submission of block `s + 1` keeps the manager in step
/// with the store: if it matched at `(c, s)` before, it matches at
/// `(c, s + 1)` after the transaction was applied, provided that the
/// transaction spends every deposit of its block.
pub proof fn lemma_register_keeps_match(
    reservations: Map<OutPoint, Reservation>,
    available: Set<OutPoint>,
    st: StoreView,
    c: int,
    s: int,
)
    requires
        0 <= c <= s < st.valid(),
        reservations == rebuilt_reservations(st, c, s, st.valid()),
        available == applied_available(st.submit_txs, c, s),
        register_sound(st, s),
    ensures
        apply_tx_reservations(reservations, st.submit_txs[(s + 1) as u64]) == rebuilt_reservations(
            st,
            c,
            s + 1,
            st.valid(),
        ),
        apply_tx_available(available, st.submit_txs[(s + 1) as u64]) == applied_available(
            st.submit_txs,
            c,
            s + 1,
        ),
{
    let v = st.valid();
    let next = (s + 1) as u64;
    let tx = st.submit_txs[next];
    let before = applied_reservations(st.submit_txs, c, s);
    let after = applied_reservations(st.submit_txs, c, s + 1);
    lemma_locked(st.deposits, before, s, v);
    lemma_locked(st.deposits, after, s + 1, v);
    let got = apply_tx_reservations(reservations, tx);
    let want = rebuilt_reservations(st, c, s + 1, v);
    assert forall|o: OutPoint|
        deposited_in(st.deposits, s, v, o) <==> (deposited_in(st.deposits, s + 1, v, o)
            || deposited_by(st.deposits, next, o)) by {
        if deposited_in(st.deposits, s, v, o) {
            let w = choose|w: u64| s < w <= v && deposited_by(st.deposits, w, o);
            if w != next {
                assert(deposited_by(st.deposits, w, o));
            }
        }
        if deposited_in(st.deposits, s + 1, v, o) {
            let w = choose|w: u64| s + 1 < w <= v && deposited_by(st.deposits, w, o);
            assert(deposited_by(st.deposits, w, o));
        }
        if deposited_by(st.deposits, next, o) {
            assert(s < next <= v);
        }
    }
    assert forall|o: OutPoint| got.dom().contains(o) <==> want.dom().contains(o) by {
        if deposited_by(st.deposits, next, o) {
            assert(spent_by(st.submit_txs, next, o));
        }
    }
    assert(got =~= want);
}

/// Releasing the submission of block `c + 1` keeps the manager in step with
/// the store: if it matched at `(c, s)` before, it matches at `(c + 1, s)`
/// after the transaction was confirmed, provided that no other transaction
/// in the window has the same hash and that the transaction spends no cell
/// that a block above `s` still holds as a deposit.
pub proof fn lemma_release_keeps_match(
    reservations: Map<OutPoint, Reservation>,
    available: Set<OutPoint>,
    st: StoreView,
    c: int,
    s: int,
)
    requires
        0 <= c < s <= st.valid(),
        reservations == rebuilt_reservations(st, c, s, st.valid()),
        available == applied_available(st.submit_txs, c, s),
        release_sound(st, c, s),
    ensures
        confirm_tx_reservations(reservations, st.submit_txs[(c + 1) as u64].hash)
            == rebuilt_reservations(st, c + 1, s, st.valid()),
        confirm_tx_available(available, st.submit_txs[(c + 1) as u64].hash) == applied_available(
            st.submit_txs,
            c + 1,
            s,
        ),
{
    let v = st.valid();
    let txs = st.submit_txs;
    let first = (c + 1) as u64;
    let hash = txs[first].hash;
    let before = applied_reservations(txs, c, s);
    let after = applied_reservations(txs, c + 1, s);
    lemma_applied_reservations(txs, c, s);
    lemma_applied_reservations(txs, c + 1, s);
    lemma_applied_available(txs, c, s);
    lemma_applied_available(txs, c + 1, s);
    lemma_locked(st.deposits, before, s, v);
    lemma_locked(st.deposits, after, s, v);
    let got = confirm_tx_reservations(reservations, hash);
    let want = rebuilt_reservations(st, c + 1, s, v);
    assert forall|o: OutPoint|
        spent_in(txs, c, s, o) <==> (spent_in(txs, c + 1, s, o) || spent_by(txs, first, o)) by {
        if spent_in(txs, c, s, o) {
            let n = choose|n: u64| c < n <= s && spent_by(txs, n, o);
            if n != first {
                assert(spent_by(txs, n, o));
            }
        }
        if spent_in(txs, c + 1, s, o) {
            let n = choose|n: u64| c + 1 < n <= s && spent_by(txs, n, o);
            assert(spent_by(txs, n, o));
        }
    }
    assert forall|o: OutPoint| #[trigger]
        spent_in(txs, c + 1, s, o) implies before.dom().contains(o) && after.dom().contains(o)
        && before[o] == after[o] && before[o] != Reservation::InFlight(hash) by {
        lemma_last_spender_exists(txs, c + 1, s, o);
        let above = c + 1;
        let n = choose|n: u64| last_spender(txs, above, s, o, n);
        assert(last_spender(txs, c, s, o, n));
        assert(before[o] == Reservation::InFlight(txs[n].hash));
        assert(after[o] == Reservation::InFlight(txs[n].hash));
        assert(txs[n].hash != hash);
    }
    assert forall|o: OutPoint| #[trigger]
        spent_in(txs, c, s, o) && !spent_in(txs, c + 1, s, o) implies before[o]
        == Reservation::InFlight(hash) && !deposited_in(st.deposits, s, v, o) by {
        assert(spent_by(txs, first, o));
        assert(last_spender(txs, c, s, o, first));
    }
    assert(reservations == locked_reservations(st.deposits, before, s, v));
    assert forall|o: OutPoint| got.dom().contains(o) <==> want.dom().contains(o) by {
        let dep = deposited_in(st.deposits, s, v, o);
        assert(reservations.dom().contains(o) <==> (before.dom().contains(o) || dep));
        assert(want.dom().contains(o) <==> (after.dom().contains(o) || dep));
        assert(before.dom().contains(o) <==> spent_in(txs, c, s, o));
        assert(after.dom().contains(o) <==> spent_in(txs, c + 1, s, o));
        if spent_in(txs, c + 1, s, o) {
            assert(before.dom().contains(o));
            assert(reservations[o] == before[o]);
        } else if spent_in(txs, c, s, o) {
            assert(before[o] == Reservation::InFlight(hash));
            assert(reservations[o] == before[o]);
            assert(!dep);
        } else if dep {
            assert(reservations[o] == Reservation::Locked);
        }
    }
    assert forall|o: OutPoint| got.dom().contains(o) implies got[o] == want[o] by {
        assert(before.dom().contains(o) <==> spent_in(txs, c, s, o));
        assert(after.dom().contains(o) <==> spent_in(txs, c + 1, s, o));
        if spent_in(txs, c + 1, s, o) {
            assert(before[o] == after[o]);
        } else if spent_in(txs, c, s, o) {
            assert(before[o] == Reservation::InFlight(hash));
        }
    }
    assert(got =~= want);
    let got_a = confirm_tx_available(available, hash);
    let want_a = applied_available(txs, c + 1, s);
    assert forall|o: OutPoint| got_a.contains(o) <==> want_a.contains(o) by {
        if got_a.contains(o) {
            let n = choose|n: u64| spendable_from(txs, c, s, o, n);
            assert(n != first);
            assert(spendable_from(txs, c + 1, s, o, n));
        }
        if want_a.contains(o) {
            let above = c + 1;
            let n = choose|n: u64| spendable_from(txs, above, s, o, n);
            assert(spendable_from(txs, c, s, o, n));
            assert(txs[n].hash != hash);
        }
    }
    assert(got_a =~= want_a);
}

/// A deposit of block `m` is locked exactly while the block is produced and
/// not submitted, provided that its cell is a deposit of no other block and
/// that no submitted transaction spends a deposit of a block that is not
/// submitted.
pub proof fn lemma_deposit_locked_iff_unsubmitted(
    m: LocalCellsManager,
    st: StoreView,
    block: u64,
    o: OutPoint,
)
    requires
        st.ordered(),
        cells_match(m, st, st.confirmed(), st.submitted()),
        deposited_by(st.deposits, block, o),
        forall|other: u64| other != block ==> !#[trigger] deposited_by(st.deposits, other, o),
        st.submitted() < block <= st.valid() ==> !spent_in(
            st.submit_txs,
            st.confirmed(),
            st.submitted(),
            o,
        ),
    ensures
        m.locked().contains(o) <==> st.submitted() < block <= st.valid(),
{
    lemma_cells_match_says(m, st, st.confirmed(), st.submitted());
    if deposited_in(st.deposits, st.submitted(), st.valid(), o) {
        let w = choose|w: u64|
            st.submitted() < w <= st.valid() && deposited_by(st.deposits, w, o);
        assert(w == block);
    }
}

/// Every input of the stored submission transaction of a block in
/// `(last_confirmed, last_submitted]` is in flight, under the hash of that
/// transaction unless a later one in the window spends the same cell; and
/// nothing else is in flight.
pub proof fn lemma_submitted_inputs_in_flight(m: LocalCellsManager, st: StoreView, n: u64, o: OutPoint)
    requires
        st.ordered(),
        cells_match(m, st, st.confirmed(), st.submitted()),
    ensures
        st.confirmed() < n <= st.submitted() && st.submit_txs[n].inputs.contains(o)
            ==> m.in_flight().dom().contains(o),
        last_spender(st.submit_txs, st.confirmed(), st.submitted(), o, n) ==> m.in_flight()[o]
            == st.submit_txs[n].hash,
        m.in_flight().dom().contains(o) ==> exists|k: u64|
            last_spender(st.submit_txs, st.confirmed(), st.submitted(), o, k) && m.in_flight()[o]
                == st.submit_txs[k].hash,
{
    lemma_cells_match_says(m, st, st.confirmed(), st.submitted());
    if st.confirmed() < n <= st.submitted() && st.submit_txs[n].inputs.contains(o) {
        assert(spent_by(st.submit_txs, n, o));
    }
    if m.in_flight().dom().contains(o) {
        lemma_last_spender_exists(st.submit_txs, st.confirmed(), st.submitted(), o);
    }
}

} // verus!
