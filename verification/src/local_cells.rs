//! The local-cell manager: which layer-1 cells are reserved by blocks that
//! were produced here and are not yet confirmed on layer 1.
//!
//! A reserved cell is either *locked* (a deposit of a block that is produced
//! but not submitted) or *in flight* (an input of a submitted transaction,
//! tagged with that transaction's hash). One map from out-point to
//! reservation holds both, so a cell is never in both sets. Beside it stand
//! the outputs of in-flight transactions, which a later submission may spend
//! before layer 1 has confirmed them.

use vstd::prelude::*;
use crate::types::{hash_eq, OutPoint, Transaction, TransactionView};

verus! {

broadcast use vstd::array::group_array_axioms;

/// Why a cell is reserved.
#[derive(Clone, Copy, Debug, PartialEq, Eq)]
pub enum Reservation {
    /// Picked as a deposit of a block that is not submitted yet.
    Locked,
    /// Spent by the submitted transaction with this hash.
    InFlight([u8; 32]),
}

#[derive(Clone, Copy, Debug)]
struct Entry {
    out_point: OutPoint,
    state: Reservation,
}

/// The reservations after `lock_cell(o)`: a cell that is free becomes locked,
/// a reserved one stays as it is.
pub open spec fn lock_cell_spec(m: Map<OutPoint, Reservation>, o: OutPoint) -> Map<
    OutPoint,
    Reservation,
> {
    if m.dom().contains(o) {
        m
    } else {
        m.insert(o, Reservation::Locked)
    }
}

/// The reservations after locking the first `n` of `cells`, one after the
/// other.
pub open spec fn lock_cells_spec(m: Map<OutPoint, Reservation>, cells: Seq<OutPoint>, n: int) -> Map<
    OutPoint,
    Reservation,
>
    decreases n,
{
    if n <= 0 {
        m
    } else {
        lock_cell_spec(lock_cells_spec(m, cells, n - 1), cells[n - 1])
    }
}

/// The reservations after `apply_tx(tx)`: every input is in flight under the
/// transaction's hash, whatever it was before; nothing else changes.
pub open spec fn apply_tx_reservations(m: Map<OutPoint, Reservation>, tx: TransactionView) -> Map<
    OutPoint,
    Reservation,
> {
    Map::new(
        |o: OutPoint| m.dom().contains(o) || tx.inputs.contains(o),
        |o: OutPoint|
            if tx.inputs.contains(o) {
                Reservation::InFlight(tx.hash)
            } else {
                m[o]
            },
    )
}

/// The spendable outputs after `apply_tx(tx)`: the inputs are gone, the
/// transaction's own outputs are added.
pub open spec fn apply_tx_available(a: Set<OutPoint>, tx: TransactionView) -> Set<OutPoint> {
    Set::new(
        |o: OutPoint| (a.contains(o) && !tx.inputs.contains(o)) || tx.outputs().contains(o),
    )
}

/// The reservations after `confirm_tx` of the transaction with hash `hash`:
/// what was in flight under that hash is free again.
pub open spec fn confirm_tx_reservations(m: Map<OutPoint, Reservation>, hash: [u8; 32]) -> Map<
    OutPoint,
    Reservation,
> {
    Map::new(
        |o: OutPoint| m.dom().contains(o) && m[o] != Reservation::InFlight(hash),
        |o: OutPoint| m[o],
    )
}

/// The spendable outputs after `confirm_tx` of the transaction with hash
/// `hash`: its outputs are on layer 1 now and leave the local list.
pub open spec fn confirm_tx_available(a: Set<OutPoint>, hash: [u8; 32]) -> Set<OutPoint> {
    Set::new(|o: OutPoint| a.contains(o) && o.tx_hash != hash)
}

spec fn keys_unique(s: Seq<Entry>) -> bool {
    forall|i: int, j: int|
        0 <= i < s.len() && 0 <= j < s.len() && i != j ==> s[i].out_point != s[j].out_point
}

spec fn has_key(s: Seq<Entry>, o: OutPoint) -> bool {
    exists|i: int| 0 <= i < s.len() && #[trigger] s[i].out_point == o
}

spec fn index_of_key(s: Seq<Entry>, o: OutPoint) -> int {
    choose|i: int| 0 <= i < s.len() && #[trigger] s[i].out_point == o
}

spec fn entries_map(s: Seq<Entry>) -> Map<OutPoint, Reservation> {
    Map::new(|o: OutPoint| has_key(s, o), |o: OutPoint| s[index_of_key(s, o)].state)
}

spec fn points_set(s: Seq<OutPoint>) -> Set<OutPoint> {
    Set::new(|o: OutPoint| s.contains(o))
}

proof fn lemma_entries_map(s: Seq<Entry>)
    requires
        keys_unique(s),
    ensures
        forall|i: int|
            0 <= i < s.len() ==> entries_map(s).dom().contains(#[trigger] s[i].out_point)
                && entries_map(s)[s[i].out_point] == s[i].state,
        forall|o: OutPoint| #[trigger]
            entries_map(s).dom().contains(o) ==> 0 <= index_of_key(s, o) < s.len() && s[index_of_key(
                s,
                o,
            )].out_point == o,
{
    assert forall|i: int| 0 <= i < s.len() implies entries_map(s).dom().contains(
        #[trigger] s[i].out_point,
    ) && entries_map(s)[s[i].out_point] == s[i].state by {
        let o = s[i].out_point;
        assert(has_key(s, o));
        let k = index_of_key(s, o);
        assert(k == i);
    }
}

/// Cells reserved by local activity, and local outputs that may be spent.
#[derive(Debug)]
pub struct LocalCellsManager {
    reserved: Vec<Entry>,
    available: Vec<OutPoint>,
}

impl LocalCellsManager {
    /// No cell is listed twice.
    #[verifier::type_invariant]
    spec fn well_formed(&self) -> bool {
        keys_unique(self.reserved@)
    }

    /// Every reserved cell with the reason it is reserved for.
    pub closed spec fn reservations(&self) -> Map<OutPoint, Reservation> {
        entries_map(self.reserved@)
    }

    /// Outputs of in-flight transactions that nothing in flight has spent.
    pub closed spec fn available(&self) -> Set<OutPoint> {
        points_set(self.available@)
    }

    /// The locked set.
    pub open spec fn locked(&self) -> Set<OutPoint> {
        Set::new(
            |o: OutPoint|
                self.reservations().dom().contains(o) && self.reservations()[o]
                    == Reservation::Locked,
        )
    }

    /// The in-flight set, each cell with the hash of the transaction that
    /// spends it.
    pub open spec fn in_flight(&self) -> Map<OutPoint, [u8; 32]> {
        Map::new(
            |o: OutPoint|
                self.reservations().dom().contains(o) && self.reservations()[o] is InFlight,
            |o: OutPoint| self.reservations()[o]->InFlight_0,
        )
    }

    /// True if nothing is reserved and no local output is listed.
    pub open spec fn is_empty(&self) -> bool {
        self.reservations() == Map::<OutPoint, Reservation>::empty() && self.available()
            == Set::<OutPoint>::empty()
    }

    /// The locked set and the in-flight set never share a cell.
    pub proof fn lemma_sets_disjoint(&self)
        ensures
            self.locked().disjoint(self.in_flight().dom()),
    {
    }

    /// A manager with nothing reserved.
    pub fn new() -> (r: LocalCellsManager)
        ensures
            r.is_empty(),
    {
        let r = LocalCellsManager { reserved: Vec::new(), available: Vec::new() };
        assert(r.reservations() =~= Map::<OutPoint, Reservation>::empty());
        assert(r.available() =~= Set::<OutPoint>::empty());
        r
    }

    fn find(&self, out_point: &OutPoint) -> (r: Option<usize>)
        ensures
            match r {
                Some(i) => i < self.reserved@.len() && self.reserved@[i as int].out_point
                    == *out_point,
                None => !has_key(self.reserved@, *out_point),
            },
    {
        let mut i: usize = 0;
        while i < self.reserved.len()
            invariant
                i <= self.reserved.len(),
                forall|j: int| 0 <= j < i ==> self.reserved@[j].out_point != *out_point,
            decreases self.reserved.len() - i,
        {
            if self.reserved[i].out_point.same(out_point) {
                return Some(i);
            }
            i = i + 1;
        }
        None
    }

    /// The reservation of a cell, if it has one.
    pub fn reservation(&self, out_point: &OutPoint) -> (r: Option<Reservation>)
        ensures
            r == if self.reservations().dom().contains(*out_point) {
                Some(self.reservations()[*out_point])
            } else {
                None
            },
    {
        proof {
            use_type_invariant(self);
            lemma_entries_map(self.reserved@);
        }
        match self.find(out_point) {
            Some(i) => Some(self.reserved[i].state),
            None => None,
        }
    }

    /// True if the cell is reserved, locked or in flight: whoever picks
    /// cells to spend must leave it alone.
    pub fn is_locked(&self, out_point: &OutPoint) -> (r: bool)
        ensures
            r == self.reservations().dom().contains(*out_point),
            r == (self.locked().contains(*out_point) || self.in_flight().dom().contains(
                *out_point,
            )),
    {
        proof {
            use_type_invariant(self);
            lemma_entries_map(self.reserved@);
        }
        self.find(out_point).is_some()
    }

    /// True if the cell is in the in-flight set.
    pub fn is_in_flight(&self, out_point: &OutPoint) -> (r: bool)
        ensures
            r == self.in_flight().dom().contains(*out_point),
    {
        match self.reservation(out_point) {
            Some(Reservation::InFlight(_)) => true,
            _ => false,
        }
    }

    /// True if the cell is an output of an in-flight transaction that may be
    /// spent.
    pub fn is_available(&self, out_point: &OutPoint) -> (r: bool)
        ensures
            r == self.available().contains(*out_point),
    {
        points_contain(&self.available, out_point)
    }

    /// How many cells are reserved.
    pub fn reserved_count(&self) -> (r: usize)
        ensures
            r == self.reservations().dom().len(),
            self.reservations().dom().finite(),
    {
        proof {
            use_type_invariant(self);
            lemma_entries_len(self.reserved@);
        }
        self.reserved.len()
    }

    /// Reserves a cell as locked. A cell that is reserved already, locked or
    /// in flight, stays as it is.
    pub fn lock_cell(&mut self, out_point: OutPoint)
        ensures
            final(self).reservations() == lock_cell_spec(old(self).reservations(), out_point),
            final(self).available() == old(self).available(),
            final(self).reservations().dom().contains(out_point),
    {
        proof {
            use_type_invariant(&*self);
            lemma_entries_map(self.reserved@);
        }
        if self.find(&out_point).is_none() {
            let entry = Entry { out_point, state: Reservation::Locked };
            proof {
                lemma_push_entry(self.reserved@, entry);
            }
            let mut reserved: Vec<Entry> = Vec::new();
            std::mem::swap(&mut self.reserved, &mut reserved);
            reserved.push(entry);
            self.reserved = reserved;
        }
    }

    /// Puts a cell in flight under `hash`, whatever it was before.
    fn put_in_flight(&mut self, out_point: OutPoint, hash: [u8; 32])
        ensures
            final(self).reservations() == old(self).reservations().insert(
                out_point,
                Reservation::InFlight(hash),
            ),
            final(self).available@ == old(self).available@,
    {
        proof {
            use_type_invariant(&*self);
        }
        let entry = Entry { out_point, state: Reservation::InFlight(hash) };
        let found = self.find(&out_point);
        proof {
            match found {
                Some(i) => lemma_update_entry(self.reserved@, i as int, entry),
                None => lemma_push_entry(self.reserved@, entry),
            }
        }
        let mut reserved: Vec<Entry> = Vec::new();
        std::mem::swap(&mut self.reserved, &mut reserved);
        match found {
            Some(i) => {
                reserved.set(i, entry);
            },
            None => {
                reserved.push(entry);
            },
        }
        self.reserved = reserved;
    }

    /// Registers a submitted transaction: each input leaves the locked set,
    /// if it was there, and is in flight under the transaction's hash; each
    /// input leaves the spendable outputs and the transaction's own outputs
    /// join them.
    pub fn apply_tx(&mut self, tx: &Transaction)
        ensures
            final(self).reservations() == apply_tx_reservations(old(self).reservations(), tx@),
            final(self).available() == apply_tx_available(old(self).available(), tx@),
    {
        let ghost start = self.reservations();
        let ghost inputs = tx@.inputs;
        let mut i: usize = 0;
        while i < tx.inputs.len()
            invariant
                i <= tx.inputs.len(),
                inputs == tx.inputs@,
                self.available@ == old(self).available@,
                self.reservations() == apply_tx_reservations(
                    start,
                    TransactionView { inputs: inputs.take(i as int), ..tx@ },
                ),
            decreases tx.inputs.len() - i,
        {
            let ghost before = self.reservations();
            self.put_in_flight(tx.inputs[i], tx.hash);
            proof {
                let a = inputs.take(i as int);
                let b = inputs.take(i + 1);
                assert(b =~= a.push(inputs[i as int]));
                assert forall|o: OutPoint| b.contains(o) <==> (a.contains(o) || o
                    == inputs[i as int]) by {
                    if a.contains(o) {
                        let k = choose|k: int| 0 <= k < a.len() && a[k] == o;
                        assert(b[k] == o);
                    }
                    if o == inputs[i as int] {
                        assert(b[i as int] == o);
                    }
                }
                assert(self.reservations() =~= apply_tx_reservations(
                    start,
                    TransactionView { inputs: b, ..tx@ },
                ));
            }
            i = i + 1;
        }
        proof {
            assert(inputs.take(i as int) =~= inputs);
        }
        let mut available = points_without(&self.available, &tx.inputs);
        assert(points_set(self.available@) == old(self).available());
        let mut k: u32 = 0;
        let ghost kept = points_set(available@);
        assert(points_set(available@) =~= kept.union(
            Set::new(|o: OutPoint| o.tx_hash == tx.hash && o.index < 0u32),
        ));
        while k < tx.output_count
            invariant
                k <= tx.output_count,
                kept == Set::new(
                    |o: OutPoint| old(self).available().contains(o) && !tx@.inputs.contains(o),
                ),
                points_set(available@) == kept.union(
                    Set::new(|o: OutPoint| o.tx_hash == tx.hash && o.index < k),
                ),
            decreases tx.output_count - k,
        {
            let o = OutPoint { tx_hash: tx.hash, index: k };
            let ghost before = available@;
            if !points_contain(&available, &o) {
                available.push(o);
                proof {
                    lemma_push_point(before, o);
                }
            }
            proof {
                assert forall|x: OutPoint|
                    points_set(available@).contains(x) <==> (kept.contains(x) || (x.tx_hash
                        == tx.hash && x.index < k + 1)) by {
                    assert(points_set(before).contains(x) <==> (kept.contains(x) || (x.tx_hash
                        == tx.hash && x.index < k)));
                    if x.tx_hash == tx.hash && x.index == k {
                        assert(x == o);
                    }
                }
                assert(points_set(available@) =~= kept.union(
                    Set::new(|o: OutPoint| o.tx_hash == tx.hash && o.index < k + 1),
                ));
            }
            k = k + 1;
        }
        proof {
            use_type_invariant(&*self);
        }
        self.available = available;
        assert(self.available() =~= apply_tx_available(old(self).available(), tx@));
    }

    /// Releases a confirmed transaction: every cell in flight under its hash
    /// is free again, and its outputs leave the spendable list.
    pub fn confirm_tx(&mut self, tx: &Transaction)
        ensures
            final(self).reservations() == confirm_tx_reservations(
                old(self).reservations(),
                tx@.hash,
            ),
            final(self).available() == confirm_tx_available(old(self).available(), tx@.hash),
    {
        proof {
            use_type_invariant(&*self);
        }
        let ghost src = self.reserved@;
        let ghost gone = Reservation::InFlight(tx.hash);
        let ghost mut from: Seq<int> = Seq::empty();
        let ghost mut to: Seq<int> = Seq::empty();
        let mut kept: Vec<Entry> = Vec::new();
        let mut i: usize = 0;
        while i < self.reserved.len()
            invariant
                i <= self.reserved.len(),
                src == self.reserved@,
                gone == Reservation::InFlight(tx.hash),
                filtered(src, i as int, kept@, from, to, gone),
            decreases self.reserved.len() - i,
        {
            let e = self.reserved[i];
            let drop = match e.state {
                Reservation::InFlight(h) => hash_eq(&h, &tx.hash),
                Reservation::Locked => false,
            };
            if !drop {
                proof {
                    from = from.push(i as int);
                    to = to.push(kept@.len() as int);
                }
                kept.push(e);
            } else {
                proof {
                    to = to.push(-1);
                }
            }
            i = i + 1;
        }
        proof {
            lemma_filtered_map(src, kept@, from, to, gone, tx.hash);
        }
        self.reserved = kept;
        self.available = points_not_made_by(&self.available, &tx.hash);
        assert(self.available() =~= confirm_tx_available(old(self).available(), tx@.hash));
    }

    /// A manager that holds what this one holds now: for those who look at
    /// the reservations while this one goes on changing.
    pub fn snapshot(&self) -> (r: LocalCellsManager)
        ensures
            r.reservations() == self.reservations(),
            r.available() == self.available(),
    {
        proof {
            use_type_invariant(self);
        }
        let mut reserved: Vec<Entry> = Vec::new();
        let mut i: usize = 0;
        while i < self.reserved.len()
            invariant
                i <= self.reserved@.len(),
                reserved@ == self.reserved@.take(i as int),
            decreases self.reserved@.len() - i,
        {
            reserved.push(self.reserved[i]);
            assert(self.reserved@.take(i + 1) =~= self.reserved@.take(i as int).push(
                self.reserved@[i as int],
            ));
            i = i + 1;
        }
        assert(self.reserved@.take(self.reserved@.len() as int) =~= self.reserved@);
        let available = crate::types::copy_out_points(&self.available);
        LocalCellsManager { reserved, available }
    }

    /// Releases everything.
    pub fn reset(&mut self)
        ensures
            final(self).is_empty(),
    {
        self.reserved = Vec::new();
        self.available = Vec::new();
        assert(self.reservations() =~= Map::<OutPoint, Reservation>::empty());
        assert(self.available() =~= Set::<OutPoint>::empty());
    }
}

/// `kept` holds, in order, the entries among the first `n` of `src` whose
/// state is not `gone`; `from` and `to` say where each came from and went.
spec fn filtered(
    src: Seq<Entry>,
    n: int,
    kept: Seq<Entry>,
    from: Seq<int>,
    to: Seq<int>,
    gone: Reservation,
) -> bool {
    &&& from.len() == kept.len()
    &&& to.len() == n
    &&& 0 <= n <= src.len()
    &&& forall|k: int|
        0 <= k < kept.len() ==> 0 <= #[trigger] from[k] < n && kept[k] == src[from[k]]
            && src[from[k]].state != gone
    &&& forall|a: int, b: int| 0 <= a < b < kept.len() ==> #[trigger] from[a] < #[trigger] from[b]
    &&& forall|j: int|
        0 <= j < n && src[j].state != gone ==> 0 <= #[trigger] to[j] < kept.len() && kept[to[j]]
            == src[j]
}

proof fn lemma_filtered_map(
    src: Seq<Entry>,
    kept: Seq<Entry>,
    from: Seq<int>,
    to: Seq<int>,
    gone: Reservation,
    hash: [u8; 32],
)
    requires
        keys_unique(src),
        filtered(src, src.len() as int, kept, from, to, gone),
        gone == Reservation::InFlight(hash),
    ensures
        keys_unique(kept),
        entries_map(kept) == confirm_tx_reservations(entries_map(src), hash),
{
    assert forall|a: int, b: int|
        0 <= a < kept.len() && 0 <= b < kept.len() && a != b implies kept[a].out_point
        != kept[b].out_point by {
        if a < b {
            assert(from[a] < from[b]);
        } else {
            assert(from[b] < from[a]);
        }
        assert(kept[a] == src[from[a]]);
        assert(kept[b] == src[from[b]]);
    }
    lemma_entries_map(src);
    lemma_entries_map(kept);
    let m = entries_map(src);
    let n = entries_map(kept);
    let want = confirm_tx_reservations(m, hash);
    assert forall|o: OutPoint| n.dom().contains(o) <==> want.dom().contains(o) by {
        if n.dom().contains(o) {
            let k = index_of_key(kept, o);
            let j = from[k];
            assert(src[j].out_point == o);
        }
        if want.dom().contains(o) {
            let j = index_of_key(src, o);
            assert(src[j].out_point == o);
            let k = to[j];
            assert(kept[k].out_point == o);
        }
    }
    assert forall|o: OutPoint| n.dom().contains(o) implies n[o] == want[o] by {
        let k = index_of_key(kept, o);
        let j = from[k];
        assert(src[j].out_point == o);
    }
    assert(n =~= want);
}

proof fn lemma_push_entry(s: Seq<Entry>, e: Entry)
    requires
        keys_unique(s),
        !has_key(s, e.out_point),
    ensures
        keys_unique(s.push(e)),
        entries_map(s.push(e)) == entries_map(s).insert(e.out_point, e.state),
{
    let t = s.push(e);
    assert(keys_unique(t)) by {
        assert forall|i: int, j: int|
            0 <= i < t.len() && 0 <= j < t.len() && i != j implies t[i].out_point
            != t[j].out_point by {
            if i < s.len() {
                assert(s[i].out_point == t[i].out_point);
            }
            if j < s.len() {
                assert(s[j].out_point == t[j].out_point);
            }
        }
    }
    lemma_entries_map(s);
    lemma_entries_map(t);
    let want = entries_map(s).insert(e.out_point, e.state);
    assert forall|o: OutPoint| entries_map(t).dom().contains(o) <==> want.dom().contains(o) by {
        if entries_map(t).dom().contains(o) {
            let k = index_of_key(t, o);
            if k < s.len() {
                assert(s[k].out_point == o);
            }
        }
        if entries_map(s).dom().contains(o) {
            let k = index_of_key(s, o);
            assert(t[k].out_point == o);
        }
        if o == e.out_point {
            assert(t[s.len() as int].out_point == o);
        }
    }
    assert forall|o: OutPoint| entries_map(t).dom().contains(o) implies entries_map(t)[o]
        == want[o] by {
        let k = index_of_key(t, o);
        if k < s.len() {
            assert(s[k].out_point == o);
        }
    }
    assert(entries_map(t) =~= want);
}

proof fn lemma_update_entry(s: Seq<Entry>, i: int, e: Entry)
    requires
        keys_unique(s),
        0 <= i < s.len(),
        s[i].out_point == e.out_point,
    ensures
        keys_unique(s.update(i, e)),
        entries_map(s.update(i, e)) == entries_map(s).insert(e.out_point, e.state),
{
    let t = s.update(i, e);
    assert(keys_unique(t)) by {
        assert forall|a: int, b: int|
            0 <= a < t.len() && 0 <= b < t.len() && a != b implies t[a].out_point
            != t[b].out_point by {
            assert(s[a].out_point == t[a].out_point);
            assert(s[b].out_point == t[b].out_point);
        }
    }
    lemma_entries_map(s);
    lemma_entries_map(t);
    let want = entries_map(s).insert(e.out_point, e.state);
    assert forall|o: OutPoint| entries_map(t).dom().contains(o) <==> want.dom().contains(o) by {
        if entries_map(t).dom().contains(o) {
            let k = index_of_key(t, o);
            assert(s[k].out_point == o);
        }
        if entries_map(s).dom().contains(o) {
            let k = index_of_key(s, o);
            assert(t[k].out_point == o);
        }
        if o == e.out_point {
            assert(t[i].out_point == o);
        }
    }
    assert forall|o: OutPoint| entries_map(t).dom().contains(o) implies entries_map(t)[o]
        == want[o] by {
        let k = index_of_key(t, o);
        assert(s[k].out_point == o);
    }
    assert(entries_map(t) =~= want);
}

proof fn lemma_entries_len(s: Seq<Entry>)
    requires
        keys_unique(s),
    ensures
        entries_map(s).dom().finite(),
        entries_map(s).dom().len() == s.len(),
    decreases s.len(),
{
    if s.len() == 0 {
        assert(entries_map(s).dom() =~= Set::<OutPoint>::empty());
    } else {
        let head = s.drop_last();
        let e = s.last();
        assert(keys_unique(head)) by {
            assert forall|i: int, j: int|
                0 <= i < head.len() && 0 <= j < head.len() && i != j implies head[i].out_point
                != head[j].out_point by {
                assert(s[i].out_point == head[i].out_point);
                assert(s[j].out_point == head[j].out_point);
            }
        }
        assert(!has_key(head, e.out_point)) by {
            if has_key(head, e.out_point) {
                let k = choose|k: int| 0 <= k < head.len() && head[k].out_point == e.out_point;
                assert(s[k].out_point == s[s.len() - 1].out_point);
            }
        }
        lemma_entries_len(head);
        assert(s =~= head.push(e));
        lemma_push_entry(head, e);
        assert(entries_map(s).dom() =~= entries_map(head).dom().insert(e.out_point));
    }
}

proof fn lemma_push_point(s: Seq<OutPoint>, o: OutPoint)
    ensures
        points_set(s.push(o)) == points_set(s).insert(o),
{
    let t = s.push(o);
    assert forall|x: OutPoint| points_set(t).contains(x) <==> points_set(s).insert(o).contains(
        x,
    ) by {
        if t.contains(x) {
            let k = choose|k: int| 0 <= k < t.len() && t[k] == x;
            if k < s.len() {
                assert(s[k] == x);
            }
        }
        if s.contains(x) {
            let k = choose|k: int| 0 <= k < s.len() && s[k] == x;
            assert(t[k] == x);
        }
        if x == o {
            assert(t[s.len() as int] == x);
        }
    }
    assert(points_set(t) =~= points_set(s).insert(o));
}

fn points_contain(v: &Vec<OutPoint>, o: &OutPoint) -> (r: bool)
    ensures
        r == v@.contains(*o),
        r == points_set(v@).contains(*o),
{
    let mut i: usize = 0;
    while i < v.len()
        invariant
            i <= v.len(),
            forall|j: int| 0 <= j < i ==> v@[j] != *o,
        decreases v.len() - i,
    {
        if v[i].same(o) {
            return true;
        }
        i = i + 1;
    }
    false
}

/// The members of `v` that `gone` does not hold.
fn points_without(v: &Vec<OutPoint>, gone: &Vec<OutPoint>) -> (r: Vec<OutPoint>)
    ensures
        points_set(r@) == Set::new(
            |o: OutPoint| points_set(v@).contains(o) && !gone@.contains(o),
        ),
{
    let mut r: Vec<OutPoint> = Vec::new();
    let mut i: usize = 0;
    while i < v.len()
        invariant
            i <= v.len(),
            forall|o: OutPoint|
                r@.contains(o) <==> (v@.take(i as int).contains(o) && !gone@.contains(o)),
        decreases v.len() - i,
    {
        let ghost before = r@;
        let o = v[i];
        let keep = !points_contain(gone, &o);
        if keep {
            r.push(o);
            proof {
                lemma_push_point(before, o);
            }
        }
        proof {
            lemma_push_point(v@.take(i as int), o);
            assert(v@.take(i + 1) =~= v@.take(i as int).push(o));
            assert forall|x: OutPoint|
                r@.contains(x) <==> (v@.take(i + 1).contains(x) && !gone@.contains(x)) by {
                assert(points_set(r@).contains(x) == r@.contains(x));
                assert(points_set(before).contains(x) == before.contains(x));
                assert(points_set(v@.take(i + 1)).contains(x) == v@.take(i + 1).contains(x));
                assert(points_set(v@.take(i as int)).contains(x) == v@.take(i as int).contains(x));
            }
        }
        i = i + 1;
    }
    assert(v@.take(v.len() as int) =~= v@);
    assert(points_set(r@) =~= Set::new(
        |o: OutPoint| points_set(v@).contains(o) && !gone@.contains(o),
    ));
    r
}

/// The members of `v` that the transaction with hash `hash` did not make.
fn points_not_made_by(v: &Vec<OutPoint>, hash: &[u8; 32]) -> (r: Vec<OutPoint>)
    ensures
        points_set(r@) == confirm_tx_available(points_set(v@), *hash),
{
    let mut r: Vec<OutPoint> = Vec::new();
    let mut i: usize = 0;
    while i < v.len()
        invariant
            i <= v.len(),
            forall|o: OutPoint|
                r@.contains(o) <==> (v@.take(i as int).contains(o) && o.tx_hash != *hash),
        decreases v.len() - i,
    {
        let ghost before = r@;
        let o = v[i];
        let keep = !hash_eq(&o.tx_hash, hash);
        if keep {
            r.push(o);
            proof {
                lemma_push_point(before, o);
            }
        }
        proof {
            lemma_push_point(v@.take(i as int), o);
            assert(v@.take(i + 1) =~= v@.take(i as int).push(o));
            assert forall|x: OutPoint|
                r@.contains(x) <==> (v@.take(i + 1).contains(x) && x.tx_hash != *hash) by {
                assert(points_set(r@).contains(x) == r@.contains(x));
                assert(points_set(before).contains(x) == before.contains(x));
                assert(points_set(v@.take(i + 1)).contains(x) == v@.take(i + 1).contains(x));
                assert(points_set(v@.take(i as int)).contains(x) == v@.take(i as int).contains(x));
            }
        }
        i = i + 1;
    }
    assert(v@.take(v.len() as int) =~= v@);
    assert(points_set(r@) =~= confirm_tx_available(points_set(v@), *hash));
    r
}

} // verus!
