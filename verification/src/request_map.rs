//! Transactions and withdrawal requests that wait in the queue, by hash, so
//! that they can be looked up while they wait.
//!
//! An entry is taken out again through the handle that `insert` gave for
//! it. The caller that shares the map between threads wraps it in a lock and
//! releases the handle when it is dropped.

use vstd::prelude::*;
use crate::types::{copy_bytes, hash_eq};

verus! {

broadcast use vstd::array::group_array_axioms;

/// What waits in the queue, serialized.
#[derive(Clone, Debug, PartialEq, Eq)]
pub enum Request {
    Tx(Vec<u8>),
    Withdrawal(Vec<u8>),
}

/// The mathematical value of a [`Request`].
pub enum RequestView {
    Tx(Seq<u8>),
    Withdrawal(Seq<u8>),
}

impl View for Request {
    type V = RequestView;

    open spec fn view(&self) -> RequestView {
        match *self {
            Request::Tx(b) => RequestView::Tx(b@),
            Request::Withdrawal(b) => RequestView::Withdrawal(b@),
        }
    }
}

#[derive(Debug)]
struct Slot {
    hash: [u8; 32],
    request: Request,
}

spec fn hashes_unique(s: Seq<Slot>) -> bool {
    forall|i: int, j: int| 0 <= i < s.len() && 0 <= j < s.len() && i != j ==> s[i].hash != s[j].hash
}

spec fn has_hash(s: Seq<Slot>, k: [u8; 32]) -> bool {
    exists|i: int| 0 <= i < s.len() && #[trigger] s[i].hash == k
}

spec fn index_of_hash(s: Seq<Slot>, k: [u8; 32]) -> int {
    choose|i: int| 0 <= i < s.len() && #[trigger] s[i].hash == k
}

spec fn slots_map(s: Seq<Slot>) -> Map<[u8; 32], RequestView> {
    Map::new(|k: [u8; 32]| has_hash(s, k), |k: [u8; 32]| s[index_of_hash(s, k)].request@)
}

proof fn lemma_slots_map(s: Seq<Slot>)
    requires
        hashes_unique(s),
    ensures
        forall|i: int|
            0 <= i < s.len() ==> slots_map(s).dom().contains(#[trigger] s[i].hash) && slots_map(
                s,
            )[s[i].hash] == s[i].request@,
        forall|k: [u8; 32]| #[trigger]
            slots_map(s).dom().contains(k) ==> 0 <= index_of_hash(s, k) < s.len() && s[index_of_hash(
                s,
                k,
            )].hash == k,
{
    assert forall|i: int| 0 <= i < s.len() implies slots_map(s).dom().contains(
        #[trigger] s[i].hash,
    ) && slots_map(s)[s[i].hash] == s[i].request@ by {
        let k = s[i].hash;
        assert(has_hash(s, k));
        assert(index_of_hash(s, k) == i);
    }
}

proof fn lemma_push_slot(s: Seq<Slot>, e: Slot)
    requires
        hashes_unique(s),
        !has_hash(s, e.hash),
    ensures
        hashes_unique(s.push(e)),
        slots_map(s.push(e)) == slots_map(s).insert(e.hash, e.request@),
{
    let t = s.push(e);
    assert forall|i: int, j: int|
        0 <= i < t.len() && 0 <= j < t.len() && i != j implies t[i].hash != t[j].hash by {
        if i < s.len() {
            assert(s[i].hash == t[i].hash);
        }
        if j < s.len() {
            assert(s[j].hash == t[j].hash);
        }
    }
    lemma_slots_map(s);
    lemma_slots_map(t);
    let want = slots_map(s).insert(e.hash, e.request@);
    assert forall|k: [u8; 32]| slots_map(t).dom().contains(k) <==> want.dom().contains(k) by {
        if slots_map(t).dom().contains(k) {
            let i = index_of_hash(t, k);
            if i < s.len() {
                assert(s[i].hash == k);
            }
        }
        if slots_map(s).dom().contains(k) {
            let i = index_of_hash(s, k);
            assert(t[i].hash == k);
        }
        if k == e.hash {
            assert(t[s.len() as int].hash == k);
        }
    }
    assert forall|k: [u8; 32]| slots_map(t).dom().contains(k) implies slots_map(t)[k]
        == want[k] by {
        let i = index_of_hash(t, k);
        if i < s.len() {
            assert(s[i].hash == k);
        }
    }
    assert(slots_map(t) =~= want);
}

proof fn lemma_update_slot(s: Seq<Slot>, i: int, e: Slot)
    requires
        hashes_unique(s),
        0 <= i < s.len(),
        s[i].hash == e.hash,
    ensures
        hashes_unique(s.update(i, e)),
        slots_map(s.update(i, e)) == slots_map(s).insert(e.hash, e.request@),
{
    let t = s.update(i, e);
    assert forall|a: int, b: int|
        0 <= a < t.len() && 0 <= b < t.len() && a != b implies t[a].hash != t[b].hash by {
        assert(s[a].hash == t[a].hash);
        assert(s[b].hash == t[b].hash);
    }
    lemma_slots_map(s);
    lemma_slots_map(t);
    let want = slots_map(s).insert(e.hash, e.request@);
    assert forall|k: [u8; 32]| slots_map(t).dom().contains(k) <==> want.dom().contains(k) by {
        if slots_map(t).dom().contains(k) {
            let a = index_of_hash(t, k);
            assert(s[a].hash == k);
        }
        if slots_map(s).dom().contains(k) {
            let a = index_of_hash(s, k);
            assert(t[a].hash == k);
        }
        if k == e.hash {
            assert(t[i].hash == k);
        }
    }
    assert forall|k: [u8; 32]| slots_map(t).dom().contains(k) implies slots_map(t)[k]
        == want[k] by {
        let a = index_of_hash(t, k);
        assert(s[a].hash == k);
    }
    assert(slots_map(t) =~= want);
}

proof fn lemma_remove_slot(s: Seq<Slot>, i: int)
    requires
        hashes_unique(s),
        0 <= i < s.len(),
    ensures
        hashes_unique(s.remove(i)),
        slots_map(s.remove(i)) == slots_map(s).remove(s[i].hash),
{
    let t = s.remove(i);
    assert forall|a: int| 0 <= a < t.len() implies #[trigger] t[a] == s[if a < i {
        a
    } else {
        a + 1
    }] by {}
    assert forall|a: int, b: int|
        0 <= a < t.len() && 0 <= b < t.len() && a != b implies t[a].hash != t[b].hash by {
        let sa = if a < i {
            a
        } else {
            a + 1
        };
        let sb = if b < i {
            b
        } else {
            b + 1
        };
        assert(t[a] == s[sa]);
        assert(t[b] == s[sb]);
    }
    lemma_slots_map(s);
    lemma_slots_map(t);
    let want = slots_map(s).remove(s[i].hash);
    assert forall|k: [u8; 32]| slots_map(t).dom().contains(k) <==> want.dom().contains(k) by {
        if slots_map(t).dom().contains(k) {
            let a = index_of_hash(t, k);
            let sa = if a < i {
                a
            } else {
                a + 1
            };
            assert(t[a] == s[sa]);
            assert(s[sa].hash == k);
        }
        if want.dom().contains(k) {
            let sa = index_of_hash(s, k);
            let a = if sa < i {
                sa
            } else {
                sa - 1
            };
            assert(t[a] == s[sa]);
            assert(t[a].hash == k);
        }
    }
    assert forall|k: [u8; 32]| slots_map(t).dom().contains(k) implies slots_map(t)[k]
        == want[k] by {
        let a = index_of_hash(t, k);
        let sa = if a < i {
            a
        } else {
            a + 1
        };
        assert(t[a] == s[sa]);
        assert(s[sa].hash == k);
    }
    assert(slots_map(t) =~= want);
}

proof fn lemma_slots_len(s: Seq<Slot>)
    requires
        hashes_unique(s),
    ensures
        slots_map(s).dom().finite(),
        slots_map(s).dom().len() == s.len(),
    decreases s.len(),
{
    if s.len() == 0 {
        assert(slots_map(s).dom() =~= Set::<[u8; 32]>::empty());
    } else {
        let head = s.drop_last();
        let e = s.last();
        assert forall|i: int, j: int|
            0 <= i < head.len() && 0 <= j < head.len() && i != j implies head[i].hash
            != head[j].hash by {
            assert(s[i].hash == head[i].hash);
            assert(s[j].hash == head[j].hash);
        }
        if has_hash(head, e.hash) {
            let k = choose|k: int| 0 <= k < head.len() && head[k].hash == e.hash;
            assert(s[k].hash == s[s.len() - 1].hash);
        }
        lemma_slots_len(head);
        assert(s =~= head.push(e));
        lemma_push_slot(head, e);
        assert(slots_map(s).dom() =~= slots_map(head).dom().insert(e.hash));
    }
}

/// The right to take one entry out of the map again.
#[derive(Debug)]
pub struct InQueueRequestHandle {
    hash: [u8; 32],
}

/// Hold in queue transactions and withdrawal requests.
#[derive(Debug)]
pub struct InQueueRequestMap {
    slots: Vec<Slot>,
}

impl View for InQueueRequestMap {
    type V = Map<[u8; 32], RequestView>;

    closed spec fn view(&self) -> Map<[u8; 32], RequestView> {
        slots_map(self.slots@)
    }
}

impl InQueueRequestHandle {
    /// The hash of the entry that the handle stands for.
    pub closed spec fn key(&self) -> [u8; 32] {
        self.hash
    }

    /// The hash of the entry that the handle stands for.
    pub fn hash(&self) -> (r: [u8; 32])
        ensures
            r == self.key(),
    {
        self.hash
    }

    /// Gives the handle back: its entry leaves the map.
    pub fn release(self, map: &mut InQueueRequestMap)
        ensures
            final(map)@ == old(map)@.remove(self.key()),
    {
        map.remove(&self.hash);
    }
}

impl InQueueRequestMap {
    /// No hash is listed twice.
    #[verifier::type_invariant]
    spec fn well_formed(&self) -> bool {
        hashes_unique(self.slots@)
    }

    /// An empty map.
    pub fn new() -> (r: InQueueRequestMap)
        ensures
            r@ == Map::<[u8; 32], RequestView>::empty(),
    {
        let r = InQueueRequestMap { slots: Vec::new() };
        assert(r@ =~= Map::<[u8; 32], RequestView>::empty());
        r
    }

    fn find(&self, k: &[u8; 32]) -> (r: Option<usize>)
        ensures
            match r {
                Some(i) => i < self.slots@.len() && self.slots@[i as int].hash == *k,
                None => !has_hash(self.slots@, *k),
            },
    {
        let mut i: usize = 0;
        while i < self.slots.len()
            invariant
                i <= self.slots@.len(),
                forall|j: int| 0 <= j < i ==> self.slots@[j].hash != *k,
            decreases self.slots@.len() - i,
        {
            if hash_eq(&self.slots[i].hash, k) {
                return Some(i);
            }
            i = i + 1;
        }
        None
    }

    /// Puts `v` under `k`, in place of what was there. A handle comes back
    /// only if nothing was there before: whoever put the first entry keeps
    /// the right to take it out.
    pub fn insert(&mut self, k: [u8; 32], v: Request) -> (r: Option<InQueueRequestHandle>)
        ensures
            final(self)@ == old(self)@.insert(k, v@),
            r is Some <==> !old(self)@.dom().contains(k),
            r matches Some(handle) ==> handle.key() == k,
    {
        proof {
            use_type_invariant(&*self);
            lemma_slots_map(self.slots@);
        }
        let slot = Slot { hash: k, request: v };
        let found = self.find(&k);
        proof {
            match found {
                Some(i) => lemma_update_slot(self.slots@, i as int, slot),
                None => lemma_push_slot(self.slots@, slot),
            }
        }
        let mut slots: Vec<Slot> = Vec::new();
        std::mem::swap(&mut self.slots, &mut slots);
        match found {
            Some(i) => {
                slots.set(i, slot);
                self.slots = slots;
                None
            },
            None => {
                slots.push(slot);
                self.slots = slots;
                Some(InQueueRequestHandle { hash: k })
            },
        }
    }

    /// Takes the entry under `k` out, if there is one.
    pub fn remove(&mut self, k: &[u8; 32])
        ensures
            final(self)@ == old(self)@.remove(*k),
    {
        proof {
            use_type_invariant(&*self);
            lemma_slots_map(self.slots@);
        }
        match self.find(k) {
            Some(i) => {
                proof {
                    lemma_remove_slot(self.slots@, i as int);
                }
                let mut slots: Vec<Slot> = Vec::new();
                std::mem::swap(&mut self.slots, &mut slots);
                slots.remove(i);
                self.slots = slots;
            },
            None => {
                assert(self@ =~= old(self)@.remove(*k));
            },
        }
    }

    /// The transaction that waits under `k`.
    pub fn get_transaction(&self, k: &[u8; 32]) -> (r: Option<Vec<u8>>)
        ensures
            match r {
                Some(tx) => self@.dom().contains(*k) && self@[*k] == RequestView::Tx(tx@),
                None => !(self@.dom().contains(*k) && self@[*k] is Tx),
            },
    {
        proof {
            use_type_invariant(self);
            lemma_slots_map(self.slots@);
        }
        match self.find(k) {
            Some(i) => match &self.slots[i].request {
                Request::Tx(tx) => Some(copy_bytes(tx)),
                _ => None,
            },
            None => None,
        }
    }

    /// The withdrawal request that waits under `k`.
    pub fn get_withdrawal(&self, k: &[u8; 32]) -> (r: Option<Vec<u8>>)
        ensures
            match r {
                Some(w) => self@.dom().contains(*k) && self@[*k] == RequestView::Withdrawal(w@),
                None => !(self@.dom().contains(*k) && self@[*k] is Withdrawal),
            },
    {
        proof {
            use_type_invariant(self);
            lemma_slots_map(self.slots@);
        }
        match self.find(k) {
            Some(i) => match &self.slots[i].request {
                Request::Withdrawal(w) => Some(copy_bytes(w)),
                _ => None,
            },
            None => None,
        }
    }

    /// True if something waits under `k`.
    pub fn contains(&self, k: &[u8; 32]) -> (r: bool)
        ensures
            r == self@.dom().contains(*k),
    {
        proof {
            use_type_invariant(self);
            lemma_slots_map(self.slots@);
        }
        self.find(k).is_some()
    }

    /// How many entries wait.
    pub fn len(&self) -> (r: usize)
        ensures
            self@.dom().finite(),
            r == self@.dom().len(),
    {
        proof {
            use_type_invariant(self);
            lemma_slots_len(self.slots@);
        }
        self.slots.len()
    }
}

} // verus!
