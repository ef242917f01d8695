use gw_psc::local_cells::{LocalCellsManager, Reservation};
use gw_psc::types::{NumberHash, OutPoint, Transaction};

fn h(b: u8) -> [u8; 32] {
    [b; 32]
}

fn op(b: u8, index: u32) -> OutPoint {
    OutPoint::new(h(b), index)
}

#[test]
fn new_manager_is_empty() {
    let m = LocalCellsManager::new();
    assert!(!m.is_locked(&op(1, 0)));
    assert!(!m.is_in_flight(&op(1, 0)));
    assert!(!m.is_available(&op(1, 0)));
    assert_eq!(m.reserved_count(), 0);
    assert_eq!(m.reservation(&op(1, 0)), None);
}

#[test]
fn lock_cell_is_idempotent() {
    let mut m = LocalCellsManager::new();
    m.lock_cell(op(1, 0));
    m.lock_cell(op(1, 0));
    m.lock_cell(op(1, 1));
    assert_eq!(m.reserved_count(), 2);
    assert_eq!(m.reservation(&op(1, 0)), Some(Reservation::Locked));
    assert_eq!(m.reservation(&op(1, 1)), Some(Reservation::Locked));
    assert!(m.is_locked(&op(1, 0)));
    assert!(!m.is_in_flight(&op(1, 0)));
    assert!(!m.is_locked(&op(2, 0)));
}

#[test]
fn apply_tx_moves_inputs_from_locked_to_in_flight() {
    let mut m = LocalCellsManager::new();
    m.lock_cell(op(1, 0));
    m.lock_cell(op(1, 1));
    let tx = Transaction::new(h(9), vec![op(1, 0), op(3, 0)], 2, vec![1]);
    m.apply_tx(&tx);
    assert_eq!(m.reservation(&op(1, 0)), Some(Reservation::InFlight(h(9))));
    assert_eq!(m.reservation(&op(3, 0)), Some(Reservation::InFlight(h(9))));
    assert_eq!(m.reservation(&op(1, 1)), Some(Reservation::Locked));
    assert!(m.is_in_flight(&op(1, 0)));
    assert!(m.is_locked(&op(1, 0)));
    assert_eq!(m.reserved_count(), 3);
    assert!(m.is_available(&op(9, 0)));
    assert!(m.is_available(&op(9, 1)));
    assert!(!m.is_available(&op(9, 2)));
}

#[test]
fn apply_tx_twice_changes_nothing_more() {
    let mut m = LocalCellsManager::new();
    let tx = Transaction::new(h(9), vec![op(1, 0)], 1, vec![1]);
    m.apply_tx(&tx);
    m.apply_tx(&tx);
    assert_eq!(m.reserved_count(), 1);
    assert_eq!(m.reservation(&op(1, 0)), Some(Reservation::InFlight(h(9))));
    assert!(m.is_available(&op(9, 0)));
}

#[test]
fn lock_cell_leaves_an_in_flight_cell_in_flight() {
    let mut m = LocalCellsManager::new();
    let tx = Transaction::new(h(9), vec![op(1, 0)], 0, vec![]);
    m.apply_tx(&tx);
    m.lock_cell(op(1, 0));
    assert_eq!(m.reservation(&op(1, 0)), Some(Reservation::InFlight(h(9))));
    assert_eq!(m.reserved_count(), 1);
}

#[test]
fn chained_tx_spends_a_local_output() {
    let mut m = LocalCellsManager::new();
    let first = Transaction::new(h(9), vec![op(1, 0)], 2, vec![1]);
    let second = Transaction::new(h(10), vec![op(9, 0)], 1, vec![2]);
    m.apply_tx(&first);
    m.apply_tx(&second);
    assert!(!m.is_available(&op(9, 0)));
    assert!(m.is_available(&op(9, 1)));
    assert!(m.is_available(&op(10, 0)));
    assert_eq!(m.reservation(&op(9, 0)), Some(Reservation::InFlight(h(10))));
    m.confirm_tx(&first);
    assert_eq!(m.reservation(&op(1, 0)), None);
    assert_eq!(m.reservation(&op(9, 0)), Some(Reservation::InFlight(h(10))));
    assert!(!m.is_available(&op(9, 1)));
    assert!(m.is_available(&op(10, 0)));
    m.confirm_tx(&second);
    assert_eq!(m.reserved_count(), 0);
    assert!(!m.is_available(&op(10, 0)));
}

#[test]
fn confirm_tx_releases_only_its_own_tag() {
    let mut m = LocalCellsManager::new();
    m.lock_cell(op(5, 0));
    let a = Transaction::new(h(9), vec![op(1, 0), op(1, 1)], 1, vec![]);
    let b = Transaction::new(h(10), vec![op(2, 0)], 1, vec![]);
    m.apply_tx(&a);
    m.apply_tx(&b);
    m.confirm_tx(&a);
    assert_eq!(m.reservation(&op(1, 0)), None);
    assert_eq!(m.reservation(&op(1, 1)), None);
    assert_eq!(m.reservation(&op(2, 0)), Some(Reservation::InFlight(h(10))));
    assert_eq!(m.reservation(&op(5, 0)), Some(Reservation::Locked));
    assert!(!m.is_available(&op(9, 0)));
    assert!(m.is_available(&op(10, 0)));
    assert_eq!(m.reserved_count(), 2);
}

#[test]
fn a_cell_is_never_in_both_sets() {
    let mut m = LocalCellsManager::new();
    let cells = [op(1, 0), op(1, 1), op(2, 0), op(3, 7)];
    for c in cells {
        m.lock_cell(c);
    }
    let tx = Transaction::new(h(9), vec![op(1, 1), op(3, 7), op(4, 0)], 3, vec![]);
    m.apply_tx(&tx);
    m.lock_cell(op(3, 7));
    for c in [op(1, 0), op(1, 1), op(2, 0), op(3, 7), op(4, 0), op(8, 8)] {
        let locked = m.reservation(&c) == Some(Reservation::Locked);
        let in_flight = m.is_in_flight(&c);
        assert!(!(locked && in_flight));
        assert_eq!(m.is_locked(&c), locked || in_flight);
    }
}

#[test]
fn reset_releases_everything() {
    let mut m = LocalCellsManager::new();
    m.lock_cell(op(1, 0));
    m.apply_tx(&Transaction::new(h(9), vec![op(2, 0)], 1, vec![]));
    m.reset();
    assert_eq!(m.reserved_count(), 0);
    assert!(!m.is_available(&op(9, 0)));
}

#[test]
fn plain_values_compare_by_content() {
    assert!(op(1, 2).same(&op(1, 2)));
    assert!(!op(1, 2).same(&op(1, 3)));
    assert!(!op(1, 2).same(&op(2, 2)));
    let mut other = h(1);
    other[31] = 2;
    assert!(!OutPoint::new(other, 2).same(&op(1, 2)));
    assert!(NumberHash::new(3, h(1)).same(&NumberHash::new(3, h(1))));
    assert!(!NumberHash::new(3, h(1)).same(&NumberHash::new(4, h(1))));
    assert!(!NumberHash::new(3, h(1)).same(&NumberHash::new(3, other)));
    let tx = Transaction::new(h(9), vec![op(2, 0)], 1, vec![1, 2, 3]);
    let copy = tx.duplicate();
    assert_eq!(copy, tx);
    assert!(copy.same_bytes(&tx));
    assert!(!tx.same_bytes(&Transaction::new(h(9), vec![op(2, 0)], 1, vec![1, 2, 4])));
    assert!(!tx.same_bytes(&Transaction::new(h(9), vec![op(2, 0)], 1, vec![1, 2])));
}

#[test]
fn snapshot_holds_what_the_manager_held() {
    let mut m = LocalCellsManager::new();
    m.lock_cell(op(1, 0));
    m.apply_tx(&Transaction::new(h(9), vec![op(2, 0)], 1, vec![]));
    let snap = m.snapshot();
    m.lock_cell(op(3, 0));
    m.confirm_tx(&Transaction::new(h(9), vec![], 0, vec![]));
    assert_eq!(snap.reservation(&op(1, 0)), Some(Reservation::Locked));
    assert_eq!(snap.reservation(&op(2, 0)), Some(Reservation::InFlight(h(9))));
    assert_eq!(snap.reservation(&op(3, 0)), None);
    assert!(snap.is_available(&op(9, 0)));
    assert_eq!(snap.reserved_count(), 2);
    assert!(!m.is_available(&op(9, 0)));
    assert_eq!(LocalCellsManager::new().snapshot().reserved_count(), 0);
}
