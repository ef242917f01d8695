use gw_psc::request_map::{InQueueRequestMap, Request};

fn h(b: u8) -> [u8; 32] {
    [b; 32]
}

#[test]
fn insert_gives_a_handle_only_for_a_new_hash() {
    let mut map = InQueueRequestMap::new();
    assert_eq!(map.len(), 0);
    let first = map.insert(h(1), Request::Tx(vec![1]));
    assert!(first.is_some());
    assert_eq!(first.as_ref().unwrap().hash(), h(1));
    // The same hash again: the value is replaced and no handle is given.
    assert!(map.insert(h(1), Request::Tx(vec![2])).is_none());
    assert_eq!(map.get_transaction(&h(1)), Some(vec![2]));
    assert_eq!(map.len(), 1);
    assert!(map.insert(h(2), Request::Withdrawal(vec![3])).is_some());
    assert_eq!(map.len(), 2);
}

#[test]
fn lookups_tell_transactions_from_withdrawals() {
    let mut map = InQueueRequestMap::new();
    let _tx = map.insert(h(1), Request::Tx(vec![1, 2]));
    let _w = map.insert(h(2), Request::Withdrawal(vec![3, 4]));
    assert_eq!(map.get_transaction(&h(1)), Some(vec![1, 2]));
    assert_eq!(map.get_withdrawal(&h(1)), None);
    assert_eq!(map.get_transaction(&h(2)), None);
    assert_eq!(map.get_withdrawal(&h(2)), Some(vec![3, 4]));
    assert_eq!(map.get_transaction(&h(3)), None);
    assert_eq!(map.get_withdrawal(&h(3)), None);
    assert!(map.contains(&h(1)));
    assert!(map.contains(&h(2)));
    assert!(!map.contains(&h(3)));
}

#[test]
fn a_released_handle_takes_its_entry_out() {
    let mut map = InQueueRequestMap::new();
    let a = map.insert(h(1), Request::Tx(vec![1])).unwrap();
    let b = map.insert(h(2), Request::Tx(vec![2])).unwrap();
    let c = map.insert(h(3), Request::Withdrawal(vec![3])).unwrap();
    b.release(&mut map);
    assert!(!map.contains(&h(2)));
    assert!(map.contains(&h(1)) && map.contains(&h(3)));
    assert_eq!(map.len(), 2);
    a.release(&mut map);
    c.release(&mut map);
    assert_eq!(map.len(), 0);
    // Removing what is not there changes nothing.
    map.remove(&h(9));
    assert_eq!(map.len(), 0);
    assert!(map.insert(h(1), Request::Tx(vec![7])).is_some());
    map.remove(&h(1));
    assert!(!map.contains(&h(1)));
}
