use icmp_prober::pool::SlotPool;

#[test]
fn lease_until_exhausted() {
    let mut p = SlotPool::new(vec![1u32, 2, 3]);
    assert_eq!(p.capacity(), 3);
    assert_eq!(p.lease(), Some(3));
    assert_eq!(p.lease(), Some(2));
    assert_eq!(p.lease(), Some(1));
    assert_eq!(p.in_use(), 3);
    assert_eq!(p.lease(), None);
    assert_eq!(p.available(), 0);
}

#[test]
fn release_in_any_order_restores_pool() {
    let mut p = SlotPool::new(vec![10u32, 20, 30]);
    let a = p.lease().unwrap();
    let b = p.lease().unwrap();
    p.release(a).unwrap();
    let c = p.lease().unwrap();
    p.release(b).unwrap();
    p.release(c).unwrap();
    assert_eq!(p.in_use(), 0);
    assert_eq!(p.available(), 3);
    let mut got = vec![p.lease().unwrap(), p.lease().unwrap(), p.lease().unwrap()];
    got.sort();
    assert_eq!(got, vec![10, 20, 30]);
}

#[test]
fn release_into_full_pool_is_refused() {
    let mut p = SlotPool::new(vec![1u32]);
    assert_eq!(p.release(9), Err(9));
    assert_eq!(p.available(), 1);
}

#[test]
fn empty_pool_lends_nothing() {
    let mut p: SlotPool<u8> = SlotPool::new(Vec::new());
    assert_eq!(p.lease(), None);
    assert_eq!(p.in_use(), 0);
}
