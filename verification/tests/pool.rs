use modbus_rs::ffi::pool::{ClientSlot, Pool, PoolError};

#[test]
fn pool_allocates_first_free_slot() {
    let mut pool: Pool<u32, u64> = Pool::new(2);
    assert!(!pool.is_occupied(0));
    assert_eq!(pool.allocate_tcp(10), Ok(0));
    assert_eq!(pool.allocate_serial(20), Ok(1));
    assert_eq!(pool.allocate_tcp(30), Err(PoolError::PoolFull));
    assert!(pool.is_occupied(0));
    assert!(pool.is_occupied(1));
    assert!(!pool.is_occupied(2));
    assert!(!pool.is_occupied(0xFF));
}

#[test]
fn pool_lookup_by_kind() {
    let mut pool: Pool<u32, u64> = Pool::new(2);
    let tcp = pool.allocate_tcp(10).unwrap();
    let serial = pool.allocate_serial(20).unwrap();
    assert_eq!(pool.lookup_tcp(tcp).map(|v| *v), Ok(10));
    assert_eq!(pool.lookup_serial(serial).map(|v| *v), Ok(20));
    assert_eq!(pool.lookup_tcp(serial).map(|v| *v), Err(PoolError::ClientTypeMismatch));
    assert_eq!(pool.lookup_serial(tcp).map(|v| *v), Err(PoolError::ClientTypeMismatch));
    assert_eq!(pool.lookup_tcp(7).map(|v| *v), Err(PoolError::InvalidClientId));
    *pool.lookup_tcp(tcp).unwrap() = 11;
    assert_eq!(pool.get_tcp_mut(tcp).map(|v| *v), Some(11));
    assert_eq!(pool.get_serial_mut(tcp).map(|v| *v), None);
}

#[test]
fn pool_free_and_reuse() {
    let mut pool: Pool<u32, u64> = Pool::new(1);
    assert_eq!(pool.allocate(ClientSlot::Tcp(1)), Some(0));
    assert_eq!(pool.allocate(ClientSlot::Tcp(2)), None);
    assert!(pool.free(0));
    assert!(!pool.free(0));
    assert!(!pool.free(5));
    assert!(!pool.is_occupied(0));
    assert_eq!(pool.allocate_serial(3), Ok(0));
    assert_eq!(pool.lookup_serial(0).map(|v| *v), Ok(3));
}
