use void_proxy::buffer_pool::BufferPool;
use void_proxy::buffer_pool::BufferTier;
use void_proxy::buffer_pool::tier_for;

#[test]
fn test_buffer_pool_functionality() {
    let mut pool = BufferPool::new(10, 5);

    let buffer = pool.acquire(1024);
    assert!(buffer.capacity() >= 1024);

    let mut buffer_mut = buffer;
    buffer_mut.extend_from_slice(b"test data");
    assert_eq!(buffer_mut.len(), 9);

    buffer_mut.clear();
    assert_eq!(buffer_mut.len(), 0);
}

#[test]
fn test_buffer_pool_different_sizes() {
    let mut pool = BufferPool::new(10, 5);

    let small_buffer = pool.acquire(512);
    assert!(small_buffer.capacity() >= 512);

    let medium_buffer = pool.acquire(4096);
    assert!(medium_buffer.capacity() >= 4096);

    let large_buffer = pool.acquire(16384);
    assert!(large_buffer.capacity() >= 16384);
}

#[test]
fn released_buffers_come_back_empty() {
    let mut pool = BufferPool::new(10, 5);
    let mut buffer = pool.acquire(8192);
    buffer.extend_from_slice(b"some leftover bytes");
    assert!(buffer.len() > 0);
    pool.release(buffer);

    let reused = pool.acquire(8192);
    assert_eq!(reused.len(), 0);
    assert!(reused.capacity() >= 8192);
}

#[test]
fn tiers_are_selected_by_size_hint() {
    assert_eq!(tier_for(0), BufferTier::Small);
    assert_eq!(tier_for(1024), BufferTier::Small);
    assert_eq!(tier_for(1025), BufferTier::Medium);
    assert_eq!(tier_for(8192), BufferTier::Medium);
    assert_eq!(tier_for(8193), BufferTier::Large);
    assert_eq!(tier_for(65535), BufferTier::Large);
}
