use rhyolite::staging::{
    device_local_usage, UniformBufferCache, USAGE_TRANSFER_DST, USAGE_TRANSFER_SRC,
    USAGE_UNIFORM_BUFFER, USAGE_VERTEX_BUFFER,
};

#[test]
fn staging_usage_swaps_transfer_direction() {
    let staged = USAGE_TRANSFER_SRC | USAGE_VERTEX_BUFFER;
    let local = device_local_usage(staged);
    assert_eq!(local, USAGE_TRANSFER_DST | USAGE_VERTEX_BUFFER);
    assert_eq!(local & USAGE_TRANSFER_SRC, 0);
    let staged = USAGE_TRANSFER_SRC | USAGE_UNIFORM_BUFFER;
    assert_eq!(device_local_usage(staged), USAGE_TRANSFER_DST | USAGE_UNIFORM_BUFFER);
}

#[test]
fn uniform_buffer_created_once() {
    let mut cache = UniformBufferCache::new();
    assert!(cache.acquire());
    assert!(!cache.acquire());
    assert!(!cache.acquire());
}
