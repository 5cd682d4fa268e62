use port_sentinel::limiter::Limiter;

#[test]
fn limiter_never_exceeds_capacity() {
    // Capacity 2: two slots hand out, a third is refused until one is
    // released.
    let mut limiter = Limiter::new(2);
    assert!(limiter.try_acquire());
    assert!(limiter.try_acquire());
    assert!(!limiter.try_acquire());
    limiter.release();
    assert!(limiter.try_acquire());
    assert!(!limiter.try_acquire());
    limiter.release();
    limiter.release();
    assert!(limiter.try_acquire());
}
