use fastcarve::limiter::CarveLimiter;

#[test]
fn unlimited_reservations() {
    let mut limiter = CarveLimiter::new(None);
    assert!(limiter.try_reserve());
    assert!(limiter.try_reserve());
    limiter.commit();
    limiter.commit();
    assert_eq!(limiter.carved(), 2);
    assert_eq!(limiter.reserved(), 0);
    assert!(!limiter.should_stop());
}

#[test]
fn reserves_and_commits_with_limit() {
    let mut limiter = CarveLimiter::new(Some(2));
    assert!(limiter.try_reserve());
    assert!(limiter.try_reserve());
    assert!(!limiter.try_reserve());
    limiter.commit();
    limiter.commit();
    assert_eq!(limiter.carved(), 2);
    assert_eq!(limiter.reserved(), 0);
    assert!(limiter.should_stop());
}

#[test]
fn release_frees_reservation() {
    let mut limiter = CarveLimiter::new(Some(1));
    assert!(limiter.try_reserve());
    assert_eq!(limiter.reserved(), 1);
    limiter.release();
    assert_eq!(limiter.reserved(), 0);
    assert!(limiter.try_reserve());
}

#[test]
fn interleaved_workers_never_commit_past_limit() {
    let mut limiter = CarveLimiter::new(Some(3));
    let mut commits = 0;
    for round in 0..20 {
        if limiter.try_reserve() {
            if round % 3 == 0 {
                limiter.release();
            } else {
                limiter.commit();
                commits += 1;
            }
        }
    }
    assert_eq!(commits, 3);
    assert_eq!(*limiter.carved_counter(), 3);
    assert_eq!(limiter.limit(), Some(3));
    assert!(limiter.should_stop());
}
