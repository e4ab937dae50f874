use quick_look::config::MAX_ASYNC_TASK_COUNT;
use quick_look::semaphore::Semaphore;

#[test]
fn new_pool_has_all_permits_free() {
    let pool = Semaphore::new(3);
    assert_eq!(pool.available(), 3);
    assert_eq!(pool.in_flight(), 0);
}

#[test]
fn permits_are_taken_until_none_is_left() {
    let mut pool = Semaphore::new(2);
    assert!(pool.acquire());
    assert!(pool.acquire());
    assert!(!pool.acquire());
    assert_eq!(pool.available(), 0);
    assert_eq!(pool.in_flight(), 2);
    pool.release();
    assert_eq!(pool.in_flight(), 1);
    assert!(pool.acquire());
    assert!(!pool.acquire());
}

#[test]
fn release_without_a_permit_taken_changes_nothing() {
    let mut pool = Semaphore::new(2);
    pool.release();
    assert_eq!(pool.available(), 2);
    assert_eq!(pool.in_flight(), 0);
}

#[test]
fn pool_without_permits_admits_no_one() {
    let mut pool = Semaphore::new(0);
    assert!(!pool.acquire());
    pool.release();
    assert!(!pool.acquire());
    assert_eq!(pool.in_flight(), 0);
}

#[test]
fn never_more_tasks_in_flight_than_permits() {
    let n = MAX_ASYNC_TASK_COUNT;
    let mut pool = Semaphore::new(n);
    let mut waiting: usize = 10 * n;
    let mut running: Vec<u64> = Vec::new();
    let mut finished = 0;
    let mut seed: u64 = 0x2545F4914F6CDD1D;
    let mut most = 0;
    while finished < 10 * n {
        seed ^= seed << 13;
        seed ^= seed >> 7;
        seed ^= seed << 17;
        if waiting > 0 && seed % 3 != 0 {
            if pool.acquire() {
                waiting -= 1;
                running.push(seed % 5 + 1);
            }
        } else if !running.is_empty() {
            let k = (seed >> 8) as usize % running.len();
            running[k] -= 1;
            if running[k] == 0 {
                running.swap_remove(k);
                pool.release();
                finished += 1;
            }
        }
        assert_eq!(pool.in_flight(), running.len());
        assert!(pool.in_flight() <= n);
        most = most.max(pool.in_flight());
    }
    assert_eq!(most, n);
    assert_eq!(pool.available(), n);
}
