use serve_core::pool::{
    get_connection, init_pool, is_expired, over, Acquire, Pool, PoolConfig, Release, Slot,
};

fn config(max_size: u32) -> PoolConfig {
    PoolConfig {
        max_size,
        min_idle: Some(2),
        connection_timeout: 15_000,
        idle_timeout: Some(600_000),
        max_lifetime: Some(1_800_000),
    }
}

#[test]
fn the_standard_pool_has_the_standard_tuning() {
    let pool = init_pool();
    let c = pool.config();
    assert_eq!(c.max_size, 15);
    assert_eq!(c.min_idle, Some(2));
    assert_eq!(c.connection_timeout, 15_000);
    assert_eq!(c.idle_timeout, Some(600_000));
    assert_eq!(c.max_lifetime, Some(1_800_000));
    assert_eq!(pool.checked_out(), 0);
    assert_eq!(pool.idle(), 0);
    let c = PoolConfig::standard();
    assert_eq!(c.max_size, 15);
}

#[test]
fn slots_are_created_on_demand_up_to_max_size() {
    let mut pool = Pool::new(config(3));
    assert_eq!(pool.acquire(0, 0), Acquire::Create(0));
    assert_eq!(pool.acquire(0, 0), Acquire::Create(1));
    assert_eq!(pool.acquire(0, 0), Acquire::Create(2));
    assert_eq!(pool.checked_out(), 3);
    assert_eq!(pool.acquire(0, 0), Acquire::Wait(15_000));
    assert_eq!(pool.checked_out(), 3);
    assert_eq!(pool.idle(), 0);
}

#[test]
fn a_full_pool_refuses_after_the_connection_timeout() {
    let mut pool = init_pool();
    for i in 0..15 {
        assert_eq!(get_connection(&mut pool, 100, 0), Acquire::Create(i));
        assert!(pool.checked_out() <= 15);
    }
    assert_eq!(pool.checked_out(), 15);
    assert_eq!(get_connection(&mut pool, 100, 0), Acquire::Wait(15_000));
    assert_eq!(get_connection(&mut pool, 5_100, 5_000), Acquire::Wait(10_000));
    assert_eq!(get_connection(&mut pool, 15_099, 14_999), Acquire::Wait(1));
    assert_eq!(get_connection(&mut pool, 15_100, 15_000), Acquire::Exhausted);
    assert_eq!(get_connection(&mut pool, 15_101, 15_001), Acquire::Exhausted);
    assert_eq!(get_connection(&mut pool, 99_999, u64::MAX), Acquire::Exhausted);
    assert_eq!(pool.checked_out(), 15);
    assert_eq!(pool.idle(), 0);
}

#[test]
fn a_slot_that_became_free_is_handed_out_even_after_the_timeout() {
    let mut pool = Pool::new(config(1));
    assert_eq!(pool.acquire(0, 0), Acquire::Create(0));
    assert_eq!(pool.acquire(20_000, 20_000), Acquire::Exhausted);
    assert_eq!(pool.release(0, 20_000), Release::Returned);
    assert_eq!(pool.acquire(20_000, 20_000), Acquire::Reuse(0));
}

#[test]
fn a_released_slot_is_reused() {
    let mut pool = Pool::new(config(3));
    assert_eq!(pool.acquire(0, 0), Acquire::Create(0));
    assert_eq!(pool.acquire(0, 0), Acquire::Create(1));
    assert_eq!(pool.release(1, 10), Release::Returned);
    assert_eq!(pool.idle(), 1);
    assert_eq!(pool.checked_out(), 1);
    assert_eq!(pool.acquire(20, 0), Acquire::Reuse(1));
    assert_eq!(pool.idle(), 0);
    assert_eq!(pool.checked_out(), 2);
    assert_eq!(pool.release(0, 30), Release::Returned);
    assert_eq!(pool.release(1, 30), Release::Returned);
    assert_eq!(pool.acquire(40, 0), Acquire::Reuse(0));
    assert_eq!(pool.acquire(40, 0), Acquire::Reuse(1));
    assert_eq!(pool.acquire(40, 0), Acquire::Create(2));
}

#[test]
fn a_slot_over_its_lifetime_is_discarded_when_released() {
    let mut pool = Pool::new(config(2));
    assert_eq!(pool.acquire(1_000, 0), Acquire::Create(0));
    assert_eq!(pool.release(0, 1_801_000), Release::Returned);
    assert_eq!(pool.acquire(1_801_000, 0), Acquire::Reuse(0));
    assert_eq!(pool.release(0, 1_801_001), Release::Discarded);
    assert_eq!(pool.idle(), 0);
    assert_eq!(pool.checked_out(), 0);
    assert_eq!(pool.acquire(1_801_001, 0), Acquire::Create(0));
    assert_eq!(pool.acquire(1_801_001, 0), Acquire::Create(1));
    assert_eq!(pool.release(0, 1_801_002), Release::Returned);
    assert_eq!(pool.acquire(1_801_003, 0), Acquire::Reuse(0));
}

#[test]
fn an_idle_slot_over_its_lifetime_is_not_handed_out() {
    let mut pool = Pool::new(PoolConfig { idle_timeout: None, ..config(2) });
    assert_eq!(pool.acquire(0, 0), Acquire::Create(0));
    assert_eq!(pool.release(0, 1_000_000), Release::Returned);
    assert_eq!(pool.acquire(1_800_000, 0), Acquire::Reuse(0));
    assert_eq!(pool.release(0, 1_800_000), Release::Returned);
    assert_eq!(pool.acquire(1_800_001, 0), Acquire::Create(0));
    assert_eq!(pool.checked_out(), 1);
    assert_eq!(pool.idle(), 0);
}

#[test]
fn an_idle_slot_over_the_idle_timeout_is_evicted() {
    let mut pool = Pool::new(config(3));
    assert_eq!(pool.acquire(0, 0), Acquire::Create(0));
    assert_eq!(pool.acquire(0, 0), Acquire::Create(1));
    assert_eq!(pool.acquire(0, 0), Acquire::Create(2));
    assert_eq!(pool.release(0, 1_000), Release::Returned);
    assert_eq!(pool.release(2, 2_000), Release::Returned);
    assert_eq!(pool.ready(601_000), 2);
    assert_eq!(pool.ready(601_001), 1);
    assert_eq!(pool.reap(601_000), Vec::<usize>::new());
    assert_eq!(pool.reap(601_001), vec![0]);
    assert_eq!(pool.idle(), 1);
    assert_eq!(pool.reap(602_001), vec![2]);
    assert_eq!(pool.idle(), 0);
    assert_eq!(pool.checked_out(), 1);
    assert_eq!(pool.reap(9_000_000), Vec::<usize>::new());
}

#[test]
fn an_expired_idle_slot_is_replaced_on_demand() {
    let mut pool = Pool::new(config(1));
    assert_eq!(pool.acquire(0, 0), Acquire::Create(0));
    assert_eq!(pool.release(0, 0), Release::Returned);
    assert_eq!(pool.acquire(600_001, 0), Acquire::Create(0));
    assert_eq!(pool.checked_out(), 1);
    assert_eq!(pool.release(0, 600_002), Release::Returned);
    assert_eq!(pool.acquire(600_003, 0), Acquire::Reuse(0));
}

#[test]
fn without_limits_no_slot_expires() {
    let mut pool = Pool::new(PoolConfig { idle_timeout: None, max_lifetime: None, ..config(1) });
    assert_eq!(pool.acquire(0, 0), Acquire::Create(0));
    assert_eq!(pool.release(0, u64::MAX), Release::Returned);
    assert_eq!(pool.acquire(u64::MAX, 0), Acquire::Reuse(0));
    assert!(!over(0, u64::MAX, None));
    assert!(over(0, 11, Some(10)));
    assert!(!over(0, 10, Some(10)));
    assert!(!over(20, 10, Some(0)));
    let c = config(1);
    assert!(is_expired(Slot::Idle { created: 0, last_used: 0 }, 600_001, &c));
    assert!(!is_expired(Slot::Idle { created: 0, last_used: 0 }, 600_000, &c));
    assert!(is_expired(Slot::Idle { created: 0, last_used: 1_700_000 }, 1_800_001, &c));
    assert!(!is_expired(Slot::Out { created: 0 }, u64::MAX, &c));
    assert!(!is_expired(Slot::Vacant, u64::MAX, &c));
}

#[test]
fn only_a_checked_out_slot_can_be_given_back() {
    let mut pool = Pool::new(config(2));
    assert_eq!(pool.release(0, 0), Release::NotCheckedOut);
    assert!(!pool.discard(0));
    assert_eq!(pool.acquire(0, 0), Acquire::Create(0));
    assert_eq!(pool.release(1, 0), Release::NotCheckedOut);
    assert_eq!(pool.release(0, 0), Release::Returned);
    assert_eq!(pool.release(0, 0), Release::NotCheckedOut);
    assert!(!pool.discard(0));
    assert_eq!(pool.idle(), 1);
}

#[test]
fn a_failed_creation_gives_the_slot_up() {
    let mut pool = Pool::new(config(1));
    assert_eq!(pool.acquire(0, 0), Acquire::Create(0));
    assert_eq!(pool.acquire(0, 0), Acquire::Wait(15_000));
    assert!(pool.discard(0));
    assert_eq!(pool.checked_out(), 0);
    assert_eq!(pool.idle(), 0);
    assert_eq!(pool.acquire(0, 0), Acquire::Create(0));
}

#[test]
fn the_pool_keeps_min_idle_slots_ready() {
    let mut pool = Pool::new(config(15));
    let a = pool.replenish(0).unwrap();
    assert_eq!(a, 0);
    assert_eq!(pool.release(a, 0), Release::Returned);
    let b = pool.replenish(0).unwrap();
    assert_eq!(b, 1);
    assert_eq!(pool.release(b, 0), Release::Returned);
    assert_eq!(pool.replenish(0), None);
    assert_eq!(pool.idle(), 2);
    assert_eq!(pool.acquire(1, 0), Acquire::Reuse(0));
    assert_eq!(pool.replenish(1), Some(2));
    assert_eq!(pool.release(2, 1), Release::Returned);
    assert_eq!(pool.replenish(1), None);
    assert_eq!(pool.replenish(700_000), Some(1));

    let mut none = Pool::new(PoolConfig { min_idle: None, ..config(3) });
    assert_eq!(none.replenish(0), None);
    let mut small = Pool::new(PoolConfig { min_idle: Some(5), ..config(1) });
    assert_eq!(small.replenish(0), Some(0));
    assert_eq!(small.replenish(0), None);
    let mut zero = Pool::new(config(0));
    assert_eq!(zero.replenish(0), None);
    assert_eq!(zero.acquire(0, 0), Acquire::Wait(15_000));
    assert_eq!(zero.acquire(0, 15_000), Acquire::Exhausted);
}

#[test]
fn two_hundred_requests_share_fifteen_slots() {
    let mut pool = init_pool();
    let mut waiting: Vec<u32> = (0..200).collect();
    let mut working: Vec<(u32, usize, u64)> = Vec::new();
    let mut served = 0;
    let mut most = 0;
    let mut now: u64 = 0;
    while served < 200 {
        let mut still_waiting = Vec::new();
        for request in waiting.drain(..) {
            match get_connection(&mut pool, now, 0) {
                Acquire::Reuse(slot) | Acquire::Create(slot) => {
                    assert!(working.iter().all(|w| w.1 != slot));
                    working.push((request, slot, now + 3 + u64::from(request % 4)));
                }
                Acquire::Wait(left) => {
                    assert_eq!(left, 15_000);
                    still_waiting.push(request);
                }
                Acquire::Exhausted => panic!("a request was refused"),
            }
            assert!(pool.checked_out() <= 15);
            assert!(pool.checked_out() + pool.idle() <= 15);
            assert_eq!(pool.checked_out(), working.len());
        }
        waiting = still_waiting;
        most = most.max(working.len());
        now += 1;
        let mut still_working = Vec::new();
        for (request, slot, until) in working.drain(..) {
            if until <= now {
                assert_eq!(pool.release(slot, now), Release::Returned);
                served += 1;
            } else {
                still_working.push((request, slot, until));
            }
        }
        working = still_working;
        assert!(now < 10_000, "the requests did not get through");
    }
    assert_eq!(most, 15);
    assert_eq!(pool.checked_out(), 0);
    assert_eq!(pool.idle(), 15);
}
