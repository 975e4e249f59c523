use hermit_kernel::entropy::{needs_seed, read, Flags, Pool, POOL_SIZE};
use hermit_kernel::errno::Errno;

const SEED_A: [u8; 32] = [7u8; 32];
const SEED_B: [u8; 32] = [9u8; 32];

#[test]
fn read_without_pool_or_seed_fails() {
    let mut pool: Option<Pool> = None;
    let mut buf = [0u8; 16];
    assert_eq!(read(&mut pool, 0, None, &mut buf, Flags::empty()), Err(Errno::Nosys));
    assert!(pool.is_none());
    assert_eq!(buf, [0u8; 16]);
}

#[test]
fn read_with_seed_fills_buffer() {
    let mut pool: Option<Pool> = None;
    let mut buf = [0u8; 64];
    assert_eq!(read(&mut pool, 0, Some(SEED_A), &mut buf, Flags::empty()), Ok(64));
    assert!(pool.is_some());
    assert_ne!(buf, [0u8; 64]);
}

#[test]
fn zero_length_read_creates_pool() {
    let mut pool: Option<Pool> = None;
    let mut buf = [0u8; 0];
    assert_eq!(read(&mut pool, 5, Some(SEED_A), &mut buf, Flags::empty()), Ok(0));
    assert!(pool.is_some());
    // Once a read succeeded, later reads succeed without a seed.
    let mut buf = [0u8; 8];
    assert_eq!(read(&mut pool, 6, None, &mut buf, Flags::empty()), Ok(8));
}

#[test]
fn read_keeps_working_after_success() {
    let mut pool: Option<Pool> = None;
    let mut buf = [0u8; 10];
    assert_eq!(read(&mut pool, 0, Some(SEED_A), &mut buf, Flags::empty()), Ok(10));
    for now in [1u64, 2_000_000, 5_000_000] {
        let mut buf = [0u8; 10];
        assert_eq!(read(&mut pool, now, None, &mut buf, Flags::empty()), Ok(10));
    }
}

#[test]
fn same_seed_same_output() {
    let mut p1: Option<Pool> = None;
    let mut p2: Option<Pool> = None;
    let mut a = [0u8; 100];
    let mut b = [0u8; 100];
    read(&mut p1, 0, Some(SEED_A), &mut a, Flags::empty()).unwrap();
    read(&mut p2, 0, Some(SEED_A), &mut b, Flags::empty()).unwrap();
    assert_eq!(a, b);
    // Output is not repeated by the next read.
    let mut c = [0u8; 100];
    read(&mut p1, 1, None, &mut c, Flags::empty()).unwrap();
    assert_ne!(a, c);
}

#[test]
fn different_seed_different_output() {
    let mut p1: Option<Pool> = None;
    let mut p2: Option<Pool> = None;
    let mut a = [0u8; 32];
    let mut b = [0u8; 32];
    read(&mut p1, 0, Some(SEED_A), &mut a, Flags::empty()).unwrap();
    read(&mut p2, 0, Some(SEED_B), &mut b, Flags::empty()).unwrap();
    assert_ne!(a, b);
}

#[test]
fn pool_regenerates_when_used_up() {
    let mut pool: Option<Pool> = None;
    let mut total = Vec::new();
    // Three reads of a full pool each: the pool is regenerated in between.
    for _ in 0..3 {
        let mut buf = vec![0u8; POOL_SIZE];
        assert_eq!(read(&mut pool, 0, Some(SEED_A), &mut buf, Flags::empty()), Ok(POOL_SIZE));
        total.push(buf);
    }
    assert_ne!(total[0], total[1]);
    assert_ne!(total[1], total[2]);
}

#[test]
fn large_read_is_expanded_from_a_drawn_seed() {
    let mut p1: Option<Pool> = None;
    let mut p2: Option<Pool> = None;
    let mut a = vec![0u8; 4096];
    let mut b = vec![0u8; 4096];
    assert_eq!(read(&mut p1, 0, Some(SEED_A), &mut a, Flags::empty()), Ok(4096));
    assert_eq!(read(&mut p2, 0, Some(SEED_A), &mut b, Flags::empty()), Ok(4096));
    assert_eq!(a, b);
    assert_ne!(a[..2048], a[2048..]);
}

#[test]
fn reseed_is_asked_for_every_second() {
    let mut pool: Option<Pool> = None;
    assert!(needs_seed(&pool, 0));
    let mut buf = [0u8; 4];
    read(&mut pool, 100, Some(SEED_A), &mut buf, Flags::empty()).unwrap();
    assert!(!needs_seed(&pool, 100));
    assert!(!needs_seed(&pool, 1_000_100));
    assert!(needs_seed(&pool, 1_000_101));
    // A clock going backwards does not ask for a seed.
    assert!(!needs_seed(&pool, 0));
}

#[test]
fn reseed_changes_output() {
    let mut p1: Option<Pool> = None;
    let mut p2: Option<Pool> = None;
    let mut a = [0u8; 16];
    let mut b = [0u8; 16];
    read(&mut p1, 0, Some(SEED_A), &mut a, Flags::empty()).unwrap();
    read(&mut p2, 0, Some(SEED_A), &mut b, Flags::empty()).unwrap();
    // Both pools are due for a new seed; only the first gets one.
    read(&mut p1, 2_000_000, Some(SEED_B), &mut a, Flags::empty()).unwrap();
    read(&mut p2, 2_000_000, None, &mut b, Flags::empty()).unwrap();
    assert_ne!(a, b);
}
