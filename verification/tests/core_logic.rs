use rustrays::config::{validate_config, isqrt, Config, ConfigError};
use rustrays::rng::rnd;
use rustrays::schedule::{start, Status, Worker};
use rustrays::shade::checker_is_red;

#[test]
fn rnd_first_steps_from_seed_one() {
    let mut s: u32 = 1;
    assert_eq!(rnd(&mut s), 3);
    assert_eq!(s, 3);
    assert_eq!(rnd(&mut s), 7);
    assert_eq!(s, 7);
    assert_eq!(rnd(&mut s), 15);
    assert_eq!(rnd(&mut s), 31);
    assert_eq!(rnd(&mut s), 63);
    assert_eq!(rnd(&mut s), 32);
    assert_eq!(s, 127);
}

#[test]
fn rnd_feedback_on_sign_bit() {
    let mut s: u32 = 0x4000_0000;
    let r = rnd(&mut s);
    assert_eq!(s, 0x0888_8eee);
    assert_eq!(r, 29);
}

#[test]
fn rnd_zero_seed_leaves_zero_state_behind() {
    let mut s: u32 = 0;
    assert_eq!(rnd(&mut s), 1);
    assert_eq!(s, 1);
}

#[test]
fn rnd_same_seed_same_stream() {
    let mut a: u32 = 0xdead_beef;
    let mut b: u32 = 0xdead_beef;
    for _ in 0..100 {
        assert_eq!(rnd(&mut a), rnd(&mut b));
        assert_eq!(a, b);
    }
}

#[test]
fn rnd_stays_under_denominator() {
    let mut s: u32 = 12345;
    for _ in 0..1000 {
        assert!(rnd(&mut s) < 95);
    }
}

#[test]
fn config_rejects_zero_procs() {
    assert_eq!(validate_config(8, 0, 1), Err(ConfigError::NonPositiveProcs));
}

#[test]
fn config_rejects_negative_procs() {
    assert_eq!(validate_config(8, -3, 5), Err(ConfigError::NonPositiveProcs));
}

#[test]
fn config_rejects_zero_times() {
    assert_eq!(validate_config(8, 2, 0), Err(ConfigError::NonPositiveTimes));
}

#[test]
fn config_accepts_positive_counts() {
    assert_eq!(
        validate_config(16, 3, 2),
        Ok(Config { size: 16, procs: 3, times: 2 })
    );
}

#[test]
fn isqrt_exact_and_flooring() {
    assert_eq!(isqrt(0), 0);
    assert_eq!(isqrt(1), 1);
    assert_eq!(isqrt(3), 1);
    assert_eq!(isqrt(4), 2);
    assert_eq!(isqrt(999_999), 999);
    assert_eq!(isqrt(1_000_000), 1000);
    assert_eq!(isqrt(u64::MAX), 0xffff_ffff);
}

#[test]
fn worker_rows_interleave() {
    let w0 = Worker { id: 0, procs: 3 };
    let w1 = Worker { id: 1, procs: 3 };
    let w2 = Worker { id: 2, procs: 3 };
    assert_eq!(w0.rows(10), vec![0, 3, 6, 9]);
    assert_eq!(w1.rows(10), vec![1, 4, 7]);
    assert_eq!(w2.rows(10), vec![2, 5, 8]);
}

#[test]
fn worker_rows_single_worker_owns_everything() {
    let w = Worker { id: 0, procs: 1 };
    assert_eq!(w.rows(5), vec![0, 1, 2, 3, 4]);
}

#[test]
fn worker_rows_beyond_image_are_empty() {
    let w = Worker { id: 5, procs: 7 };
    assert_eq!(w.rows(3), Vec::<usize>::new());
    let w = Worker { id: 1, procs: 7 };
    assert_eq!(w.rows(3), vec![1]);
}

#[test]
fn worker_rows_partition_the_image() {
    // every row of a 17-row image is owned by exactly one of 4 workers
    let size = 17usize;
    let procs = 4usize;
    let mut seen = vec![0u32; size];
    for id in 0..procs {
        let w = Worker { id, procs };
        for y in w.rows(size) {
            assert!(y < size);
            seen[y] += 1;
        }
    }
    for y in 0..size {
        assert_eq!(seen[y], 1);
    }
}

#[test]
fn worker_owns_matches_modulo() {
    let w = Worker { id: 2, procs: 5 };
    assert!(w.owns(2));
    assert!(w.owns(7));
    assert!(w.owns(12));
    assert!(!w.owns(3));
    assert!(!w.owns(0));
}

#[test]
fn start_rejects_bad_counts_without_allocating() {
    assert!(matches!(start(4, 0, 3), Err(ConfigError::NonPositiveProcs)));
    assert!(matches!(start(4, -2, 3), Err(ConfigError::NonPositiveProcs)));
    assert!(matches!(start(4, 2, 0), Err(ConfigError::NonPositiveTimes)));
    assert!(matches!(start(4, 2, -1), Err(ConfigError::NonPositiveTimes)));
}

#[test]
fn start_builds_zeroed_pass() {
    let pass = start(4, 2, 1).unwrap();
    assert_eq!(pass.config, Config { size: 4, procs: 2, times: 1 });
    assert_eq!(pass.image.size, 4);
    assert_eq!(pass.image.data.len(), 48);
    assert!(pass.image.data.iter().all(|&b| b == 0));
    assert_eq!(pass.workers.len(), 2);
    assert_eq!(pass.workers[0], Worker { id: 0, procs: 2 });
    assert_eq!(pass.workers[1], Worker { id: 1, procs: 2 });
}

#[test]
fn checker_tile_follows_parity() {
    assert!(checker_is_red(3));
    assert!(checker_is_red(-3));
    assert!(checker_is_red(1));
    assert!(!checker_is_red(0));
    assert!(!checker_is_red(-4));
    assert!(!checker_is_red(i64::MIN));
    assert!(checker_is_red(i64::MAX));
}

#[test]
fn status_variants_are_distinct() {
    assert_eq!(Status::Hit, Status::Hit);
    assert_ne!(Status::MissUpward, Status::MissDownward);
    assert_ne!(Status::MissUpward, Status::Hit);
}
