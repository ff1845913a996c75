use defpool_proxy::difficulty::{difficulty_from_target, Difficulty};
use defpool_proxy::job_tracker::{JobInfo, JobTracker};

fn as_f64(d: Difficulty) -> f64 {
    d.num as f64 / d.den as f64
}

#[test]
fn test_difficulty_calculation() {
    // High difficulty (low target)
    let diff1 = JobInfo::difficulty_from_target("00010000");
    assert!(as_f64(diff1) > 1000.0);

    // Low difficulty (high target)
    let diff2 = JobInfo::difficulty_from_target("01000000");
    assert!(as_f64(diff2) < as_f64(diff1));
}

#[test]
fn test_job_tracker() {
    let mut tracker = JobTracker::new(10);

    tracker.add_job("job1".to_string(), "00010000".to_string(), 100);
    tracker.add_job("job2".to_string(), "00020000".to_string(), 101);

    assert_eq!(tracker.count(), 2);

    let job1 = tracker.get_job("job1").unwrap();
    assert_eq!(job1.job_id, "job1");
    assert!(as_f64(job1.difficulty) > 0.0);

    let diff = tracker.get_difficulty("job1");
    assert!(as_f64(diff) > 0.0);
}

#[test]
fn test_max_jobs_limit() {
    let mut tracker = JobTracker::new(3);

    for i in 0..5 {
        tracker.add_job(format!("job{}", i), "00010000".to_string(), i);
    }

    // Should only keep 3 jobs
    assert!(tracker.count() <= 3);
}

#[test]
fn test_eviction_keeps_exactly_capacity() {
    let mut tracker = JobTracker::new(3);
    for i in 0..5 {
        tracker.add_job(format!("job{}", i), "00010000".to_string(), i);
    }
    assert_eq!(tracker.count(), 3);
    // The two oldest jobs were evicted, the three newest are here.
    assert!(tracker.get_job("job0").is_none());
    assert!(tracker.get_job("job1").is_none());
    assert!(tracker.get_job("job4").is_some());
}

#[test]
fn test_reinserting_same_id_updates_in_place() {
    let mut tracker = JobTracker::new(3);
    tracker.add_job("a".to_string(), "00010000".to_string(), 1);
    tracker.add_job("a".to_string(), "00020000".to_string(), 2);
    assert_eq!(tracker.count(), 1);
    assert_eq!(tracker.get_job("a").unwrap().height, 2);
}

#[test]
fn test_default_difficulty_for_bad_targets() {
    for bad in ["", "0", "zzz", "0x", "0xzz"] {
        let d = difficulty_from_target(bad);
        assert_eq!(d.num, 1000);
        assert_eq!(d.den, 1);
    }
}

#[test]
fn test_lower_target_is_harder() {
    let hard = difficulty_from_target("0f");
    let easy = difficulty_from_target("ff");
    assert!(hard.gt(&easy));
    assert!(!easy.gt(&hard));
    assert!(as_f64(hard) > as_f64(easy));
}

#[test]
fn test_difficulty_exact_value() {
    // 0xFFFFFFFF / 0x10000 == 65535.99998474121
    let d = difficulty_from_target("00010000");
    assert_eq!(d.num, 0xFFFFFFFFu64);
    assert_eq!(d.den, 0x10000u64);
}

#[test]
fn test_hex_prefix_is_accepted() {
    let with = difficulty_from_target("0x00010000");
    let without = difficulty_from_target("00010000");
    assert_eq!(with, without);
}

#[test]
fn test_missing_job_gets_default_difficulty() {
    let tracker = JobTracker::new(4);
    let d = tracker.get_difficulty("nope");
    assert_eq!(d.num, 1000);
    assert_eq!(d.den, 1);
}

#[test]
fn test_clear_empties_the_tracker() {
    let mut tracker = JobTracker::new(4);
    tracker.add_job("a".to_string(), "ff".to_string(), 1);
    tracker.clear();
    assert_eq!(tracker.count(), 0);
}
