//! The timing self-test analysis.

use zephyr_proxy::timing::{analyze_test_results, TimingSample};

fn sample(cycle: u32, expected_ms: u64, actual_ms: u64) -> TimingSample {
    TimingSample {
        cycle,
        expected_time_ms: expected_ms,
        actual_time_ms: actual_ms,
        interval_secs: 30,
    }
}

#[test]
fn no_cycles_is_a_failure_without_a_report() {
    assert!(analyze_test_results(&Vec::new()).is_none());
}

#[test]
fn accurate_run_passes() {
    let results = vec![
        sample(1, 1000, 1500),
        sample(2, 31_000, 30_200),
        sample(3, 61_000, 61_000),
    ];
    let report = analyze_test_results(&results).unwrap();
    assert_eq!(report.total_cycles, 3);
    assert_eq!(report.accurate_cycles, 3);
    assert_eq!(report.average_error_ms, (500 + 800 + 0) / 3);
    assert_eq!(report.max_error_ms, 800);
    assert!(report.passed);
}

#[test]
fn low_accuracy_fails_at_seventy_percent() {
    // Two accurate of three is below seventy percent.
    let results = vec![
        sample(1, 1000, 1500),
        sample(2, 31_000, 31_100),
        sample(3, 61_000, 65_000),
    ];
    let report = analyze_test_results(&results).unwrap();
    assert_eq!(report.accurate_cycles, 2);
    assert!(!report.passed);
    // Seven accurate of ten is exactly seventy percent: a pass.
    let mut results = Vec::new();
    let mut c: u32 = 0;
    while c < 7 {
        results.push(sample(c, 1000, 1000));
        c += 1;
    }
    while c < 10 {
        results.push(sample(c, 1000, 5000));
        c += 1;
    }
    let report = analyze_test_results(&results).unwrap();
    assert_eq!(report.accurate_cycles, 7);
    assert!(report.passed);
}

#[test]
fn one_huge_error_fails_the_run() {
    let mut results = Vec::new();
    let mut c: u32 = 0;
    while c < 9 {
        results.push(sample(c, 1000, 1000));
        c += 1;
    }
    results.push(sample(9, 1000, 11_500));
    let report = analyze_test_results(&results).unwrap();
    assert_eq!(report.max_error_ms, 10_500);
    assert!(!report.passed);
}
