//! Analysis of the health-check timing self-test.
//!
//! The self-test watches cycles for a while and records, for each one, when
//! it was expected and when it actually started. The analysis counts the
//! cycles within tolerance and passes the run when at least seventy percent
//! were accurate and no error reached ten seconds.

use vstd::prelude::*;

verus! {

/// Cycles within this error, in milliseconds, count as accurate.
pub const TIMING_TOLERANCE_MS: u64 = 3000;

/// No single error may reach this bound, in milliseconds, for a pass.
pub const TIMING_MAX_ERROR_MS: u64 = 10_000;

/// One observed cycle: when it was expected, when it came, and the interval
/// it announced.
#[derive(Debug, Clone, Copy, PartialEq, Eq, Structural)]
pub struct TimingSample {
    pub cycle: u32,
    pub expected_time_ms: u64,
    pub actual_time_ms: u64,
    pub interval_secs: u64,
}

/// The absolute difference between the expected and the actual instant.
pub open spec fn sample_error(s: TimingSample) -> u64 {
    if s.actual_time_ms >= s.expected_time_ms {
        (s.actual_time_ms - s.expected_time_ms) as u64
    } else {
        (s.expected_time_ms - s.actual_time_ms) as u64
    }
}

/// Whether a sample lies within the tolerance.
pub open spec fn sample_accurate(s: TimingSample) -> bool {
    sample_error(s) < TIMING_TOLERANCE_MS
}

/// Number of accurate samples.
pub open spec fn count_accurate(rs: Seq<TimingSample>) -> nat
    decreases rs.len(),
{
    if rs.len() == 0 {
        0
    } else {
        count_accurate(rs.drop_last()) + if sample_accurate(rs.last()) {
            1nat
        } else {
            0nat
        }
    }
}

/// Sum of the timing errors.
pub open spec fn sum_errors(rs: Seq<TimingSample>) -> int
    decreases rs.len(),
{
    if rs.len() == 0 {
        0
    } else {
        sum_errors(rs.drop_last()) + sample_error(rs.last())
    }
}

/// Largest timing error, zero when there is none.
pub open spec fn max_error(rs: Seq<TimingSample>) -> u64
    decreases rs.len(),
{
    if rs.len() == 0 {
        0
    } else if sample_error(rs.last()) >= max_error(rs.drop_last()) {
        sample_error(rs.last())
    } else {
        max_error(rs.drop_last())
    }
}

/// The verdict over a test run.
#[derive(Debug, Clone, Copy, PartialEq, Eq, Structural)]
pub struct TimingReport {
    pub total_cycles: usize,
    pub accurate_cycles: usize,
    pub average_error_ms: u64,
    pub max_error_ms: u64,
    pub passed: bool,
}

/// Analyzes a timing run: none at all is a failure with no report; otherwise
/// the report counts the accurate cycles, averages and maximizes the errors,
/// and passes exactly when at least seventy percent of the cycles were
/// accurate and the largest error stayed below ten seconds.
#[verifier::loop_isolation(false)]
pub fn analyze_test_results(results: &Vec<TimingSample>) -> (r: Option<TimingReport>)
    requires
        results@.len() <= u32::MAX,
    ensures
        (r is Some) <==> results@.len() > 0,
        r matches Some(report) ==> {
            &&& report.total_cycles == results@.len()
            &&& report.accurate_cycles == count_accurate(results@)
            &&& report.average_error_ms == sum_errors(results@) / results@.len() as int
            &&& report.max_error_ms == max_error(results@)
            &&& report.passed == (count_accurate(results@) * 100 >= results@.len() * 70
                && max_error(results@) < TIMING_MAX_ERROR_MS)
        },
{
    if results.len() == 0 {
        return None;
    }
    let mut accurate: usize = 0;
    let mut sum: u128 = 0;
    let mut max: u64 = 0;
    let mut i: usize = 0;
    while i < results.len()
        invariant
            0 <= i <= results@.len(),
            accurate == count_accurate(results@.subrange(0, i as int)),
            accurate <= i,
            sum == sum_errors(results@.subrange(0, i as int)),
            sum <= i * (u64::MAX as int),
            max == max_error(results@.subrange(0, i as int)),
        decreases results@.len() - i,
    {
        proof {
            assert(results@.subrange(0, i + 1).drop_last() =~= results@.subrange(0, i as int));
            assert(results@.subrange(0, i + 1).last() == results@[i as int]);
        }
        let s = &results[i];
        let error: u64 = if s.actual_time_ms >= s.expected_time_ms {
            s.actual_time_ms - s.expected_time_ms
        } else {
            s.expected_time_ms - s.actual_time_ms
        };
        if error < TIMING_TOLERANCE_MS {
            accurate += 1;
        }
        sum = sum + error as u128;
        if error >= max {
            max = error;
        }
        i += 1;
    }
    proof {
        assert(results@.subrange(0, results@.len() as int) =~= results@);
    }
    let total = results.len();
    let average: u128 = sum / total as u128;
    proof {
        let su = sum as int;
        let n = total as int;
        assert(su / n <= u64::MAX as int) by (nonlinear_arith)
            requires
                n >= 1,
                0 <= su,
                su <= n * (u64::MAX as int),
        ;
    }
    let accuracy_reached = (accurate as u64) * 100 >= (total as u64) * 70;
    let passed = accuracy_reached && max < TIMING_MAX_ERROR_MS;
    Some(
        TimingReport {
            total_cycles: total,
            accurate_cycles: accurate,
            average_error_ms: average as u64,
            max_error_ms: max,
            passed,
        },
    )
}

} // verus!
