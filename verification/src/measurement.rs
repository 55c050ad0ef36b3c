//! How many failed measurements are tolerated before a report is abandoned.

use vstd::prelude::*;

verus! {

/// The failure count after one more failed measurement, and whether the
/// attempt is abandoned: it is once the count exceeds the allowance, and
/// never without one.
pub open spec fn spec_record_failure(failure_count: int, allowance: Option<usize>) -> (int, bool) {
    let count = failure_count + 1;
    (
        count,
        match allowance {
            Some(n) => count > n,
            None => false,
        },
    )
}

/// Another measurement failed after `failure_count` failures: returns
/// `Err` with the new count when it exceeds `allowance` (the attempt is
/// abandoned), and `Ok` with the new count when the sensor is to be read
/// again.
pub fn record_failure(failure_count: usize, allowance: Option<usize>) -> (r: Result<usize, usize>)
    requires
        failure_count < usize::MAX,
    ensures
        spec_record_failure(failure_count as int, allowance).1 ==> r == Err::<usize, usize>(
            (failure_count + 1) as usize,
        ),
        !spec_record_failure(failure_count as int, allowance).1 ==> r == Ok::<usize, usize>(
            (failure_count + 1) as usize,
        ),
        allowance matches Some(n) && failure_count + 1 > n ==> r == Err::<usize, usize>(
            (failure_count + 1) as usize,
        ),
        allowance matches Some(n) && failure_count + 1 <= n ==> r == Ok::<usize, usize>(
            (failure_count + 1) as usize,
        ),
        allowance is None ==> r == Ok::<usize, usize>((failure_count + 1) as usize),
{
    let count = failure_count + 1;
    match allowance {
        Some(n) => {
            if count > n {
                Err(count)
            } else {
                Ok(count)
            }
        },
        None => Ok(count),
    }
}

/// The failure count after `k` failures in a row, starting from none, and
/// whether the attempt was abandoned at the last of them.
pub open spec fn failures_in_a_row(k: nat, allowance: Option<usize>) -> (int, bool)
    decreases k,
{
    if k == 0 {
        (0, false)
    } else {
        spec_record_failure(failures_in_a_row((k - 1) as nat, allowance).0, allowance)
    }
}

/// With an allowance of `n` failures, the sensor is read again after each of
/// the first `n` failures in a row, and the attempt is abandoned at failure
/// `n + 1`.
pub proof fn law_abandon_after_allowance(n: usize, k: nat)
    requires
        1 <= k,
    ensures
        failures_in_a_row(k, Some(n)).0 == k,
        failures_in_a_row(k, Some(n)).1 <==> k > n,
{
    lemma_failure_count(n, (k - 1) as nat);

}

proof fn lemma_failure_count(n: usize, k: nat)
    ensures
        failures_in_a_row(k, Some(n)).0 == k,
    decreases k,
{
    if k > 0 {
        lemma_failure_count(n, (k - 1) as nat);
    }
}

} // verus!
