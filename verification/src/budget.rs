//! Capacity of a nightly window.
use vstd::prelude::*;

verus! {

/// Why a window cannot be sized.
#[derive(Debug, Clone, Copy, PartialEq, Eq, Structural)]
pub enum BudgetError {
    HoursOutOfRange { min_hours: u32, max_hours: u32 },
    ZeroCycleMinutes,
}

impl BudgetError {
    /// The error's text.
    pub fn message(&self) -> (r: String)
        ensures
            r@ == (match *self {
                BudgetError::HoursOutOfRange { min_hours, max_hours } => "hours must be between "@
                    + crate::numbers::decimal(min_hours as nat) + " and "@ + crate::numbers::decimal(
                    max_hours as nat,
                ),
                BudgetError::ZeroCycleMinutes => "cycle_minutes must be > 0"@,
            }),
    {
        match self {
            BudgetError::HoursOutOfRange { min_hours, max_hours } => {
                let mut s = "hours must be between ".to_owned();
                s.append(crate::numbers::u64_to_string(*min_hours as u64).as_str());
                s.append(" and ");
                s.append(crate::numbers::u64_to_string(*max_hours as u64).as_str());
                s
            },
            BudgetError::ZeroCycleMinutes => "cycle_minutes must be > 0".to_owned(),
        }
    }
}

pub open spec fn hours_in_range(hours: u32, min_hours: u32, max_hours: u32) -> bool {
    min_hours <= hours <= max_hours
}

/// Minutes in a window of `hours` once `overhead` is paid (never negative).
pub open spec fn window_minutes(hours: u32, overhead: u32) -> int {
    if hours * 60 <= overhead {
        0
    } else {
        hours * 60 - overhead
    }
}

/// Fixed-length cycles that fit in the window after the overhead.
pub fn slots_for_hours(
    hours: u32,
    cycle_minutes: u32,
    fixed_overhead_minutes: u32,
    min_hours: u32,
    max_hours: u32,
) -> (r: Result<u32, BudgetError>)
    requires
        hours_in_range(hours, min_hours, max_hours) ==> hours * 60 <= u32::MAX,
    ensures
        !hours_in_range(hours, min_hours, max_hours) ==> r == Err::<u32, BudgetError>(
            BudgetError::HoursOutOfRange { min_hours, max_hours },
        ),
        hours_in_range(hours, min_hours, max_hours) && cycle_minutes == 0 ==> r == Err::<
            u32,
            BudgetError,
        >(BudgetError::ZeroCycleMinutes),
        hours_in_range(hours, min_hours, max_hours) && cycle_minutes > 0 ==> r == Ok::<
            u32,
            BudgetError,
        >((window_minutes(hours, fixed_overhead_minutes) / (cycle_minutes as int)) as u32),
{
    if !(min_hours <= hours && hours <= max_hours) {
        return Err(BudgetError::HoursOutOfRange { min_hours, max_hours });
    }
    if cycle_minutes == 0 {
        return Err(BudgetError::ZeroCycleMinutes);
    }
    let total = hours * 60;
    if total <= fixed_overhead_minutes {
        return Ok(0);
    }
    Ok((total - fixed_overhead_minutes) / cycle_minutes)
}

/// Minutes available for issues in a window of `hours`.
pub fn available_minutes(
    hours: u32,
    fixed_overhead_minutes: u32,
    min_hours: u32,
    max_hours: u32,
) -> (r: Result<u32, BudgetError>)
    requires
        hours_in_range(hours, min_hours, max_hours) ==> hours * 60 <= u32::MAX,
    ensures
        !hours_in_range(hours, min_hours, max_hours) ==> r == Err::<u32, BudgetError>(
            BudgetError::HoursOutOfRange { min_hours, max_hours },
        ),
        hours_in_range(hours, min_hours, max_hours) ==> r == Ok::<u32, BudgetError>(
            window_minutes(hours, fixed_overhead_minutes) as u32,
        ),
{
    if !(min_hours <= hours && hours <= max_hours) {
        return Err(BudgetError::HoursOutOfRange { min_hours, max_hours });
    }
    let total = hours * 60;
    if total <= fixed_overhead_minutes {
        Ok(0)
    } else {
        Ok(total - fixed_overhead_minutes)
    }
}

/// How many leading estimates fit, in order, when `used` minutes are
/// already spent of `budget`: packing stops at the first that overflows.
pub open spec fn fitting_prefix(used: int, budget: int, estimates: Seq<u32>) -> nat
    decreases estimates.len(),
{
    if estimates.len() == 0 {
        0
    } else if used + estimates[0] > budget {
        0
    } else {
        1 + fitting_prefix(used + estimates[0], budget, estimates.drop_first())
    }
}

/// Number of leading issues whose estimates fit in the window, packed in
/// order after the fixed overhead.
pub fn estimated_issues_that_fit(
    hours: u32,
    fixed_overhead_minutes: u32,
    estimated_minutes: &[u32],
    min_hours: u32,
    max_hours: u32,
) -> (r: Result<usize, BudgetError>)
    requires
        hours_in_range(hours, min_hours, max_hours) ==> hours * 60 <= u32::MAX,
    ensures
        !hours_in_range(hours, min_hours, max_hours) ==> r == Err::<usize, BudgetError>(
            BudgetError::HoursOutOfRange { min_hours, max_hours },
        ),
        hours_in_range(hours, min_hours, max_hours) ==> r == Ok::<usize, BudgetError>(
            fitting_prefix(fixed_overhead_minutes as int, hours * 60, estimated_minutes@) as usize,
        ),
{
    if !(min_hours <= hours && hours <= max_hours) {
        return Err(BudgetError::HoursOutOfRange { min_hours, max_hours });
    }
    let budget: u64 = (hours as u64) * 60;
    let mut used: u64 = fixed_overhead_minutes as u64;
    let mut count: usize = 0;
    proof {
        assert(estimated_minutes@.skip(0) == estimated_minutes@);
    }
    while count < estimated_minutes.len()
        invariant
            count <= estimated_minutes.len(),
            budget == hours * 60,
            used <= u32::MAX as u64,
            budget <= u32::MAX as u64,
            count > 0 ==> used <= budget,
            fitting_prefix(fixed_overhead_minutes as int, budget as int, estimated_minutes@) == count
                + fitting_prefix(used as int, budget as int, estimated_minutes@.skip(count as int)),
        ensures
            fitting_prefix(fixed_overhead_minutes as int, budget as int, estimated_minutes@) == count,
        decreases estimated_minutes.len() - count,
    {
        let minutes = estimated_minutes[count];
        let ghost rest = estimated_minutes@.skip(count as int);
        if used + minutes as u64 > budget {
            break ;
        }
        used = used + minutes as u64;
        proof {
            assert(rest.drop_first() == estimated_minutes@.skip(count + 1));
        }
        count = count + 1;
    }
    Ok(count)
}

proof fn lemma_fitting_prefix_monotone(used: int, small: int, large: int, estimates: Seq<u32>)
    requires
        small <= large,
    ensures
        fitting_prefix(used, small, estimates) <= fitting_prefix(used, large, estimates),
    decreases estimates.len(),
{
    if estimates.len() > 0 && used + estimates[0] <= small {
        lemma_fitting_prefix_monotone(used + estimates[0], small, large, estimates.drop_first());
    }
}

/// A longer window never holds fewer issues: with the same overhead and
/// estimates, more hours fit at least as many leading issues, and leave at
/// least as many minutes and cycles.
pub proof fn lemma_longer_window_fits_no_fewer(
    short_hours: u32,
    long_hours: u32,
    overhead: u32,
    cycle_minutes: u32,
    estimates: Seq<u32>,
)
    requires
        short_hours <= long_hours,
        cycle_minutes > 0,
    ensures
        fitting_prefix(overhead as int, short_hours * 60, estimates) <= fitting_prefix(
            overhead as int,
            long_hours * 60,
            estimates,
        ),
        window_minutes(short_hours, overhead) <= window_minutes(long_hours, overhead),
        window_minutes(short_hours, overhead) / (cycle_minutes as int) <= window_minutes(
            long_hours,
            overhead,
        ) / (cycle_minutes as int),
{
    lemma_fitting_prefix_monotone(overhead as int, short_hours * 60, long_hours * 60, estimates);
    vstd::arithmetic::div_mod::lemma_div_is_ordered(
        window_minutes(short_hours, overhead),
        window_minutes(long_hours, overhead),
        cycle_minutes as int,
    );
}

} // verus!
