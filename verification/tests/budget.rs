use nightloop::budget::{available_minutes, estimated_issues_that_fit, slots_for_hours, BudgetError};

#[test]
fn fallback_capacity_table_matches_previous_default() {
    assert_eq!(slots_for_hours(2, 40, 20, 2, 6).unwrap(), 2);
    assert_eq!(slots_for_hours(3, 40, 20, 2, 6).unwrap(), 4);
    assert_eq!(slots_for_hours(4, 40, 20, 2, 6).unwrap(), 5);
    assert_eq!(slots_for_hours(5, 40, 20, 2, 6).unwrap(), 7);
    assert_eq!(slots_for_hours(6, 40, 20, 2, 6).unwrap(), 8);
}

#[test]
fn estimated_packing_uses_issue_specific_minutes() {
    let estimated = vec![35, 50, 80, 120];
    assert_eq!(estimated_issues_that_fit(2, 20, &estimated, 2, 6).unwrap(), 2);
    assert_eq!(estimated_issues_that_fit(4, 20, &estimated, 2, 6).unwrap(), 3);
}

#[test]
fn available_minutes_pays_the_fixed_overhead() {
    assert_eq!(available_minutes(4, 20, 2, 6).unwrap(), 220);
    assert_eq!(available_minutes(2, 20, 2, 6).unwrap(), 100);
    assert_eq!(available_minutes(2, 500, 2, 6).unwrap(), 0);
}

#[test]
fn hours_outside_the_window_are_refused() {
    assert_eq!(
        available_minutes(7, 20, 2, 6),
        Err(BudgetError::HoursOutOfRange { min_hours: 2, max_hours: 6 })
    );
    assert_eq!(
        slots_for_hours(1, 40, 20, 2, 6),
        Err(BudgetError::HoursOutOfRange { min_hours: 2, max_hours: 6 })
    );
    assert!(estimated_issues_that_fit(9, 20, &[10], 2, 6).is_err());
}

#[test]
fn zero_cycle_minutes_are_refused() {
    assert_eq!(slots_for_hours(4, 0, 20, 2, 6), Err(BudgetError::ZeroCycleMinutes));
}

#[test]
fn longer_windows_fit_no_fewer_issues() {
    let estimated = vec![35, 50, 80, 120];
    let mut previous = 0;
    for hours in 2..=6 {
        let fit = estimated_issues_that_fit(hours, 20, &estimated, 2, 6).unwrap();
        assert!(fit >= previous);
        previous = fit;
    }
    assert_eq!(previous, 4);
}

#[test]
fn packing_stops_at_the_first_estimate_that_overflows() {
    assert_eq!(estimated_issues_that_fit(2, 20, &[200, 10, 10], 2, 6).unwrap(), 0);
    assert_eq!(estimated_issues_that_fit(2, 20, &[], 2, 6).unwrap(), 0);
}
