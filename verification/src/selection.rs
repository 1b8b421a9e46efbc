//! Which child issues may run.
use vstd::prelude::*;
use std::collections::HashSet;

use crate::config::Config;
use crate::models::{has_label_in, ChildIssue, IssueState};
use crate::text::string_views;

verus! {

/// The reasons a child issue may not run, in the order they are checked:
/// not open, missing workflow labels, carrying a busy or finished label,
/// or a size band outside the diff limits.
pub open spec fn eligibility_reasons(config: Config, child: ChildIssue) -> Seq<Seq<char>> {
    let r0 = if child.state != IssueState::Open {
        seq!["issue_closed"@]
    } else {
        Seq::empty()
    };
    let r1 = if !has_label_in(child.labels@, config.labels.night_run@) {
        r0.push("label_missing_night_run"@)
    } else {
        r0
    };
    let r2 = if !has_label_in(child.labels@, config.labels.ready@) {
        r1.push("label_missing_ready"@)
    } else {
        r1
    };
    let r3 = if has_label_in(child.labels@, config.labels.running@) {
        r2.push("label_present_running"@)
    } else {
        r2
    };
    let r4 = if has_label_in(child.labels@, config.labels.blocked@) {
        r3.push("label_present_blocked"@)
    } else {
        r3
    };
    let r5 = if has_label_in(child.labels@, config.labels.done@) {
        r4.push("label_present_done"@)
    } else {
        r4
    };
    let r6 = if has_label_in(child.labels@, config.labels.review@) {
        r5.push("label_present_review"@)
    } else {
        r5
    };
    let r7 = if child.target_size.max_spec() > config.diff.max_lines {
        r6.push("size_band_exceeds_diff_max"@)
    } else {
        r6
    };
    if child.target_size.min_spec() < config.diff.min_lines {
        r7.push("size_band_below_diff_min"@)
    } else {
        r7
    }
}

fn push_reason(reasons: &mut Vec<String>, reason: &str)
    ensures
        string_views(final(reasons)@) == string_views(old(reasons)@).push(reason@),
{
    reasons.push(reason.to_owned());
    assert(string_views(reasons@) =~= string_views(old(reasons)@).push(reason@));
}

/// The reasons a child issue may not run, ignoring dependencies and budget.
pub fn static_eligibility_reasons(config: &Config, child: &ChildIssue) -> (r: Vec<String>)
    ensures
        string_views(r@) == eligibility_reasons(*config, *child),
{
    let mut reasons: Vec<String> = Vec::new();
    proof {
        assert(string_views(reasons@) =~= Seq::<Seq<char>>::empty());
    }
    if child.state != IssueState::Open {
        push_reason(&mut reasons, "issue_closed");
    }
    if !child.has_label(config.labels.night_run.as_str()) {
        push_reason(&mut reasons, "label_missing_night_run");
    }
    if !child.has_label(config.labels.ready.as_str()) {
        push_reason(&mut reasons, "label_missing_ready");
    }
    if child.has_label(config.labels.running.as_str()) {
        push_reason(&mut reasons, "label_present_running");
    }
    if child.has_label(config.labels.blocked.as_str()) {
        push_reason(&mut reasons, "label_present_blocked");
    }
    if child.has_label(config.labels.done.as_str()) {
        push_reason(&mut reasons, "label_present_done");
    }
    if child.has_label(config.labels.review.as_str()) {
        push_reason(&mut reasons, "label_present_review");
    }
    if child.target_size.max_lines() > config.diff.max_lines {
        push_reason(&mut reasons, "size_band_exceeds_diff_max");
    }
    if child.target_size.min_lines() < config.diff.min_lines {
        push_reason(&mut reasons, "size_band_below_diff_min");
    }
    reasons
}

/// Every dependency is done on GitHub or planned earlier in this run.
pub open spec fn deps_satisfied(deps: Seq<u64>, done: Set<u64>, planned: Set<u64>) -> bool {
    forall|i: int| 0 <= i < deps.len() ==> done.contains(#[trigger] deps[i]) || planned.contains(
        deps[i],
    )
}

pub fn dependencies_satisfied(
    child: &ChildIssue,
    done_on_github: &HashSet<u64>,
    planned_or_completed: &HashSet<u64>,
) -> (r: bool)
    ensures
        r == deps_satisfied(child.dependencies@, done_on_github@, planned_or_completed@),
{
    broadcast use vstd::std_specs::hash::group_hash_axioms;

    let mut i: usize = 0;
    while i < child.dependencies.len()
        invariant
            i <= child.dependencies.len(),
            forall|j: int|
                0 <= j < i ==> done_on_github@.contains(#[trigger] child.dependencies@[j])
                    || planned_or_completed@.contains(child.dependencies@[j]),
        decreases child.dependencies.len() - i,
    {
        let d = child.dependencies[i];
        if !(done_on_github.contains(&d) || planned_or_completed.contains(&d)) {
            return false;
        }
        i = i + 1;
    }
    true
}

/// An issue of `estimated_minutes` fits when the minutes already used plus
/// its estimate stay within what is available.
pub fn pack_issue_if_fit(estimated_minutes: u32, used_minutes: u32, available_minutes: u32) -> (r:
    bool)
    ensures
        r == (used_minutes + estimated_minutes <= available_minutes),
{
    (used_minutes as u64) + (estimated_minutes as u64) <= available_minutes as u64
}

} // verus!
