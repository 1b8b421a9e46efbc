//! The campaign runner's decisions: which children are planned, where each
//! branch is published, how a run's outcome is recorded, and what is
//! reported. The surrounding program performs the GitHub, git and agent
//! calls and hands their results to these functions.
use vstd::prelude::*;

use std::collections::HashSet;

use crate::config::Config;
use crate::diff_budget::DiffStat;
use crate::models::{
    has_label_in, small_diff_exception, ChildIssue, IssueEstimate, IssueSnapshot, IssueState,
    ParentIssue,
};
use crate::numbers::{decimal, u64_to_string};
use crate::selection::{
    dependencies_satisfied, deps_satisfied, eligibility_reasons, pack_issue_if_fit,
    static_eligibility_reasons,
};
use crate::text::{join, join_strings, str_eq, string_views};

verus! {

/// Where one child's work is published.
#[derive(Debug, Clone)]
pub struct Publication {
    pub branch_name: String,
    pub pr_base: String,
    pub push_before_pr: bool,
}

/// `nightloop/PARENT-CHILD`.
pub open spec fn branch_name_of(parent_issue: u64, child_issue: u64) -> Seq<char> {
    "nightloop/"@ + decimal(parent_issue as nat) + "-"@ + decimal(child_issue as nat)
}

/// The branch name for a child of a parent issue.
pub fn branch_name_for(parent_issue: u64, child_issue: u64) -> (r: String)
    ensures
        r@ == branch_name_of(parent_issue, child_issue),
{
    let mut s = "nightloop/".to_owned();
    let p = u64_to_string(parent_issue);
    s.append(p.as_str());
    s.append("-");
    let c = u64_to_string(child_issue);
    s.append(c.as_str());
    s
}

/// A nightly child is stacked on the branch of the previous success, or on
/// the base branch when there is none; it is always pushed before its pull
/// request is opened.
pub fn nightly_branch_publication(
    parent_issue: u64,
    child_issue: u64,
    base_branch: &str,
    previous_success_branch: Option<&str>,
) -> (r: Publication)
    ensures
        r.branch_name@ == branch_name_of(parent_issue, child_issue),
        r.pr_base@ == (match previous_success_branch {
            Some(p) => p@,
            None => base_branch@,
        }),
        r.push_before_pr,
{
    let pr_base = match previous_success_branch {
        Some(p) => p.to_owned(),
        None => base_branch.to_owned(),
    };
    Publication {
        branch_name: branch_name_for(parent_issue, child_issue),
        pr_base,
        push_before_pr: true,
    }
}

/// A single child started on its own always targets the base branch.
pub fn start_publication(parent_issue: u64, child_issue: u64, base_branch: &str) -> (r:
    Publication)
    ensures
        r.branch_name@ == branch_name_of(parent_issue, child_issue),
        r.pr_base@ == base_branch@,
        r.push_before_pr,
{
    Publication {
        branch_name: branch_name_for(parent_issue, child_issue),
        pr_base: base_branch.to_owned(),
        push_before_pr: true,
    }
}

/// The revision a child's diff is measured from: the current `HEAD` when
/// the child is stacked on the previous success, else the base branch.
pub open spec fn diff_base_of(
    previous_success_branch: Option<Seq<char>>,
    pr_base: Seq<char>,
    base_branch: Seq<char>,
) -> Seq<char> {
    match previous_success_branch {
        Some(p) => if pr_base == p {
            "HEAD"@
        } else {
            base_branch
        },
        None => base_branch,
    }
}

pub open spec fn opt_str_view(o: Option<&str>) -> Option<Seq<char>> {
    match o {
        Some(s) => Some(s@),
        None => None,
    }
}

/// The revision to resolve before a child runs.
pub fn diff_base_revision(
    previous_success_branch: Option<&str>,
    pr_base: &str,
    base_branch: &str,
) -> (r: String)
    ensures
        r@ == diff_base_of(opt_str_view(previous_success_branch), pr_base@, base_branch@),
{
    match previous_success_branch {
        Some(p) => {
            if str_eq(pr_base, p) {
                "HEAD".to_owned()
            } else {
                base_branch.to_owned()
            }
        },
        None => base_branch.to_owned(),
    }
}

/// Why a finished child's diff stops the run.
#[derive(Debug, Clone, Copy, PartialEq, Eq, Structural)]
pub enum DiffBreach {
    SplitRequired,
    DiffBelowMin,
}

impl DiffBreach {
    pub open spec fn name(self) -> Seq<char> {
        match self {
            DiffBreach::SplitRequired => "split_required"@,
            DiffBreach::DiffBelowMin => "diff_below_min"@,
        }
    }

    pub fn as_str(&self) -> (r: &'static str)
        ensures
            r@ == self.name(),
    {
        match self {
            DiffBreach::SplitRequired => "split_required",
            DiffBreach::DiffBelowMin => "diff_below_min",
        }
    }
}

/// The runner's check of a finished child's diff: over the child's size
/// band or the global maximum asks for a split; under the global minimum is
/// refused unless small diffs are allowed and the scope says docs-only or
/// config-only.
pub open spec fn run_diff_breach(config: Config, child: ChildIssue, changed_lines: u32) -> Option<
    DiffBreach,
> {
    if changed_lines > child.target_size.max_spec() || changed_lines > config.diff.max_lines {
        Some(DiffBreach::SplitRequired)
    } else if changed_lines < config.diff.min_lines && !(config.diff.allow_doc_only_below_min
        && small_diff_exception(child.scope@)) {
        Some(DiffBreach::DiffBelowMin)
    } else {
        None
    }
}

pub fn enforce_diff_budget(child: &ChildIssue, diff_stat: &DiffStat, config: &Config) -> (r: Result<
    (),
    DiffBreach,
>)
    ensures
        match run_diff_breach(*config, *child, diff_stat.changed_lines) {
            Some(b) => r == Err::<(), DiffBreach>(b),
            None => r is Ok,
        },
{
    let changed_lines = diff_stat.changed_lines;
    if changed_lines > child.target_size.max_lines() || changed_lines > config.diff.max_lines {
        return Err(DiffBreach::SplitRequired);
    }
    if changed_lines < config.diff.min_lines && !(config.diff.allow_doc_only_below_min
        && child.allows_small_diff_exception()) {
        return Err(DiffBreach::DiffBelowMin);
    }
    Ok(())
}

/// `start` for a single child, `nightly` for a campaign.
pub open spec fn workflow_name(single_child: bool) -> Seq<char> {
    if single_child {
        "start"@
    } else {
        "nightly"@
    }
}

fn workflow_str(single_child: bool) -> (r: &'static str)
    ensures
        r@ == workflow_name(single_child),
{
    if single_child {
        "start"
    } else {
        "nightly"
    }
}

/// The prompt handed to the implementation agent.
pub open spec fn agent_prompt_text(
    parent: ParentIssue,
    child: ChildIssue,
    estimate: IssueEstimate,
    single_child: bool,
) -> Seq<char> {
    "Parent issue: #"@ + decimal(parent.number as nat) + " "@ + parent.title@ + "\nChild issue: #"@
        + decimal(child.number as nat) + " "@ + child.title@ + "\nWorkflow: "@ + workflow_name(
        single_child,
    ) + "\nModel profile: "@ + estimate.model_profile@ + "\nEstimated minutes: "@ + decimal(
        estimate.estimated_minutes as nat,
    )
        + "\n\nImplement only the child issue scope. Run the declared verification commands before finishing.\n\nIssue body:\n"@
        + child.body@ + "\n"@
}

pub fn build_agent_prompt(
    parent: &ParentIssue,
    child: &ChildIssue,
    estimate: &IssueEstimate,
    single_child: bool,
) -> (r: String)
    ensures
        r@ == agent_prompt_text(*parent, *child, *estimate, single_child),
{
    let mut s = "Parent issue: #".to_owned();
    s.append(u64_to_string(parent.number).as_str());
    s.append(" ");
    s.append(parent.title.as_str());
    s.append("\nChild issue: #");
    s.append(u64_to_string(child.number).as_str());
    s.append(" ");
    s.append(child.title.as_str());
    s.append("\nWorkflow: ");
    s.append(workflow_str(single_child));
    s.append("\nModel profile: ");
    s.append(estimate.model_profile.as_str());
    s.append("\nEstimated minutes: ");
    s.append(u64_to_string(estimate.estimated_minutes as u64).as_str());
    s.append(
        "\n\nImplement only the child issue scope. Run the declared verification commands before finishing.\n\nIssue body:\n",
    );
    s.append(child.body.as_str());
    s.append("\n");
    s
}

/// The prompt handed to the planning agent when a single child starts:
/// the plan template, then the parent, child, suggested profile, estimate
/// and the child's body.
pub open spec fn plan_phase_prompt_text(
    template: Seq<char>,
    parent: ParentIssue,
    child: ChildIssue,
    estimate: IssueEstimate,
) -> Seq<char> {
    template + "\n\nParent: #"@ + decimal(parent.number as nat) + " "@ + parent.title@
        + "\nChild: #"@ + decimal(child.number as nat) + " "@ + child.title@
        + "\nSuggested profile: "@ + estimate.model_profile@ + "\nEstimated minutes: "@ + decimal(
        estimate.estimated_minutes as nat,
    ) + "\n\nIssue body:\n"@ + child.body@ + "\n"@
}

pub fn build_plan_phase_prompt(
    template: &str,
    parent: &ParentIssue,
    child: &ChildIssue,
    estimate: &IssueEstimate,
) -> (r: String)
    ensures
        r@ == plan_phase_prompt_text(template@, *parent, *child, *estimate),
{
    let mut s = template.to_owned();
    s.append("\n\nParent: #");
    s.append(u64_to_string(parent.number).as_str());
    s.append(" ");
    s.append(parent.title.as_str());
    s.append("\nChild: #");
    s.append(u64_to_string(child.number).as_str());
    s.append(" ");
    s.append(child.title.as_str());
    s.append("\nSuggested profile: ");
    s.append(estimate.model_profile.as_str());
    s.append("\nEstimated minutes: ");
    s.append(u64_to_string(estimate.estimated_minutes as u64).as_str());
    s.append("\n\nIssue body:\n");
    s.append(child.body.as_str());
    s.append("\n");
    s
}

/// The body of a child's draft pull request.
pub open spec fn pr_body_text(
    parent: ParentIssue,
    child: ChildIssue,
    estimate: IssueEstimate,
    single_child: bool,
) -> Seq<char> {
    "## Summary\n- Parent issue: #"@ + decimal(parent.number as nat) + "\n- Child issue: #"@
        + decimal(child.number as nat) + "\n- Workflow: "@ + workflow_name(single_child)
        + "\n- Model profile: "@ + estimate.model_profile@ + "\n- Estimated minutes: "@ + decimal(
        estimate.estimated_minutes as nat,
    ) + "\n"@
}

pub fn build_pr_body(
    parent: &ParentIssue,
    child: &ChildIssue,
    estimate: &IssueEstimate,
    single_child: bool,
) -> (r: String)
    ensures
        r@ == pr_body_text(*parent, *child, *estimate, single_child),
{
    let mut s = "## Summary\n- Parent issue: #".to_owned();
    s.append(u64_to_string(parent.number).as_str());
    s.append("\n- Child issue: #");
    s.append(u64_to_string(child.number).as_str());
    s.append("\n- Workflow: ");
    s.append(workflow_str(single_child));
    s.append("\n- Model profile: ");
    s.append(estimate.model_profile.as_str());
    s.append("\n- Estimated minutes: ");
    s.append(u64_to_string(estimate.estimated_minutes as u64).as_str());
    s.append("\n");
    s
}

/// The title of a child's draft pull request: `[CHILD] TITLE`.
pub fn pr_title(child: &ChildIssue) -> (r: String)
    ensures
        r@ == "["@ + decimal(child.number as nat) + "] "@ + child.title@,
{
    let mut s = "[".to_owned();
    s.append(u64_to_string(child.number).as_str());
    s.append("] ");
    s.append(child.title.as_str());
    s
}

/// The commit message of a child's work: `child #CHILD: TITLE`.
pub fn commit_message(child: &ChildIssue) -> (r: String)
    ensures
        r@ == "child #"@ + decimal(child.number as nat) + ": "@ + child.title@,
{
    let mut s = "child #".to_owned();
    s.append(u64_to_string(child.number).as_str());
    s.append(": ");
    s.append(child.title.as_str());
    s
}

/// What the target repository check reports: `true` when `origin` names the
/// configured repository, `unknown` when there is no GitHub origin, and a
/// mismatch otherwise.
pub fn target_repo_match(origin_slug: Option<&str>, repo_slug: &str) -> (r: Result<
    &'static str,
    &'static str,
>)
    ensures
        match origin_slug {
            Some(o) => if o@ == repo_slug@ {
                r matches Ok(v) && v@ == "true"@
            } else {
                r matches Err(e) && e@ == "target_repo_mismatch"@
            },
            None => r matches Ok(v) && v@ == "unknown"@,
        },
{
    match origin_slug {
        Some(o) => {
            if str_eq(o, repo_slug) {
                Ok("true")
            } else {
                Err("target_repo_mismatch")
            }
        },
        None => Ok("unknown"),
    }
}

/// Where a child stands in a campaign.
#[derive(Debug, Clone, Copy, PartialEq, Eq, Structural)]
pub enum IssueStatus {
    Skipped,
    Selected,
    Success,
    Blocked,
    SplitRequired,
}

impl IssueStatus {
    pub open spec fn name(self) -> Seq<char> {
        match self {
            IssueStatus::Skipped => "skipped"@,
            IssueStatus::Selected => "selected"@,
            IssueStatus::Success => "success"@,
            IssueStatus::Blocked => "blocked"@,
            IssueStatus::SplitRequired => "split_required"@,
        }
    }

    pub fn as_str(&self) -> (r: &'static str)
        ensures
            r@ == self.name(),
    {
        match self {
            IssueStatus::Skipped => "skipped",
            IssueStatus::Selected => "selected",
            IssueStatus::Success => "success",
            IssueStatus::Blocked => "blocked",
            IssueStatus::SplitRequired => "split_required",
        }
    }
}

/// One child of a campaign, with what planning and running found.
#[derive(Debug, Clone)]
pub struct PreparedIssue {
    pub snapshot: IssueSnapshot,
    pub child: Option<ChildIssue>,
    pub estimate: Option<IssueEstimate>,
    pub status: IssueStatus,
    pub reasons: Vec<String>,
    pub detail: Option<String>,
    pub branch: Option<String>,
    pub pr_base: Option<String>,
    pub pr_url: Option<String>,
    pub actual_minutes: Option<u32>,
    pub changed_lines: Option<u32>,
    pub files_touched: Option<u32>,
}

/// A planned campaign over a parent issue's children.
#[derive(Debug, Clone)]
pub struct PreparedCampaign {
    pub parent: ParentIssue,
    pub issues: Vec<PreparedIssue>,
    pub target_repo_match: String,
    pub estimated_total_minutes: u32,
    pub available_minutes: u32,
    pub run_root: String,
}

/// The estimate of a planned child, zero when it has none.
pub open spec fn estimate_minutes_of(item: PreparedIssue) -> int {
    match item.estimate {
        Some(e) => e.estimated_minutes as int,
        None => 0,
    }
}

/// The estimates of the selected children, summed.
pub open spec fn selected_minutes(issues: Seq<PreparedIssue>) -> int
    decreases issues.len(),
{
    if issues.len() == 0 {
        0
    } else {
        selected_minutes(issues.drop_last()) + if issues.last().status == IssueStatus::Selected {
            estimate_minutes_of(issues.last())
        } else {
            0
        }
    }
}

/// How many children are selected.
pub open spec fn selected_count(issues: Seq<PreparedIssue>) -> nat
    decreases issues.len(),
{
    if issues.len() == 0 {
        0
    } else {
        selected_count(issues.drop_last()) + if issues.last().status == IssueStatus::Selected {
            1nat
        } else {
            0nat
        }
    }
}

/// The issue numbers of the selected children.
pub open spec fn selected_numbers(issues: Seq<PreparedIssue>) -> Set<u64>
    decreases issues.len(),
{
    if issues.len() == 0 {
        Set::empty()
    } else if issues.last().status == IssueStatus::Selected {
        selected_numbers(issues.drop_last()).insert(issues.last().snapshot.number)
    } else {
        selected_numbers(issues.drop_last())
    }
}

/// A child is finished on GitHub when it is closed or carries the done
/// label.
pub open spec fn snapshot_done(snapshot: IssueSnapshot, done_label: Seq<char>) -> bool {
    snapshot.state == IssueState::Closed || has_label_in(snapshot.labels@, done_label)
}

/// The children already finished on GitHub, once `snapshot` has been seen.
pub open spec fn done_after(done: Set<u64>, snapshot: IssueSnapshot, done_label: Seq<char>) -> Set<
    u64,
> {
    if snapshot_done(snapshot, done_label) {
        done.insert(snapshot.number)
    } else {
        done
    }
}

/// The issue numbers of the seen children that are finished on GitHub.
pub open spec fn done_numbers(issues: Seq<PreparedIssue>, done_label: Seq<char>) -> Set<u64>
    decreases issues.len(),
{
    if issues.len() == 0 {
        Set::empty()
    } else {
        done_after(done_numbers(issues.drop_last(), done_label), issues.last().snapshot, done_label)
    }
}

/// Some child among `seen` is issue `d` and is finished on GitHub or was
/// selected.
pub open spec fn dependency_met(seen: Seq<PreparedIssue>, d: u64, done_label: Seq<char>) -> bool {
    exists|j: int|
        0 <= j < seen.len() && (#[trigger] seen[j]).snapshot.number == d && (snapshot_done(
            seen[j].snapshot,
            done_label,
        ) || seen[j].status == IssueStatus::Selected)
}

/// Every dependency of child `i` is met by a child before it.
pub open spec fn dependencies_met_before(
    issues: Seq<PreparedIssue>,
    i: int,
    done_label: Seq<char>,
) -> bool {
    forall|k: int|
        0 <= k < issues[i].child.unwrap().dependencies@.len() ==> dependency_met(
            issues.take(i),
            #[trigger] issues[i].child.unwrap().dependencies@[k],
            done_label,
        )
}

/// The issue numbers of a parent's children, in order.
pub open spec fn child_numbers(children: Seq<crate::models::ParentChildRef>) -> Seq<u64> {
    Seq::new(children.len(), |i: int| children[i].number)
}

/// Why a linted child is not selected: its static reasons, then unmet
/// dependencies, then (in a campaign) a budget it would overrun.
pub open spec fn admission_reasons(
    config: Config,
    child: ChildIssue,
    estimated_minutes: u32,
    done: Set<u64>,
    planned: Set<u64>,
    used_minutes: u32,
    available_minutes: u32,
    single_child: bool,
) -> Seq<Seq<char>> {
    let r0 = eligibility_reasons(config, child);
    let r1 = if !deps_satisfied(child.dependencies@, done, planned) {
        r0.push("dependency_unsatisfied"@)
    } else {
        r0
    };
    if !single_child && !(used_minutes + estimated_minutes <= available_minutes) {
        r1.push("budget_exhausted"@)
    } else {
        r1
    }
}

/// A child that was planned but has not run yet carries no run results.
pub open spec fn unrun(item: PreparedIssue) -> bool {
    &&& item.detail is None
    &&& item.branch is None
    &&& item.pr_base is None
    &&& item.pr_url is None
    &&& item.actual_minutes is None
    &&& item.changed_lines is None
    &&& item.files_touched is None
}

/// No entry of `s` is `x`.
pub open spec fn lacks(s: Seq<Seq<char>>, x: Seq<char>) -> bool {
    forall|k: int| 0 <= k < s.len() ==> #[trigger] s[k] != x
}

proof fn lemma_push_lacks(s: Seq<Seq<char>>, y: Seq<char>, x: Seq<char>)
    requires
        lacks(s, x),
        y != x,
    ensures
        lacks(s.push(y), x),
{
    assert forall|k: int| 0 <= k < s.push(y).len() implies #[trigger] s.push(y)[k] != x by {
        if k < s.len() {
            assert(s.push(y)[k] == s[k]);
        }
    }
}

/// No reason given for skipping a child is a want of budget.
pub open spec fn no_budget_reason(reasons: Seq<String>) -> bool {
    forall|k: int| 0 <= k < reasons.len() ==> (#[trigger] reasons[k])@ != "budget_exhausted"@
}

/// What holds of a plan over a parent's children:
/// - the planned children are the parent's first children, in order;
/// - each child is either selected, with its parsed issue and estimate, or
///   skipped with at least one reason;
/// - every dependency of a selected child is met by a child before it;
/// - a campaign's selected estimates fit the available minutes;
/// - a single-child plan selects at most one child, the last one it looked
///   at, and skips none for want of budget.
pub open spec fn plan_laws(
    issues: Seq<PreparedIssue>,
    children: Seq<crate::models::ParentChildRef>,
    available_minutes: u32,
    single_child: bool,
    done_label: Seq<char>,
) -> bool {
    &&& issues.len() <= children.len()
    &&& forall|j: int|
        0 <= j < issues.len() ==> (#[trigger] issues[j]).snapshot.number == children[j].number
    &&& forall|i: int|
        0 <= i < issues.len() ==> (#[trigger] issues[i]).status == IssueStatus::Selected || (
        issues[i].status == IssueStatus::Skipped && issues[i].reasons@.len() > 0)
    &&& forall|i: int|
        0 <= i < issues.len() && (#[trigger] issues[i]).status == IssueStatus::Selected ==> {
            &&& issues[i].child is Some
            &&& issues[i].estimate is Some
            &&& issues[i].child.unwrap().number == issues[i].snapshot.number
            &&& dependencies_met_before(issues, i, done_label)
        }
    &&& !single_child ==> selected_minutes(issues) <= available_minutes
    &&& single_child ==> {
        &&& selected_count(issues) <= 1
        &&& forall|i: int|
            0 <= i < issues.len() && (#[trigger] issues[i]).status == IssueStatus::Selected ==> i
                == issues.len() - 1
        &&& forall|i: int| 0 <= i < issues.len() ==> no_budget_reason((#[trigger] issues[i]).reasons@)
    }
}

/// Plans a campaign over a parent's children, one child at a time in the
/// parent's order.
pub struct CampaignPlanner {
    pub parent: ParentIssue,
    pub done_label: String,
    pub available_minutes: u32,
    pub single_child: bool,
    pub used_minutes: u32,
    pub estimated_total_minutes: u32,
    pub done_on_github: HashSet<u64>,
    pub planned: HashSet<u64>,
    pub issues: Vec<PreparedIssue>,
    pub finished: bool,
}

impl CampaignPlanner {
    /// The planner's invariant: the planned children obey [`plan_laws`];
    /// the children known done on GitHub are exactly the seen ones that are
    /// closed or carry the done label; the minutes used and the planned
    /// numbers are those of the selected children; a campaign never
    /// finishes early, and a single-child plan finishes with its one
    /// selection.
    pub open spec fn wf(self) -> bool {
        &&& plan_laws(
            self.issues@,
            self.parent.children@,
            self.available_minutes,
            self.single_child,
            self.done_label@,
        )
        &&& self.done_on_github@ == done_numbers(self.issues@, self.done_label@)
        &&& self.estimated_total_minutes == self.used_minutes
        &&& self.used_minutes == selected_minutes(self.issues@)
        &&& self.planned@ == selected_numbers(self.issues@)
        &&& !self.single_child ==> !self.finished
        &&& self.single_child ==> (self.finished <==> selected_count(self.issues@) == 1)
    }

    /// A planner over `parent`'s children, with `available_minutes` to fill
    /// (ignored for a single child).
    pub fn new(config: &Config, parent: ParentIssue, available_minutes: u32, single_child: bool) -> (r:
        Self)
        ensures
            r.wf(),
            r.parent == parent,
            r.done_label@ == config.labels.done@,
            r.available_minutes == available_minutes,
            r.single_child == single_child,
            r.issues@.len() == 0,
            !r.finished,
    {
        broadcast use vstd::std_specs::hash::group_hash_axioms;

        CampaignPlanner {
            parent,
            done_label: config.labels.done.clone(),
            available_minutes,
            single_child,
            used_minutes: 0,
            estimated_total_minutes: 0,
            done_on_github: HashSet::new(),
            planned: HashSet::new(),
            issues: Vec::new(),
            finished: false,
        }
    }

    /// The next child to look at: the parent's next child, until the plan
    /// is finished or every child has been seen.
    pub fn next_child(&self) -> (r: Option<u64>)
        ensures
            r == (if !self.finished && self.issues@.len() < self.parent.children@.len() {
                Some(self.parent.children@[self.issues@.len() as int].number)
            } else {
                None::<u64>
            }),
    {
        if !self.finished && self.issues.len() < self.parent.children.len() {
            Some(self.parent.children[self.issues.len()].number)
        } else {
            None
        }
    }

    fn note_snapshot(&mut self, snapshot: &IssueSnapshot)
        ensures
            final(self).done_on_github@ == done_after(
                old(self).done_on_github@,
                *snapshot,
                old(self).done_label@,
            ),
            final(self).parent == old(self).parent,
            final(self).done_label == old(self).done_label,
            final(self).available_minutes == old(self).available_minutes,
            final(self).single_child == old(self).single_child,
            final(self).used_minutes == old(self).used_minutes,
            final(self).estimated_total_minutes == old(self).estimated_total_minutes,
            final(self).planned@ == old(self).planned@,
            final(self).issues@ == old(self).issues@,
            final(self).finished == old(self).finished,
    {
        broadcast use vstd::std_specs::hash::group_hash_axioms;

        if snapshot.state == IssueState::Closed || snapshot.has_label(self.done_label.as_str()) {
            self.done_on_github.insert(snapshot.number);
        }
    }

    proof fn lemma_push_keeps_prefix(issues: Seq<PreparedIssue>, item: PreparedIssue)
        ensures
            forall|i: int|
                0 <= i <= issues.len() ==> #[trigger] issues.push(item).take(i) == issues.take(i),
            issues.push(item).drop_last() == issues,
    {
        assert forall|i: int| 0 <= i <= issues.len() implies #[trigger] issues.push(item).take(i)
            == issues.take(i) by {
            assert(issues.push(item).take(i) =~= issues.take(i));
        }
        assert(issues.push(item).drop_last() =~= issues);
    }

    proof fn lemma_none_selected(issues: Seq<PreparedIssue>)
        requires
            selected_count(issues) == 0,
        ensures
            selected_minutes(issues) == 0,
        decreases issues.len(),
    {
        if issues.len() > 0 {
            Self::lemma_none_selected(issues.drop_last());
        }
    }

    proof fn lemma_nothing_selected(issues: Seq<PreparedIssue>)
        requires
            selected_count(issues) == 0,
        ensures
            forall|i: int|
                0 <= i < issues.len() ==> (#[trigger] issues[i]).status != IssueStatus::Selected,
        decreases issues.len(),
    {
        if issues.len() > 0 {
            let rest = issues.drop_last();
            Self::lemma_nothing_selected(rest);
            assert forall|i: int| 0 <= i < issues.len() implies (#[trigger] issues[i]).status
                != IssueStatus::Selected by {
                if i < rest.len() {
                    assert(issues[i] == rest[i]);
                }
            }
        }
    }

    /// Without a budget to check, a single-child plan never gives
    /// `budget_exhausted` as a reason.
    proof fn lemma_single_child_reasons(
        config: Config,
        child: ChildIssue,
        estimated_minutes: u32,
        done: Set<u64>,
        planned: Set<u64>,
        used_minutes: u32,
        available_minutes: u32,
    )
        ensures
            ({
                let r = admission_reasons(
                    config,
                    child,
                    estimated_minutes,
                    done,
                    planned,
                    used_minutes,
                    available_minutes,
                    true,
                );
                lacks(r, "budget_exhausted"@)
            }),
    {
        reveal_strlit("budget_exhausted");
        reveal_strlit("issue_closed");
        reveal_strlit("label_missing_night_run");
        reveal_strlit("label_missing_ready");
        reveal_strlit("label_present_running");
        reveal_strlit("label_present_blocked");
        reveal_strlit("label_present_done");
        reveal_strlit("label_present_review");
        reveal_strlit("size_band_exceeds_diff_max");
        reveal_strlit("size_band_below_diff_min");
        reveal_strlit("dependency_unsatisfied");
        let b = "budget_exhausted"@;
        assert(b.len() == 16);
        let labels = config.labels;
        let r0 = if child.state != IssueState::Open {
            seq!["issue_closed"@]
        } else {
            Seq::empty()
        };
        assert("issue_closed"@.len() == 12);
        assert(lacks(r0, b));
        let r1 = if !has_label_in(child.labels@, labels.night_run@) {
            r0.push("label_missing_night_run"@)
        } else {
            r0
        };
        assert("label_missing_night_run"@.len() == 23);
        lemma_push_lacks(r0, "label_missing_night_run"@, b);
        let r2 = if !has_label_in(child.labels@, labels.ready@) {
            r1.push("label_missing_ready"@)
        } else {
            r1
        };
        assert("label_missing_ready"@.len() == 19);
        lemma_push_lacks(r1, "label_missing_ready"@, b);
        let r3 = if has_label_in(child.labels@, labels.running@) {
            r2.push("label_present_running"@)
        } else {
            r2
        };
        assert("label_present_running"@.len() == 21);
        lemma_push_lacks(r2, "label_present_running"@, b);
        let r4 = if has_label_in(child.labels@, labels.blocked@) {
            r3.push("label_present_blocked"@)
        } else {
            r3
        };
        assert("label_present_blocked"@.len() == 21);
        lemma_push_lacks(r3, "label_present_blocked"@, b);
        let r5 = if has_label_in(child.labels@, labels.done@) {
            r4.push("label_present_done"@)
        } else {
            r4
        };
        assert("label_present_done"@.len() == 18);
        lemma_push_lacks(r4, "label_present_done"@, b);
        let r6 = if has_label_in(child.labels@, labels.review@) {
            r5.push("label_present_review"@)
        } else {
            r5
        };
        assert("label_present_review"@.len() == 20);
        lemma_push_lacks(r5, "label_present_review"@, b);
        let r7 = if child.target_size.max_spec() > config.diff.max_lines {
            r6.push("size_band_exceeds_diff_max"@)
        } else {
            r6
        };
        assert("size_band_exceeds_diff_max"@.len() == 26);
        lemma_push_lacks(r6, "size_band_exceeds_diff_max"@, b);
        let r8 = if child.target_size.min_spec() < config.diff.min_lines {
            r7.push("size_band_below_diff_min"@)
        } else {
            r7
        };
        assert("size_band_below_diff_min"@.len() == 24);
        lemma_push_lacks(r7, "size_band_below_diff_min"@, b);
        assert(r8 == eligibility_reasons(config, child));
        assert("dependency_unsatisfied"@.len() == 22);
        lemma_push_lacks(r8, "dependency_unsatisfied"@, b);
    }

    proof fn lemma_done_witness(issues: Seq<PreparedIssue>, d: u64, done_label: Seq<char>)
        requires
            done_numbers(issues, done_label).contains(d),
        ensures
            dependency_met(issues, d, done_label),
        decreases issues.len(),
    {
        let last = issues.last();
        if snapshot_done(last.snapshot, done_label) && last.snapshot.number == d {
            assert(issues[issues.len() - 1] == last);
        } else {
            let rest = issues.drop_last();
            Self::lemma_done_witness(rest, d, done_label);
            let j = choose|j: int|
                0 <= j < rest.len() && (#[trigger] rest[j]).snapshot.number == d && (
                snapshot_done(rest[j].snapshot, done_label) || rest[j].status
                    == IssueStatus::Selected);
            assert(issues[j] == rest[j]);
        }
    }

    proof fn lemma_selected_witness(issues: Seq<PreparedIssue>, d: u64, done_label: Seq<char>)
        requires
            selected_numbers(issues).contains(d),
        ensures
            dependency_met(issues, d, done_label),
        decreases issues.len(),
    {
        let last = issues.last();
        if last.status == IssueStatus::Selected && last.snapshot.number == d {
            assert(issues[issues.len() - 1] == last);
        } else {
            let rest = issues.drop_last();
            Self::lemma_selected_witness(rest, d, done_label);
            let j = choose|j: int|
                0 <= j < rest.len() && (#[trigger] rest[j]).snapshot.number == d && (
                snapshot_done(rest[j].snapshot, done_label) || rest[j].status
                    == IssueStatus::Selected);
            assert(issues[j] == rest[j]);
        }
    }

    /// Pushing a new child keeps what the invariant says of the earlier
    /// ones.
    proof fn lemma_earlier_children_kept(
        old_issues: Seq<PreparedIssue>,
        item: PreparedIssue,
        done_label: Seq<char>,
        i: int,
    )
        requires
            0 <= i < old_issues.len(),
            dependencies_met_before(old_issues, i, done_label),
        ensures
            dependencies_met_before(old_issues.push(item), i, done_label),
    {
        Self::lemma_push_keeps_prefix(old_issues, item);
        let new_issues = old_issues.push(item);
        assert(new_issues[i] == old_issues[i]);
        assert(new_issues.take(i) == old_issues.take(i));
    }

    /// Records a child whose body could not be used: it is skipped with
    /// `lint_failed`, and the lint findings joined by commas as its detail.
    pub fn skip_invalid(&mut self, snapshot: IssueSnapshot, findings: &Vec<String>)
        requires
            old(self).wf(),
            !old(self).finished,
            old(self).issues@.len() < old(self).parent.children@.len(),
            snapshot.number == old(self).parent.children@[old(self).issues@.len() as int].number,
        ensures
            final(self).wf(),
            final(self).parent == old(self).parent,
            final(self).done_label == old(self).done_label,
            final(self).done_on_github@ == done_after(
                old(self).done_on_github@,
                snapshot,
                old(self).done_label@,
            ),
            final(self).issues@.len() == old(self).issues@.len() + 1,
            final(self).issues@.drop_last() == old(self).issues@,
            final(self).issues@.last().snapshot == snapshot,
            final(self).issues@.last().child is None,
            final(self).issues@.last().estimate is None,
            final(self).issues@.last().status == IssueStatus::Skipped,
            string_views(final(self).issues@.last().reasons@) == seq!["lint_failed"@],
            final(self).issues@.last().detail is Some,
            final(self).issues@.last().detail.unwrap()@ == join(string_views(findings@), ","@),
            final(self).used_minutes == old(self).used_minutes,
            final(self).planned@ == old(self).planned@,
            !final(self).finished,
            final(self).available_minutes == old(self).available_minutes,
            final(self).single_child == old(self).single_child,
    {
        self.note_snapshot(&snapshot);
        let mut reasons: Vec<String> = Vec::new();
        reasons.push("lint_failed".to_owned());
        let detail = join_strings(findings, ",");
        let item = PreparedIssue {
            snapshot,
            child: None,
            estimate: None,
            status: IssueStatus::Skipped,
            reasons,
            detail: Some(detail),
            branch: None,
            pr_base: None,
            pr_url: None,
            actual_minutes: None,
            changed_lines: None,
            files_touched: None,
        };
        let ghost old_issues = self.issues@;
        self.issues.push(item);
        proof {
            Self::lemma_push_keeps_prefix(old_issues, item);
            assert(string_views(self.issues@.last().reasons@) =~= seq!["lint_failed"@]);
            assert forall|i: int|
                0 <= i < self.issues@.len() && (#[trigger] self.issues@[i]).status
                    == IssueStatus::Selected implies {
                &&& self.issues@[i].child is Some
                &&& self.issues@[i].estimate is Some
                &&& self.issues@[i].child.unwrap().number == self.issues@[i].snapshot.number
                &&& dependencies_met_before(self.issues@, i, self.done_label@)
            } by {
                assert(i < old_issues.len());
                assert(self.issues@[i] == old_issues[i]);
                Self::lemma_earlier_children_kept(old_issues, item, self.done_label@, i);
            }
            assert forall|j: int| 0 <= j < self.issues@.len() implies (
            #[trigger] self.issues@[j]).snapshot.number == self.parent.children@[j].number by {
                if j < old_issues.len() {
                    assert(self.issues@[j] == old_issues[j]);
                }
            }
            assert forall|i: int| 0 <= i < self.issues@.len() implies (
            #[trigger] self.issues@[i]).status == IssueStatus::Selected || (self.issues@[i].status
                == IssueStatus::Skipped && self.issues@[i].reasons@.len() > 0) by {
                if i < old_issues.len() {
                    assert(self.issues@[i] == old_issues[i]);
                }
            }
            if self.single_child {
                Self::lemma_nothing_selected(old_issues);
                reveal_strlit("lint_failed");
                reveal_strlit("budget_exhausted");
                assert forall|i: int|
                    0 <= i < self.issues@.len() && (#[trigger] self.issues@[i]).status
                        == IssueStatus::Selected implies i == self.issues@.len() - 1 by {
                    if i < old_issues.len() {
                        assert(self.issues@[i] == old_issues[i]);
                    }
                }
                assert forall|i: int| 0 <= i < self.issues@.len() implies no_budget_reason(
                    (#[trigger] self.issues@[i]).reasons@,
                ) by {
                    if i < old_issues.len() {
                        assert(self.issues@[i] == old_issues[i]);
                    } else {
                        assert(self.issues@[i].reasons@[0]@ == string_views(
                            self.issues@[i].reasons@,
                        )[0]);
                    }
                }
            }
        }
    }

    /// Decides on a child whose body parsed: it is selected when nothing in
    /// [`admission_reasons`] holds against it, and skipped with those
    /// reasons otherwise. A single-child plan finishes with its first
    /// selection.
    pub fn consider(
        &mut self,
        config: &Config,
        snapshot: IssueSnapshot,
        child: ChildIssue,
        estimate: IssueEstimate,
    )
        requires
            old(self).wf(),
            !old(self).finished,
            old(self).issues@.len() < old(self).parent.children@.len(),
            snapshot.number == old(self).parent.children@[old(self).issues@.len() as int].number,
            child.number == snapshot.number,
            child.state == snapshot.state,
            child.labels@ == snapshot.labels@,
            config.labels.done@ == old(self).done_label@,
        ensures
            final(self).wf(),
            final(self).parent == old(self).parent,
            final(self).done_label == old(self).done_label,
            final(self).done_on_github@ == done_after(
                old(self).done_on_github@,
                snapshot,
                old(self).done_label@,
            ),
            final(self).issues@.len() == old(self).issues@.len() + 1,
            final(self).issues@.drop_last() == old(self).issues@,
            ({
                let item = final(self).issues@.last();
                let reasons = admission_reasons(
                    *config,
                    child,
                    estimate.estimated_minutes,
                    final(self).done_on_github@,
                    old(self).planned@,
                    old(self).used_minutes,
                    old(self).available_minutes,
                    old(self).single_child,
                );
                &&& item.snapshot == snapshot
                &&& item.child == Some(child)
                &&& item.estimate == Some(estimate)
                &&& unrun(item)
                &&& string_views(item.reasons@) == reasons
                &&& item.status == if reasons.len() == 0 {
                    IssueStatus::Selected
                } else {
                    IssueStatus::Skipped
                }
                &&& reasons.len() == 0 ==> {
                    &&& final(self).used_minutes == old(self).used_minutes
                        + estimate.estimated_minutes
                    &&& final(self).planned@ == old(self).planned@.insert(child.number)
                    &&& final(self).finished == old(self).single_child
                }
                &&& reasons.len() != 0 ==> {
                    &&& final(self).used_minutes == old(self).used_minutes
                    &&& final(self).planned@ == old(self).planned@
                    &&& !final(self).finished
                }
            }),
            final(self).available_minutes == old(self).available_minutes,
            final(self).single_child == old(self).single_child,
    {
        broadcast use vstd::std_specs::hash::group_hash_axioms;

        self.note_snapshot(&snapshot);
        let ghost old_issues = self.issues@;
        let mut reasons = static_eligibility_reasons(config, &child);
        let ghost r0 = string_views(reasons@);
        if !dependencies_satisfied(&child, &self.done_on_github, &self.planned) {
            reasons.push("dependency_unsatisfied".to_owned());
            proof {
                assert(string_views(reasons@) =~= r0.push("dependency_unsatisfied"@));
            }
        }
        let ghost r1 = string_views(reasons@);
        if !self.single_child && !pack_issue_if_fit(
            estimate.estimated_minutes,
            self.used_minutes,
            self.available_minutes,
        ) {
            reasons.push("budget_exhausted".to_owned());
            proof {
                assert(string_views(reasons@) =~= r1.push("budget_exhausted"@));
            }
        }
        let selected = reasons.len() == 0;
        let ghost done_now = self.done_on_github@;
        let ghost planned_before = self.planned@;
        if selected {
            proof {
                if self.single_child {
                    Self::lemma_none_selected(old_issues);
                }
                // A selectable child is open and not labelled done, so it
                // did not join the done set.
                assert(r0.len() == 0);
                assert(!snapshot_done(snapshot, self.done_label@));
                assert(done_now == done_numbers(old_issues, self.done_label@));
                assert forall|k: int| 0 <= k < child.dependencies@.len() implies dependency_met(
                    old_issues,
                    #[trigger] child.dependencies@[k],
                    self.done_label@,
                ) by {
                    let d = child.dependencies@[k];
                    if done_now.contains(d) {
                        Self::lemma_done_witness(old_issues, d, self.done_label@);
                    } else {
                        assert(planned_before.contains(d));
                        Self::lemma_selected_witness(old_issues, d, self.done_label@);
                    }
                }
            }
            self.planned.insert(child.number);
            self.used_minutes = self.used_minutes + estimate.estimated_minutes;
            self.estimated_total_minutes = self.used_minutes;
            if self.single_child {
                self.finished = true;
            }
        }
        let item = PreparedIssue {
            snapshot,
            child: Some(child),
            estimate: Some(estimate),
            status: if selected {
                IssueStatus::Selected
            } else {
                IssueStatus::Skipped
            },
            reasons,
            detail: None,
            branch: None,
            pr_base: None,
            pr_url: None,
            actual_minutes: None,
            changed_lines: None,
            files_touched: None,
        };
        self.issues.push(item);
        proof {
            Self::lemma_push_keeps_prefix(old_issues, item);
            assert forall|i: int|
                0 <= i < self.issues@.len() && (#[trigger] self.issues@[i]).status
                    == IssueStatus::Selected implies {
                &&& self.issues@[i].child is Some
                &&& self.issues@[i].estimate is Some
                &&& self.issues@[i].child.unwrap().number == self.issues@[i].snapshot.number
                &&& dependencies_met_before(self.issues@, i, self.done_label@)
            } by {
                if i < old_issues.len() {
                    assert(self.issues@[i] == old_issues[i]);
                    Self::lemma_earlier_children_kept(old_issues, item, self.done_label@, i);
                } else {
                    assert(self.issues@.take(i) == old_issues);
                    assert(self.issues@[i] == item);
                }
            }
            assert forall|j: int| 0 <= j < self.issues@.len() implies (
            #[trigger] self.issues@[j]).snapshot.number == self.parent.children@[j].number by {
                if j < old_issues.len() {
                    assert(self.issues@[j] == old_issues[j]);
                }
            }
            assert forall|i: int| 0 <= i < self.issues@.len() implies (
            #[trigger] self.issues@[i]).status == IssueStatus::Selected || (self.issues@[i].status
                == IssueStatus::Skipped && self.issues@[i].reasons@.len() > 0) by {
                if i < old_issues.len() {
                    assert(self.issues@[i] == old_issues[i]);
                }
            }
            if self.single_child {
                Self::lemma_nothing_selected(old_issues);
                Self::lemma_single_child_reasons(
                    *config,
                    child,
                    estimate.estimated_minutes,
                    done_now,
                    planned_before,
                    old(self).used_minutes,
                    self.available_minutes,
                );
                assert forall|i: int|
                    0 <= i < self.issues@.len() && (#[trigger] self.issues@[i]).status
                        == IssueStatus::Selected implies i == self.issues@.len() - 1 by {
                    if i < old_issues.len() {
                        assert(self.issues@[i] == old_issues[i]);
                    }
                }
                assert forall|i: int| 0 <= i < self.issues@.len() implies no_budget_reason(
                    (#[trigger] self.issues@[i]).reasons@,
                ) by {
                    if i < old_issues.len() {
                        assert(self.issues@[i] == old_issues[i]);
                    } else {
                        assert forall|k: int| 0 <= k < self.issues@[i].reasons@.len() implies (
                        #[trigger] self.issues@[i].reasons@[k])@ != "budget_exhausted"@ by {
                            assert(self.issues@[i].reasons@[k]@ == string_views(
                                self.issues@[i].reasons@,
                            )[k]);
                        }
                    }
                }
            }
        }
    }

    /// The finished plan as a campaign over the planner's parent; the
    /// campaign's children keep the laws of the plan.
    pub fn into_campaign(self, target_repo_match: String, run_root: String) -> (r: PreparedCampaign)
        requires
            self.wf(),
        ensures
            plan_laws(
                r.issues@,
                r.parent.children@,
                r.available_minutes,
                self.single_child,
                self.done_label@,
            ),
            r.estimated_total_minutes == selected_minutes(r.issues@),
            r.parent == self.parent,
            r.issues@ == self.issues@,
            r.target_repo_match == target_repo_match,
            r.estimated_total_minutes == self.estimated_total_minutes,
            r.available_minutes == self.available_minutes,
            r.run_root == run_root,
    {
        PreparedCampaign {
            parent: self.parent,
            issues: self.issues,
            target_repo_match,
            estimated_total_minutes: self.estimated_total_minutes,
            available_minutes: self.available_minutes,
            run_root,
        }
    }
}

/// The done set of `done_numbers`, in plain terms: `n` is in it exactly
/// when some seen child numbered `n` is closed or carries the done label.
proof fn lemma_done_numbers_members(issues: Seq<PreparedIssue>, done_label: Seq<char>, n: u64)
    ensures
        done_numbers(issues, done_label).contains(n) <==> exists|j: int|
            0 <= j < issues.len() && (#[trigger] issues[j]).snapshot.number == n && (
            issues[j].snapshot.state == IssueState::Closed || has_label_in(
                issues[j].snapshot.labels@,
                done_label,
            )),
    decreases issues.len(),
{
    if issues.len() > 0 {
        let rest = issues.drop_last();
        lemma_done_numbers_members(rest, done_label, n);
        let last = issues.last();
        if done_numbers(issues, done_label).contains(n) {
            if done_numbers(rest, done_label).contains(n) {
                let j = choose|j: int|
                    0 <= j < rest.len() && (#[trigger] rest[j]).snapshot.number == n && (
                    rest[j].snapshot.state == IssueState::Closed || has_label_in(
                        rest[j].snapshot.labels@,
                        done_label,
                    ));
                assert(issues[j] == rest[j]);
            } else {
                assert(issues[issues.len() - 1] == last);
            }
        } else {
            assert forall|j: int| 0 <= j < issues.len() && (#[trigger] issues[j]).snapshot.number
                == n implies !(issues[j].snapshot.state == IssueState::Closed || has_label_in(
                issues[j].snapshot.labels@,
                done_label,
            )) by {
                if j < rest.len() {
                    assert(issues[j] == rest[j]);
                }
            }
        }
    }
}

/// A child counts as done on GitHub once it has been seen if it is closed
/// or carries the done label, whether it is open or not; nothing else is in
/// the planner's done set.
pub proof fn lemma_done_children_known(planner: CampaignPlanner, n: u64)
    requires
        planner.wf(),
    ensures
        planner.done_on_github@.contains(n) <==> exists|j: int|
            0 <= j < planner.issues@.len() && (#[trigger] planner.issues@[j]).snapshot.number == n
                && (planner.issues@[j].snapshot.state == IssueState::Closed || has_label_in(
                planner.issues@[j].snapshot.labels@,
                planner.done_label@,
            )),
{
    lemma_done_numbers_members(planner.issues@, planner.done_label@, n);
}

/// Every child selected into a nightly campaign fits the budget together
/// with the others: their estimates sum to at most the available minutes.
pub proof fn lemma_campaign_within_budget(planner: CampaignPlanner)
    requires
        planner.wf(),
        !planner.single_child,
    ensures
        selected_minutes(planner.issues@) <= planner.available_minutes,
{
}

/// A single-child plan selects at most one child.
pub proof fn lemma_single_child_selects_one(planner: CampaignPlanner)
    requires
        planner.wf(),
        planner.single_child,
    ensures
        selected_count(planner.issues@) <= 1,
{
}

/// A plan keeps the parent's order: its children are the parent's first
/// children, one for one.
pub proof fn lemma_plan_follows_parent_order(planner: CampaignPlanner)
    requires
        planner.wf(),
    ensures
        planner.issues@.len() <= planner.parent.children@.len(),
        forall|j: int|
            0 <= j < planner.issues@.len() ==> (#[trigger] planner.issues@[j]).snapshot.number
                == child_numbers(planner.parent.children@)[j],
{
}

/// Every dependency of a selected child is met by a child before it in the
/// plan: one that is closed or labelled done on GitHub, or one selected
/// earlier. The done set is exactly the seen children closed or labelled
/// done.
pub proof fn lemma_selected_dependencies_met(planner: CampaignPlanner, i: int, k: int)
    requires
        planner.wf(),
        0 <= i < planner.issues@.len(),
        planner.issues@[i].status == IssueStatus::Selected,
        0 <= k < planner.issues@[i].child.unwrap().dependencies@.len(),
    ensures
        planner.done_on_github@ == done_numbers(planner.issues@, planner.done_label@),
        ({
            let d = planner.issues@[i].child.unwrap().dependencies@[k];
            exists|j: int|
                0 <= j < i && (#[trigger] planner.issues@[j]).snapshot.number == d && (
                snapshot_done(planner.issues@[j].snapshot, planner.done_label@)
                    || planner.issues@[j].status == IssueStatus::Selected)
        }),
{
    let d = planner.issues@[i].child.unwrap().dependencies@[k];
    let before = planner.issues@.take(i);
    assert(dependency_met(before, d, planner.done_label@));
    let j = choose|j: int|
        0 <= j < before.len() && (#[trigger] before[j]).snapshot.number == d && (snapshot_done(
            before[j].snapshot,
            planner.done_label@,
        ) || before[j].status == IssueStatus::Selected);
    assert(planner.issues@[j] == before[j]);
}

/// The status a failed child ends with: `split_required` when that is the
/// failure, `blocked` otherwise.
pub open spec fn failure_status(message: Seq<char>) -> IssueStatus {
    if message == "split_required"@ {
        IssueStatus::SplitRequired
    } else {
        IssueStatus::Blocked
    }
}

/// A child whose diff is over its size band or the global maximum fails
/// with `split_required` and is recorded as needing a split; a diff under
/// the minimum (without the scope marker) blocks the child instead.
pub proof fn lemma_oversize_diff_ends_split_required(
    config: Config,
    child: ChildIssue,
    changed_lines: u32,
)
    ensures
        changed_lines > child.target_size.max_spec() || changed_lines > config.diff.max_lines
            ==> run_diff_breach(config, child, changed_lines) == Some(DiffBreach::SplitRequired)
            && failure_status(DiffBreach::SplitRequired.name()) == IssueStatus::SplitRequired,
        run_diff_breach(config, child, changed_lines) == Some(DiffBreach::DiffBelowMin)
            ==> failure_status(DiffBreach::DiffBelowMin.name()) == IssueStatus::Blocked,
{
    assert(DiffBreach::DiffBelowMin.name() != "split_required"@) by {
        reveal_strlit("diff_below_min");
        reveal_strlit("split_required");
        assert(("diff_below_min"@)[0] != ("split_required"@)[0]);
    }
}

/// One step of running a child, in the order they are taken.
#[derive(Debug, Clone, Copy, PartialEq, Eq, Structural)]
pub enum ChildStep {
    PrepareBranch,
    ClaimLabels,
    PlanPhase,
    Implement,
    Verify,
    MeasureDiff,
    CheckDiffBudget,
    Commit,
    PushBranch,
    OpenPullRequest,
}

/// The steps of running a child: recreate its branch, claim it with the
/// running label, plan (single child only), implement, verify, measure
/// and check the diff, commit, push (when the publication asks for it),
/// and open the draft pull request. The run of a child stops at its first
/// failing step.
pub open spec fn child_steps(single_child: bool, push_before_pr: bool) -> Seq<ChildStep> {
    let head = seq![ChildStep::PrepareBranch, ChildStep::ClaimLabels];
    let planned = if single_child {
        head.push(ChildStep::PlanPhase)
    } else {
        head
    };
    let work = planned + seq![
        ChildStep::Implement,
        ChildStep::Verify,
        ChildStep::MeasureDiff,
        ChildStep::CheckDiffBudget,
        ChildStep::Commit,
    ];
    let published = if push_before_pr {
        work.push(ChildStep::PushBranch)
    } else {
        work
    };
    published.push(ChildStep::OpenPullRequest)
}

pub fn child_step_plan(single_child: bool, push_before_pr: bool) -> (r: Vec<ChildStep>)
    ensures
        r@ == child_steps(single_child, push_before_pr),
{
    let mut v: Vec<ChildStep> = Vec::new();
    v.push(ChildStep::PrepareBranch);
    v.push(ChildStep::ClaimLabels);
    if single_child {
        v.push(ChildStep::PlanPhase);
    }
    v.push(ChildStep::Implement);
    v.push(ChildStep::Verify);
    v.push(ChildStep::MeasureDiff);
    v.push(ChildStep::CheckDiffBudget);
    v.push(ChildStep::Commit);
    if push_before_pr {
        v.push(ChildStep::PushBranch);
    }
    v.push(ChildStep::OpenPullRequest);
    proof {
        assert(v@ =~= child_steps(single_child, push_before_pr));
    }
    v
}

/// The diff budget is checked right after the diff is measured and before
/// anything is committed, pushed or published; the draft pull request is
/// the last step, and a pushed branch is pushed just before it.
pub proof fn lemma_budget_checked_before_publishing(single_child: bool, push_before_pr: bool)
    ensures
        ({
            let s = child_steps(single_child, push_before_pr);
            let n = s.len() as int;
            let c = if push_before_pr {
                n - 3
            } else {
                n - 2
            };
            &&& s[n - 1] == ChildStep::OpenPullRequest
            &&& push_before_pr ==> s[n - 2] == ChildStep::PushBranch
            &&& s[c] == ChildStep::Commit
            &&& s[c - 1] == ChildStep::CheckDiffBudget
            &&& s[c - 2] == ChildStep::MeasureDiff
            &&& forall|i: int|
                0 <= i < c - 1 ==> #[trigger] s[i] != ChildStep::Commit && s[i]
                    != ChildStep::PushBranch && s[i] != ChildStep::OpenPullRequest
        }),
{
}

/// One step of preparing a child's branch.
#[derive(Debug, Clone, Copy, PartialEq, Eq, Structural)]
pub enum BranchPreparation {
    DeleteExisting,
    Create,
}

/// Preparing a child's branch: a branch left from an earlier run is
/// deleted first, then the branch is created afresh from its base.
pub fn branch_preparation(exists: bool) -> (r: Vec<BranchPreparation>)
    ensures
        r@ == (if exists {
            seq![BranchPreparation::DeleteExisting, BranchPreparation::Create]
        } else {
            seq![BranchPreparation::Create]
        }),
{
    let mut r: Vec<BranchPreparation> = Vec::new();
    if exists {
        r.push(BranchPreparation::DeleteExisting);
    }
    r.push(BranchPreparation::Create);
    proof {
        if exists {
            assert(r@ =~= seq![BranchPreparation::DeleteExisting, BranchPreparation::Create]);
        } else {
            assert(r@ =~= seq![BranchPreparation::Create]);
        }
    }
    r
}

/// Labels to take off and put on a child.
#[derive(Debug)]
pub struct LabelChange {
    pub remove: Vec<String>,
    pub add: Vec<String>,
}

/// Claiming a child: the ready, blocked and review labels go, the running
/// label comes.
pub fn claim_labels(labels: &crate::config::Labels) -> (r: LabelChange)
    ensures
        string_views(r.remove@) == seq![labels.ready@, labels.blocked@, labels.review@],
        string_views(r.add@) == seq![labels.running@],
{
    let mut remove: Vec<String> = Vec::new();
    remove.push(labels.ready.clone());
    remove.push(labels.blocked.clone());
    remove.push(labels.review.clone());
    let mut add: Vec<String> = Vec::new();
    add.push(labels.running.clone());
    proof {
        assert(string_views(remove@) =~= seq![labels.ready@, labels.blocked@, labels.review@]);
        assert(string_views(add@) =~= seq![labels.running@]);
    }
    LabelChange { remove, add }
}

/// A child whose pull request opened leaves running for review.
pub fn success_labels(labels: &crate::config::Labels) -> (r: LabelChange)
    ensures
        string_views(r.remove@) == seq![labels.running@],
        string_views(r.add@) == seq![labels.review@],
{
    let mut remove: Vec<String> = Vec::new();
    remove.push(labels.running.clone());
    let mut add: Vec<String> = Vec::new();
    add.push(labels.review.clone());
    proof {
        assert(string_views(remove@) =~= seq![labels.running@]);
        assert(string_views(add@) =~= seq![labels.review@]);
    }
    LabelChange { remove, add }
}

/// A child that failed leaves running and is marked blocked.
pub fn failure_labels(labels: &crate::config::Labels) -> (r: LabelChange)
    ensures
        string_views(r.remove@) == seq![labels.running@],
        string_views(r.add@) == seq![labels.blocked@],
{
    let mut remove: Vec<String> = Vec::new();
    remove.push(labels.running.clone());
    let mut add: Vec<String> = Vec::new();
    add.push(labels.blocked.clone());
    proof {
        assert(string_views(remove@) =~= seq![labels.running@]);
        assert(string_views(add@) =~= seq![labels.blocked@]);
    }
    LabelChange { remove, add }
}

/// What the run loop carries from one child to the next.
pub struct RunState {
    pub previous_success_branch: Option<String>,
    pub stop: bool,
}

pub open spec fn opt_string_view(o: Option<String>) -> Option<Seq<char>> {
    match o {
        Some(s) => Some(s@),
        None => None,
    }
}

/// The base a child's pull request targets: the base branch for a single
/// child, else the previous success's branch when there is one.
pub open spec fn publication_base(
    previous_success_branch: Option<Seq<char>>,
    base_branch: Seq<char>,
    single_child: bool,
) -> Seq<char> {
    if single_child {
        base_branch
    } else {
        match previous_success_branch {
            Some(p) => p,
            None => base_branch,
        }
    }
}

impl RunState {
    pub fn new() -> (r: Self)
        ensures
            r.previous_success_branch is None,
            !r.stop,
    {
        RunState { previous_success_branch: None, stop: false }
    }

    /// A child runs when it was selected and the run has not stopped.
    pub open spec fn runs(self, item: PreparedIssue) -> bool {
        item.status == IssueStatus::Selected && !self.stop
    }

    pub fn should_run(&self, item: &PreparedIssue) -> (r: bool)
        ensures
            r == self.runs(*item),
    {
        item.status == IssueStatus::Selected && !self.stop
    }

    /// Where the next child is published.
    pub fn publication_for(
        &self,
        parent_issue: u64,
        child_issue: u64,
        base_branch: &str,
        single_child: bool,
    ) -> (r: Publication)
        ensures
            r.branch_name@ == branch_name_of(parent_issue, child_issue),
            r.pr_base@ == publication_base(
                opt_string_view(self.previous_success_branch),
                base_branch@,
                single_child,
            ),
            r.push_before_pr,
    {
        if single_child {
            start_publication(parent_issue, child_issue, base_branch)
        } else {
            match &self.previous_success_branch {
                Some(p) => nightly_branch_publication(
                    parent_issue,
                    child_issue,
                    base_branch,
                    Some(p.as_str()),
                ),
                None => nightly_branch_publication(parent_issue, child_issue, base_branch, None),
            }
        }
    }

    /// The revision the next child's diff is measured from.
    pub fn diff_base(&self, publication: &Publication, base_branch: &str) -> (r: String)
        ensures
            r@ == diff_base_of(
                opt_string_view(self.previous_success_branch),
                publication.pr_base@,
                base_branch@,
            ),
    {
        match &self.previous_success_branch {
            Some(p) => diff_base_revision(Some(p.as_str()), publication.pr_base.as_str(), base_branch),
            None => diff_base_revision(None, publication.pr_base.as_str(), base_branch),
        }
    }

    /// Notes where a child about to run is published.
    pub fn record_publication(item: &mut PreparedIssue, publication: &Publication)
        ensures
            final(item).branch == Some(publication.branch_name),
            final(item).pr_base == Some(publication.pr_base),
            final(item).snapshot == old(item).snapshot,
            final(item).child == old(item).child,
            final(item).estimate == old(item).estimate,
            final(item).status == old(item).status,
            final(item).reasons == old(item).reasons,
            final(item).detail == old(item).detail,
            final(item).pr_url == old(item).pr_url,
            final(item).actual_minutes == old(item).actual_minutes,
            final(item).changed_lines == old(item).changed_lines,
            final(item).files_touched == old(item).files_touched,
    {
        item.branch = Some(publication.branch_name.clone());
        item.pr_base = Some(publication.pr_base.clone());
    }

    /// Records a child whose pull request was opened; later nightly children
    /// stack on its branch.
    pub fn record_success(
        &mut self,
        item: &mut PreparedIssue,
        publication: &Publication,
        pr_url: String,
        actual_minutes: u32,
        diff_stat: DiffStat,
    )
        ensures
            final(item).status == IssueStatus::Success,
            final(item).pr_url == Some(pr_url),
            final(item).actual_minutes == Some(actual_minutes),
            final(item).changed_lines == Some(diff_stat.changed_lines),
            final(item).files_touched == Some(diff_stat.files_touched),
            final(item).snapshot == old(item).snapshot,
            final(item).child == old(item).child,
            final(item).estimate == old(item).estimate,
            final(item).reasons == old(item).reasons,
            final(item).detail == old(item).detail,
            final(item).branch == old(item).branch,
            final(item).pr_base == old(item).pr_base,
            opt_string_view(final(self).previous_success_branch) == Some(
                publication.branch_name@,
            ),
            final(self).stop == old(self).stop,
    {
        item.status = IssueStatus::Success;
        item.pr_url = Some(pr_url);
        item.actual_minutes = Some(actual_minutes);
        item.changed_lines = Some(diff_stat.changed_lines);
        item.files_touched = Some(diff_stat.files_touched);
        self.previous_success_branch = Some(publication.branch_name.clone());
    }

    /// Records a child that failed with `message`: it is `split_required`
    /// when that is the message and `blocked` otherwise, the message is its
    /// reason and detail, and the run stops when configured to or when a
    /// single child was started.
    pub fn record_failure(
        &mut self,
        item: &mut PreparedIssue,
        message: &str,
        stop_on_failure: bool,
        single_child: bool,
    )
        ensures
            final(item).status == failure_status(message@),
            string_views(final(item).reasons@) == seq![message@],
            final(item).detail is Some,
            final(item).detail.unwrap()@ == message@,
            final(item).snapshot == old(item).snapshot,
            final(item).child == old(item).child,
            final(item).estimate == old(item).estimate,
            final(item).branch == old(item).branch,
            final(item).pr_base == old(item).pr_base,
            final(item).pr_url == old(item).pr_url,
            final(item).actual_minutes == old(item).actual_minutes,
            final(item).changed_lines == old(item).changed_lines,
            final(item).files_touched == old(item).files_touched,
            final(self).stop == (stop_on_failure || single_child),
            final(self).previous_success_branch == old(self).previous_success_branch,
    {
        item.status = if str_eq(message, "split_required") {
            IssueStatus::SplitRequired
        } else {
            IssueStatus::Blocked
        };
        let mut reasons: Vec<String> = Vec::new();
        reasons.push(message.to_owned());
        proof {
            assert(string_views(reasons@) =~= seq![message@]);
        }
        item.reasons = reasons;
        item.detail = Some(message.to_owned());
        self.stop = stop_on_failure || single_child;
    }
}

/// Once a run has stopped, no further child runs.
pub proof fn lemma_stopped_run_runs_nothing(state: RunState, item: PreparedIssue)
    requires
        state.stop,
    ensures
        !state.runs(item),
{
}

/// A nightly child that follows a success is stacked on that success's
/// branch: its pull request targets the branch just published.
pub proof fn lemma_nightly_children_stack(state: RunState, published: Publication, base_branch: Seq<
    char,
>)
    requires
        opt_string_view(state.previous_success_branch) == Some(published.branch_name@),
    ensures
        publication_base(opt_string_view(state.previous_success_branch), base_branch, false)
            == published.branch_name@,
        diff_base_of(
            opt_string_view(state.previous_success_branch),
            published.branch_name@,
            base_branch,
        ) == "HEAD"@,
{
}

/// `#N` for each child that succeeded, in order.
pub open spec fn succeeded_labels(issues: Seq<PreparedIssue>) -> Seq<Seq<char>>
    decreases issues.len(),
{
    if issues.len() == 0 {
        Seq::empty()
    } else {
        let rest = succeeded_labels(issues.drop_last());
        if issues.last().status == IssueStatus::Success {
            rest.push("#"@ + decimal(issues.last().snapshot.number as nat))
        } else {
            rest
        }
    }
}

/// A child is deferred when it neither succeeded nor is still selected,
/// and it carries reasons.
pub open spec fn is_deferred(item: PreparedIssue) -> bool {
    item.status != IssueStatus::Success && item.status != IssueStatus::Selected
        && item.reasons@.len() > 0
}

/// `#N (REASONS)` for each deferred child, in order.
pub open spec fn deferred_labels(issues: Seq<PreparedIssue>) -> Seq<Seq<char>>
    decreases issues.len(),
{
    if issues.len() == 0 {
        Seq::empty()
    } else {
        let rest = deferred_labels(issues.drop_last());
        let item = issues.last();
        if is_deferred(item) {
            rest.push(
                "#"@ + decimal(item.snapshot.number as nat) + " ("@ + join(
                    string_views(item.reasons@),
                    ","@,
                ) + ")"@,
            )
        } else {
            rest
        }
    }
}

pub open spec fn list_or_none(parts: Seq<Seq<char>>) -> Seq<char> {
    if parts.len() == 0 {
        "none"@
    } else {
        join(parts, ", "@)
    }
}

/// The comment left on the parent issue after a run.
pub open spec fn parent_summary_text(issues: Seq<PreparedIssue>, single_child: bool) -> Seq<char> {
    "nightloop "@ + workflow_name(single_child) + " summary\n\n- succeeded: "@ + list_or_none(
        succeeded_labels(issues),
    ) + "\n- deferred: "@ + list_or_none(deferred_labels(issues)) + "\n"@
}

fn list_or_none_text(parts: &Vec<String>) -> (r: String)
    ensures
        r@ == list_or_none(string_views(parts@)),
{
    if parts.len() == 0 {
        "none".to_owned()
    } else {
        join_strings(parts, ", ")
    }
}

pub fn build_parent_summary(prepared: &PreparedCampaign, single_child: bool) -> (r: String)
    ensures
        r@ == parent_summary_text(prepared.issues@, single_child),
{
    let issues = &prepared.issues;
    let mut succeeded: Vec<String> = Vec::new();
    let mut failed: Vec<String> = Vec::new();
    let mut i: usize = 0;
    while i < issues.len()
        invariant
            i <= issues.len(),
            string_views(succeeded@) == succeeded_labels(issues@.take(i as int)),
            string_views(failed@) == deferred_labels(issues@.take(i as int)),
        decreases issues.len() - i,
    {
        let item = &issues[i];
        let ghost s0 = string_views(succeeded@);
        let ghost f0 = string_views(failed@);
        proof {
            assert(issues@.take(i + 1).drop_last() == issues@.take(i as int));
            assert(issues@.take(i + 1).last() == *item);
        }
        if item.status == IssueStatus::Success {
            let mut label = "#".to_owned();
            label.append(u64_to_string(item.snapshot.number).as_str());
            succeeded.push(label);
            proof {
                assert(string_views(succeeded@) =~= s0.push(
                    "#"@ + decimal(item.snapshot.number as nat),
                ));
            }
        }
        if item.status != IssueStatus::Success && item.status != IssueStatus::Selected
            && item.reasons.len() > 0 {
            let mut label = "#".to_owned();
            label.append(u64_to_string(item.snapshot.number).as_str());
            label.append(" (");
            label.append(join_strings(&item.reasons, ",").as_str());
            label.append(")");
            failed.push(label);
            proof {
                assert(string_views(failed@) =~= f0.push(
                    "#"@ + decimal(item.snapshot.number as nat) + " ("@ + join(
                        string_views(item.reasons@),
                        ","@,
                    ) + ")"@,
                ));
            }
        }
        i = i + 1;
    }
    proof {
        assert(issues@.take(issues.len() as int) == issues@);
    }
    let mut r = "nightloop ".to_owned();
    r.append(workflow_str(single_child));
    r.append(" summary\n\n- succeeded: ");
    r.append(list_or_none_text(&succeeded).as_str());
    r.append("\n- deferred: ");
    r.append(list_or_none_text(&failed).as_str());
    r.append("\n");
    r
}

/// What a run reports: whether it went well, and its `key=value` lines.
#[derive(Debug)]
pub struct RunReport {
    pub ok: bool,
    pub lines: Vec<Vec<(String, String)>>,
    pub progress_lines: Vec<String>,
}

pub open spec fn pair_views(v: Seq<(String, String)>) -> Seq<(Seq<char>, Seq<char>)> {
    Seq::new(v.len(), |i: int| (v[i].0@, v[i].1@))
}

pub open spec fn bool_text(b: bool) -> Seq<char> {
    if b {
        "true"@
    } else {
        "false"@
    }
}

fn bool_string(b: bool) -> (r: String)
    ensures
        r@ == bool_text(b),
{
    if b {
        "true".to_owned()
    } else {
        "false".to_owned()
    }
}

/// A campaign went well when no child ended blocked or asking for a split.
pub open spec fn campaign_ok(issues: Seq<PreparedIssue>) -> bool {
    forall|i: int|
        0 <= i < issues.len() ==> (#[trigger] issues[i]).status != IssueStatus::Blocked
            && issues[i].status != IssueStatus::SplitRequired
}

/// The first report line of a campaign.
pub open spec fn header_pairs(c: PreparedCampaign, dry_run: bool) -> Seq<(Seq<char>, Seq<char>)> {
    seq![
        ("ok"@, bool_text(campaign_ok(c.issues@))),
        ("parent_issue"@, decimal(c.parent.number as nat)),
        ("target_repo_match"@, c.target_repo_match@),
        ("available_minutes"@, decimal(c.available_minutes as nat)),
        ("estimated_total_minutes"@, decimal(c.estimated_total_minutes as nat)),
        ("run_root"@, c.run_root@),
        ("dry_run"@, bool_text(dry_run)),
    ]
}

pub open spec fn push_opt(
    pairs: Seq<(Seq<char>, Seq<char>)>,
    key: Seq<char>,
    value: Option<Seq<char>>,
) -> Seq<(Seq<char>, Seq<char>)> {
    match value {
        Some(v) => pairs.push((key, v)),
        None => pairs,
    }
}

pub open spec fn opt_decimal(v: Option<u32>) -> Option<Seq<char>> {
    match v {
        Some(n) => Some(decimal(n as nat)),
        None => None,
    }
}

/// The report line of one child: its number and status, then whichever of
/// estimate, reasons, detail, branch, base, pull request, actual minutes and
/// changed lines it has.
pub open spec fn issue_pairs(item: PreparedIssue) -> Seq<(Seq<char>, Seq<char>)> {
    let p0 = seq![
        ("child_issue"@, decimal(item.snapshot.number as nat)),
        ("status"@, item.status.name()),
    ];
    let p1 = push_opt(
        p0,
        "estimated_minutes"@,
        match item.estimate {
            Some(e) => Some(decimal(e.estimated_minutes as nat)),
            None => None,
        },
    );
    let p2 = push_opt(
        p1,
        "reasons"@,
        if item.reasons@.len() > 0 {
            Some(join(string_views(item.reasons@), ","@))
        } else {
            None
        },
    );
    let p3 = push_opt(p2, "detail"@, opt_string_view(item.detail));
    let p4 = push_opt(p3, "branch"@, opt_string_view(item.branch));
    let p5 = push_opt(p4, "pr_base"@, opt_string_view(item.pr_base));
    let p6 = push_opt(p5, "pr_url"@, opt_string_view(item.pr_url));
    let p7 = push_opt(p6, "actual_minutes"@, opt_decimal(item.actual_minutes));
    push_opt(p7, "changed_lines"@, opt_decimal(item.changed_lines))
}

fn push_pair(line: &mut Vec<(String, String)>, key: &str, value: String)
    ensures
        pair_views(final(line)@) == pair_views(old(line)@).push((key@, value@)),
{
    line.push((key.to_owned(), value));
    assert(pair_views(line@) =~= pair_views(old(line)@).push((key@, value@)));
}

fn push_opt_string(line: &mut Vec<(String, String)>, key: &str, value: &Option<String>)
    ensures
        pair_views(final(line)@) == push_opt(pair_views(old(line)@), key@, opt_string_view(*value)),
{
    match value {
        Some(v) => push_pair(line, key, v.clone()),
        None => {},
    }
}

fn push_opt_number(line: &mut Vec<(String, String)>, key: &str, value: Option<u32>)
    ensures
        pair_views(final(line)@) == push_opt(pair_views(old(line)@), key@, opt_decimal(value)),
{
    match value {
        Some(n) => push_pair(line, key, u64_to_string(n as u64)),
        None => {},
    }
}

fn is_ok(issues: &Vec<PreparedIssue>) -> (r: bool)
    ensures
        r == campaign_ok(issues@),
{
    let mut i: usize = 0;
    while i < issues.len()
        invariant
            i <= issues.len(),
            forall|j: int|
                0 <= j < i ==> (#[trigger] issues@[j]).status != IssueStatus::Blocked
                    && issues@[j].status != IssueStatus::SplitRequired,
        decreases issues.len() - i,
    {
        if issues[i].status == IssueStatus::Blocked || issues[i].status
            == IssueStatus::SplitRequired {
            return false;
        }
        i = i + 1;
    }
    true
}

fn issue_line(item: &PreparedIssue) -> (r: Vec<(String, String)>)
    ensures
        pair_views(r@) == issue_pairs(*item),
{
    let mut line: Vec<(String, String)> = Vec::new();
    push_pair(&mut line, "child_issue", u64_to_string(item.snapshot.number));
    push_pair(&mut line, "status", item.status.as_str().to_owned());
    proof {
        assert(pair_views(line@) =~= seq![
            ("child_issue"@, decimal(item.snapshot.number as nat)),
            ("status"@, item.status.name()),
        ]);
    }
    match &item.estimate {
        Some(e) => push_pair(&mut line, "estimated_minutes", u64_to_string(e.estimated_minutes as u64)),
        None => {},
    }
    if item.reasons.len() > 0 {
        push_pair(&mut line, "reasons", join_strings(&item.reasons, ","));
    }
    push_opt_string(&mut line, "detail", &item.detail);
    push_opt_string(&mut line, "branch", &item.branch);
    push_opt_string(&mut line, "pr_base", &item.pr_base);
    push_opt_string(&mut line, "pr_url", &item.pr_url);
    push_opt_number(&mut line, "actual_minutes", item.actual_minutes);
    push_opt_number(&mut line, "changed_lines", item.changed_lines);
    line
}

/// The report of a planned or finished campaign: a header line, then one
/// line per child in order.
pub fn build_report(prepared: &PreparedCampaign, dry_run: bool) -> (r: RunReport)
    ensures
        r.ok == campaign_ok(prepared.issues@),
        r.lines@.len() == prepared.issues@.len() + 1,
        pair_views(r.lines@[0]@) == header_pairs(*prepared, dry_run),
        forall|i: int|
            0 <= i < prepared.issues@.len() ==> pair_views(#[trigger] r.lines@[i + 1]@)
                == issue_pairs(prepared.issues@[i]),
        r.progress_lines@.len() == 0,
{
    let ok = is_ok(&prepared.issues);
    let mut header: Vec<(String, String)> = Vec::new();
    push_pair(&mut header, "ok", bool_string(ok));
    push_pair(&mut header, "parent_issue", u64_to_string(prepared.parent.number));
    push_pair(&mut header, "target_repo_match", prepared.target_repo_match.clone());
    push_pair(&mut header, "available_minutes", u64_to_string(prepared.available_minutes as u64));
    push_pair(
        &mut header,
        "estimated_total_minutes",
        u64_to_string(prepared.estimated_total_minutes as u64),
    );
    push_pair(&mut header, "run_root", prepared.run_root.clone());
    push_pair(&mut header, "dry_run", bool_string(dry_run));
    proof {
        assert(pair_views(header@) =~= header_pairs(*prepared, dry_run));
    }
    let mut lines: Vec<Vec<(String, String)>> = Vec::new();
    lines.push(header);
    let mut i: usize = 0;
    while i < prepared.issues.len()
        invariant
            i <= prepared.issues.len(),
            lines@.len() == i + 1,
            pair_views(lines@[0]@) == header_pairs(*prepared, dry_run),
            forall|j: int|
                0 <= j < i ==> pair_views(#[trigger] lines@[j + 1]@) == issue_pairs(
                    prepared.issues@[j],
                ),
        decreases prepared.issues.len() - i,
    {
        let line = issue_line(&prepared.issues[i]);
        let ghost before = lines@;
        lines.push(line);
        proof {
            assert forall|j: int| 0 <= j < i + 1 implies pair_views(
                #[trigger] lines@[j + 1]@,
            ) == issue_pairs(prepared.issues@[j]) by {
                if j < i {
                    assert(lines@[j + 1] == before[j + 1]);
                }
            }
        }
        i = i + 1;
    }
    RunReport { ok, lines, progress_lines: Vec::new() }
}

impl RunReport {
    /// The report's `key=value` lines as they are printed.
    pub fn rendered_lines(&self) -> (r: Vec<String>)
        ensures
            r@.len() == self.lines@.len(),
            forall|i: int|
                0 <= i < r@.len() ==> (#[trigger] r@[i])@ == crate::reporting::pairs_text(
                    self.lines@[i]@,
                ),
    {
        let mut out: Vec<String> = Vec::new();
        let mut i: usize = 0;
        while i < self.lines.len()
            invariant
                i <= self.lines.len(),
                out@.len() == i,
                forall|j: int|
                    0 <= j < i ==> (#[trigger] out@[j])@ == crate::reporting::pairs_text(
                        self.lines@[j]@,
                    ),
            decreases self.lines.len() - i,
        {
            out.push(crate::reporting::render_pairs(&self.lines[i]));
            i = i + 1;
        }
        out
    }
}

} // verus!
