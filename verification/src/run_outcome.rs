//! Outcome of one child run.
use vstd::prelude::*;

verus! {

#[derive(Debug, Clone, Copy, PartialEq, Eq, Structural)]
pub enum RunOutcomeKind {
    Success,
    PartialSuccess,
    Blocked,
    SplitRequired,
    Aborted,
    RetryableFailure,
}

impl RunOutcomeKind {
    pub fn is_success(&self) -> (r: bool)
        ensures
            r == (*self == RunOutcomeKind::Success),
    {
        match self {
            RunOutcomeKind::Success => true,
            _ => false,
        }
    }
}

#[derive(Debug, Clone)]
pub struct RunOutcome {
    pub kind: RunOutcomeKind,
    pub status: String,
    pub reason: Option<String>,
    pub actual_minutes: Option<u32>,
    pub changed_lines: Option<u32>,
    pub files_touched: Option<u32>,
    pub pr_url: Option<String>,
}

impl RunOutcome {
    pub fn success(actual_minutes: u32, changed_lines: u32, files_touched: u32, pr_url: String) -> (r:
        Self)
        ensures
            r.kind == RunOutcomeKind::Success,
            r.status@ == "success"@,
            r.reason is None,
            r.actual_minutes == Some(actual_minutes),
            r.changed_lines == Some(changed_lines),
            r.files_touched == Some(files_touched),
            r.pr_url == Some(pr_url),
    {
        RunOutcome {
            kind: RunOutcomeKind::Success,
            status: "success".to_owned(),
            reason: None,
            actual_minutes: Some(actual_minutes),
            changed_lines: Some(changed_lines),
            files_touched: Some(files_touched),
            pr_url: Some(pr_url),
        }
    }

    pub fn terminal(
        kind: RunOutcomeKind,
        status: &str,
        reason: String,
        actual_minutes: u32,
        changed_lines: Option<u32>,
        files_touched: Option<u32>,
    ) -> (r: Self)
        ensures
            r.kind == kind,
            r.status@ == status@,
            r.reason == Some(reason),
            r.actual_minutes == Some(actual_minutes),
            r.changed_lines == changed_lines,
            r.files_touched == files_touched,
            r.pr_url is None,
    {
        RunOutcome {
            kind,
            status: status.to_owned(),
            reason: Some(reason),
            actual_minutes: Some(actual_minutes),
            changed_lines,
            files_touched,
            pr_url: None,
        }
    }
}

} // verus!
