//! Checks that an issue body is a usable child issue.
use vstd::prelude::*;

use crate::issue_parse::{child_issue_built, child_issue_fault, fault_text, parse_child_issue, sections_of};
use crate::models::{ChildIssue, IssueSnapshot};
use crate::text::{chars_of, contains_chars, contains_seq, string_views};

verus! {

/// The headings a child issue written as markdown must contain.
pub open spec fn required_headings() -> Seq<Seq<char>> {
    seq![
        "## Background"@,
        "## Goal"@,
        "## Scope"@,
        "## Out of scope"@,
        "## Source of truth"@,
        "## Acceptance criteria"@,
        "## Verification"@,
        "## Dependencies"@,
        "## Target change size"@,
        "## Documentation impact"@,
        "## Suggested model profile"@,
        "## Estimated execution time"@,
        "## Estimation basis"@,
        "## Estimation confidence"@,
    ]
}

fn required_heading_list() -> (r: Vec<&'static str>)
    ensures
        r@.len() == required_headings().len(),
        forall|i: int| 0 <= i < r@.len() ==> #[trigger] r@[i]@ == required_headings()[i],
{
    let mut v: Vec<&'static str> = Vec::new();
    v.push("## Background");
    v.push("## Goal");
    v.push("## Scope");
    v.push("## Out of scope");
    v.push("## Source of truth");
    v.push("## Acceptance criteria");
    v.push("## Verification");
    v.push("## Dependencies");
    v.push("## Target change size");
    v.push("## Documentation impact");
    v.push("## Suggested model profile");
    v.push("## Estimated execution time");
    v.push("## Estimation basis");
    v.push("## Estimation confidence");
    v
}

/// The headings of `headings` that `body` does not contain, in order.
pub open spec fn missing_headings(body: Seq<char>, headings: Seq<Seq<char>>) -> Seq<Seq<char>>
    decreases headings.len(),
{
    if headings.len() == 0 {
        Seq::empty()
    } else {
        let rest = missing_headings(body, headings.drop_last());
        if contains_seq(body, headings.last()) {
            rest
        } else {
            rest.push(headings.last())
        }
    }
}

#[derive(Debug)]
pub struct LintReport {
    pub valid: bool,
    pub missing_sections: Vec<String>,
}

/// Lints the text of a markdown child issue: every required heading must
/// occur in it.
pub fn lint_markdown_issue(body: &str) -> (r: LintReport)
    ensures
        string_views(r.missing_sections@) == missing_headings(body@, required_headings()),
        r.valid == (r.missing_sections@.len() == 0),
{
    let b = chars_of(body);
    let list = required_heading_list();
    let mut missing: Vec<String> = Vec::new();
    let mut i: usize = 0;
    while i < list.len()
        invariant
            i <= list.len(),
            b@ == body@,
            list@.len() == required_headings().len(),
            forall|k: int| 0 <= k < list@.len() ==> #[trigger] list@[k]@ == required_headings()[k],
            string_views(missing@) == missing_headings(body@, required_headings().take(i as int)),
        decreases list.len() - i,
    {
        let h = chars_of(list[i]);
        let ghost before = missing@;
        proof {
            assert(required_headings().take(i + 1).drop_last() == required_headings().take(
                i as int,
            ));
            assert(required_headings().take(i + 1).last() == list@[i as int]@);
        }
        if !contains_chars(b.as_slice(), h.as_slice()) {
            missing.push(list[i].to_owned());
            proof {
                assert(string_views(missing@) =~= string_views(before).push(list@[i as int]@));
            }
        }
        i = i + 1;
    }
    proof {
        assert(required_headings().take(list.len() as int) == required_headings());
    }
    let valid = missing.len() == 0;
    LintReport { valid, missing_sections: missing }
}

/// What linting a child issue snapshot found.
#[derive(Debug)]
pub struct ChildLint {
    pub valid: bool,
    pub findings: Vec<String>,
    pub child: Option<ChildIssue>,
}

/// Lints a child issue snapshot by parsing it: it is valid exactly when it
/// parses, and the parse error's text is the one finding otherwise.
pub fn lint_child_issue(snapshot: &IssueSnapshot) -> (r: ChildLint)
    ensures
        r.valid == child_issue_fault(sections_of(snapshot.body@)) is None,
        r.valid ==> r.findings@.len() == 0 && r.child is Some && child_issue_built(
            r.child.unwrap(),
            *snapshot,
            sections_of(snapshot.body@),
        ),
        !r.valid ==> r.child is None && string_views(r.findings@) == seq![
            fault_text(child_issue_fault(sections_of(snapshot.body@)).unwrap()),
        ],
{
    match parse_child_issue(snapshot) {
        Ok(child) => ChildLint { valid: true, findings: Vec::new(), child: Some(child) },
        Err(e) => {
            let mut findings: Vec<String> = Vec::new();
            findings.push(e.message());
            proof {
                assert(string_views(findings@) =~= seq![fault_text(e@)]);
            }
            ChildLint { valid: false, findings, child: None }
        },
    }
}

} // verus!
