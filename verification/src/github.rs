//! GitHub CLI (`gh`) commands and how their results are read.
//!
//! The commands themselves are run by the calling program; this module
//! builds their text and decides what their output means.
use vstd::prelude::*;

use crate::agent_exec::CommandResult;
use crate::config::Labels;
use crate::models::clone_strings;
use crate::numbers::{decimal, u64_to_string};
use crate::text::{
    char_vec_views, chars_of, has_prefix, join, lines, lines_of, starts_with, string_of,
    string_views, chars_eq,
};

verus! {

// ---------------------------------------------------------------------
// Quoting
// ---------------------------------------------------------------------

pub open spec fn quote_body(s: Seq<char>) -> Seq<char>
    decreases s.len(),
{
    if s.len() == 0 {
        Seq::empty()
    } else {
        quote_body(s.drop_last()) + if s.last() == '\'' {
            seq!['\'', '"', '\'', '"', '\'']
        } else {
            seq![s.last()]
        }
    }
}

/// `s` in single quotes for `/bin/sh`, each inner `'` written `'"'"'`.
pub open spec fn shell_quoted(s: Seq<char>) -> Seq<char> {
    seq!['\''] + quote_body(s) + seq!['\'']
}

/// Single-quotes a value for the shell.
pub fn shell_quote(value: &str) -> (r: String)
    ensures
        r@ == shell_quoted(value@),
{
    let v = chars_of(value);
    let mut q: Vec<char> = Vec::new();
    q.push('\'');
    let mut i: usize = 0;
    while i < v.len()
        invariant
            i <= v.len(),
            q@ == seq!['\''] + quote_body(v@.take(i as int)),
        decreases v.len() - i,
    {
        let ghost before = q@;
        if v[i] == '\'' {
            q.push('\'');
            q.push('"');
            q.push('\'');
            q.push('"');
            q.push('\'');
        } else {
            q.push(v[i]);
        }
        proof {
            assert(v@.take(i + 1).drop_last() == v@.take(i as int));
            assert(q@ =~= seq!['\''] + quote_body(v@.take(i + 1)));
        }
        i = i + 1;
    }
    q.push('\'');
    proof {
        assert(v@.take(v.len() as int) == v@);
    }
    string_of(q.as_slice())
}

// ---------------------------------------------------------------------
// Errors
// ---------------------------------------------------------------------

/// A `gh` step that failed.
#[derive(Debug, Clone, Copy, PartialEq, Eq, Structural)]
pub enum GhError {
    AuthInvalid,
    IssueViewFailed,
    LabelUpdateFailed,
    IssueCommentFailed,
    PrCreateFailed,
    PrCreateMissingUrl,
    LabelListFailed,
    LabelCreateFailed,
}

impl GhError {
    pub open spec fn code_spec(self) -> Seq<char> {
        match self {
            GhError::AuthInvalid => "gh_auth_invalid"@,
            GhError::IssueViewFailed => "gh_issue_view_failed"@,
            GhError::LabelUpdateFailed => "gh_label_update_failed"@,
            GhError::IssueCommentFailed => "gh_issue_comment_failed"@,
            GhError::PrCreateFailed => "gh_pr_create_failed"@,
            GhError::PrCreateMissingUrl => "gh_pr_create_missing_url"@,
            GhError::LabelListFailed => "gh_label_list_failed"@,
            GhError::LabelCreateFailed => "gh_label_create_failed"@,
        }
    }

    /// The error code reported for this failure.
    pub fn code(&self) -> (r: &'static str)
        ensures
            r@ == self.code_spec(),
    {
        match self {
            GhError::AuthInvalid => "gh_auth_invalid",
            GhError::IssueViewFailed => "gh_issue_view_failed",
            GhError::LabelUpdateFailed => "gh_label_update_failed",
            GhError::IssueCommentFailed => "gh_issue_comment_failed",
            GhError::PrCreateFailed => "gh_pr_create_failed",
            GhError::PrCreateMissingUrl => "gh_pr_create_missing_url",
            GhError::LabelListFailed => "gh_label_list_failed",
            GhError::LabelCreateFailed => "gh_label_create_failed",
        }
    }
}

/// `Ok` when the command succeeded, else `failure`.
pub fn require_success(result: &CommandResult, failure: GhError) -> (r: Result<(), GhError>)
    ensures
        r == (if result.status_code == 0 {
            Ok::<(), GhError>(())
        } else {
            Err(failure)
        }),
{
    if result.success() {
        Ok(())
    } else {
        Err(failure)
    }
}

// ---------------------------------------------------------------------
// Commands
// ---------------------------------------------------------------------

pub fn auth_status_command() -> (r: String)
    ensures
        r@ == "gh auth status"@,
{
    "gh auth status".to_owned()
}

/// `gh issue view N --repo R --json number,title,body,state,labels,url`.
pub fn view_issue_command(repo_slug: &str, issue_number: u64) -> (r: String)
    ensures
        r@ == "gh issue view "@ + decimal(issue_number as nat) + " --repo "@ + repo_slug@
            + " --json number,title,body,state,labels,url"@,
{
    let mut s = "gh issue view ".to_owned();
    let n = u64_to_string(issue_number);
    s.append(n.as_str());
    s.append(" --repo ");
    s.append(repo_slug);
    s.append(" --json number,title,body,state,labels,url");
    s
}

pub open spec fn label_args(flag: Seq<char>, labels: Seq<Seq<char>>) -> Seq<char> {
    join(Seq::new(labels.len(), |i: int| flag + " "@ + shell_quoted(labels[i])), " "@)
}

/// `gh issue edit N --repo R` with one `flag 'label'` per label, or `None`
/// when there is no label to change (nothing is run then).
pub fn edit_labels_command(repo_slug: &str, issue_number: u64, flag: &str, labels: &Vec<String>) -> (r:
    Option<String>)
    ensures
        labels@.len() == 0 ==> r is None,
        labels@.len() > 0 ==> (r matches Some(c) && c@ == "gh issue edit "@ + decimal(
            issue_number as nat,
        ) + " --repo "@ + repo_slug@ + " "@ + label_args(flag@, string_views(labels@))),
{
    if labels.len() == 0 {
        return None;
    }
    let mut s = "gh issue edit ".to_owned();
    let n = u64_to_string(issue_number);
    s.append(n.as_str());
    s.append(" --repo ");
    s.append(repo_slug);
    s.append(" ");
    let ghost head = s@;
    let ghost items = Seq::new(
        labels@.len(),
        |k: int| flag@ + " "@ + shell_quoted(string_views(labels@)[k]),
    );
    let mut i: usize = 0;
    proof {
        reveal_strlit(" ");
    }
    while i < labels.len()
        invariant
            i <= labels.len(),
            items == Seq::new(
                labels@.len(),
                |k: int| flag@ + " "@ + shell_quoted(string_views(labels@)[k]),
            ),
            s@ == head + join(items.take(i as int), " "@),
        decreases labels.len() - i,
    {
        let ghost before = items.take(i as int);
        if i > 0 {
            s.append(" ");
        }
        s.append(flag);
        s.append(" ");
        let q = shell_quote(labels[i].as_str());
        s.append(q.as_str());
        proof {
            assert(items.take(i + 1) == before.push(items[i as int]));
            crate::text::lemma_join_push(before, " "@, items[i as int]);
            assert(string_views(labels@)[i as int] == labels@[i as int]@);
        }
        i = i + 1;
    }
    proof {
        assert(items.take(labels.len() as int) == items);
    }
    Some(s)
}

/// `gh issue comment N --repo R --body 'BODY'`.
pub fn comment_issue_command(repo_slug: &str, issue_number: u64, body: &str) -> (r: String)
    ensures
        r@ == "gh issue comment "@ + decimal(issue_number as nat) + " --repo "@ + repo_slug@
            + " --body "@ + shell_quoted(body@),
{
    let mut s = "gh issue comment ".to_owned();
    let n = u64_to_string(issue_number);
    s.append(n.as_str());
    s.append(" --repo ");
    s.append(repo_slug);
    s.append(" --body ");
    let q = shell_quote(body);
    s.append(q.as_str());
    s
}

/// `gh pr create --repo R --draft --base B --head H --title T --body D`.
pub fn create_draft_pr_command(
    repo_slug: &str,
    base: &str,
    head: &str,
    title: &str,
    body: &str,
) -> (r: String)
    ensures
        r@ == "gh pr create --repo "@ + repo_slug@ + " --draft --base "@ + shell_quoted(base@)
            + " --head "@ + shell_quoted(head@) + " --title "@ + shell_quoted(title@) + " --body "@
            + shell_quoted(body@),
{
    let mut s = "gh pr create --repo ".to_owned();
    s.append(repo_slug);
    s.append(" --draft --base ");
    let q = shell_quote(base);
    s.append(q.as_str());
    s.append(" --head ");
    let q = shell_quote(head);
    s.append(q.as_str());
    s.append(" --title ");
    let q = shell_quote(title);
    s.append(q.as_str());
    s.append(" --body ");
    let q = shell_quote(body);
    s.append(q.as_str());
    s
}

/// `gh label list --repo R --json name`.
pub fn list_labels_command(repo_slug: &str) -> (r: String)
    ensures
        r@ == "gh label list --repo "@ + repo_slug@ + " --json name"@,
{
    let mut s = "gh label list --repo ".to_owned();
    s.append(repo_slug);
    s.append(" --json name");
    s
}

/// `gh label create 'NAME' --repo R --color 'C' --description 'D'`.
pub fn build_create_label_command(repo_slug: &str, name: &str, color: &str, description: &str) -> (r:
    String)
    ensures
        r@ == "gh label create "@ + shell_quoted(name@) + " --repo "@ + repo_slug@ + " --color "@
            + shell_quoted(color@) + " --description "@ + shell_quoted(description@),
{
    let mut s = "gh label create ".to_owned();
    let q = shell_quote(name);
    s.append(q.as_str());
    s.append(" --repo ");
    s.append(repo_slug);
    s.append(" --color ");
    let q = shell_quote(color);
    s.append(q.as_str());
    s.append(" --description ");
    let q = shell_quote(description);
    s.append(q.as_str());
    s
}

/// The first output line of `gh pr create` that is an http(s) URL.
pub open spec fn first_url_line(ls: Seq<Seq<char>>) -> Option<Seq<char>>
    decreases ls.len(),
{
    if ls.len() == 0 {
        None
    } else if starts_with(ls[0], "http://"@) || starts_with(ls[0], "https://"@) {
        Some(ls[0])
    } else {
        first_url_line(ls.drop_first())
    }
}

/// The URL of the draft PR that `gh pr create` reported.
pub fn pr_url_from_output(result: &CommandResult) -> (r: Result<String, GhError>)
    ensures
        result.status_code != 0 ==> r == Err::<String, GhError>(GhError::PrCreateFailed),
        result.status_code == 0 ==> match first_url_line(lines(result.stdout@)) {
            Some(u) => (r matches Ok(s) && s@ == u),
            None => r == Err::<String, GhError>(GhError::PrCreateMissingUrl),
        },
{
    if !result.success() {
        return Err(GhError::PrCreateFailed);
    }
    let out = chars_of(result.stdout.as_str());
    let ls = lines_of(out.as_slice());
    let http = chars_of("http://");
    let https = chars_of("https://");
    let mut i: usize = 0;
    proof {
        assert(lines(result.stdout@).skip(0) == lines(result.stdout@));
    }
    while i < ls.len()
        invariant
            i <= ls.len(),
            result.status_code == 0,
            char_vec_views(ls@) == lines(result.stdout@),
            http@ == "http://"@,
            https@ == "https://"@,
            first_url_line(lines(result.stdout@)) == first_url_line(
                lines(result.stdout@).skip(i as int),
            ),
        decreases ls.len() - i,
    {
        let l = ls[i].as_slice();
        proof {
            assert(lines(result.stdout@).skip(i as int)[0] == ls@[i as int]@);
            assert(lines(result.stdout@).skip(i as int).drop_first() == lines(
                result.stdout@,
            ).skip(i + 1));
        }
        if has_prefix(l, http.as_slice()) || has_prefix(l, https.as_slice()) {
            let u = string_of(l);
            proof {
                let sk = lines(result.stdout@).skip(i as int);
                assert(sk.len() > 0);
                assert(starts_with(sk[0], "http://"@) || starts_with(sk[0], "https://"@));
                assert(first_url_line(sk) == Some(sk[0]));
                assert(u@ == sk[0]);
            }
            return Ok(u);
        }
        i = i + 1;
    }
    Err(GhError::PrCreateMissingUrl)
}

// ---------------------------------------------------------------------
// Managed labels
// ---------------------------------------------------------------------

#[derive(Debug, Clone)]
pub struct ManagedLabelStatus {
    pub name: String,
    pub status: String,
    pub color: Option<String>,
    pub description: String,
}

/// The workflow labels the runner manages: name, color, description.
pub open spec fn managed_label_table(labels: Labels) -> Seq<(Seq<char>, Seq<char>, Seq<char>)> {
    seq![
        (labels.campaign@, "1d76db"@, "Parent campaign issue"@),
        (labels.night_run@, "0e8a16"@, "Eligible for runner selection"@),
        (labels.ready@, "1d76db"@, "Ready for agent execution"@),
        (labels.running@, "fbca04"@, "Currently executing"@),
        (labels.review@, "5319e7"@, "Draft PR open for review"@),
        (labels.blocked@, "d93f0b"@, "Execution blocked"@),
        (labels.done@, "0e8a16"@, "Completed and merged"@),
    ]
}

fn managed_labels(labels: &Labels) -> (r: Vec<(String, &'static str, &'static str)>)
    ensures
        r@.len() == 7,
        forall|i: int|
            0 <= i < 7 ==> (#[trigger] r@[i]).0@ == managed_label_table(*labels)[i].0 && r@[i].1@
                == managed_label_table(*labels)[i].1 && r@[i].2@ == managed_label_table(
                *labels,
            )[i].2,
{
    let mut v: Vec<(String, &'static str, &'static str)> = Vec::new();
    v.push((labels.campaign.clone(), "1d76db", "Parent campaign issue"));
    v.push((labels.night_run.clone(), "0e8a16", "Eligible for runner selection"));
    v.push((labels.ready.clone(), "1d76db", "Ready for agent execution"));
    v.push((labels.running.clone(), "fbca04", "Currently executing"));
    v.push((labels.review.clone(), "5319e7", "Draft PR open for review"));
    v.push((labels.blocked.clone(), "d93f0b", "Execution blocked"));
    v.push((labels.done.clone(), "0e8a16", "Completed and merged"));
    v
}

fn contains_string(existing: &Vec<String>, name: &String) -> (r: bool)
    ensures
        r == string_views(existing@).contains(name@),
{
    let n = chars_of(name.as_str());
    let mut i: usize = 0;
    while i < existing.len()
        invariant
            i <= existing.len(),
            n@ == name@,
            forall|j: int| 0 <= j < i ==> (#[trigger] existing@[j])@ != name@,
        decreases existing.len() - i,
    {
        let e = chars_of(existing[i].as_str());
        if chars_eq(e.as_slice(), n.as_slice()) {
            assert(string_views(existing@)[i as int] == name@);
            return true;
        }
        i = i + 1;
    }
    proof {
        assert forall|j: int| 0 <= j < string_views(existing@).len() implies string_views(
            existing@,
        )[j] != name@ by {
            assert(string_views(existing@)[j] == existing@[j]@);
        }
    }
    false
}

/// For each managed label: `exists` when a label of that name is already
/// in the repository, otherwise `created` (it is to be created).
pub fn reconcile_managed_labels(existing: &Vec<String>, labels: &Labels) -> (r: Vec<
    ManagedLabelStatus,
>)
    ensures
        r@.len() == 7,
        forall|i: int|
            #![trigger r@[i]]
            0 <= i < 7 ==> {
                let t = managed_label_table(*labels)[i];
                &&& r@[i].name@ == t.0
                &&& r@[i].status@ == (if string_views(existing@).contains(t.0) {
                    "exists"@
                } else {
                    "created"@
                })
                &&& (r@[i].color matches Some(c) && c@ == t.1)
                &&& r@[i].description@ == t.2
            },
{
    let table = managed_labels(labels);
    let mut out: Vec<ManagedLabelStatus> = Vec::new();
    let mut i: usize = 0;
    while i < table.len()
        invariant
            i <= table.len(),
            table@.len() == 7,
            forall|k: int|
                0 <= k < 7 ==> (#[trigger] table@[k]).0@ == managed_label_table(*labels)[k].0
                    && table@[k].1@ == managed_label_table(*labels)[k].1 && table@[k].2@
                    == managed_label_table(*labels)[k].2,
            out@.len() == i,
            forall|k: int|
                #![trigger out@[k]]
                0 <= k < i ==> {
                    let t = managed_label_table(*labels)[k];
                    &&& out@[k].name@ == t.0
                    &&& out@[k].status@ == (if string_views(existing@).contains(t.0) {
                        "exists"@
                    } else {
                        "created"@
                    })
                    &&& (out@[k].color matches Some(c) && c@ == t.1)
                    &&& out@[k].description@ == t.2
                },
        decreases table.len() - i,
    {
        let entry = &table[i];
        let status = if contains_string(existing, &entry.0) {
            "exists".to_owned()
        } else {
            "created".to_owned()
        };
        out.push(
            ManagedLabelStatus {
                name: entry.0.clone(),
                status,
                color: Some(entry.1.to_owned()),
                description: entry.2.to_owned(),
            },
        );
        i = i + 1;
    }
    out
}

/// The positions of the statuses marked `created`, in order.
pub open spec fn created_positions(statuses: Seq<ManagedLabelStatus>) -> Seq<int>
    decreases statuses.len(),
{
    if statuses.len() == 0 {
        Seq::empty()
    } else {
        let p = created_positions(statuses.drop_last());
        if statuses.last().status@ == "created"@ {
            p.push(statuses.len() - 1)
        } else {
            p
        }
    }
}

/// The managed labels to create: the positions of those marked `created`,
/// in the order the statuses list them.
pub fn labels_to_create(statuses: &Vec<ManagedLabelStatus>) -> (r: Vec<usize>)
    ensures
        r@.len() == created_positions(statuses@).len(),
        forall|k: int|
            0 <= k < r@.len() ==> #[trigger] r@[k] as int == created_positions(statuses@)[k],
{
    let mut r: Vec<usize> = Vec::new();
    let mut i: usize = 0;
    while i < statuses.len()
        invariant
            i <= statuses.len(),
            r@.len() == created_positions(statuses@.take(i as int)).len(),
            forall|k: int|
                0 <= k < r@.len() ==> #[trigger] r@[k] as int == created_positions(
                    statuses@.take(i as int),
                )[k],
        decreases statuses.len() - i,
    {
        proof {
            assert(statuses@.take(i + 1).drop_last() == statuses@.take(i as int));
            assert(statuses@.take(i + 1).last() == statuses@[i as int]);
        }
        if crate::text::str_eq(statuses[i].status.as_str(), "created") {
            r.push(i);
        }
        i = i + 1;
    }
    assert(statuses@.take(statuses.len() as int) == statuses@);
    r
}

/// How many of the statuses have the given status text.
pub open spec fn status_count(statuses: Seq<ManagedLabelStatus>, status: Seq<char>) -> nat
    decreases statuses.len(),
{
    if statuses.len() == 0 {
        0
    } else {
        status_count(statuses.drop_last(), status) + if statuses.last().status@ == status {
            1nat
        } else {
            0nat
        }
    }
}

proof fn lemma_status_count_bound(statuses: Seq<ManagedLabelStatus>, status: Seq<char>)
    ensures
        status_count(statuses, status) <= statuses.len(),
    decreases statuses.len(),
{
    if statuses.len() > 0 {
        lemma_status_count_bound(statuses.drop_last(), status);
    }
}

/// How many managed labels were created and how many already existed.
pub fn count_label_statuses(statuses: &Vec<ManagedLabelStatus>) -> (r: (usize, usize))
    ensures
        r.0 == status_count(statuses@, "created"@),
        r.1 == status_count(statuses@, "exists"@),
{
    let mut created: usize = 0;
    let mut existing: usize = 0;
    let mut i: usize = 0;
    while i < statuses.len()
        invariant
            i <= statuses.len(),
            created == status_count(statuses@.take(i as int), "created"@),
            existing == status_count(statuses@.take(i as int), "exists"@),
        decreases statuses.len() - i,
    {
        proof {
            assert(statuses@.take(i + 1).drop_last() == statuses@.take(i as int));
            assert(statuses@.take(i + 1).last() == statuses@[i as int]);
            lemma_status_count_bound(statuses@.take(i as int), "created"@);
            lemma_status_count_bound(statuses@.take(i as int), "exists"@);
        }
        if crate::text::str_eq(statuses[i].status.as_str(), "created") {
            created = created + 1;
        }
        if crate::text::str_eq(statuses[i].status.as_str(), "exists") {
            existing = existing + 1;
        }
        i = i + 1;
    }
    proof {
        assert(statuses@.take(statuses.len() as int) == statuses@);
    }
    (created, existing)
}

} // verus!
