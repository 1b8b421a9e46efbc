//! The prompts handed to the planning and implementation agents.
use vstd::prelude::*;

use crate::intent_bundle::{IntentBundle, ResolvedSource};
use crate::models::{IssueEstimate, ParentIssue, VerificationCommand};
use crate::numbers::{decimal, u64_to_string};
use crate::runner::bool_text;
use crate::text::chars_of;

verus! {

/// `- COMMAND` lines, one per verification command.
pub open spec fn verification_lines(cmds: Seq<VerificationCommand>) -> Seq<char>
    decreases cmds.len(),
{
    if cmds.len() == 0 {
        Seq::empty()
    } else {
        verification_lines(cmds.drop_last()) + "- "@ + cmds.last().command@ + "\n"@
    }
}

/// One source-of-truth excerpt: its path, fingerprint, whether it was cut,
/// and its text in a fenced block.
pub open spec fn source_block(s: ResolvedSource) -> Seq<char> {
    "### "@ + s.source_ref.resolved_path@ + "\n- sha256: "@ + s.sha256@ + "\n- truncated: "@
        + bool_text(s.truncated) + "\n````text\n"@ + s.contents@ + "\n````\n"@
}

pub open spec fn source_blocks(sources: Seq<ResolvedSource>) -> Seq<char>
    decreases sources.len(),
{
    if sources.len() == 0 {
        Seq::empty()
    } else {
        source_blocks(sources.drop_last()) + source_block(sources.last())
    }
}

/// The planner's output in a fenced block, closed on a line of its own.
pub open spec fn plan_block(plan: Seq<char>) -> Seq<char> {
    "\n## Planner output\n"@ + "````markdown\n"@ + plan + (if plan.len() > 0 && plan.last()
        == '\n' {
        Seq::empty()
    } else {
        "\n"@
    }) + "````\n"@
}

/// The head of an agent prompt: the parent and child, the workflow and
/// estimate, and the child's contract.
pub open spec fn context_head(
    parent: ParentIssue,
    bundle: IntentBundle,
    estimate: IssueEstimate,
    workflow: Seq<char>,
) -> Seq<char> {
    let child = bundle.child;
    "Parent issue: #"@ + decimal(parent.number as nat) + " "@ + parent.title@ + "\nChild issue: #"@
        + decimal(child.number as nat) + " "@ + child.title@ + "\nWorkflow: "@ + workflow
        + "\nModel profile: "@ + estimate.model_profile@ + "\nEstimated minutes: "@ + decimal(
        estimate.estimated_minutes as nat,
    ) + "\n\n## Child Contract\n### Background\n"@ + child.background@ + "\n\n### Goal\n"@
        + child.goal@ + "\n\n### Scope\n"@ + child.scope@ + "\n\n### Out of scope\n"@
        + child.out_of_scope@ + "\n\n### Acceptance criteria\n"@ + child.acceptance_criteria@
        + "\n\n### Documentation impact\n"@ + bundle.docs_impact.name()
        + "\n\n### Target change size\n"@ + bundle.target_size.name() + "\n"@
}

pub open spec fn constraints_section(bundle: IntentBundle) -> Seq<char> {
    match bundle.child.implementation_constraints {
        Some(c) => "\n### Implementation constraints\n"@ + c@ + "\n"@,
        None => Seq::empty(),
    }
}

pub open spec fn verification_section(bundle: IntentBundle) -> Seq<char> {
    "\n## Verification\n"@ + verification_lines(bundle.verification@)
}

pub open spec fn sources_section(bundle: IntentBundle) -> Seq<char> {
    "\n## Source of truth\n"@ + if bundle.resolved_sources@.len() == 0 {
        "- none\n"@
    } else {
        source_blocks(bundle.resolved_sources@)
    }
}

pub open spec fn plan_section(plan_output: Option<Seq<char>>) -> Seq<char> {
    match plan_output {
        Some(p) => plan_block(p),
        None => Seq::empty(),
    }
}

/// The context every agent prompt carries: the head, the implementation
/// constraints when there are any, the verification commands, the
/// source-of-truth excerpts (or `- none`), and the planner's output when
/// there is one.
pub open spec fn bundle_context_text(
    parent: ParentIssue,
    bundle: IntentBundle,
    estimate: IssueEstimate,
    workflow: Seq<char>,
    plan_output: Option<Seq<char>>,
) -> Seq<char> {
    context_head(parent, bundle, estimate, workflow) + constraints_section(bundle)
        + verification_section(bundle) + sources_section(bundle) + plan_section(plan_output)
}

pub open spec fn opt_str_view(o: Option<&str>) -> Option<Seq<char>> {
    match o {
        Some(s) => Some(s@),
        None => None,
    }
}

fn bool_str(b: bool) -> (r: &'static str)
    ensures
        r@ == bool_text(b),
{
    if b {
        "true"
    } else {
        "false"
    }
}

fn render_head(
    parent: &ParentIssue,
    bundle: &IntentBundle,
    estimate: &IssueEstimate,
    workflow: &str,
) -> (r: String)
    ensures
        r@ == context_head(*parent, *bundle, *estimate, workflow@),
{
    let child = &bundle.child;
    let mut p = "Parent issue: #".to_owned();
    p.append(u64_to_string(parent.number).as_str());
    p.append(" ");
    p.append(parent.title.as_str());
    p.append("\nChild issue: #");
    p.append(u64_to_string(child.number).as_str());
    p.append(" ");
    p.append(child.title.as_str());
    p.append("\nWorkflow: ");
    p.append(workflow);
    p.append("\nModel profile: ");
    p.append(estimate.model_profile.as_str());
    p.append("\nEstimated minutes: ");
    p.append(u64_to_string(estimate.estimated_minutes as u64).as_str());
    p.append("\n\n## Child Contract\n### Background\n");
    p.append(child.background.as_str());
    p.append("\n\n### Goal\n");
    p.append(child.goal.as_str());
    p.append("\n\n### Scope\n");
    p.append(child.scope.as_str());
    p.append("\n\n### Out of scope\n");
    p.append(child.out_of_scope.as_str());
    p.append("\n\n### Acceptance criteria\n");
    p.append(child.acceptance_criteria.as_str());
    p.append("\n\n### Documentation impact\n");
    p.append(bundle.docs_impact.as_str());
    p.append("\n\n### Target change size\n");
    p.append(bundle.target_size.as_str());
    p.append("\n");
    p
}

fn render_constraints(bundle: &IntentBundle) -> (r: String)
    ensures
        r@ == constraints_section(*bundle),
{
    match &bundle.child.implementation_constraints {
        Some(c) => {
            let mut p = "\n### Implementation constraints\n".to_owned();
            p.append(c.as_str());
            p.append("\n");
            p
        },
        None => String::new(),
    }
}

fn render_verification(bundle: &IntentBundle) -> (r: String)
    ensures
        r@ == verification_section(*bundle),
{
    let mut p = "\n## Verification\n".to_owned();
    let ghost before_cmds = p@;
    let cmds = &bundle.verification;
    let mut i: usize = 0;
    while i < cmds.len()
        invariant
            i <= cmds.len(),
            p@ == before_cmds + verification_lines(cmds@.take(i as int)),
        decreases cmds.len() - i,
    {
        p.append("- ");
        p.append(cmds[i].command.as_str());
        p.append("\n");
        proof {
            assert(cmds@.take(i + 1).drop_last() == cmds@.take(i as int));
            assert(cmds@.take(i + 1).last() == cmds@[i as int]);
        }
        i = i + 1;
    }
    proof {
        assert(cmds@.take(cmds.len() as int) == cmds@);
    }
    p
}

fn render_source(s: &ResolvedSource) -> (r: String)
    ensures
        r@ == source_block(*s),
{
    let mut p = "### ".to_owned();
    p.append(s.source_ref.resolved_path.as_str());
    p.append("\n- sha256: ");
    p.append(s.sha256.as_str());
    p.append("\n- truncated: ");
    p.append(bool_str(s.truncated));
    p.append("\n````text\n");
    p.append(s.contents.as_str());
    p.append("\n````\n");
    p
}

fn render_sources(bundle: &IntentBundle) -> (r: String)
    ensures
        r@ == sources_section(*bundle),
{
    let mut p = "\n## Source of truth\n".to_owned();
    let ghost before_sources = p@;
    let sources = &bundle.resolved_sources;
    if sources.len() == 0 {
        p.append("- none\n");
    } else {
        let mut k: usize = 0;
        while k < sources.len()
            invariant
                k <= sources.len(),
                p@ == before_sources + source_blocks(sources@.take(k as int)),
            decreases sources.len() - k,
        {
            let block = render_source(&sources[k]);
            p.append(block.as_str());
            proof {
                assert(sources@.take(k + 1).drop_last() == sources@.take(k as int));
                assert(sources@.take(k + 1).last() == sources@[k as int]);
            }
            k = k + 1;
        }
        proof {
            assert(sources@.take(sources.len() as int) == sources@);
        }
    }
    p
}

fn render_plan(plan_output: Option<&str>) -> (r: String)
    ensures
        r@ == plan_section(opt_str_view(plan_output)),
{
    match plan_output {
        Some(plan) => {
            let mut p = "\n## Planner output\n".to_owned();
            p.append("````markdown\n");
            p.append(plan);
            let pc = chars_of(plan);
            if !(pc.len() > 0 && pc[pc.len() - 1] == '\n') {
                p.append("\n");
            }
            p.append("````\n");
            p
        },
        None => String::new(),
    }
}

fn render_bundle_context(
    parent: &ParentIssue,
    bundle: &IntentBundle,
    estimate: &IssueEstimate,
    workflow: &str,
    plan_output: Option<&str>,
) -> (r: String)
    ensures
        r@ == bundle_context_text(
            *parent,
            *bundle,
            *estimate,
            workflow@,
            opt_str_view(plan_output),
        ),
{
    let mut p = render_head(parent, bundle, estimate, workflow);
    p.append(render_constraints(bundle).as_str());
    p.append(render_verification(bundle).as_str());
    p.append(render_sources(bundle).as_str());
    p.append(render_plan(plan_output).as_str());
    p
}

/// The prompt for the implementation agent: the standing instructions, then
/// the bundle's context.
pub open spec fn implementation_prompt_text(
    parent: ParentIssue,
    bundle: IntentBundle,
    estimate: IssueEstimate,
    workflow: Seq<char>,
    plan_output: Option<Seq<char>>,
) -> Seq<char> {
    "Implement only the declared child issue scope.\n"@
        + "Use the resolved source-of-truth excerpts as the contract anchor.\n"@
        + "Run the declared verification commands before finishing.\n\n"@ + bundle_context_text(
        parent,
        bundle,
        estimate,
        workflow,
        plan_output,
    )
}

pub fn build_implementation_prompt(
    parent: &ParentIssue,
    bundle: &IntentBundle,
    estimate: &IssueEstimate,
    workflow: &str,
    plan_output: Option<&str>,
) -> (r: String)
    ensures
        r@ == implementation_prompt_text(
            *parent,
            *bundle,
            *estimate,
            workflow@,
            opt_str_view(plan_output),
        ),
{
    let mut prompt = String::new();
    prompt.append("Implement only the declared child issue scope.\n");
    prompt.append("Use the resolved source-of-truth excerpts as the contract anchor.\n");
    prompt.append("Run the declared verification commands before finishing.\n\n");
    let context = render_bundle_context(parent, bundle, estimate, workflow, plan_output);
    prompt.append(context.as_str());
    prompt
}

/// The prompt for the planning agent: the plan template, a blank line, and
/// the bundle's context for a `start` run.
pub fn build_plan_prompt(
    template: &str,
    parent: &ParentIssue,
    bundle: &IntentBundle,
    estimate: &IssueEstimate,
) -> (r: String)
    ensures
        r@ == template@ + "\n\n"@ + bundle_context_text(
            *parent,
            *bundle,
            *estimate,
            "start"@,
            None,
        ) + "\n"@,
{
    let mut prompt = template.to_owned();
    prompt.append("\n\n");
    let context = render_bundle_context(parent, bundle, estimate, "start", None);
    prompt.append(context.as_str());
    prompt.append("\n");
    prompt
}

} // verus!
