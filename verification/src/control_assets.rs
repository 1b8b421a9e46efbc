//! Control-repo files the runner and issue authors rely on.
use vstd::prelude::*;

verus! {

/// A control-repo path and what kind of asset it is.
#[derive(Debug, Clone)]
pub struct PathSpec {
    pub kind: &'static str,
    pub path: String,
}

impl PathSpec {
    pub fn new(kind: &'static str, path: &str) -> (r: Self)
        ensures
            r.kind == kind,
            r.path@ == path@,
    {
        PathSpec { kind, path: path.to_owned() }
    }
}

#[derive(Debug, Clone)]
pub struct ControlAssetManifest {
    pub runtime_required_paths: Vec<PathSpec>,
    pub authoring_required_paths: Vec<PathSpec>,
    pub plan_prompt: PathSpec,
    pub implement_prompt: Option<PathSpec>,
    pub plan_template: Option<PathSpec>,
}

pub open spec fn is_path(p: PathSpec, kind: Seq<char>, path: Seq<char>) -> bool {
    p.kind@ == kind && p.path@ == path
}

/// The one shared manifest: the planning prompt is needed at run time, the
/// plan template when authoring.
pub fn manifest() -> (m: ControlAssetManifest)
    ensures
        is_path(m.plan_prompt, "prompt"@, "prompts/plan_child_issue.md"@),
        m.runtime_required_paths@.len() == 1,
        is_path(m.runtime_required_paths@[0], "prompt"@, "prompts/plan_child_issue.md"@),
        m.authoring_required_paths@.len() == 1,
        is_path(m.authoring_required_paths@[0], "template"@, "docs/templates/plan.md"@),
        m.implement_prompt is None,
        (m.plan_template matches Some(t) && is_path(t, "template"@, "docs/templates/plan.md"@)),
{
    let plan_prompt = PathSpec::new("prompt", "prompts/plan_child_issue.md");
    let plan_template = PathSpec::new("template", "docs/templates/plan.md");
    let mut runtime_required_paths: Vec<PathSpec> = Vec::new();
    runtime_required_paths.push(PathSpec::new("prompt", "prompts/plan_child_issue.md"));
    let mut authoring_required_paths: Vec<PathSpec> = Vec::new();
    authoring_required_paths.push(PathSpec::new("template", "docs/templates/plan.md"));
    ControlAssetManifest {
        runtime_required_paths,
        authoring_required_paths,
        plan_prompt,
        implement_prompt: None,
        plan_template: Some(plan_template),
    }
}

} // verus!
