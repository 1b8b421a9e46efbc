//! Runner configuration, as the logic reads it.
//!
//! Only the integer, boolean and text settings live here; the weights and
//! runtime multipliers that the estimator scales by stay with the program
//! that loads the configuration file.
use vstd::prelude::*;

use crate::text::{eq_ignore_ascii_case, eq_ignore_case};

verus! {

#[derive(Debug, Clone)]
pub struct Config {
    pub github: GitHub,
    pub agent: Agent,
    pub loop_cfg: LoopConfig,
    pub diff: DiffConfig,
    pub labels: Labels,
    pub docs: DocsConfig,
    pub estimation: EstimationConfig,
    pub telemetry: TelemetryConfig,
}

#[derive(Debug, Clone)]
pub struct GitHub {
    pub owner: String,
    pub repo: String,
    pub base_branch: String,
    pub request_copilot_review: bool,
    pub copilot_reviewer: String,
}

#[derive(Debug, Clone)]
pub struct Agent {
    pub command: String,
    pub plan_command: String,
    pub working_directory: String,
    pub default_model: String,
    pub default_reasoning_effort: String,
    pub model_profiles: Vec<ModelProfile>,
}

#[derive(Debug, Clone)]
pub struct ModelProfile {
    pub name: String,
    pub model: String,
    pub reasoning_effort: String,
    pub intended_for: String,
    pub max_size: String,
}

#[derive(Debug, Clone, Copy, PartialEq, Eq, Structural)]
pub struct LoopConfig {
    pub default_hours: u32,
    pub min_hours: u32,
    pub max_hours: u32,
    pub fallback_cycle_minutes: u32,
    pub fixed_overhead_minutes: u32,
    pub stop_on_failure: bool,
    pub one_branch_per_child: bool,
    pub one_pr_per_child: bool,
}

#[derive(Debug, Clone, Copy, PartialEq, Eq, Structural)]
pub struct DiffConfig {
    pub min_lines: u32,
    pub max_lines: u32,
    pub allow_doc_only_below_min: bool,
}

#[derive(Debug, Clone)]
pub struct Labels {
    pub campaign: String,
    pub night_run: String,
    pub ready: String,
    pub running: String,
    pub review: String,
    pub blocked: String,
    pub done: String,
}

#[derive(Debug, Clone)]
pub struct DocsConfig {
    pub required_paths: Vec<String>,
}

#[derive(Debug, Clone)]
pub struct EstimationConfig {
    pub default_basis: String,
    pub allow_ai_assist: bool,
    pub template_minutes_xs: u32,
    pub template_minutes_s: u32,
    pub template_minutes_m: u32,
    pub template_minutes_l: u32,
    pub dependency_penalty_minutes: u32,
    pub docs_penalty_readme: u32,
    pub docs_penalty_user_facing: u32,
    pub docs_penalty_architecture: u32,
}

#[derive(Debug, Clone)]
pub struct TelemetryConfig {
    pub history_path: String,
    pub min_samples_for_local: usize,
}

/// Index of the first profile named `name`, ignoring ASCII case.
pub open spec fn profile_index(ps: Seq<ModelProfile>, name: Seq<char>) -> Option<int>
    decreases ps.len(),
{
    if ps.len() == 0 {
        None
    } else {
        match profile_index(ps.drop_last(), name) {
            Some(i) => Some(i),
            None => if eq_ignore_case(ps.last().name@, name) {
                Some(ps.len() - 1)
            } else {
                None
            },
        }
    }
}

pub proof fn lemma_profile_index(ps: Seq<ModelProfile>, name: Seq<char>)
    ensures
        match profile_index(ps, name) {
            Some(i) => 0 <= i < ps.len() && eq_ignore_case(ps[i].name@, name) && forall|j: int|
                0 <= j < i ==> !eq_ignore_case(#[trigger] ps[j].name@, name),
            None => forall|j: int| 0 <= j < ps.len() ==> !eq_ignore_case(#[trigger] ps[j].name@, name),
        },
    decreases ps.len(),
{
    if ps.len() > 0 {
        lemma_profile_index(ps.drop_last(), name);
        assert forall|j: int| 0 <= j < ps.len() - 1 implies #[trigger] ps[j] == ps.drop_last()[j] by {}
    }
}

/// The profile `default_profile` picks: `balanced`, else the first one.
pub open spec fn default_profile_index(ps: Seq<ModelProfile>) -> Option<int> {
    match profile_index(ps, "balanced"@) {
        Some(i) => Some(i),
        None => if ps.len() > 0 {
            Some(0)
        } else {
            None
        },
    }
}

impl Config {
    /// Position of the first model profile named `name` (ASCII case ignored).
    pub fn model_profile_position(&self, name: &str) -> (r: Option<usize>)
        ensures
            match r {
                Some(i) => profile_index(self.agent.model_profiles@, name@) == Some(i as int) && i
                    < self.agent.model_profiles@.len(),
                None => profile_index(self.agent.model_profiles@, name@) is None,
            },
    {
        let ps = &self.agent.model_profiles;
        let mut i: usize = 0;
        proof {
            lemma_profile_index(ps@, name@);
        }
        while i < ps.len()
            invariant
                i <= ps.len(),
                ps == &self.agent.model_profiles,
                forall|j: int| 0 <= j < i ==> !eq_ignore_case(#[trigger] ps@[j].name@, name@),
                match profile_index(ps@, name@) {
                    Some(k) => 0 <= k < ps@.len() && eq_ignore_case(ps@[k].name@, name@) && forall|
                        j: int,
                    | 0 <= j < k ==> !eq_ignore_case(#[trigger] ps@[j].name@, name@),
                    None => forall|j: int|
                        0 <= j < ps@.len() ==> !eq_ignore_case(#[trigger] ps@[j].name@, name@),
                },
            decreases ps.len() - i,
        {
            if eq_ignore_ascii_case(ps[i].name.as_str(), name) {
                return Some(i);
            }
            i = i + 1;
        }
        None
    }

    /// The first model profile named `name` (ASCII case ignored).
    pub fn model_profile(&self, name: &str) -> (r: Option<&ModelProfile>)
        ensures
            match profile_index(self.agent.model_profiles@, name@) {
                Some(i) => r == Some(&self.agent.model_profiles@[i]),
                None => r is None,
            },
    {
        match self.model_profile_position(name) {
            Some(i) => Some(&self.agent.model_profiles[i]),
            None => None,
        }
    }

    /// Position of the profile `default_profile` returns.
    pub fn default_profile_position(&self) -> (r: Option<usize>)
        ensures
            match r {
                Some(i) => default_profile_index(self.agent.model_profiles@) == Some(i as int) && i
                    < self.agent.model_profiles@.len(),
                None => default_profile_index(self.agent.model_profiles@) is None,
            },
    {
        match self.model_profile_position("balanced") {
            Some(i) => Some(i),
            None => if self.agent.model_profiles.len() > 0 {
                Some(0)
            } else {
                None
            },
        }
    }

    /// The `balanced` profile, else the first profile.
    pub fn default_profile(&self) -> (r: Option<&ModelProfile>)
        ensures
            match default_profile_index(self.agent.model_profiles@) {
                Some(i) => r == Some(&self.agent.model_profiles@[i]),
                None => r is None,
            },
    {
        match self.default_profile_position() {
            Some(i) => Some(&self.agent.model_profiles[i]),
            None => None,
        }
    }

    /// `OWNER/REPO`.
    pub fn repo_slug(&self) -> (r: String)
        ensures
            r@ == self.github.owner@ + "/"@ + self.github.repo@,
    {
        let mut s = self.github.owner.clone();
        s.append("/");
        s.append(self.github.repo.as_str());
        s
    }

    /// The target checkout that git operations and runs act on.
    pub fn working_directory(&self) -> (r: String)
        ensures
            r@ == self.agent.working_directory@,
    {
        self.agent.working_directory.clone()
    }
}

} // verus!
