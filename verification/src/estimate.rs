//! Runtime estimates for child issues.
//!
//! The integer part of the template estimate, the choice of basis and the
//! recommended window are decided here. Scaling by a profile's runtime
//! multiplier and averaging telemetry are floating-point steps that the
//! calling program performs; their rounded results come in as
//! [`LocalEstimates`] and `template_minutes`.
use vstd::prelude::*;

use crate::budget::{available_minutes, window_minutes};
use crate::config::{default_profile_index, profile_index, Config};
use crate::models::{
    clone_opt_string, eq_lit, ChildIssue, DocsImpact, IssueEstimate, SizeBand,
};
use crate::text::{chars_of, to_lower, trim, trim_chars, lower};

verus! {

#[derive(Debug, Clone, Copy, PartialEq, Eq, Structural)]
pub enum EstimateBasis {
    Template,
    Local,
    Hybrid,
}

/// Why an estimate could not be made.
#[derive(Debug, Clone)]
pub enum EstimateError {
    InvalidBasis(String),
    NoModelProfile,
}

impl EstimateError {
    /// The error's text.
    pub fn message(&self) -> (r: String)
        ensures
            r@ == (match self {
                EstimateError::InvalidBasis(v) => "invalid estimate basis: "@ + v@,
                EstimateError::NoModelProfile => "no model profile configured"@,
            }),
    {
        match self {
            EstimateError::InvalidBasis(v) => {
                let mut s = "invalid estimate basis: ".to_owned();
                s.append(v.as_str());
                s
            },
            EstimateError::NoModelProfile => "no model profile configured".to_owned(),
        }
    }
}

/// The basis named by `v` on the command line (trimmed, ASCII case ignored).
pub open spec fn cli_basis_of(v: Seq<char>) -> Option<EstimateBasis> {
    let l = lower(trim(v));
    if l == "template"@ {
        Some(EstimateBasis::Template)
    } else if l == "local"@ {
        Some(EstimateBasis::Local)
    } else if l == "hybrid"@ {
        Some(EstimateBasis::Hybrid)
    } else {
        None
    }
}

impl EstimateBasis {
    pub open spec fn name(self) -> Seq<char> {
        match self {
            EstimateBasis::Template => "template"@,
            EstimateBasis::Local => "local"@,
            EstimateBasis::Hybrid => "hybrid"@,
        }
    }

    pub fn as_str(&self) -> (r: &'static str)
        ensures
            r@ == self.name(),
    {
        match self {
            EstimateBasis::Template => "template",
            EstimateBasis::Local => "local",
            EstimateBasis::Hybrid => "hybrid",
        }
    }

    /// `template`, `local` or `hybrid`; anything else is refused.
    pub fn from_cli_str(value: &str) -> (r: Result<Self, EstimateError>)
        ensures
            match r {
                Ok(b) => cli_basis_of(value@) == Some(b),
                Err(e) => cli_basis_of(value@) is None && (e matches EstimateError::InvalidBasis(v)
                    && v@ == value@),
            },
    {
        let v = chars_of(value);
        let t = trim_chars(v.as_slice());
        let l = to_lower(t.as_slice());
        let l = l.as_slice();
        if eq_lit(l, "template") {
            Ok(EstimateBasis::Template)
        } else if eq_lit(l, "local") {
            Ok(EstimateBasis::Local)
        } else if eq_lit(l, "hybrid") {
            Ok(EstimateBasis::Hybrid)
        } else {
            Err(EstimateError::InvalidBasis(value.to_owned()))
        }
    }
}

/// The profile an estimate uses: the one the issue suggests, else the
/// default profile.
pub open spec fn chosen_profile(config: Config, requested: Seq<char>) -> Option<int> {
    match profile_index(config.agent.model_profiles@, requested) {
        Some(i) => Some(i),
        None => default_profile_index(config.agent.model_profiles@),
    }
}

/// Position of the profile an estimate uses.
pub fn choose_model_profile(config: &Config, requested: &str) -> (r: Result<usize, EstimateError>)
    ensures
        match r {
            Ok(i) => chosen_profile(*config, requested@) == Some(i as int) && i
                < config.agent.model_profiles@.len(),
            Err(e) => chosen_profile(*config, requested@) is None && e is NoModelProfile,
        },
{
    match config.model_profile_position(requested) {
        Some(i) => Ok(i),
        None => match config.default_profile_position() {
            Some(i) => Ok(i),
            None => Err(EstimateError::NoModelProfile),
        },
    }
}

pub open spec fn size_base_minutes(config: Config, size: SizeBand) -> int {
    match size {
        SizeBand::Xs => config.estimation.template_minutes_xs as int,
        SizeBand::S => config.estimation.template_minutes_s as int,
        SizeBand::M => config.estimation.template_minutes_m as int,
        SizeBand::L => config.estimation.template_minutes_l as int,
    }
}

pub open spec fn docs_penalty(config: Config, docs: DocsImpact) -> int {
    match docs {
        DocsImpact::NoImpact => 0,
        DocsImpact::Readme => config.estimation.docs_penalty_readme as int,
        DocsImpact::UserFacingDocs => config.estimation.docs_penalty_user_facing as int,
        DocsImpact::ArchitectureDocs => config.estimation.docs_penalty_architecture as int,
    }
}

/// Template minutes before the profile's runtime multiplier: the size
/// band's base, the documentation penalty, and a penalty per dependency.
pub open spec fn template_base(config: Config, size: SizeBand, docs: DocsImpact, deps: nat) -> int {
    size_base_minutes(config, size) + docs_penalty(config, docs) + deps
        * config.estimation.dependency_penalty_minutes
}

/// Template minutes before the runtime multiplier, or `None` when they do
/// not fit in `u32`.
pub fn template_base_minutes(
    config: &Config,
    size_band: &SizeBand,
    docs_impact: &DocsImpact,
    dependency_count: usize,
) -> (r: Option<u32>)
    ensures
        match r {
            Some(m) => m == template_base(*config, *size_band, *docs_impact, dependency_count as nat),
            None => template_base(*config, *size_band, *docs_impact, dependency_count as nat)
                > u32::MAX,
        },
{
    let base: u64 = match size_band {
        SizeBand::Xs => config.estimation.template_minutes_xs as u64,
        SizeBand::S => config.estimation.template_minutes_s as u64,
        SizeBand::M => config.estimation.template_minutes_m as u64,
        SizeBand::L => config.estimation.template_minutes_l as u64,
    };
    let docs: u64 = match docs_impact {
        DocsImpact::NoImpact => 0,
        DocsImpact::Readme => config.estimation.docs_penalty_readme as u64,
        DocsImpact::UserFacingDocs => config.estimation.docs_penalty_user_facing as u64,
        DocsImpact::ArchitectureDocs => config.estimation.docs_penalty_architecture as u64,
    };
    let penalty = config.estimation.dependency_penalty_minutes as u64;
    if dependency_count as u64 > u32::MAX as u64 {
        proof {
            assert(dependency_count * penalty >= 0) by (nonlinear_arith);
            if penalty > 0 {
                assert(dependency_count * penalty >= dependency_count) by (nonlinear_arith)
                    requires
                        penalty >= 1,
                ;
            }
        }
        if penalty > 0 {
            return None;
        }
        if base + docs > u32::MAX as u64 {
            return None;
        }
        proof {
            assert(dependency_count * penalty == 0) by (nonlinear_arith)
                requires
                    penalty == 0,
            ;
        }
        return Some((base + docs) as u32);
    }
    proof {
        assert(dependency_count * penalty <= 0xffff_ffffu64 * 0xffff_ffffu64) by (nonlinear_arith)
            requires
                dependency_count <= 0xffff_ffffu64,
                penalty <= 0xffff_ffffu64,
        ;
    }
    let deps = (dependency_count as u64) * penalty;
    let total = base + docs + deps;
    if total > u32::MAX as u64 {
        None
    } else {
        Some(total as u32)
    }
}

/// Minutes derived from local telemetry, already rounded.
#[derive(Debug, Clone, Copy, PartialEq, Eq, Structural)]
pub struct LocalEstimates {
    /// Matching successful runs in the history.
    pub samples: usize,
    /// Their average actual minutes, rounded.
    pub local_minutes: u32,
    /// The weighted blend of that average and the template estimate, rounded.
    pub hybrid_minutes: u32,
}

/// Minutes and the basis actually used: local history only counts once it
/// holds enough samples; otherwise the template estimate stands in.
pub open spec fn chosen_minutes(
    basis: EstimateBasis,
    template_minutes: u32,
    local: LocalEstimates,
    min_samples: usize,
) -> (u32, Seq<char>) {
    let enough = local.samples >= min_samples;
    match basis {
        EstimateBasis::Template => (template_minutes, "template"@),
        EstimateBasis::Local => if enough {
            (local.local_minutes, "local"@)
        } else {
            (template_minutes, "template-fallback"@)
        },
        EstimateBasis::Hybrid => if enough {
            (local.hybrid_minutes, "hybrid"@)
        } else {
            (template_minutes, "template-fallback"@)
        },
    }
}

/// The minutes an estimate reports and the basis it used.
pub fn chosen_estimate(
    basis: EstimateBasis,
    template_minutes: u32,
    local: LocalEstimates,
    min_samples: usize,
) -> (r: (u32, &'static str))
    ensures
        r.0 == chosen_minutes(basis, template_minutes, local, min_samples).0,
        r.1@ == chosen_minutes(basis, template_minutes, local, min_samples).1,
{
    let enough_local = local.samples >= min_samples;
    match basis {
        EstimateBasis::Template => (template_minutes, "template"),
        EstimateBasis::Local => if enough_local {
            (local.local_minutes, "local")
        } else {
            (template_minutes, "template-fallback")
        },
        EstimateBasis::Hybrid => if enough_local {
            (local.hybrid_minutes, "hybrid")
        } else {
            (template_minutes, "template-fallback")
        },
    }
}

/// The smallest window of at least `h` and at most `max` hours whose
/// available minutes cover `est`.
pub open spec fn first_fitting_hours(h: int, max: int, overhead: u32, est: u32) -> Option<int>
    decreases max - h,
{
    if h > max {
        None
    } else if window_minutes(h as u32, overhead) >= est {
        Some(h)
    } else if h == max {
        None
    } else {
        first_fitting_hours(h + 1, max, overhead, est)
    }
}

/// `ceil(x / 60)`.
pub open spec fn hours_ceiling(x: int) -> int {
    if x % 60 == 0 {
        x / 60
    } else {
        x / 60 + 1
    }
}

/// The recommended single-issue window: the smallest allowed window that
/// covers the estimate, else the estimate plus overhead rounded up to whole
/// hours, clamped to the allowed range.
pub open spec fn recommended_hours(est: u32, overhead: u32, min_hours: u32, max_hours: u32) -> int {
    match first_fitting_hours(min_hours as int, max_hours as int, overhead, est) {
        Some(h) => h,
        None => {
            let c = hours_ceiling(est + overhead);
            let a = if c <= max_hours {
                c
            } else {
                max_hours as int
            };
            if a >= min_hours {
                a
            } else {
                min_hours as int
            }
        },
    }
}

pub open spec fn window_fits(min_hours: u32, max_hours: u32) -> bool {
    min_hours <= max_hours ==> max_hours * 60 <= u32::MAX
}

fn recommend_window_hours(
    estimated_minutes: u32,
    fixed_overhead_minutes: u32,
    min_hours: u32,
    max_hours: u32,
) -> (r: u32)
    requires
        window_fits(min_hours, max_hours),
        estimated_minutes + fixed_overhead_minutes <= u32::MAX,
    ensures
        r == recommended_hours(estimated_minutes, fixed_overhead_minutes, min_hours, max_hours),
{
    let total_minutes = estimated_minutes + fixed_overhead_minutes;
    if min_hours <= max_hours {
        let mut hours = min_hours;
        loop
            invariant
                min_hours <= hours <= max_hours,
                max_hours * 60 <= u32::MAX,
                first_fitting_hours(min_hours as int, max_hours as int, fixed_overhead_minutes, estimated_minutes)
                    == first_fitting_hours(hours as int, max_hours as int, fixed_overhead_minutes, estimated_minutes),
            ensures
                first_fitting_hours(min_hours as int, max_hours as int, fixed_overhead_minutes, estimated_minutes) is None,
            decreases max_hours - hours,
        {
            let avail = match available_minutes(hours, fixed_overhead_minutes, min_hours, max_hours) {
                Ok(a) => a,
                Err(_) => 0,
            };
            assert(avail as int == window_minutes(hours, fixed_overhead_minutes));
            if avail >= estimated_minutes {
                return hours;
            }
            if hours == max_hours {
                break ;
            }
            hours = hours + 1;
        }
    }
    let c = if total_minutes % 60 == 0 {
        total_minutes / 60
    } else {
        total_minutes / 60 + 1
    };
    let a = if c <= max_hours {
        c
    } else {
        max_hours
    };
    if a >= min_hours {
        a
    } else {
        min_hours
    }
}

/// What the estimate of a child issue reports.
pub open spec fn estimate_matches(
    e: IssueEstimate,
    config: Config,
    child: ChildIssue,
    basis: EstimateBasis,
    profile: int,
    template_minutes: u32,
    local: LocalEstimates,
) -> bool {
    let p = config.agent.model_profiles@[profile];
    let chosen = chosen_minutes(basis, template_minutes, local, config.telemetry.min_samples_for_local);
    &&& e.model_profile@ == p.name@
    &&& e.model@ == (match child.suggested_model_override {
        Some(m) => m@,
        None => p.model@,
    })
    &&& e.reasoning_effort@ == p.reasoning_effort@
    &&& e.estimated_minutes == chosen.0
    &&& e.basis_used@ == chosen.1
    &&& e.recommended_hours == recommended_hours(
        chosen.0,
        config.loop_cfg.fixed_overhead_minutes,
        config.loop_cfg.min_hours,
        config.loop_cfg.max_hours,
    )
    &&& e.basis_requested@ == basis.name()
    &&& e.local_samples == local.samples
    &&& e.notes@.len() == 0
    &&& e.ai_estimate is None
}

/// Estimates a child issue from its chosen profile, its template minutes
/// (already scaled by the profile's runtime multiplier) and what local
/// telemetry gives.
pub fn estimate_child_issue(
    config: &Config,
    child: &ChildIssue,
    basis: EstimateBasis,
    profile: usize,
    template_minutes: u32,
    local: LocalEstimates,
) -> (r: IssueEstimate)
    requires
        profile < config.agent.model_profiles@.len(),
        window_fits(config.loop_cfg.min_hours, config.loop_cfg.max_hours),
        chosen_minutes(basis, template_minutes, local, config.telemetry.min_samples_for_local).0
            + config.loop_cfg.fixed_overhead_minutes <= u32::MAX,
    ensures
        estimate_matches(r, *config, *child, basis, profile as int, template_minutes, local),
{
    let p = &config.agent.model_profiles[profile];
    let model = match &child.suggested_model_override {
        Some(m) => m.clone(),
        None => p.model.clone(),
    };
    let (estimated_minutes, basis_used) = chosen_estimate(
        basis,
        template_minutes,
        local,
        config.telemetry.min_samples_for_local,
    );
    let basis_used = basis_used.to_owned();
    let recommended_hours = recommend_window_hours(
        estimated_minutes,
        config.loop_cfg.fixed_overhead_minutes,
        config.loop_cfg.min_hours,
        config.loop_cfg.max_hours,
    );
    IssueEstimate {
        model_profile: p.name.clone(),
        model,
        reasoning_effort: p.reasoning_effort.clone(),
        estimated_minutes,
        recommended_hours,
        basis_requested: basis.as_str().to_owned(),
        basis_used,
        local_samples: local.samples,
        notes: Vec::new(),
        ai_estimate: None,
    }
}

/// Which minutes an estimate reports: the template estimate for the
/// template basis; for the local basis the local average, and for the
/// hybrid basis the blend of local average and template, once the history
/// holds enough samples; the template estimate as a fallback otherwise. The
/// basis used is named accordingly.
pub proof fn lemma_estimate_minutes_by_basis(
    e: IssueEstimate,
    config: Config,
    child: ChildIssue,
    basis: EstimateBasis,
    profile: int,
    template_minutes: u32,
    local: LocalEstimates,
)
    requires
        estimate_matches(e, config, child, basis, profile, template_minutes, local),
    ensures
        basis == EstimateBasis::Template ==> e.estimated_minutes == template_minutes
            && e.basis_used@ == "template"@,
        basis == EstimateBasis::Local && local.samples >= config.telemetry.min_samples_for_local
            ==> e.estimated_minutes == local.local_minutes && e.basis_used@ == "local"@,
        basis == EstimateBasis::Hybrid && local.samples >= config.telemetry.min_samples_for_local
            ==> e.estimated_minutes == local.hybrid_minutes && e.basis_used@ == "hybrid"@,
        basis != EstimateBasis::Template && local.samples < config.telemetry.min_samples_for_local
            ==> e.estimated_minutes == template_minutes && e.basis_used@ == "template-fallback"@,
        e.recommended_hours == recommended_hours(
            e.estimated_minutes,
            config.loop_cfg.fixed_overhead_minutes,
            config.loop_cfg.min_hours,
            config.loop_cfg.max_hours,
        ),
{
}

proof fn lemma_first_fitting_in_range(h: int, max: int, overhead: u32, est: u32)
    ensures
        first_fitting_hours(h, max, overhead, est) matches Some(x) ==> h <= x <= max,
    decreases max - h,
{
    if h <= max && !(window_minutes(h as u32, overhead) >= est) && h != max {
        lemma_first_fitting_in_range(h + 1, max, overhead, est);
    }
}

/// The recommended single-issue window is always one of the allowed
/// windows.
pub proof fn lemma_recommended_hours_allowed(est: u32, overhead: u32, min_hours: u32, max_hours: u32)
    requires
        min_hours <= max_hours,
    ensures
        min_hours <= recommended_hours(est, overhead, min_hours, max_hours) <= max_hours,
{
    lemma_first_fitting_in_range(min_hours as int, max_hours as int, overhead, est);
}

} // verus!
