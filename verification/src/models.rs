//! Issue model: parent and child issues, their metadata enums, and the
//! heading-keyed section map of an issue body.
use vstd::prelude::*;

use crate::text::{
    chars_eq, chars_of, eq_ignore_ascii_case, eq_ignore_case, lines, lines_of, lower, to_lower,
    to_upper, trim, trim_chars, upper,
};

verus! {

/// Whether the characters `u` spell the literal `lit`.
pub fn eq_lit(u: &[char], lit: &str) -> (r: bool)
    ensures
        r == (u@ == lit@),
{
    let l = chars_of(lit);
    chars_eq(u, l.as_slice())
}

/// A copy of a list of strings.
pub fn clone_strings(v: &Vec<String>) -> (res: Vec<String>)
    ensures
        res@ == v@,
{
    let mut res: Vec<String> = Vec::new();
    let mut i: usize = 0;
    while i < v.len()
        invariant
            i <= v.len(),
            res@ == v@.take(i as int),
        decreases v.len() - i,
    {
        res.push(v[i].clone());
        assert(v@.take(i as int).push(v@[i as int]) == v@.take(i + 1));
        i = i + 1;
    }
    assert(v@.take(v.len() as int) == v@);
    res
}

/// A copy of an optional string.
pub fn clone_opt_string(v: &Option<String>) -> (res: Option<String>)
    ensures
        res == *v,
{
    match v {
        Some(s) => Some(s.clone()),
        None => None,
    }
}

#[derive(Debug, Clone, Copy, PartialEq, Eq, Structural)]
pub enum IssueState {
    Open,
    Closed,
}

impl IssueState {
    /// `Closed` exactly when `value` is `"closed"` ignoring ASCII case.
    pub fn from_github_state(value: &str) -> (r: Self)
        ensures
            r == (if eq_ignore_case(value@, "closed"@) {
                IssueState::Closed
            } else {
                IssueState::Open
            }),
    {
        if eq_ignore_ascii_case(value, "closed") {
            IssueState::Closed
        } else {
            IssueState::Open
        }
    }

    pub fn as_str(&self) -> (r: &'static str)
        ensures
            r@ == (match self {
                IssueState::Open => "open"@,
                IssueState::Closed => "closed"@,
            }),
    {
        match self {
            IssueState::Open => "open",
            IssueState::Closed => "closed",
        }
    }
}

#[derive(Debug, Clone, Copy, PartialEq, Eq, Structural)]
pub enum SizeBand {
    Xs,
    S,
    M,
    L,
}

/// The size band named by `v` (trimmed, ASCII case ignored).
pub open spec fn size_band_of(v: Seq<char>) -> Option<SizeBand> {
    let u = upper(trim(v));
    if u == "XS"@ || u == "XS (50-120)"@ {
        Some(SizeBand::Xs)
    } else if u == "S"@ || u == "S (120-250)"@ {
        Some(SizeBand::S)
    } else if u == "M"@ || u == "M (250-500)"@ {
        Some(SizeBand::M)
    } else if u == "L"@ || u == "L (500-1000)"@ {
        Some(SizeBand::L)
    } else {
        None
    }
}

impl SizeBand {
    /// The band written with its line range.
    pub open spec fn labelled_name(self) -> Seq<char> {
        match self {
            SizeBand::Xs => "XS (50-120)"@,
            SizeBand::S => "S (120-250)"@,
            SizeBand::M => "M (250-500)"@,
            SizeBand::L => "L (500-1000)"@,
        }
    }

    /// How the band is written.
    pub open spec fn name(self) -> Seq<char> {
        match self {
            SizeBand::Xs => "XS"@,
            SizeBand::S => "S"@,
            SizeBand::M => "M"@,
            SizeBand::L => "L"@,
        }
    }

    pub open spec fn min_spec(self) -> u32 {
        match self {
            SizeBand::Xs => 50,
            SizeBand::S => 120,
            SizeBand::M => 250,
            SizeBand::L => 500,
        }
    }

    pub open spec fn max_spec(self) -> u32 {
        match self {
            SizeBand::Xs => 120,
            SizeBand::S => 250,
            SizeBand::M => 500,
            SizeBand::L => 1000,
        }
    }

    pub fn from_text(value: &str) -> (r: Option<Self>)
        ensures
            r == size_band_of(value@),
    {
        let v = chars_of(value);
        let t = trim_chars(v.as_slice());
        let u = to_upper(t.as_slice());
        let u = u.as_slice();
        if eq_lit(u, "XS") || eq_lit(u, "XS (50-120)") {
            Some(SizeBand::Xs)
        } else if eq_lit(u, "S") || eq_lit(u, "S (120-250)") {
            Some(SizeBand::S)
        } else if eq_lit(u, "M") || eq_lit(u, "M (250-500)") {
            Some(SizeBand::M)
        } else if eq_lit(u, "L") || eq_lit(u, "L (500-1000)") {
            Some(SizeBand::L)
        } else {
            None
        }
    }

    pub fn as_str(&self) -> (r: &'static str)
        ensures
            r@ == (match self {
                SizeBand::Xs => "XS"@,
                SizeBand::S => "S"@,
                SizeBand::M => "M"@,
                SizeBand::L => "L"@,
            }),
    {
        match self {
            SizeBand::Xs => "XS",
            SizeBand::S => "S",
            SizeBand::M => "M",
            SizeBand::L => "L",
        }
    }

    pub fn min_lines(&self) -> (r: u32)
        ensures
            r == self.min_spec(),
    {
        match self {
            SizeBand::Xs => 50,
            SizeBand::S => 120,
            SizeBand::M => 250,
            SizeBand::L => 500,
        }
    }

    pub fn max_lines(&self) -> (r: u32)
        ensures
            r == self.max_spec(),
    {
        match self {
            SizeBand::Xs => 120,
            SizeBand::S => 250,
            SizeBand::M => 500,
            SizeBand::L => 1000,
        }
    }
}

#[derive(Debug, Clone, Copy, PartialEq, Eq, Structural)]
pub enum DocsImpact {
    NoImpact,
    Readme,
    UserFacingDocs,
    ArchitectureDocs,
}

/// The documentation impact named by `v` (trimmed, ASCII case ignored).
pub open spec fn docs_impact_of(v: Seq<char>) -> Option<DocsImpact> {
    let l = lower(trim(v));
    if l == "none"@ {
        Some(DocsImpact::NoImpact)
    } else if l == "readme"@ {
        Some(DocsImpact::Readme)
    } else if l == "user-facing-docs"@ {
        Some(DocsImpact::UserFacingDocs)
    } else if l == "architecture-docs"@ {
        Some(DocsImpact::ArchitectureDocs)
    } else {
        None
    }
}

impl DocsImpact {
    /// How the impact is written.
    pub open spec fn name(self) -> Seq<char> {
        match self {
            DocsImpact::NoImpact => "none"@,
            DocsImpact::Readme => "readme"@,
            DocsImpact::UserFacingDocs => "user-facing-docs"@,
            DocsImpact::ArchitectureDocs => "architecture-docs"@,
        }
    }

    pub fn from_text(value: &str) -> (r: Option<Self>)
        ensures
            r == docs_impact_of(value@),
    {
        let v = chars_of(value);
        let t = trim_chars(v.as_slice());
        let l = to_lower(t.as_slice());
        let l = l.as_slice();
        if eq_lit(l, "none") {
            Some(DocsImpact::NoImpact)
        } else if eq_lit(l, "readme") {
            Some(DocsImpact::Readme)
        } else if eq_lit(l, "user-facing-docs") {
            Some(DocsImpact::UserFacingDocs)
        } else if eq_lit(l, "architecture-docs") {
            Some(DocsImpact::ArchitectureDocs)
        } else {
            None
        }
    }

    pub fn as_str(&self) -> (r: &'static str)
        ensures
            r@ == (match self {
                DocsImpact::NoImpact => "none"@,
                DocsImpact::Readme => "readme"@,
                DocsImpact::UserFacingDocs => "user-facing-docs"@,
                DocsImpact::ArchitectureDocs => "architecture-docs"@,
            }),
    {
        match self {
            DocsImpact::NoImpact => "none",
            DocsImpact::Readme => "readme",
            DocsImpact::UserFacingDocs => "user-facing-docs",
            DocsImpact::ArchitectureDocs => "architecture-docs",
        }
    }
}

#[derive(Debug, Clone, Copy, PartialEq, Eq, Structural)]
pub enum EstimationBasis {
    Template,
    Local,
    Hybrid,
    Ai,
    Manual,
}

/// The estimation basis named by `v` (trimmed, ASCII case ignored).
pub open spec fn estimation_basis_of(v: Seq<char>) -> Option<EstimationBasis> {
    let l = lower(trim(v));
    if l == "template"@ {
        Some(EstimationBasis::Template)
    } else if l == "local"@ {
        Some(EstimationBasis::Local)
    } else if l == "hybrid"@ {
        Some(EstimationBasis::Hybrid)
    } else if l == "ai"@ {
        Some(EstimationBasis::Ai)
    } else if l == "manual"@ {
        Some(EstimationBasis::Manual)
    } else {
        None
    }
}

impl EstimationBasis {
    /// How the basis is written.
    pub open spec fn name(self) -> Seq<char> {
        match self {
            EstimationBasis::Template => "template"@,
            EstimationBasis::Local => "local"@,
            EstimationBasis::Hybrid => "hybrid"@,
            EstimationBasis::Ai => "ai"@,
            EstimationBasis::Manual => "manual"@,
        }
    }

    pub fn from_text(value: &str) -> (r: Option<Self>)
        ensures
            r == estimation_basis_of(value@),
    {
        let v = chars_of(value);
        let t = trim_chars(v.as_slice());
        let l = to_lower(t.as_slice());
        let l = l.as_slice();
        if eq_lit(l, "template") {
            Some(EstimationBasis::Template)
        } else if eq_lit(l, "local") {
            Some(EstimationBasis::Local)
        } else if eq_lit(l, "hybrid") {
            Some(EstimationBasis::Hybrid)
        } else if eq_lit(l, "ai") {
            Some(EstimationBasis::Ai)
        } else if eq_lit(l, "manual") {
            Some(EstimationBasis::Manual)
        } else {
            None
        }
    }

    pub fn as_str(&self) -> (r: &'static str)
        ensures
            r@ == (match self {
                EstimationBasis::Template => "template"@,
                EstimationBasis::Local => "local"@,
                EstimationBasis::Hybrid => "hybrid"@,
                EstimationBasis::Ai => "ai"@,
                EstimationBasis::Manual => "manual"@,
            }),
    {
        match self {
            EstimationBasis::Template => "template",
            EstimationBasis::Local => "local",
            EstimationBasis::Hybrid => "hybrid",
            EstimationBasis::Ai => "ai",
            EstimationBasis::Manual => "manual",
        }
    }
}

#[derive(Debug, Clone, Copy, PartialEq, Eq, Structural)]
pub enum Confidence {
    Low,
    Medium,
    High,
}

/// The confidence named by `v` (trimmed, ASCII case ignored).
pub open spec fn confidence_of(v: Seq<char>) -> Option<Confidence> {
    let l = lower(trim(v));
    if l == "low"@ {
        Some(Confidence::Low)
    } else if l == "medium"@ {
        Some(Confidence::Medium)
    } else if l == "high"@ {
        Some(Confidence::High)
    } else {
        None
    }
}

impl Confidence {
    pub fn from_text(value: &str) -> (r: Option<Self>)
        ensures
            r == confidence_of(value@),
    {
        let v = chars_of(value);
        let t = trim_chars(v.as_slice());
        let l = to_lower(t.as_slice());
        let l = l.as_slice();
        if eq_lit(l, "low") {
            Some(Confidence::Low)
        } else if eq_lit(l, "medium") {
            Some(Confidence::Medium)
        } else if eq_lit(l, "high") {
            Some(Confidence::High)
        } else {
            None
        }
    }

    pub fn as_str(&self) -> (r: &'static str)
        ensures
            r@ == (match self {
                Confidence::Low => "low"@,
                Confidence::Medium => "medium"@,
                Confidence::High => "high"@,
            }),
    {
        match self {
            Confidence::Low => "low",
            Confidence::Medium => "medium",
            Confidence::High => "high",
        }
    }
}

/// Some label of `labels` equals `value` ignoring ASCII case.
pub open spec fn has_label_in(labels: Seq<String>, value: Seq<char>) -> bool {
    exists|i: int| 0 <= i < labels.len() && eq_ignore_case(#[trigger] labels[i]@, value)
}

/// Whether some label in `labels` equals `value` ignoring ASCII case.
pub fn labels_contain(labels: &Vec<String>, value: &str) -> (r: bool)
    ensures
        r == has_label_in(labels@, value@),
{
    let mut i: usize = 0;
    while i < labels.len()
        invariant
            i <= labels.len(),
            forall|j: int| 0 <= j < i ==> !eq_ignore_case(#[trigger] labels@[j]@, value@),
        decreases labels.len() - i,
    {
        if eq_ignore_ascii_case(labels[i].as_str(), value) {
            return true;
        }
        i = i + 1;
    }
    false
}

// ---------------------------------------------------------------------
// Section map
// ---------------------------------------------------------------------

/// The map that results from inserting the entries in order (a later entry
/// with the same key replaces an earlier one).
pub open spec fn entries_map(e: Seq<(String, String)>) -> Map<Seq<char>, Seq<char>>
    decreases e.len(),
{
    if e.len() == 0 {
        Map::empty()
    } else {
        entries_map(e.drop_last()).insert(e.last().0@, e.last().1@)
    }
}

proof fn lemma_entries_map_last(e: Seq<(String, String)>, k: int, key: Seq<char>)
    requires
        0 <= k < e.len(),
        e[k].0@ == key,
        forall|j: int| k < j < e.len() ==> (#[trigger] e[j]).0@ != key,
    ensures
        entries_map(e).contains_key(key),
        entries_map(e)[key] == e[k].1@,
    decreases e.len(),
{
    if k < e.len() - 1 {
        lemma_entries_map_last(e.drop_last(), k, key);
        assert(e.last() == e[e.len() - 1]);
    }
}

proof fn lemma_entries_map_absent(e: Seq<(String, String)>, key: Seq<char>)
    requires
        forall|j: int| 0 <= j < e.len() ==> (#[trigger] e[j]).0@ != key,
    ensures
        !entries_map(e).contains_key(key),
    decreases e.len(),
{
    if e.len() > 0 {
        lemma_entries_map_absent(e.drop_last(), key);
        assert(e.last() == e[e.len() - 1]);
    }
}

/// Issue body sections keyed by normalized heading.
#[derive(Debug, Clone)]
pub struct Sections {
    entries: Vec<(String, String)>,
}

impl View for Sections {
    type V = Map<Seq<char>, Seq<char>>;

    closed spec fn view(&self) -> Map<Seq<char>, Seq<char>> {
        entries_map(self.entries@)
    }
}

impl Sections {
    pub fn new() -> (r: Self)
        ensures
            r@ == Map::<Seq<char>, Seq<char>>::empty(),
    {
        Sections { entries: Vec::new() }
    }

    /// Sets `key` to `value`, replacing an earlier value.
    pub fn insert(&mut self, key: String, value: String)
        ensures
            final(self)@ == old(self)@.insert(key@, value@),
    {
        let ghost k = key@;
        let ghost v = value@;
        self.entries.push((key, value));
        proof {
            assert(self.entries@.drop_last() == old(self).entries@);
        }
    }

    /// The value stored under `key`.
    pub fn get(&self, key: &str) -> (r: Option<&String>)
        ensures
            match r {
                Some(v) => self@.contains_key(key@) && self@[key@] == v@,
                None => !self@.contains_key(key@),
            },
    {
        let k = chars_of(key);
        let mut i = self.entries.len();
        while i > 0
            invariant
                i <= self.entries.len(),
                k@ == key@,
                forall|j: int| i <= j < self.entries@.len() ==> (#[trigger] self.entries@[j]).0@
                    != key@,
            decreases i,
        {
            let e = &self.entries[i - 1];
            let ek = chars_of(e.0.as_str());
            if chars_eq(ek.as_slice(), k.as_slice()) {
                proof {
                    lemma_entries_map_last(self.entries@, i - 1, key@);
                }
                return Some(&e.1);
            }
            i = i - 1;
        }
        proof {
            lemma_entries_map_absent(self.entries@, key@);
        }
        None
    }
}

impl Default for Sections {
    fn default() -> (r: Self)
        ensures
            r@ == Map::<Seq<char>, Seq<char>>::empty(),
    {
        Sections::new()
    }
}

// ---------------------------------------------------------------------
// Issues
// ---------------------------------------------------------------------

#[derive(Debug, Clone)]
pub struct IssueSnapshot {
    pub number: u64,
    pub title: String,
    pub body: String,
    pub state: IssueState,
    pub labels: Vec<String>,
    pub url: Option<String>,
}

impl IssueSnapshot {
    pub fn has_label(&self, value: &str) -> (r: bool)
        ensures
            r == has_label_in(self.labels@, value@),
    {
        labels_contain(&self.labels, value)
    }
}

#[derive(Debug, Clone)]
pub struct ParentChildRef {
    pub number: u64,
    pub checked: bool,
    pub raw_line: String,
}

#[derive(Debug, Clone)]
pub struct ParentIssue {
    pub number: u64,
    pub title: String,
    pub body: String,
    pub state: IssueState,
    pub labels: Vec<String>,
    pub url: Option<String>,
    pub sections: Sections,
    pub children: Vec<ParentChildRef>,
}

/// Where a source-of-truth reference points. Paths are kept as the text
/// written in the issue.
#[derive(Debug, Clone)]
pub enum SourceRefKind {
    RepoRelative { path: String },
    Absolute { path: String },
    Url { url: String },
}

#[derive(Debug, Clone)]
pub struct SourceRef {
    pub raw: String,
    pub kind: SourceRefKind,
}

#[derive(Debug, Clone, Copy, PartialEq, Eq, Structural)]
pub enum VerificationSource {
    FencedShell,
    CmdLine,
}

#[derive(Debug, Clone)]
pub struct VerificationCommand {
    pub command: String,
    pub source: VerificationSource,
}

#[derive(Debug, Clone)]
pub struct ChildIssue {
    pub number: u64,
    pub title: String,
    pub body: String,
    pub state: IssueState,
    pub labels: Vec<String>,
    pub url: Option<String>,
    pub sections: Sections,
    pub background: String,
    pub goal: String,
    pub scope: String,
    pub out_of_scope: String,
    pub source_of_truth_raw: String,
    pub source_of_truth: Vec<SourceRef>,
    pub implementation_constraints: Option<String>,
    pub acceptance_criteria: String,
    pub verification_raw: String,
    pub verification: Vec<VerificationCommand>,
    pub dependencies_raw: String,
    pub dependencies: Vec<u64>,
    pub target_size: SizeBand,
    pub docs_impact: DocsImpact,
    pub suggested_model_profile: String,
    pub suggested_model_override: Option<String>,
    pub estimated_minutes: u32,
    pub estimation_basis: EstimationBasis,
    pub estimation_confidence: Confidence,
}

/// Some line of `scope`, trimmed, is exactly `docs-only` or `config-only`.
pub open spec fn small_diff_exception(scope: Seq<char>) -> bool {
    exists|i: int|
        0 <= i < lines(scope).len() && (trim(#[trigger] lines(scope)[i]) == "docs-only"@ || trim(
            lines(scope)[i],
        ) == "config-only"@)
}

impl ChildIssue {
    pub fn has_label(&self, value: &str) -> (r: bool)
        ensures
            r == has_label_in(self.labels@, value@),
    {
        labels_contain(&self.labels, value)
    }

    pub fn allows_small_diff_exception(&self) -> (r: bool)
        ensures
            r == small_diff_exception(self.scope@),
    {
        let s = chars_of(self.scope.as_str());
        let ls = lines_of(s.as_slice());
        let mut i: usize = 0;
        while i < ls.len()
            invariant
                i <= ls.len(),
                s@ == self.scope@,
                crate::text::char_vec_views(ls@) == lines(s@),
                forall|j: int|
                    0 <= j < i ==> !(trim(#[trigger] lines(s@)[j]) == "docs-only"@ || trim(
                        lines(s@)[j],
                    ) == "config-only"@),
            decreases ls.len() - i,
        {
            let t = trim_chars(ls[i].as_slice());
            assert(ls@[i as int]@ == lines(s@)[i as int]);
            if eq_lit(t.as_slice(), "docs-only") || eq_lit(t.as_slice(), "config-only") {
                return true;
            }
            i = i + 1;
        }
        false
    }
}

#[derive(Debug, Clone)]
pub struct AiEstimate {
    pub model_profile: String,
    pub estimated_minutes: u32,
    pub confidence: Confidence,
    pub notes: String,
}

#[derive(Debug, Clone)]
pub struct IssueEstimate {
    pub model_profile: String,
    pub model: String,
    pub reasoning_effort: String,
    pub estimated_minutes: u32,
    pub recommended_hours: u32,
    pub basis_requested: String,
    pub basis_used: String,
    pub local_samples: usize,
    pub notes: Vec<String>,
    pub ai_estimate: Option<AiEstimate>,
}

/// Each band's name, and its name with its line range, read back as the
/// band, whatever the case and surrounding whitespace; other text such as
/// `XL` names no band.
pub proof fn lemma_size_band_round_trip(b: SizeBand, t: Seq<char>)
    ensures
        size_band_of(b.name()) == Some(b),
        size_band_of(b.labelled_name()) == Some(b),
        upper(trim(t)) == b.name() || upper(trim(t)) == b.labelled_name() ==> size_band_of(t)
            == Some(b),
        size_band_of("XL"@) is None,
{
    reveal_strlit("XS");
    reveal_strlit("S");
    reveal_strlit("M");
    reveal_strlit("L");
    reveal_strlit("XL");
    reveal_strlit("XS (50-120)");
    reveal_strlit("S (120-250)");
    reveal_strlit("M (250-500)");
    reveal_strlit("L (500-1000)");
    crate::text::lemma_trim_unpadded(b.name());
    crate::text::lemma_upper_fixed(b.name());
    crate::text::lemma_trim_unpadded(b.labelled_name());
    crate::text::lemma_upper_fixed(b.labelled_name());
    crate::text::lemma_trim_unpadded("XL"@);
    crate::text::lemma_upper_fixed("XL"@);
}

/// Each basis name reads back as its basis, whatever the case and
/// surrounding whitespace; other text names no basis.
pub proof fn lemma_estimation_basis_round_trip(b: EstimationBasis, t: Seq<char>)
    ensures
        estimation_basis_of(b.name()) == Some(b),
        lower(trim(t)) == b.name() ==> estimation_basis_of(t) == Some(b),
        estimation_basis_of("guess"@) is None,
{
    reveal_strlit("template");
    reveal_strlit("local");
    reveal_strlit("hybrid");
    reveal_strlit("ai");
    reveal_strlit("manual");
    reveal_strlit("guess");
    crate::text::lemma_trim_unpadded(b.name());
    crate::text::lemma_lower_fixed(b.name());
    crate::text::lemma_trim_unpadded("guess"@);
    crate::text::lemma_lower_fixed("guess"@);
}

/// A band's labelled name gives its own line range.
pub proof fn lemma_labelled_name_gives_range(b: SizeBand)
    ensures
        b.labelled_name() == b.name() + " ("@ + crate::numbers::decimal(b.min_spec() as nat) + "-"@
            + crate::numbers::decimal(b.max_spec() as nat) + ")"@,
{
    reveal_strlit("XS");
    reveal_strlit("S");
    reveal_strlit("M");
    reveal_strlit("L");
    reveal_strlit(" (");
    reveal_strlit("-");
    reveal_strlit(")");
    reveal_strlit("XS (50-120)");
    reveal_strlit("S (120-250)");
    reveal_strlit("M (250-500)");
    reveal_strlit("L (500-1000)");
    reveal_with_fuel(crate::numbers::decimal, 5);
    assert(crate::numbers::digit_char(0) == '0');
    assert(crate::numbers::digit_char(1) == '1');
    assert(crate::numbers::digit_char(2) == '2');
    assert(crate::numbers::digit_char(5) == '5');
    assert(b.labelled_name() =~= b.name() + " ("@ + crate::numbers::decimal(b.min_spec() as nat)
        + "-"@ + crate::numbers::decimal(b.max_spec() as nat) + ")"@);
}

/// A band written in lowercase, bare or with its line range as in
/// ` xs (50-120) `, and padded with whitespace, reads back as the band.
pub proof fn lemma_size_band_lowercase_padded(b: SizeBand, pre: Seq<char>, post: Seq<char>)
    requires
        forall|i: int| 0 <= i < pre.len() ==> crate::text::is_ws(#[trigger] pre[i]),
        forall|i: int| 0 <= i < post.len() ==> crate::text::is_ws(#[trigger] post[i]),
    ensures
        size_band_of(pre + lower(b.name()) + post) == Some(b),
        size_band_of(
            pre + lower(b.name()) + " ("@ + crate::numbers::decimal(b.min_spec() as nat) + "-"@
                + crate::numbers::decimal(b.max_spec() as nat) + ")"@ + post,
        ) == Some(b),
{
    reveal_strlit("XS");
    reveal_strlit("S");
    reveal_strlit("M");
    reveal_strlit("L");
    reveal_strlit(" (");
    reveal_strlit("-");
    reveal_strlit(")");
    reveal_strlit("XS (50-120)");
    reveal_strlit("S (120-250)");
    reveal_strlit("M (250-500)");
    reveal_strlit("L (500-1000)");
    let dmin = crate::numbers::decimal(b.min_spec() as nat);
    let dmax = crate::numbers::decimal(b.max_spec() as nat);
    crate::numbers::lemma_decimal_digits(b.min_spec() as nat);
    crate::numbers::lemma_decimal_digits(b.max_spec() as nat);
    let tail = " ("@ + dmin + "-"@ + dmax + ")"@;
    assert forall|i: int| 0 <= i < tail.len() implies !crate::text::is_upper_ascii(
        #[trigger] tail[i],
    ) by {
        if 2 <= i < 2 + dmin.len() {
            assert(tail[i] == dmin[i - 2]);
            assert(crate::text::is_digit(dmin[i - 2]));
        } else if 3 + dmin.len() <= i < 3 + dmin.len() + dmax.len() {
            assert(tail[i] == dmax[i - 3 - dmin.len()]);
            assert(crate::text::is_digit(dmax[i - 3 - dmin.len()]));
        }
    }
    crate::text::lemma_lower_fixed(tail);
    lemma_labelled_name_gives_range(b);
    crate::text::lemma_lower_concat(b.name(), tail);
    assert(b.name() + tail =~= b.labelled_name());
    let x = lower(b.name()) + tail;
    assert(x == lower(b.labelled_name()));
    assert(pre + lower(b.name()) + " ("@ + dmin + "-"@ + dmax + ")"@ + post =~= pre + x + post);
    crate::text::lemma_upper_of_lower(b.labelled_name());
    crate::text::lemma_upper_fixed(b.labelled_name());
    assert(x[0] == lower(b.name())[0]);
    assert(x.last() == ')');
    crate::text::lemma_trim_padded(pre, x, post);
    let n = lower(b.name());
    assert(n.last() == crate::text::lower_char(b.name().last()));
    crate::text::lemma_trim_padded(pre, n, post);
    crate::text::lemma_upper_of_lower(b.name());
    crate::text::lemma_upper_fixed(b.name());
}

} // verus!
