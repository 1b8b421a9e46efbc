//! Parsing of parent and child issue bodies.
use vstd::prelude::*;

use crate::models::{
    clone_opt_string, clone_strings, confidence_of, docs_impact_of, estimation_basis_of, eq_lit,
    size_band_of, ChildIssue, Confidence, DocsImpact, EstimationBasis, IssueSnapshot,
    ParentChildRef, ParentIssue, Sections, SizeBand, SourceRef, SourceRefKind,
    VerificationCommand, VerificationSource,
};
use crate::numbers::{
    digits_value, int_error_message, int_error_text, parse_u32_chars, parse_u64_chars,
    parse_unsigned,
};
use crate::text::{
    char_vec_views, chars_of, copy_range, eq_ignore_ascii_case, eq_ignore_case, has_prefix,
    is_ascii_digit, is_digit, is_whitespace, is_ws, join, join_chars, lines, lines_of, lower,
    starts_with, string_of, to_lower, trim, trim_chars, words, words_of,
};

verus! {

// ---------------------------------------------------------------------
// Errors
// ---------------------------------------------------------------------

/// Why an issue body could not be parsed.
#[derive(Debug, Clone)]
pub enum IssueParseError {
    MissingOrderedChildSection,
    NoChildIssues,
    InvalidChecklistLine(String),
    MissingChildNumber(String),
    UnsupportedSourceUrl(String),
    InvalidDependencyToken(String),
    InvalidDependencyNumber(String),
    MissingSection(String),
    InvalidTargetChangeSize,
    InvalidDocumentationImpact,
    InvalidEstimatedMinutes(String),
    InvalidEstimationBasis,
    InvalidEstimationConfidence,
}

/// The mathematical content of an [`IssueParseError`].
pub ghost enum ParseFault {
    MissingOrderedChildSection,
    NoChildIssues,
    InvalidChecklistLine(Seq<char>),
    MissingChildNumber(Seq<char>),
    UnsupportedSourceUrl(Seq<char>),
    InvalidDependencyToken(Seq<char>),
    InvalidDependencyNumber(Seq<char>),
    MissingSection(Seq<char>),
    InvalidTargetChangeSize,
    InvalidDocumentationImpact,
    InvalidEstimatedMinutes(Seq<char>),
    InvalidEstimationBasis,
    InvalidEstimationConfidence,
}

impl View for IssueParseError {
    type V = ParseFault;

    open spec fn view(&self) -> ParseFault {
        match self {
            IssueParseError::MissingOrderedChildSection => ParseFault::MissingOrderedChildSection,
            IssueParseError::NoChildIssues => ParseFault::NoChildIssues,
            IssueParseError::InvalidChecklistLine(s) => ParseFault::InvalidChecklistLine(s@),
            IssueParseError::MissingChildNumber(s) => ParseFault::MissingChildNumber(s@),
            IssueParseError::UnsupportedSourceUrl(s) => ParseFault::UnsupportedSourceUrl(s@),
            IssueParseError::InvalidDependencyToken(s) => ParseFault::InvalidDependencyToken(s@),
            IssueParseError::InvalidDependencyNumber(s) => ParseFault::InvalidDependencyNumber(s@),
            IssueParseError::MissingSection(s) => ParseFault::MissingSection(s@),
            IssueParseError::InvalidTargetChangeSize => ParseFault::InvalidTargetChangeSize,
            IssueParseError::InvalidDocumentationImpact => ParseFault::InvalidDocumentationImpact,
            IssueParseError::InvalidEstimatedMinutes(s) => ParseFault::InvalidEstimatedMinutes(s@),
            IssueParseError::InvalidEstimationBasis => ParseFault::InvalidEstimationBasis,
            IssueParseError::InvalidEstimationConfidence => ParseFault::InvalidEstimationConfidence,
        }
    }
}

/// The text of a parse error, as the issue tools report it.
pub open spec fn fault_text(f: ParseFault) -> Seq<char> {
    match f {
        ParseFault::MissingOrderedChildSection => "missing Ordered child Issues section"@,
        ParseFault::NoChildIssues => "parent issue contains no child issues"@,
        ParseFault::InvalidChecklistLine(l) => "invalid parent child checklist line: "@ + l,
        ParseFault::MissingChildNumber(l) => "missing child issue number in line: "@ + l,
        ParseFault::UnsupportedSourceUrl(u) => "unsupported source-of-truth URL: "@ + u,
        ParseFault::InvalidDependencyToken(t) => "invalid dependency token: "@ + t,
        ParseFault::InvalidDependencyNumber(t) => int_error_text(t),
        ParseFault::MissingSection(k) => "missing section: "@ + k,
        ParseFault::InvalidTargetChangeSize => "invalid target change size"@,
        ParseFault::InvalidDocumentationImpact => "invalid documentation impact"@,
        ParseFault::InvalidEstimatedMinutes(t) => int_error_text(t),
        ParseFault::InvalidEstimationBasis => "invalid estimation basis"@,
        ParseFault::InvalidEstimationConfidence => "invalid estimation confidence"@,
    }
}

impl IssueParseError {
    /// The error's text.
    pub fn message(&self) -> (r: String)
        ensures
            r@ == fault_text(self@),
    {
        match self {
            IssueParseError::MissingOrderedChildSection => "missing Ordered child Issues section".to_owned(),
            IssueParseError::NoChildIssues => "parent issue contains no child issues".to_owned(),
            IssueParseError::InvalidChecklistLine(l) => {
                let mut s = "invalid parent child checklist line: ".to_owned();
                s.append(l.as_str());
                s
            },
            IssueParseError::MissingChildNumber(l) => {
                let mut s = "missing child issue number in line: ".to_owned();
                s.append(l.as_str());
                s
            },
            IssueParseError::UnsupportedSourceUrl(u) => {
                let mut s = "unsupported source-of-truth URL: ".to_owned();
                s.append(u.as_str());
                s
            },
            IssueParseError::InvalidDependencyToken(t) => {
                let mut s = "invalid dependency token: ".to_owned();
                s.append(t.as_str());
                s
            },
            IssueParseError::InvalidDependencyNumber(t) => int_error_message(t.as_str()).to_owned(),
            IssueParseError::MissingSection(k) => {
                let mut s = "missing section: ".to_owned();
                s.append(k.as_str());
                s
            },
            IssueParseError::InvalidTargetChangeSize => "invalid target change size".to_owned(),
            IssueParseError::InvalidDocumentationImpact => "invalid documentation impact".to_owned(),
            IssueParseError::InvalidEstimatedMinutes(t) => int_error_message(t.as_str()).to_owned(),
            IssueParseError::InvalidEstimationBasis => "invalid estimation basis".to_owned(),
            IssueParseError::InvalidEstimationConfidence => "invalid estimation confidence".to_owned(),
        }
    }
}

/// The child sections that a child issue must carry, by normalized key and
/// by display title.
pub fn required_child_sections() -> (r: Vec<(&'static str, &'static str)>)
    ensures
        r@.len() == 14,
{
    let mut v: Vec<(&'static str, &'static str)> = Vec::new();
    v.push(("background", "Background"));
    v.push(("goal", "Goal"));
    v.push(("scope", "Scope"));
    v.push(("out of scope", "Out of scope"));
    v.push(("source of truth", "Source of truth"));
    v.push(("acceptance criteria", "Acceptance criteria"));
    v.push(("verification", "Verification"));
    v.push(("dependencies", "Dependencies"));
    v.push(("target change size", "Target change size"));
    v.push(("documentation impact", "Documentation impact"));
    v.push(("suggested model profile", "Suggested model profile"));
    v.push(("estimated execution time", "Estimated execution time"));
    v.push(("estimation basis", "Estimation basis"));
    v.push(("estimation confidence", "Estimation confidence"));
    v
}

// ---------------------------------------------------------------------
// Headings and sections
// ---------------------------------------------------------------------

/// `s` without any trailing `':'` characters.
pub open spec fn trim_end_colons(s: Seq<char>) -> Seq<char>
    decreases s.len(),
{
    if s.len() > 0 && s.last() == ':' {
        trim_end_colons(s.drop_last())
    } else {
        s
    }
}

/// Trimmed, without trailing colons, whitespace runs collapsed to one space,
/// ASCII-lowercased.
pub open spec fn normalized_heading(title: Seq<char>) -> Seq<char> {
    lower(join(words(trim_end_colons(trim(title))), " "@))
}

/// The title of a `## ` or `### ` heading line, trimmed.
pub open spec fn heading_title_of(line: Seq<char>) -> Option<Seq<char>> {
    let t = trim(line);
    if starts_with(t, "## "@) {
        Some(trim(t.skip(3)))
    } else if starts_with(t, "### "@) {
        Some(trim(t.skip(4)))
    } else {
        None
    }
}

/// Section body: the collected lines joined by newlines, trimmed.
pub open spec fn section_text(ls: Seq<Seq<char>>) -> Seq<char> {
    trim(join(ls, "\n"@))
}

/// Scan state while splitting a body into sections: the key of the section
/// being collected, its lines so far, and the finished sections.
pub type SectionScan = (Option<Seq<char>>, Seq<Seq<char>>, Map<Seq<char>, Seq<char>>);

pub open spec fn close_section(st: SectionScan) -> Map<Seq<char>, Seq<char>> {
    match st.0 {
        Some(k) => st.2.insert(k, section_text(st.1)),
        None => st.2,
    }
}

pub open spec fn section_step(st: SectionScan, line: Seq<char>) -> SectionScan {
    match heading_title_of(line) {
        Some(title) => (Some(normalized_heading(title)), Seq::empty(), close_section(st)),
        None => if st.0 is Some {
            (st.0, st.1.push(line), st.2)
        } else {
            st
        },
    }
}

pub open spec fn section_scan(ls: Seq<Seq<char>>) -> SectionScan
    decreases ls.len(),
{
    if ls.len() == 0 {
        (None, Seq::empty(), Map::empty())
    } else {
        section_step(section_scan(ls.drop_last()), ls.last())
    }
}

/// The sections of `body`: each `##`/`###` heading starts a section keyed by
/// its normalized title, holding the trimmed text up to the next heading;
/// a later section with the same key replaces an earlier one; text before
/// the first heading is ignored.
pub open spec fn sections_of(body: Seq<char>) -> Map<Seq<char>, Seq<char>> {
    close_section(section_scan(lines(body)))
}

fn trim_end_colons_chars(s: &[char]) -> (res: Vec<char>)
    ensures
        res@ == trim_end_colons(s@),
{
    let mut j = s.len();
    proof {
        assert(s@.take(s.len() as int) == s@);
    }
    while j > 0 && s[j - 1] == ':'
        invariant
            j <= s.len(),
            trim_end_colons(s@) == trim_end_colons(s@.take(j as int)),
        decreases j,
    {
        proof {
            assert(s@.take(j as int).drop_last() == s@.take(j - 1));
        }
        j = j - 1;
    }
    proof {
        assert(s@.take(s.len() as int) == s@);
    }
    copy_range(s, 0, j)
}

/// Normalizes a heading title for use as a section key.
pub fn normalize_heading(title: &str) -> (res: String)
    ensures
        res@ == normalized_heading(title@),
{
    let v = chars_of(title);
    let r = normalize_heading_chars(v.as_slice());
    string_of(r.as_slice())
}

fn normalize_heading_chars(title: &[char]) -> (res: Vec<char>)
    ensures
        res@ == normalized_heading(title@),
{
    let t = trim_chars(title);
    let c = trim_end_colons_chars(t.as_slice());
    let ws = words_of(c.as_slice());
    let sp = chars_of(" ");
    let j = join_chars(&ws, sp.as_slice());
    to_lower(j.as_slice())
}

fn heading_title(line: &[char]) -> (res: Option<Vec<char>>)
    ensures
        match res {
            Some(t) => heading_title_of(line@) == Some(t@),
            None => heading_title_of(line@) is None,
        },
{
    let t = trim_chars(line);
    let h2 = chars_of("## ");
    let h3 = chars_of("### ");
    proof {
        reveal_strlit("## ");
        reveal_strlit("### ");
    }
    if has_prefix(t.as_slice(), h2.as_slice()) {
        let rest = copy_range(t.as_slice(), 3, t.len());
        assert(rest@ == t@.skip(3));
        Some(trim_chars(rest.as_slice()))
    } else if has_prefix(t.as_slice(), h3.as_slice()) {
        let rest = copy_range(t.as_slice(), 4, t.len());
        assert(rest@ == t@.skip(4));
        Some(trim_chars(rest.as_slice()))
    } else {
        None
    }
}

fn trim_section(ls: &Vec<Vec<char>>) -> (res: Vec<char>)
    ensures
        res@ == section_text(char_vec_views(ls@)),
{
    let nl = chars_of("\n");
    let j = join_chars(ls, nl.as_slice());
    trim_chars(j.as_slice())
}

/// Splits an issue body into sections keyed by normalized heading.
pub fn parse_sections(body: &str) -> (res: Sections)
    ensures
        res@ == sections_of(body@),
{
    let b = chars_of(body);
    let ls = lines_of(b.as_slice());
    let mut sections = Sections::new();
    let mut current_key: Option<Vec<char>> = None;
    let mut current_lines: Vec<Vec<char>> = Vec::new();
    let mut i: usize = 0;
    while i < ls.len()
        invariant
            i <= ls.len(),
            char_vec_views(ls@) == lines(body@),
            section_scan(lines(body@).take(i as int)) == (
                match current_key {
                    Some(k) => Some(k@),
                    None => None::<Seq<char>>,
                },
                char_vec_views(current_lines@),
                sections@,
            ),
        decreases ls.len() - i,
    {
        let ghost pre = lines(body@).take(i as int);
        proof {
            assert(lines(body@).take(i + 1).drop_last() == pre);
            assert(lines(body@).take(i + 1).last() == ls@[i as int]@);
        }
        let line = &ls[i];
        match heading_title(line.as_slice()) {
            Some(title) => {
                if let Some(k) = current_key {
                    let text = trim_section(&current_lines);
                    sections.insert(string_of(k.as_slice()), string_of(text.as_slice()));
                }
                let key = normalize_heading_chars(title.as_slice());
                current_key = Some(key);
                current_lines = Vec::new();
                proof {
                    assert(char_vec_views(current_lines@) =~= Seq::<Seq<char>>::empty());
                }
            },
            None => {
                if current_key.is_some() {
                    let ghost old_lines = current_lines@;
                    current_lines.push(copy_range(line.as_slice(), 0, line.len()));
                    proof {
                        assert(line@.subrange(0, line@.len() as int) == line@);
                        assert(char_vec_views(current_lines@) =~= char_vec_views(old_lines).push(
                            line@,
                        ));
                    }
                }
            },
        }
        i = i + 1;
    }
    proof {
        assert(lines(body@).take(ls.len() as int) == lines(body@));
    }
    if let Some(k) = current_key {
        let text = trim_section(&current_lines);
        sections.insert(string_of(k.as_slice()), string_of(text.as_slice()));
    }
    sections
}

// ---------------------------------------------------------------------
// Issue numbers
// ---------------------------------------------------------------------

/// Length of the run of ASCII digits at the start of `s`.
pub open spec fn digit_run(s: Seq<char>) -> int
    decreases s.len(),
{
    if s.len() == 0 || !is_digit(s[0]) {
        0
    } else {
        1 + digit_run(s.drop_first())
    }
}

/// The issue numbers written in `s`: every maximal run of ASCII digits
/// (a `'#'` before it is allowed) whose value fits in `u64`, in order.
/// A `'#'` consumes the character after it when that is not a digit.
pub open spec fn issue_numbers(s: Seq<char>) -> Seq<u64>
    decreases s.len(),
{
    if s.len() == 0 {
        Seq::empty()
    } else {
        let t = if s[0] == '#' {
            s.drop_first()
        } else {
            s
        };
        if t.len() == 0 {
            Seq::empty()
        } else if is_digit(t[0]) {
            let k = digit_run(t);
            if 0 < k <= t.len() {
                let v = digits_value(t.take(k));
                if v <= u64::MAX {
                    seq![v as u64] + issue_numbers(t.skip(k))
                } else {
                    issue_numbers(t.skip(k))
                }
            } else {
                Seq::empty()
            }
        } else {
            issue_numbers(t.drop_first())
        }
    }
}

proof fn lemma_digit_run(s: Seq<char>, k: int)
    requires
        0 <= k <= s.len(),
        forall|j: int| 0 <= j < k ==> is_digit(#[trigger] s[j]),
        k == s.len() || !is_digit(s[k]),
    ensures
        digit_run(s) == k,
    decreases k,
{
    if k > 0 {
        lemma_digit_run(s.drop_first(), k - 1);
    }
}

fn issue_numbers_chars(v: &[char]) -> (res: Vec<u64>)
    ensures
        res@ == issue_numbers(v@),
{
    let mut res: Vec<u64> = Vec::new();
    let mut index: usize = 0;
    proof {
        assert(v@.skip(0) == v@);
    }
    while index < v.len()
        invariant
            index <= v.len(),
            issue_numbers(v@) == res@ + issue_numbers(v@.skip(index as int)),
        ensures
            index == v.len(),
            issue_numbers(v@) == res@ + issue_numbers(v@.skip(index as int)),
        decreases v.len() - index,
    {
        let ghost s = v@.skip(index as int);
        if v[index] == '#' {
            index = index + 1;
            proof {
                assert(s.drop_first() == v@.skip(index as int));
            }
        }
        if index >= v.len() {
            proof {
                assert(issue_numbers(s) == Seq::<u64>::empty());
                assert(res@ + issue_numbers(s) == res@);
                assert(v@.skip(index as int).len() == 0);
                assert(res@ + issue_numbers(v@.skip(index as int)) == res@);
            }
            break ;
        }
        let ghost t = v@.skip(index as int);
        if is_ascii_digit(v[index]) {
            let start = index;
            while index < v.len() && is_ascii_digit(v[index])
                invariant
                    start <= index <= v.len(),
                    forall|k: int| start <= k < index ==> is_digit(#[trigger] v@[k]),
                decreases v.len() - index,
            {
                index = index + 1;
            }
            let run = copy_range(v, start, index);
            proof {
                assert forall|k: int| 0 <= k < index - start implies is_digit(#[trigger] t[k]) by {
                    assert(t[k] == v@[k + start]);
                }
                lemma_digit_run(t, index - start);
                assert(t.take(index - start) == run@);
                assert(t.skip(index - start) == v@.skip(index as int));
                assert(run@[0] != '+');
                assert(crate::numbers::all_digits(run@));
            }
            let parsed = parse_u64_chars(run.as_slice());
            match parsed {
                Some(n) => {
                    let ghost old_res = res@;
                    res.push(n);
                    proof {
                        assert(res@ + issue_numbers(v@.skip(index as int)) =~= old_res + (seq![n]
                            + issue_numbers(v@.skip(index as int))));
                    }
                },
                None => {},
            }
        } else {
            proof {
                assert(t.drop_first() == v@.skip(index + 1));
            }
            index = index + 1;
        }
    }
    proof {
        assert(v@.skip(index as int).len() == 0);
        assert(res@ + issue_numbers(v@.skip(index as int)) == res@);
    }
    res
}

/// Every issue number written in `text`, in order.
pub fn extract_issue_numbers(text: &str) -> (res: Vec<u64>)
    ensures
        res@ == issue_numbers(text@),
{
    let v = chars_of(text);
    issue_numbers_chars(v.as_slice())
}

// ---------------------------------------------------------------------
// Parent checklist
// ---------------------------------------------------------------------

pub open spec fn child_ref_view(r: ParentChildRef) -> (u64, bool, Seq<char>) {
    (r.number, r.checked, r.raw_line@)
}

pub open spec fn child_refs_view(v: Seq<ParentChildRef>) -> Seq<(u64, bool, Seq<char>)> {
    Seq::new(v.len(), |i: int| child_ref_view(v[i]))
}

/// One checklist line: skipped when blank; otherwise it must start with
/// `- [` and hold an issue number. `checked` when `x]`/`X]` follows `- [`.
pub open spec fn child_ref_of_line(line: Seq<char>) -> Option<
    Result<(u64, bool, Seq<char>), ParseFault>,
> {
    let t = trim(line);
    if t.len() == 0 {
        None
    } else if !starts_with(t, "- ["@) {
        Some(Err(ParseFault::InvalidChecklistLine(t)))
    } else {
        let rest = t.skip(3);
        let checked = starts_with(rest, "x]"@) || starts_with(rest, "X]"@);
        let nums = issue_numbers(t);
        if nums.len() == 0 {
            Some(Err(ParseFault::MissingChildNumber(t)))
        } else {
            Some(Ok((nums[0], checked, t)))
        }
    }
}

/// The checklist entries of the given lines, or the fault of the first
/// line that is not one.
pub open spec fn child_refs_of(ls: Seq<Seq<char>>) -> Result<
    Seq<(u64, bool, Seq<char>)>,
    ParseFault,
>
    decreases ls.len(),
{
    if ls.len() == 0 {
        Ok(Seq::empty())
    } else {
        match child_refs_of(ls.drop_last()) {
            Err(e) => Err(e),
            Ok(prev) => match child_ref_of_line(ls.last()) {
                None => Ok(prev),
                Some(Err(e)) => Err(e),
                Some(Ok(r)) => Ok(prev.push(r)),
            },
        }
    }
}

proof fn lemma_child_refs_err_prefix(ls: Seq<Seq<char>>, k: int)
    requires
        0 <= k <= ls.len(),
        child_refs_of(ls.take(k)) is Err,
    ensures
        child_refs_of(ls) == child_refs_of(ls.take(k)),
    decreases ls.len() - k,
{
    if k < ls.len() {
        assert(ls.drop_last().take(k) == ls.take(k));
        lemma_child_refs_err_prefix(ls.drop_last(), k);
    } else {
        assert(ls.take(k) == ls);
    }
}

/// Parses the ordered child checklist of a parent issue.
pub fn parse_parent_child_refs(section: &str) -> (res: Result<Vec<ParentChildRef>, IssueParseError>)
    ensures
        match res {
            Ok(v) => child_refs_of(lines(section@)) == Ok::<_, ParseFault>(child_refs_view(v@)),
            Err(e) => child_refs_of(lines(section@)) == Err::<Seq<(u64, bool, Seq<char>)>, _>(e@),
        },
{
    let sc = chars_of(section);
    let ls = lines_of(sc.as_slice());
    let mut children: Vec<ParentChildRef> = Vec::new();
    let mut i: usize = 0;
    let prefix = chars_of("- [");
    let xl = chars_of("x]");
    let xu = chars_of("X]");
    proof {
        reveal_strlit("- [");
        assert(child_refs_view(children@) =~= Seq::<(u64, bool, Seq<char>)>::empty());
    }
    while i < ls.len()
        invariant
            i <= ls.len(),
            char_vec_views(ls@) == lines(section@),
            prefix@ == "- ["@,
            prefix@.len() == 3,
            xl@ == "x]"@,
            xu@ == "X]"@,
            child_refs_of(lines(section@).take(i as int)) == Ok::<_, ParseFault>(
                child_refs_view(children@),
            ),
        decreases ls.len() - i,
    {
        proof {
            assert(lines(section@).take(i + 1).drop_last() == lines(section@).take(i as int));
            assert(lines(section@).take(i + 1).last() == ls@[i as int]@);
        }
        let t = trim_chars(ls[i].as_slice());
        if t.len() == 0 {
            i = i + 1;
            continue ;
        }
        if !has_prefix(t.as_slice(), prefix.as_slice()) {
            let e = IssueParseError::InvalidChecklistLine(string_of(t.as_slice()));
            proof {
                lemma_child_refs_err_prefix(lines(section@), i + 1);
            }
            return Err(e);
        }
        let rest = copy_range(t.as_slice(), 3, t.len());
        assert(rest@ == t@.skip(3));
        let checked = has_prefix(rest.as_slice(), xl.as_slice()) || has_prefix(
            rest.as_slice(),
            xu.as_slice(),
        );
        let nums = issue_numbers_chars(t.as_slice());
        if nums.len() == 0 {
            let e = IssueParseError::MissingChildNumber(string_of(t.as_slice()));
            proof {
                lemma_child_refs_err_prefix(lines(section@), i + 1);
            }
            return Err(e);
        }
        let ghost old_children = children@;
        children.push(
            ParentChildRef { number: nums[0], checked, raw_line: string_of(t.as_slice()) },
        );
        proof {
            assert(child_refs_view(children@) =~= child_refs_view(old_children).push(
                child_ref_view(children@.last()),
            ));
        }
        i = i + 1;
    }
    proof {
        assert(lines(section@).take(ls.len() as int) == lines(section@));
    }
    Ok(children)
}

// ---------------------------------------------------------------------
// Source of truth
// ---------------------------------------------------------------------

/// The mathematical content of a [`SourceRefKind`].
pub ghost enum SourceKindView {
    RepoRelative(Seq<char>),
    Absolute(Seq<char>),
    Url(Seq<char>),
}

impl View for SourceRefKind {
    type V = SourceKindView;

    open spec fn view(&self) -> SourceKindView {
        match self {
            SourceRefKind::RepoRelative { path } => SourceKindView::RepoRelative(path@),
            SourceRefKind::Absolute { path } => SourceKindView::Absolute(path@),
            SourceRefKind::Url { url } => SourceKindView::Url(url@),
        }
    }
}

impl View for SourceRef {
    type V = (Seq<char>, SourceKindView);

    open spec fn view(&self) -> (Seq<char>, SourceKindView) {
        (self.raw@, self.kind@)
    }
}

pub open spec fn source_refs_view(v: Seq<SourceRef>) -> Seq<(Seq<char>, SourceKindView)> {
    Seq::new(v.len(), |i: int| v[i]@)
}

/// Removes a leading `- ` or `* ` list marker (then trims).
pub open spec fn without_list_marker(t: Seq<char>) -> Seq<char> {
    if starts_with(t, "- "@) || starts_with(t, "* "@) {
        trim(t.skip(2))
    } else {
        t
    }
}

/// One source-of-truth line: `http://`/`https://` references are URLs,
/// references starting with `/` are absolute paths, other references
/// holding `://` are refused, and the rest are repository-relative paths.
pub open spec fn source_ref_of_line(line: Seq<char>) -> Option<
    Result<(Seq<char>, SourceKindView), ParseFault>,
> {
    let t = without_list_marker(trim(line));
    if t.len() == 0 {
        None
    } else if starts_with(t, "http://"@) || starts_with(t, "https://"@) {
        Some(Ok((t, SourceKindView::Url(t))))
    } else if starts_with(t, "/"@) {
        Some(Ok((t, SourceKindView::Absolute(t))))
    } else if crate::text::contains_seq(t, "://"@) {
        Some(Err(ParseFault::UnsupportedSourceUrl(t)))
    } else {
        Some(Ok((t, SourceKindView::RepoRelative(t))))
    }
}

pub open spec fn source_refs_of(ls: Seq<Seq<char>>) -> Result<
    Seq<(Seq<char>, SourceKindView)>,
    ParseFault,
>
    decreases ls.len(),
{
    if ls.len() == 0 {
        Ok(Seq::empty())
    } else {
        match source_refs_of(ls.drop_last()) {
            Err(e) => Err(e),
            Ok(prev) => match source_ref_of_line(ls.last()) {
                None => Ok(prev),
                Some(Err(e)) => Err(e),
                Some(Ok(r)) => Ok(prev.push(r)),
            },
        }
    }
}

proof fn lemma_source_refs_err_prefix(ls: Seq<Seq<char>>, k: int)
    requires
        0 <= k <= ls.len(),
        source_refs_of(ls.take(k)) is Err,
    ensures
        source_refs_of(ls) == source_refs_of(ls.take(k)),
    decreases ls.len() - k,
{
    if k < ls.len() {
        assert(ls.drop_last().take(k) == ls.take(k));
        lemma_source_refs_err_prefix(ls.drop_last(), k);
    } else {
        assert(ls.take(k) == ls);
    }
}

fn strip_list_prefix(t: &[char]) -> (res: Vec<char>)
    ensures
        res@ == without_list_marker(t@),
{
    let dash = chars_of("- ");
    let star = chars_of("* ");
    proof {
        reveal_strlit("- ");
        reveal_strlit("* ");
    }
    if has_prefix(t, dash.as_slice()) || has_prefix(t, star.as_slice()) {
        let rest = copy_range(t, 2, t.len());
        assert(rest@ == t@.skip(2));
        trim_chars(rest.as_slice())
    } else {
        copy_range(t, 0, t.len())
    }
}

/// Parses the source-of-truth references of a child issue.
pub fn parse_source_refs(section: &str) -> (res: Result<Vec<SourceRef>, IssueParseError>)
    ensures
        match res {
            Ok(v) => source_refs_of(lines(section@)) == Ok::<_, ParseFault>(source_refs_view(v@)),
            Err(e) => source_refs_of(lines(section@)) == Err::<Seq<(Seq<char>, SourceKindView)>, _>(
                e@,
            ),
        },
{
    let sc = chars_of(section);
    let ls = lines_of(sc.as_slice());
    let mut refs: Vec<SourceRef> = Vec::new();
    let http = chars_of("http://");
    let https = chars_of("https://");
    let slash = chars_of("/");
    let sep = chars_of("://");
    let mut i: usize = 0;
    proof {
        assert(source_refs_view(refs@) =~= Seq::<(Seq<char>, SourceKindView)>::empty());
    }
    while i < ls.len()
        invariant
            i <= ls.len(),
            char_vec_views(ls@) == lines(section@),
            http@ == "http://"@,
            https@ == "https://"@,
            slash@ == "/"@,
            sep@ == "://"@,
            source_refs_of(lines(section@).take(i as int)) == Ok::<_, ParseFault>(
                source_refs_view(refs@),
            ),
        decreases ls.len() - i,
    {
        proof {
            assert(lines(section@).take(i + 1).drop_last() == lines(section@).take(i as int));
            assert(lines(section@).take(i + 1).last() == ls@[i as int]@);
        }
        let tt = trim_chars(ls[i].as_slice());
        let t = strip_list_prefix(tt.as_slice());
        if t.len() == 0 {
            i = i + 1;
            continue ;
        }
        let raw = string_of(t.as_slice());
        let kind = if has_prefix(t.as_slice(), http.as_slice()) || has_prefix(
            t.as_slice(),
            https.as_slice(),
        ) {
            SourceRefKind::Url { url: string_of(t.as_slice()) }
        } else if has_prefix(t.as_slice(), slash.as_slice()) {
            SourceRefKind::Absolute { path: string_of(t.as_slice()) }
        } else if crate::text::contains_chars(t.as_slice(), sep.as_slice()) {
            let e = IssueParseError::UnsupportedSourceUrl(string_of(t.as_slice()));
            proof {
                lemma_source_refs_err_prefix(lines(section@), i + 1);
            }
            return Err(e);
        } else {
            SourceRefKind::RepoRelative { path: string_of(t.as_slice()) }
        };
        let ghost old_refs = refs@;
        refs.push(SourceRef { raw, kind });
        proof {
            assert(source_refs_view(refs@) =~= source_refs_view(old_refs).push(refs@.last()@));
        }
        i = i + 1;
    }
    proof {
        assert(lines(section@).take(ls.len() as int) == lines(section@));
    }
    Ok(refs)
}

// ---------------------------------------------------------------------
// Verification commands
// ---------------------------------------------------------------------

pub open spec fn verification_view(v: Seq<VerificationCommand>) -> Seq<(Seq<char>, VerificationSource)> {
    Seq::new(v.len(), |i: int| (v[i].command@, v[i].source))
}

/// `s` starts with three backticks.
pub open spec fn is_fence(s: Seq<char>) -> bool {
    s.len() >= 3 && s[0] == '`' && s[1] == '`' && s[2] == '`'
}

/// `s` with every leading three-backtick group removed.
pub open spec fn strip_fences(s: Seq<char>) -> Seq<char>
    decreases s.len(),
{
    if is_fence(s) {
        strip_fences(s.skip(3))
    } else {
        s
    }
}

pub open spec fn is_shell_lang(l: Seq<char>) -> bool {
    l == "sh"@ || l == "bash"@ || l == "shell"@
}

/// Scan state: inside a shell fence, and the commands found so far.
pub type VerificationScan = (bool, Seq<(Seq<char>, VerificationSource)>);

/// A fence line opens a shell block when none is open and its language is
/// `sh`, `bash` or `shell`, and otherwise closes any open block. Inside a
/// shell block every non-blank line not starting with `#` is a command;
/// outside, a `cmd:` line with a non-blank rest is one.
pub open spec fn verification_step(st: VerificationScan, line: Seq<char>) -> VerificationScan {
    let t = trim(line);
    if is_fence(t) {
        let lang = lower(trim(strip_fences(t)));
        (!st.0 && is_shell_lang(lang), st.1)
    } else if st.0 {
        if t.len() > 0 && t[0] != '#' {
            (true, st.1.push((t, VerificationSource::FencedShell)))
        } else {
            st
        }
    } else if starts_with(t, "cmd:"@) {
        let c = trim(t.skip(4));
        if c.len() > 0 {
            (false, st.1.push((c, VerificationSource::CmdLine)))
        } else {
            st
        }
    } else {
        st
    }
}

pub open spec fn verification_scan(ls: Seq<Seq<char>>) -> VerificationScan
    decreases ls.len(),
{
    if ls.len() == 0 {
        (false, Seq::empty())
    } else {
        verification_step(verification_scan(ls.drop_last()), ls.last())
    }
}

pub open spec fn verification_commands_of(section: Seq<char>) -> Seq<
    (Seq<char>, VerificationSource),
> {
    verification_scan(lines(section)).1
}

/// A fence line that opens a shell block: three backticks, then `sh`,
/// `bash` or `shell` in any ASCII case.
pub open spec fn shell_fence_line(line: Seq<char>) -> bool {
    exists|w: Seq<char>|
        trim(line) == "```"@ + w && (lower(w) == "sh"@ || lower(w) == "bash"@ || lower(w)
            == "shell"@)
}

proof fn lemma_shell_fence_opens(line: Seq<char>, st: VerificationScan)
    requires
        shell_fence_line(line),
        !st.0,
    ensures
        verification_step(st, line) == (true, st.1),
{
    reveal_strlit("```");
    reveal_strlit("sh");
    reveal_strlit("bash");
    reveal_strlit("shell");
    let w = choose|w: Seq<char>|
        trim(line) == "```"@ + w && (lower(w) == "sh"@ || lower(w) == "bash"@ || lower(w)
            == "shell"@);
    let t = trim(line);
    assert(lower(w).len() == w.len());
    assert("sh"@.len() == 2 && "bash"@.len() == 4 && "shell"@.len() == 5);
    assert(w.len() >= 2);
    assert(is_fence(t));
    assert(t.skip(3) =~= w);
    assert(lower(w)[0] == crate::text::lower_char(w[0]));
    assert(lower(w)[w.len() - 1] == crate::text::lower_char(w[w.len() - 1]));
    assert(!is_fence(w));
    assert(strip_fences(w) == w);
    assert(strip_fences(t) == strip_fences(t.skip(3)));
    assert(strip_fences(t) == w);
    crate::text::lemma_trim_unpadded(w);
}

/// A shell fence (`sh`, `bash` or `shell`, any case) opens a block: a
/// section made of such a fence, one command line that is not blank and
/// not a `#` comment, and a closing fence yields exactly that command,
/// trimmed, as a fenced shell command.
pub proof fn lemma_shell_fence_yields_command(
    section: Seq<char>,
    open: Seq<char>,
    command: Seq<char>,
    close: Seq<char>,
)
    requires
        lines(section) == seq![open, command, close],
        shell_fence_line(open),
        trim(command).len() > 0,
        trim(command)[0] != '#',
        !is_fence(trim(command)),
        is_fence(trim(close)),
    ensures
        verification_commands_of(section) == seq![
            (trim(command), VerificationSource::FencedShell),
        ],
{
    let ls = seq![open, command, close];
    let l1 = seq![open];
    let l2 = seq![open, command];
    let none: VerificationScan = (false, Seq::empty());
    let found = seq![(trim(command), VerificationSource::FencedShell)];
    assert(l1.drop_last() =~= Seq::<Seq<char>>::empty());
    assert(verification_scan(l1.drop_last()) == none);
    lemma_shell_fence_opens(open, none);
    assert(verification_scan(l1) == verification_step(none, open));
    assert(verification_scan(l1) == (true, Seq::<(Seq<char>, VerificationSource)>::empty()));
    assert(l2.drop_last() =~= l1);
    assert(Seq::<(Seq<char>, VerificationSource)>::empty().push(
        (trim(command), VerificationSource::FencedShell),
    ) =~= found);
    assert(verification_scan(l2) == verification_step(verification_scan(l1), command));
    assert(verification_scan(l2) == (true, found));
    assert(ls.drop_last() =~= l2);
    assert(verification_scan(ls) == verification_step(verification_scan(l2), close));
    assert(verification_scan(ls).1 == found);
}

fn strip_fences_chars(s: &[char]) -> (res: Vec<char>)
    ensures
        res@ == strip_fences(s@),
{
    let mut i: usize = 0;
    proof {
        assert(s@.skip(0) == s@);
    }
    while i < s.len() && s.len() - i >= 3 && s[i] == '`' && s[i + 1] == '`' && s[i + 2] == '`'
        invariant
            i <= s.len(),
            strip_fences(s@) == strip_fences(s@.skip(i as int)),
        decreases s.len() - i,
    {
        proof {
            assert(s@.skip(i as int).skip(3) == s@.skip(i + 3));
        }
        i = i + 3;
    }
    copy_range(s, i, s.len())
}

/// Collects the verification commands declared in a section.
pub fn parse_verification_commands(section: &str) -> (res: Vec<VerificationCommand>)
    ensures
        verification_view(res@) == verification_commands_of(section@),
{
    let sc = chars_of(section);
    let ls = lines_of(sc.as_slice());
    let mut commands: Vec<VerificationCommand> = Vec::new();
    let mut in_shell_block = false;
    let cmd = chars_of("cmd:");
    proof {
        reveal_strlit("cmd:");
        assert(verification_view(commands@) =~= Seq::<(Seq<char>, VerificationSource)>::empty());
    }
    let mut i: usize = 0;
    while i < ls.len()
        invariant
            i <= ls.len(),
            char_vec_views(ls@) == lines(section@),
            cmd@ == "cmd:"@,
            cmd@.len() == 4,
            verification_scan(lines(section@).take(i as int)) == (
                in_shell_block,
                verification_view(commands@),
            ),
        decreases ls.len() - i,
    {
        proof {
            assert(lines(section@).take(i + 1).drop_last() == lines(section@).take(i as int));
            assert(lines(section@).take(i + 1).last() == ls@[i as int]@);
        }
        let t = trim_chars(ls[i].as_slice());
        let ghost old_commands = commands@;
        if t.len() >= 3 && t[0] == '`' && t[1] == '`' && t[2] == '`' {
            let f = strip_fences_chars(t.as_slice());
            let ft = trim_chars(f.as_slice());
            let lang = to_lower(ft.as_slice());
            let shell = eq_lit(lang.as_slice(), "sh") || eq_lit(lang.as_slice(), "bash") || eq_lit(
                lang.as_slice(),
                "shell",
            );
            in_shell_block = !in_shell_block && shell;
        } else if in_shell_block {
            if t.len() > 0 && t[0] != '#' {
                commands.push(
                    VerificationCommand {
                        command: string_of(t.as_slice()),
                        source: VerificationSource::FencedShell,
                    },
                );
                proof {
                    assert(verification_view(commands@) =~= verification_view(old_commands).push(
                        (t@, VerificationSource::FencedShell),
                    ));
                }
            }
        } else if has_prefix(t.as_slice(), cmd.as_slice()) {
            let rest = copy_range(t.as_slice(), 4, t.len());
            assert(rest@ == t@.skip(4));
            let c = trim_chars(rest.as_slice());
            if c.len() > 0 {
                commands.push(
                    VerificationCommand {
                        command: string_of(c.as_slice()),
                        source: VerificationSource::CmdLine,
                    },
                );
                proof {
                    assert(verification_view(commands@) =~= verification_view(old_commands).push(
                        (c@, VerificationSource::CmdLine),
                    ));
                }
            }
        }
        i = i + 1;
    }
    proof {
        assert(lines(section@).take(ls.len() as int) == lines(section@));
    }
    commands
}

// ---------------------------------------------------------------------
// Dependencies
// ---------------------------------------------------------------------

/// Characters a dependency list may hold.
pub open spec fn dep_char_allowed(c: char) -> bool {
    is_digit(c) || c == '#' || c == ',' || c == '\n' || c == '\r' || c == '\t' || c == ' '
}

/// Separators between dependency tokens.
pub open spec fn dep_sep(c: char) -> bool {
    c == ',' || is_ws(c)
}

pub open spec fn token_len(s: Seq<char>) -> int
    decreases s.len(),
{
    if s.len() == 0 || dep_sep(s[0]) {
        0
    } else {
        1 + token_len(s.drop_first())
    }
}

/// The non-empty pieces of `s` between separators.
pub open spec fn dep_tokens(s: Seq<char>) -> Seq<Seq<char>>
    decreases s.len(),
{
    if s.len() == 0 {
        Seq::empty()
    } else if dep_sep(s[0]) {
        dep_tokens(s.drop_first())
    } else {
        let k = token_len(s);
        if 0 < k <= s.len() {
            seq![s.take(k)] + dep_tokens(s.skip(k))
        } else {
            Seq::empty()
        }
    }
}

/// `s` without leading `'#'` characters.
pub open spec fn strip_hashes(s: Seq<char>) -> Seq<char>
    decreases s.len(),
{
    if s.len() > 0 && s[0] == '#' {
        strip_hashes(s.drop_first())
    } else {
        s
    }
}

/// The numbers of the tokens, or the first token that is not one.
pub open spec fn dep_numbers(toks: Seq<Seq<char>>) -> Result<Seq<u64>, ParseFault>
    decreases toks.len(),
{
    if toks.len() == 0 {
        Ok(Seq::empty())
    } else {
        match dep_numbers(toks.drop_last()) {
            Err(e) => Err(e),
            Ok(prev) => {
                let t = strip_hashes(toks.last());
                match parse_unsigned(t, u64::MAX as nat) {
                    Some(v) => Ok(prev.push(v as u64)),
                    None => Err(ParseFault::InvalidDependencyNumber(t)),
                }
            },
        }
    }
}

/// A blank section or `none` (any ASCII case) means no dependencies; any
/// character other than digits, `#`, `,` and blanks refuses the whole
/// section; otherwise every token (leading `#`s dropped) is a `u64`.
pub open spec fn dependencies_of(section: Seq<char>) -> Result<Seq<u64>, ParseFault> {
    let t = trim(section);
    if t.len() == 0 || eq_ignore_case(t, "none"@) {
        Ok(Seq::empty())
    } else if exists|i: int| 0 <= i < t.len() && !dep_char_allowed(#[trigger] t[i]) {
        Err(ParseFault::InvalidDependencyToken(t))
    } else {
        dep_numbers(dep_tokens(t))
    }
}

/// A blank Dependencies section, or one that says `none` in any ASCII
/// case with any surrounding whitespace, lists no dependencies.
pub proof fn lemma_none_means_no_dependencies(section: Seq<char>)
    requires
        trim(section).len() == 0 || lower(trim(section)) == "none"@,
    ensures
        dependencies_of(section) == Ok::<Seq<u64>, ParseFault>(Seq::empty()),
{
    reveal_strlit("none");
    assert(lower("none"@) =~= "none"@);
}

proof fn lemma_token_len(s: Seq<char>, k: int)
    requires
        0 <= k <= s.len(),
        forall|j: int| 0 <= j < k ==> !dep_sep(#[trigger] s[j]),
        k == s.len() || dep_sep(s[k]),
    ensures
        token_len(s) == k,
    decreases k,
{
    if k > 0 {
        lemma_token_len(s.drop_first(), k - 1);
    }
}

fn dep_tokens_chars(s: &[char]) -> (res: Vec<Vec<char>>)
    ensures
        char_vec_views(res@) == dep_tokens(s@),
{
    let mut res: Vec<Vec<char>> = Vec::new();
    let mut i: usize = 0;
    proof {
        assert(s@.skip(0) =~= s@);
        assert(char_vec_views(res@) + dep_tokens(s@) =~= dep_tokens(s@));
    }
    while i < s.len()
        invariant
            i <= s.len(),
            dep_tokens(s@) == char_vec_views(res@) + dep_tokens(s@.skip(i as int)),
        decreases s.len() - i,
    {
        if s[i] == ',' || is_whitespace(s[i]) {
            proof {
                assert(s@.skip(i as int).drop_first() == s@.skip(i + 1));
            }
            i = i + 1;
        } else {
            let mut j = i;
            while j < s.len() && !(s[j] == ',' || is_whitespace(s[j]))
                invariant
                    i <= j <= s.len(),
                    forall|k: int| i <= k < j ==> !dep_sep(#[trigger] s@[k]),
                decreases s.len() - j,
            {
                j = j + 1;
            }
            let w = copy_range(s, i, j);
            proof {
                let t = s@.skip(i as int);
                assert forall|k: int| 0 <= k < j - i implies !dep_sep(#[trigger] t[k]) by {
                    assert(t[k] == s@[k + i]);
                }
                lemma_token_len(t, j - i);
                assert(t.take(j - i) == w@);
                assert(t.skip(j - i) == s@.skip(j as int));
            }
            let ghost old_res = res@;
            res.push(w);
            proof {
                assert(char_vec_views(res@) == char_vec_views(old_res).push(w@));
                assert(char_vec_views(res@) + dep_tokens(s@.skip(j as int)) =~= char_vec_views(
                    old_res,
                ) + (seq![w@] + dep_tokens(s@.skip(j as int))));
            }
            i = j;
        }
    }
    proof {
        assert(s@.skip(i as int).len() == 0);
        assert(char_vec_views(res@) + dep_tokens(s@.skip(i as int)) =~= char_vec_views(res@));
    }
    res
}

fn strip_hashes_chars(s: &[char]) -> (res: Vec<char>)
    ensures
        res@ == strip_hashes(s@),
{
    let mut i: usize = 0;
    proof {
        assert(s@.skip(0) == s@);
    }
    while i < s.len() && s[i] == '#'
        invariant
            i <= s.len(),
            strip_hashes(s@) == strip_hashes(s@.skip(i as int)),
        decreases s.len() - i,
    {
        proof {
            assert(s@.skip(i as int).drop_first() == s@.skip(i + 1));
        }
        i = i + 1;
    }
    copy_range(s, i, s.len())
}

proof fn lemma_dep_numbers_err_prefix(ts: Seq<Seq<char>>, k: int)
    requires
        0 <= k <= ts.len(),
        dep_numbers(ts.take(k)) is Err,
    ensures
        dep_numbers(ts) == dep_numbers(ts.take(k)),
    decreases ts.len() - k,
{
    if k < ts.len() {
        assert(ts.drop_last().take(k) == ts.take(k));
        lemma_dep_numbers_err_prefix(ts.drop_last(), k);
    } else {
        assert(ts.take(k) == ts);
    }
}

/// Parses the dependency issue numbers of a child issue.
pub fn parse_dependencies(section: &str) -> (res: Result<Vec<u64>, IssueParseError>)
    ensures
        match res {
            Ok(v) => dependencies_of(section@) == Ok::<_, ParseFault>(v@),
            Err(e) => dependencies_of(section@) == Err::<Seq<u64>, _>(e@),
        },
{
    let sc = chars_of(section);
    let t = trim_chars(sc.as_slice());
    let lt = to_lower(t.as_slice());
    proof {
        assert(eq_ignore_case(t@, "none"@) == (lower(t@) == lower("none"@)));
        reveal_strlit("none");
        assert(lower("none"@) =~= "none"@);
    }
    if t.len() == 0 || eq_lit(lt.as_slice(), "none") {
        return Ok(Vec::new());
    }
    let mut k: usize = 0;
    while k < t.len()
        invariant
            k <= t.len(),
            t@ == trim(section@),
            t@.len() > 0,
            !eq_ignore_case(t@, "none"@),
            forall|j: int| 0 <= j < k ==> dep_char_allowed(#[trigger] t@[j]),
        decreases t.len() - k,
    {
        let c = t[k];
        if !(is_ascii_digit(c) || c == '#' || c == ',' || c == '\n' || c == '\r' || c == '\t' || c
            == ' ') {
            assert(!dep_char_allowed(t@[k as int]));
            return Err(IssueParseError::InvalidDependencyToken(string_of(t.as_slice())));
        }
        k = k + 1;
    }
    let toks = dep_tokens_chars(t.as_slice());
    let mut numbers: Vec<u64> = Vec::new();
    let mut i: usize = 0;
    proof {
        assert(char_vec_views(toks@).take(0) =~= Seq::<Seq<char>>::empty());
    }
    while i < toks.len()
        invariant
            i <= toks.len(),
            char_vec_views(toks@) == dep_tokens(t@),
            t@ == trim(section@),
            t@.len() > 0,
            !eq_ignore_case(t@, "none"@),
            forall|j: int| 0 <= j < t@.len() ==> dep_char_allowed(#[trigger] t@[j]),
            dependencies_of(section@) == dep_numbers(dep_tokens(t@)),
            dep_numbers(char_vec_views(toks@).take(i as int)) == Ok::<_, ParseFault>(numbers@),
        decreases toks.len() - i,
    {
        let ghost ts = char_vec_views(toks@);
        proof {
            assert(ts.take(i + 1).drop_last() == ts.take(i as int));
            assert(ts.take(i + 1).last() == toks@[i as int]@);
        }
        let tok = strip_hashes_chars(toks[i].as_slice());
        match parse_u64_chars(tok.as_slice()) {
            Some(n) => {
                numbers.push(n);
            },
            None => {
                let e = IssueParseError::InvalidDependencyNumber(string_of(tok.as_slice()));
                proof {
                    lemma_dep_numbers_err_prefix(ts, i + 1);
                }
                return Err(e);
            },
        }
        i = i + 1;
    }
    proof {
        assert(char_vec_views(toks@).take(toks.len() as int) == char_vec_views(toks@));
    }
    Ok(numbers)
}

// ---------------------------------------------------------------------
// Child and parent issues
// ---------------------------------------------------------------------

/// The value of `key` when present and not blank.
pub open spec fn required_value(m: Map<Seq<char>, Seq<char>>, key: Seq<char>) -> Option<Seq<char>> {
    if m.contains_key(key) && trim(m[key]).len() > 0 {
        Some(m[key])
    } else {
        None
    }
}

pub open spec fn opt_string_view(o: Option<String>) -> Option<Seq<char>> {
    match o {
        Some(s) => Some(s@),
        None => None,
    }
}

pub open spec fn fault_of<T>(r: Result<T, ParseFault>) -> Option<ParseFault> {
    match r {
        Ok(_) => None,
        Err(e) => Some(e),
    }
}

/// The first fault met while building a child issue from its sections, in
/// the order the fields are read.
pub open spec fn child_issue_fault(m: Map<Seq<char>, Seq<char>>) -> Option<ParseFault> {
    if required_value(m, "background"@) is None {
        Some(ParseFault::MissingSection("background"@))
    } else if required_value(m, "goal"@) is None {
        Some(ParseFault::MissingSection("goal"@))
    } else if required_value(m, "scope"@) is None {
        Some(ParseFault::MissingSection("scope"@))
    } else if required_value(m, "out of scope"@) is None {
        Some(ParseFault::MissingSection("out of scope"@))
    } else if required_value(m, "source of truth"@) is None {
        Some(ParseFault::MissingSection("source of truth"@))
    } else if required_value(m, "acceptance criteria"@) is None {
        Some(ParseFault::MissingSection("acceptance criteria"@))
    } else if required_value(m, "verification"@) is None {
        Some(ParseFault::MissingSection("verification"@))
    } else if required_value(m, "dependencies"@) is None {
        Some(ParseFault::MissingSection("dependencies"@))
    } else if fault_of(source_refs_of(lines(m["source of truth"@]))) is Some {
        fault_of(source_refs_of(lines(m["source of truth"@])))
    } else if fault_of(dependencies_of(m["dependencies"@])) is Some {
        fault_of(dependencies_of(m["dependencies"@]))
    } else if required_value(m, "target change size"@) is None {
        Some(ParseFault::MissingSection("target change size"@))
    } else if size_band_of(m["target change size"@]) is None {
        Some(ParseFault::InvalidTargetChangeSize)
    } else if required_value(m, "documentation impact"@) is None {
        Some(ParseFault::MissingSection("documentation impact"@))
    } else if docs_impact_of(m["documentation impact"@]) is None {
        Some(ParseFault::InvalidDocumentationImpact)
    } else if required_value(m, "suggested model profile"@) is None {
        Some(ParseFault::MissingSection("suggested model profile"@))
    } else if required_value(m, "estimated execution time"@) is None {
        Some(ParseFault::MissingSection("estimated execution time"@))
    } else if parse_unsigned(m["estimated execution time"@], u32::MAX as nat) is None {
        Some(ParseFault::InvalidEstimatedMinutes(m["estimated execution time"@]))
    } else if required_value(m, "estimation basis"@) is None {
        Some(ParseFault::MissingSection("estimation basis"@))
    } else if estimation_basis_of(m["estimation basis"@]) is None {
        Some(ParseFault::InvalidEstimationBasis)
    } else if required_value(m, "estimation confidence"@) is None {
        Some(ParseFault::MissingSection("estimation confidence"@))
    } else if confidence_of(m["estimation confidence"@]) is None {
        Some(ParseFault::InvalidEstimationConfidence)
    } else {
        None
    }
}

/// The child issue's fields are the snapshot's and the parsed sections'.
pub open spec fn child_issue_built(
    c: ChildIssue,
    snap: IssueSnapshot,
    m: Map<Seq<char>, Seq<char>>,
) -> bool {
    &&& c.number == snap.number
    &&& c.title@ == snap.title@
    &&& c.body@ == snap.body@
    &&& c.state == snap.state
    &&& c.labels@ == snap.labels@
    &&& c.url == snap.url
    &&& c.sections@ == m
    &&& c.background@ == m["background"@]
    &&& c.goal@ == m["goal"@]
    &&& c.scope@ == m["scope"@]
    &&& c.out_of_scope@ == m["out of scope"@]
    &&& c.source_of_truth_raw@ == m["source of truth"@]
    &&& c.acceptance_criteria@ == m["acceptance criteria"@]
    &&& c.verification_raw@ == m["verification"@]
    &&& c.dependencies_raw@ == m["dependencies"@]
    &&& opt_string_view(c.implementation_constraints) == required_value(
        m,
        "implementation constraints"@,
    )
    &&& source_refs_of(lines(m["source of truth"@])) == Ok::<_, ParseFault>(
        source_refs_view(c.source_of_truth@),
    )
    &&& verification_view(c.verification@) == verification_commands_of(m["verification"@])
    &&& dependencies_of(m["dependencies"@]) == Ok::<_, ParseFault>(c.dependencies@)
    &&& size_band_of(m["target change size"@]) == Some(c.target_size)
    &&& docs_impact_of(m["documentation impact"@]) == Some(c.docs_impact)
    &&& c.suggested_model_profile@ == m["suggested model profile"@]
    &&& opt_string_view(c.suggested_model_override) == required_value(
        m,
        "suggested model override"@,
    )
    &&& parse_unsigned(m["estimated execution time"@], u32::MAX as nat) == Some(
        c.estimated_minutes as nat,
    )
    &&& estimation_basis_of(m["estimation basis"@]) == Some(c.estimation_basis)
    &&& confidence_of(m["estimation confidence"@]) == Some(c.estimation_confidence)
}

fn is_blank(s: &String) -> (r: bool)
    ensures
        r == (trim(s@).len() == 0),
{
    let v = chars_of(s.as_str());
    let t = trim_chars(v.as_slice());
    t.len() == 0
}

fn section_required(sections: &Sections, key: &str) -> (res: Result<String, IssueParseError>)
    ensures
        match res {
            Ok(v) => required_value(sections@, key@) == Some(v@),
            Err(e) => required_value(sections@, key@) is None && e@ == ParseFault::MissingSection(
                key@,
            ),
        },
{
    match sections.get(key) {
        Some(v) => {
            if is_blank(v) {
                Err(IssueParseError::MissingSection(key.to_owned()))
            } else {
                Ok(v.clone())
            }
        },
        None => Err(IssueParseError::MissingSection(key.to_owned())),
    }
}

fn section_optional(sections: &Sections, key: &str) -> (res: Option<String>)
    ensures
        opt_string_view(res) == required_value(sections@, key@),
{
    match sections.get(key) {
        Some(v) => {
            if is_blank(v) {
                None
            } else {
                Some(v.clone())
            }
        },
        None => None,
    }
}

/// Builds a child issue from its snapshot and parsed sections.
#[verifier::rlimit(60)]
pub fn build_child_issue(snapshot: &IssueSnapshot, sections: Sections) -> (res: Result<
    ChildIssue,
    IssueParseError,
>)
    ensures
        match res {
            Ok(c) => child_issue_fault(sections@) is None && child_issue_built(
                c,
                *snapshot,
                sections@,
            ),
            Err(e) => child_issue_fault(sections@) == Some(e@),
        },
{
    proof {
        reveal_strlit("background");
        reveal_strlit("goal");
        reveal_strlit("scope");
        reveal_strlit("out of scope");
        reveal_strlit("source of truth");
        reveal_strlit("acceptance criteria");
        reveal_strlit("verification");
        reveal_strlit("dependencies");
        reveal_strlit("target change size");
        reveal_strlit("documentation impact");
        reveal_strlit("suggested model profile");
        reveal_strlit("estimated execution time");
        reveal_strlit("estimation basis");
        reveal_strlit("estimation confidence");
        reveal_strlit("implementation constraints");
        reveal_strlit("suggested model override");
    }
    let background = section_required(&sections, "background")?;
    let goal = section_required(&sections, "goal")?;
    let scope = section_required(&sections, "scope")?;
    let out_of_scope = section_required(&sections, "out of scope")?;
    let source_of_truth_raw = section_required(&sections, "source of truth")?;
    let acceptance_criteria = section_required(&sections, "acceptance criteria")?;
    let verification_raw = section_required(&sections, "verification")?;
    let dependencies_raw = section_required(&sections, "dependencies")?;
    let implementation_constraints = section_optional(&sections, "implementation constraints");
    let source_of_truth = parse_source_refs(source_of_truth_raw.as_str())?;
    let verification = parse_verification_commands(verification_raw.as_str());
    let dependencies = parse_dependencies(dependencies_raw.as_str())?;
    let size_text = section_required(&sections, "target change size")?;
    let target_size = match SizeBand::from_text(size_text.as_str()) {
        Some(b) => b,
        None => {
            return Err(IssueParseError::InvalidTargetChangeSize);
        },
    };
    let docs_text = section_required(&sections, "documentation impact")?;
    let docs_impact = match DocsImpact::from_text(docs_text.as_str()) {
        Some(d) => d,
        None => {
            return Err(IssueParseError::InvalidDocumentationImpact);
        },
    };
    let suggested_model_profile = section_required(&sections, "suggested model profile")?;
    let suggested_model_override = section_optional(&sections, "suggested model override");
    let minutes_text = section_required(&sections, "estimated execution time")?;
    let mc = chars_of(minutes_text.as_str());
    let estimated_minutes = match parse_u32_chars(mc.as_slice()) {
        Some(m) => m,
        None => {
            return Err(IssueParseError::InvalidEstimatedMinutes(minutes_text));
        },
    };
    let basis_text = section_required(&sections, "estimation basis")?;
    let estimation_basis = match EstimationBasis::from_text(basis_text.as_str()) {
        Some(b) => b,
        None => {
            return Err(IssueParseError::InvalidEstimationBasis);
        },
    };
    let confidence_text = section_required(&sections, "estimation confidence")?;
    let estimation_confidence = match Confidence::from_text(confidence_text.as_str()) {
        Some(c) => c,
        None => {
            return Err(IssueParseError::InvalidEstimationConfidence);
        },
    };
    Ok(
        ChildIssue {
            number: snapshot.number,
            title: snapshot.title.clone(),
            body: snapshot.body.clone(),
            state: snapshot.state,
            labels: clone_strings(&snapshot.labels),
            url: clone_opt_string(&snapshot.url),
            sections,
            background,
            goal,
            scope,
            out_of_scope,
            source_of_truth_raw,
            source_of_truth,
            implementation_constraints,
            acceptance_criteria,
            verification_raw,
            verification,
            dependencies_raw,
            dependencies,
            target_size,
            docs_impact,
            suggested_model_profile,
            suggested_model_override,
            estimated_minutes,
            estimation_basis,
            estimation_confidence,
        },
    )
}

/// Parses a child issue snapshot: its body's sections, then the fields.
pub fn parse_child_issue(snapshot: &IssueSnapshot) -> (res: Result<ChildIssue, IssueParseError>)
    ensures
        match res {
            Ok(c) => child_issue_fault(sections_of(snapshot.body@)) is None && child_issue_built(
                c,
                *snapshot,
                sections_of(snapshot.body@),
            ),
            Err(e) => child_issue_fault(sections_of(snapshot.body@)) == Some(e@),
        },
{
    let sections = parse_sections(snapshot.body.as_str());
    build_child_issue(snapshot, sections)
}

/// The first fault met while reading a parent issue body.
pub open spec fn parent_issue_fault(body: Seq<char>) -> Option<ParseFault> {
    let m = sections_of(body);
    if !m.contains_key("ordered child issues"@) {
        Some(ParseFault::MissingOrderedChildSection)
    } else {
        match child_refs_of(lines(m["ordered child issues"@])) {
            Err(e) => Some(e),
            Ok(v) => if v.len() == 0 {
                Some(ParseFault::NoChildIssues)
            } else {
                None
            },
        }
    }
}

/// Parses a parent issue: its sections and its ordered child checklist.
pub fn parse_parent_issue(snapshot: &IssueSnapshot) -> (res: Result<ParentIssue, IssueParseError>)
    ensures
        match res {
            Ok(p) => {
                &&& parent_issue_fault(snapshot.body@) is None
                &&& p.number == snapshot.number
                &&& p.title@ == snapshot.title@
                &&& p.body@ == snapshot.body@
                &&& p.state == snapshot.state
                &&& p.labels@ == snapshot.labels@
                &&& p.url == snapshot.url
                &&& p.sections@ == sections_of(snapshot.body@)
                &&& child_refs_of(lines(sections_of(snapshot.body@)["ordered child issues"@]))
                    == Ok::<_, ParseFault>(child_refs_view(p.children@))
            },
            Err(e) => parent_issue_fault(snapshot.body@) == Some(e@),
        },
{
    let sections = parse_sections(snapshot.body.as_str());
    let ordered = match sections.get("ordered child issues") {
        Some(o) => o,
        None => {
            return Err(IssueParseError::MissingOrderedChildSection);
        },
    };
    let children = parse_parent_child_refs(ordered.as_str())?;
    if children.len() == 0 {
        return Err(IssueParseError::NoChildIssues);
    }
    Ok(
        ParentIssue {
            number: snapshot.number,
            title: snapshot.title.clone(),
            body: snapshot.body.clone(),
            state: snapshot.state,
            labels: clone_strings(&snapshot.labels),
            url: clone_opt_string(&snapshot.url),
            sections,
            children,
        },
    )
}

} // verus!
