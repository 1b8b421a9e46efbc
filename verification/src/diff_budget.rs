//! Diff accounting and the diff budget gate.
use vstd::prelude::*;

use crate::config::Config;
use crate::models::{small_diff_exception, ChildIssue, SizeBand};
use crate::numbers::{int_error_message, int_error_text, parse_u32_chars, parse_unsigned};
use crate::text::{
    char_vec_views, chars_of, lines, lines_of, split_on, split_on_char, string_of, trim,
    trim_chars,
};

verus! {

#[derive(Debug, Clone, Copy, PartialEq, Eq, Structural)]
pub struct DiffStat {
    pub changed_lines: u32,
    pub files_touched: u32,
}

/// Why a diff was refused or could not be measured.
#[derive(Debug, Clone)]
pub enum DiffError {
    InvalidNumstatLine(String),
    InvalidCount(String),
    CountOverflow,
    ExceedsGlobalMax,
    ExceedsTargetSize,
    BelowMinimum,
}

pub ghost enum DiffFault {
    InvalidNumstatLine(Seq<char>),
    InvalidCount(Seq<char>),
    CountOverflow,
    ExceedsGlobalMax,
    ExceedsTargetSize,
    BelowMinimum,
}

impl View for DiffError {
    type V = DiffFault;

    open spec fn view(&self) -> DiffFault {
        match self {
            DiffError::InvalidNumstatLine(s) => DiffFault::InvalidNumstatLine(s@),
            DiffError::InvalidCount(s) => DiffFault::InvalidCount(s@),
            DiffError::CountOverflow => DiffFault::CountOverflow,
            DiffError::ExceedsGlobalMax => DiffFault::ExceedsGlobalMax,
            DiffError::ExceedsTargetSize => DiffFault::ExceedsTargetSize,
            DiffError::BelowMinimum => DiffFault::BelowMinimum,
        }
    }
}

/// The text of a diff error.
pub open spec fn diff_fault_text(f: DiffFault) -> Seq<char> {
    match f {
        DiffFault::InvalidNumstatLine(l) => "invalid numstat line: "@ + l,
        DiffFault::InvalidCount(t) => int_error_text(t),
        DiffFault::CountOverflow => "changed line count overflows"@,
        DiffFault::ExceedsGlobalMax => "diff_exceeds_global_max"@,
        DiffFault::ExceedsTargetSize => "diff_exceeds_target_size"@,
        DiffFault::BelowMinimum => "diff_below_minimum"@,
    }
}

impl DiffError {
    pub fn message(&self) -> (r: String)
        ensures
            r@ == diff_fault_text(self@),
    {
        match self {
            DiffError::InvalidNumstatLine(l) => {
                let mut s = "invalid numstat line: ".to_owned();
                s.append(l.as_str());
                s
            },
            DiffError::InvalidCount(t) => int_error_message(t.as_str()).to_owned(),
            DiffError::CountOverflow => "changed line count overflows".to_owned(),
            DiffError::ExceedsGlobalMax => "diff_exceeds_global_max".to_owned(),
            DiffError::ExceedsTargetSize => "diff_exceeds_target_size".to_owned(),
            DiffError::BelowMinimum => "diff_below_minimum".to_owned(),
        }
    }
}

/// A numstat count: `-` (binary file) counts as zero.
pub open spec fn numstat_count(field: Seq<char>) -> Option<nat> {
    if field == "-"@ {
        Some(0)
    } else {
        parse_unsigned(field, u32::MAX as nat)
    }
}

/// Lines changed according to one `git diff --numstat` line (`None` for a
/// blank line): added plus removed; the line needs a third, path field.
pub open spec fn numstat_line(line: Seq<char>) -> Option<Result<nat, DiffFault>> {
    let t = trim(line);
    if t.len() == 0 {
        None
    } else {
        let f = split_on(t, '\t');
        if f.len() < 3 {
            Some(Err(DiffFault::InvalidNumstatLine(t)))
        } else {
            match numstat_count(f[0]) {
                None => Some(Err(DiffFault::InvalidCount(f[0]))),
                Some(a) => match numstat_count(f[1]) {
                    None => Some(Err(DiffFault::InvalidCount(f[1]))),
                    Some(b) => Some(Ok(a + b)),
                },
            }
        }
    }
}

/// Total changed lines and files over the given lines.
pub open spec fn numstat_totals(ls: Seq<Seq<char>>) -> Result<(nat, nat), DiffFault>
    decreases ls.len(),
{
    if ls.len() == 0 {
        Ok((0, 0))
    } else {
        match numstat_totals(ls.drop_last()) {
            Err(e) => Err(e),
            Ok((c, f)) => match numstat_line(ls.last()) {
                None => Ok((c, f)),
                Some(Err(e)) => Err(e),
                Some(Ok(n)) => Ok((c + n, f + 1)),
            },
        }
    }
}

/// What `parse_numstat` gives: the totals, or the first bad line, or an
/// overflow when a total does not fit in `u32`.
pub open spec fn numstat_of(output: Seq<char>) -> Result<(nat, nat), DiffFault> {
    match numstat_totals(lines(output)) {
        Err(e) => Err(e),
        Ok((c, f)) => if c <= u32::MAX && f <= u32::MAX {
            Ok((c, f))
        } else {
            Err(DiffFault::CountOverflow)
        },
    }
}

proof fn lemma_numstat_err_prefix(ls: Seq<Seq<char>>, k: int)
    requires
        0 <= k <= ls.len(),
        numstat_totals(ls.take(k)) is Err,
    ensures
        numstat_totals(ls) == numstat_totals(ls.take(k)),
    decreases ls.len() - k,
{
    if k < ls.len() {
        assert(ls.drop_last().take(k) == ls.take(k));
        lemma_numstat_err_prefix(ls.drop_last(), k);
    } else {
        assert(ls.take(k) == ls);
    }
}

fn numstat_count_exec(field: &[char]) -> (r: Option<u32>)
    ensures
        match r {
            Some(v) => numstat_count(field@) == Some(v as nat),
            None => numstat_count(field@) is None,
        },
{
    if crate::models::eq_lit(field, "-") {
        Some(0)
    } else {
        parse_u32_chars(field)
    }
}

/// Sums a `git diff --numstat` listing.
pub fn parse_numstat(output: &str) -> (res: Result<DiffStat, DiffError>)
    ensures
        match res {
            Ok(d) => numstat_of(output@) == Ok::<_, DiffFault>(
                (d.changed_lines as nat, d.files_touched as nat),
            ),
            Err(e) => numstat_of(output@) == Err::<(nat, nat), _>(e@),
        },
{
    let oc = chars_of(output);
    let ls = lines_of(oc.as_slice());
    let mut changed: u32 = 0;
    let mut files: u32 = 0;
    let mut overflow = false;
    let ghost mut total_c: nat = 0;
    let ghost mut total_f: nat = 0;
    let mut i: usize = 0;
    proof {
        assert(lines(output@).take(0) =~= Seq::<Seq<char>>::empty());
    }
    while i < ls.len()
        invariant
            i <= ls.len(),
            char_vec_views(ls@) == lines(output@),
            numstat_totals(lines(output@).take(i as int)) == Ok::<_, DiffFault>((total_c, total_f)),
            overflow == (total_c > u32::MAX || total_f > u32::MAX),
            !overflow ==> changed == total_c && files == total_f,
        decreases ls.len() - i,
    {
        proof {
            assert(lines(output@).take(i + 1).drop_last() == lines(output@).take(i as int));
            assert(lines(output@).take(i + 1).last() == ls@[i as int]@);
        }
        let t = trim_chars(ls[i].as_slice());
        if t.len() == 0 {
            i = i + 1;
            continue ;
        }
        let fields = split_on_char(t.as_slice(), '\t');
        if fields.len() < 3 {
            let e = DiffError::InvalidNumstatLine(string_of(t.as_slice()));
            proof {
                lemma_numstat_err_prefix(lines(output@), i + 1);
            }
            return Err(e);
        }
        assert(fields@[0]@ == split_on(t@, '\t')[0]);
        assert(fields@[1]@ == split_on(t@, '\t')[1]);
        let added = match numstat_count_exec(fields[0].as_slice()) {
            Some(a) => a,
            None => {
                let e = DiffError::InvalidCount(string_of(fields[0].as_slice()));
                proof {
                    lemma_numstat_err_prefix(lines(output@), i + 1);
                }
                return Err(e);
            },
        };
        let removed = match numstat_count_exec(fields[1].as_slice()) {
            Some(b) => b,
            None => {
                let e = DiffError::InvalidCount(string_of(fields[1].as_slice()));
                proof {
                    lemma_numstat_err_prefix(lines(output@), i + 1);
                }
                return Err(e);
            },
        };
        proof {
            total_c = total_c + added as nat + removed as nat;
            total_f = total_f + 1;
        }
        if !overflow {
            if changed as u64 + added as u64 + removed as u64 > u32::MAX as u64 || files
                == u32::MAX {
                overflow = true;
            } else {
                changed = changed + added + removed;
                files = files + 1;
            }
        }
        i = i + 1;
    }
    proof {
        assert(lines(output@).take(ls.len() as int) == lines(output@));
    }
    if overflow {
        return Err(DiffError::CountOverflow);
    }
    Ok(DiffStat { changed_lines: changed, files_touched: files })
}

/// The verdict of the diff budget: global maximum first, then the size
/// band's maximum, then the minimums, which a docs-only or config-only
/// scope may waive when the configuration allows it.
pub open spec fn diff_budget_fault(
    diff_min: u32,
    diff_max: u32,
    allow_below_min: bool,
    size: SizeBand,
    scope: Seq<char>,
    changed: u32,
) -> Option<DiffFault> {
    if changed > diff_max {
        Some(DiffFault::ExceedsGlobalMax)
    } else if changed > size.max_spec() {
        Some(DiffFault::ExceedsTargetSize)
    } else if changed < diff_min || changed < size.min_spec() {
        if allow_below_min && small_diff_exception(scope) {
            None
        } else {
            Some(DiffFault::BelowMinimum)
        }
    } else {
        None
    }
}

/// Checks a produced diff against the configured and the issue's limits.
pub fn enforce_diff_budget(config: &Config, child: &ChildIssue, stat: DiffStat) -> (res: Result<
    (),
    DiffError,
>)
    ensures
        match res {
            Ok(_) => diff_budget_fault(
                config.diff.min_lines,
                config.diff.max_lines,
                config.diff.allow_doc_only_below_min,
                child.target_size,
                child.scope@,
                stat.changed_lines,
            ) is None,
            Err(e) => diff_budget_fault(
                config.diff.min_lines,
                config.diff.max_lines,
                config.diff.allow_doc_only_below_min,
                child.target_size,
                child.scope@,
                stat.changed_lines,
            ) == Some(e@),
        },
{
    if stat.changed_lines > config.diff.max_lines {
        return Err(DiffError::ExceedsGlobalMax);
    }
    if stat.changed_lines > child.target_size.max_lines() {
        return Err(DiffError::ExceedsTargetSize);
    }
    if stat.changed_lines < config.diff.min_lines || stat.changed_lines
        < child.target_size.min_lines() {
        if config.diff.allow_doc_only_below_min && child.allows_small_diff_exception() {
            return Ok(());
        }
        return Err(DiffError::BelowMinimum);
    }
    Ok(())
}

/// A diff under the minimum passes only when small diffs are allowed and
/// the child's scope has a line that is exactly `docs-only` or
/// `config-only`; a diff over either maximum never passes.
pub proof fn lemma_small_diffs_need_a_scope_marker(
    diff_min: u32,
    diff_max: u32,
    allow_below_min: bool,
    size: SizeBand,
    scope: Seq<char>,
    changed: u32,
)
    ensures
        diff_budget_fault(diff_min, diff_max, allow_below_min, size, scope, changed) is None && (
        changed < diff_min || changed < size.min_spec()) ==> allow_below_min
            && small_diff_exception(scope),
        changed > diff_max || changed > size.max_spec() ==> diff_budget_fault(
            diff_min,
            diff_max,
            allow_below_min,
            size,
            scope,
            changed,
        ) is Some,
{
}

} // verus!
