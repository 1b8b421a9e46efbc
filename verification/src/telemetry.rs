//! What the run history says about past children like this one.
use vstd::prelude::*;

use crate::models::{DocsImpact, SizeBand};
use crate::text::{eq_ignore_ascii_case, eq_ignore_case};

verus! {

/// The parts of a recorded run that local estimates read.
#[derive(Debug, Clone)]
pub struct HistoryEntry {
    pub success: bool,
    pub model_profile: String,
    pub target_size: SizeBand,
    pub docs_impact: DocsImpact,
    pub actual_minutes: u32,
}

/// The successful runs of the same profile (ASCII case ignored), size band
/// and documentation impact.
pub open spec fn entry_matches(
    e: HistoryEntry,
    model_profile: Seq<char>,
    size_band: SizeBand,
    docs_impact: DocsImpact,
) -> bool {
    e.success && eq_ignore_case(e.model_profile@, model_profile) && e.target_size == size_band
        && e.docs_impact == docs_impact
}

pub open spec fn matching_count(
    es: Seq<HistoryEntry>,
    model_profile: Seq<char>,
    size_band: SizeBand,
    docs_impact: DocsImpact,
) -> nat
    decreases es.len(),
{
    if es.len() == 0 {
        0
    } else {
        matching_count(es.drop_last(), model_profile, size_band, docs_impact) + if entry_matches(
            es.last(),
            model_profile,
            size_band,
            docs_impact,
        ) {
            1nat
        } else {
            0nat
        }
    }
}

pub open spec fn matching_minutes(
    es: Seq<HistoryEntry>,
    model_profile: Seq<char>,
    size_band: SizeBand,
    docs_impact: DocsImpact,
) -> nat
    decreases es.len(),
{
    if es.len() == 0 {
        0
    } else {
        matching_minutes(es.drop_last(), model_profile, size_band, docs_impact) + if entry_matches(
            es.last(),
            model_profile,
            size_band,
            docs_impact,
        ) {
            es.last().actual_minutes as nat
        } else {
            0nat
        }
    }
}

/// How many matching runs the history holds, and their minutes summed.
#[derive(Debug, Clone, Copy)]
pub struct MatchingRuns {
    pub samples: usize,
    pub total_minutes: u64,
}

proof fn lemma_prefix_monotone(
    es: Seq<HistoryEntry>,
    i: int,
    model_profile: Seq<char>,
    size_band: SizeBand,
    docs_impact: DocsImpact,
)
    requires
        0 <= i <= es.len(),
    ensures
        matching_minutes(es.take(i), model_profile, size_band, docs_impact) <= matching_minutes(
            es,
            model_profile,
            size_band,
            docs_impact,
        ),
        matching_count(es.take(i), model_profile, size_band, docs_impact) <= i,
    decreases es.len() - i,
{
    lemma_count_len(es.take(i), model_profile, size_band, docs_impact);
    if i < es.len() {
        lemma_prefix_monotone(es, i + 1, model_profile, size_band, docs_impact);
        assert(es.take(i + 1).drop_last() == es.take(i));
    } else {
        assert(es.take(i) == es);
    }
}

proof fn lemma_count_len(
    es: Seq<HistoryEntry>,
    model_profile: Seq<char>,
    size_band: SizeBand,
    docs_impact: DocsImpact,
)
    ensures
        matching_count(es, model_profile, size_band, docs_impact) <= es.len(),
    decreases es.len(),
{
    if es.len() > 0 {
        lemma_count_len(es.drop_last(), model_profile, size_band, docs_impact);
    }
}

/// Counts and sums the matching successful runs of the history.
pub fn matching_runs(
    entries: &Vec<HistoryEntry>,
    model_profile: &str,
    size_band: SizeBand,
    docs_impact: DocsImpact,
) -> (r: MatchingRuns)
    requires
        matching_minutes(entries@, model_profile@, size_band, docs_impact) <= u64::MAX,
    ensures
        r.samples == matching_count(entries@, model_profile@, size_band, docs_impact),
        r.total_minutes == matching_minutes(entries@, model_profile@, size_band, docs_impact),
{
    let mut samples: usize = 0;
    let mut total: u64 = 0;
    let mut i: usize = 0;
    while i < entries.len()
        invariant
            i <= entries.len(),
            matching_minutes(entries@, model_profile@, size_band, docs_impact) <= u64::MAX,
            samples == matching_count(entries@.take(i as int), model_profile@, size_band, docs_impact),
            total == matching_minutes(entries@.take(i as int), model_profile@, size_band, docs_impact),
        decreases entries.len() - i,
    {
        let e = &entries[i];
        proof {
            assert(entries@.take(i + 1).drop_last() == entries@.take(i as int));
            assert(entries@.take(i + 1).last() == entries@[i as int]);
            lemma_prefix_monotone(entries@, i + 1, model_profile@, size_band, docs_impact);
        }
        if e.success && eq_ignore_ascii_case(e.model_profile.as_str(), model_profile)
            && e.target_size == size_band && e.docs_impact == docs_impact {
            total = total + e.actual_minutes as u64;
            samples = samples + 1;
        }
        i = i + 1;
    }
    proof {
        assert(entries@.take(entries.len() as int) == entries@);
    }
    MatchingRuns { samples, total_minutes: total }
}

/// A successful run appended to the history counts for its own profile,
/// size band and documentation impact: one more sample, its minutes added.
/// On an empty history that is one sample of exactly its minutes.
pub proof fn lemma_appended_run_counts(es: Seq<HistoryEntry>, e: HistoryEntry)
    requires
        e.success,
    ensures
        matching_count(es.push(e), e.model_profile@, e.target_size, e.docs_impact)
            == matching_count(es, e.model_profile@, e.target_size, e.docs_impact) + 1,
        matching_minutes(es.push(e), e.model_profile@, e.target_size, e.docs_impact)
            == matching_minutes(es, e.model_profile@, e.target_size, e.docs_impact)
            + e.actual_minutes,
        matching_count(seq![e], e.model_profile@, e.target_size, e.docs_impact) == 1,
        matching_minutes(seq![e], e.model_profile@, e.target_size, e.docs_impact)
            == e.actual_minutes,
{
    assert(es.push(e).drop_last() == es);
    let none = Seq::<HistoryEntry>::empty();
    assert(none.push(e).drop_last() == none);
    assert(seq![e] == none.push(e));
    assert(matching_count(none, e.model_profile@, e.target_size, e.docs_impact) == 0);
    assert(matching_minutes(none, e.model_profile@, e.target_size, e.docs_impact) == 0);
    assert(entry_matches(e, e.model_profile@, e.target_size, e.docs_impact));
}

} // verus!
