//! The intent bundle of a child issue: its contract and the excerpts of its
//! source-of-truth files, bounded in size and fingerprinted.
use vstd::prelude::*;

use sha2::{Digest, Sha256};
use vstd::utf8::{decode_utf8, valid_utf8};

use crate::models::{
    clone_opt_string, ChildIssue, Confidence, DocsImpact, EstimationBasis, SizeBand,
    SourceRefKind, VerificationCommand,
};

verus! {

/// At most this many bytes of one source file go into a bundle.
pub const MAX_SOURCE_BYTES_PER_FILE: usize = 32 * 1024;

/// At most this many bytes of all source files together go into a bundle.
pub const MAX_SOURCE_BYTES_TOTAL: usize = 128 * 1024;

#[derive(Debug, Clone, Copy, PartialEq, Eq, Structural)]
pub enum SourceLocation {
    RepoRelative,
    Absolute,
}

/// A source-of-truth reference, with the path it was found at.
#[derive(Debug, Clone)]
pub struct ResolvedSourceRef {
    pub raw: String,
    pub resolved_path: String,
    pub location: SourceLocation,
}

/// An excerpt of a source-of-truth file.
#[derive(Debug, Clone)]
pub struct ResolvedSource {
    pub source_ref: ResolvedSourceRef,
    pub contents: String,
    pub sha256: String,
    pub truncated: bool,
}

#[derive(Debug, Clone)]
pub struct EstimateMetadata {
    pub suggested_model_profile: String,
    pub suggested_model_override: Option<String>,
    pub estimated_minutes: u32,
    pub estimation_basis: EstimationBasis,
    pub estimation_confidence: Confidence,
}

#[derive(Debug, Clone)]
pub struct IntentBundle {
    pub child: ChildIssue,
    pub resolved_sources: Vec<ResolvedSource>,
    pub verification: Vec<VerificationCommand>,
    pub docs_impact: DocsImpact,
    pub target_size: SizeBand,
    pub estimate_metadata: EstimateMetadata,
}

/// Why a source-of-truth reference cannot go into a bundle.
#[derive(Debug, Clone)]
pub enum BundleError {
    UnsupportedUrl(String),
}

impl BundleError {
    pub fn message(&self) -> (r: String)
        ensures
            r@ == (match self {
                BundleError::UnsupportedUrl(u) => "unsupported source-of-truth URL: "@ + u@,
            }),
    {
        match self {
            BundleError::UnsupportedUrl(u) => {
                let mut s = "unsupported source-of-truth URL: ".to_owned();
                s.append(u.as_str());
                s
            },
        }
    }
}

/// The path a reference names and where it is looked up; a URL is refused.
pub fn source_location(kind: &SourceRefKind) -> (r: Result<(String, SourceLocation), BundleError>)
    ensures
        match kind {
            SourceRefKind::RepoRelative { path } => r matches Ok((p, l)) && p@ == path@ && l
                == SourceLocation::RepoRelative,
            SourceRefKind::Absolute { path } => r matches Ok((p, l)) && p@ == path@ && l
                == SourceLocation::Absolute,
            SourceRefKind::Url { url } => r matches Err(BundleError::UnsupportedUrl(u)) && u@
                == url@,
        },
{
    match kind {
        SourceRefKind::RepoRelative { path } => Ok((path.clone(), SourceLocation::RepoRelative)),
        SourceRefKind::Absolute { path } => Ok((path.clone(), SourceLocation::Absolute)),
        SourceRefKind::Url { url } => Err(BundleError::UnsupportedUrl(url.clone())),
    }
}

/// The SHA-256 digest of a byte string.
pub uninterp spec fn sha256_of(bytes: Seq<u8>) -> Seq<u8>;

/// Trusted: calls `sha2::Sha256::digest`, whose output for SHA-256 is a
/// 32-byte array determined by the input alone; the bytes are returned in
/// order.
#[verifier::external_body]
fn sha256_digest(bytes: &[u8]) -> (r: Vec<u8>)
    ensures
        r@ == sha256_of(bytes@),
        r@.len() == 32,
{
    Sha256::digest(bytes).to_vec()
}

/// The text that lossy UTF-8 decoding makes of a byte string.
pub uninterp spec fn utf8_lossy_of(bytes: Seq<u8>) -> Seq<char>;

/// Trusted: calls `String::from_utf8_lossy`, which std documents as
/// decoding the bytes and replacing each invalid sequence with U+FFFD; the
/// text depends on the bytes alone, and bytes that are valid UTF-8 come
/// back as the text they encode. What replaces invalid sequences is left
/// unsaid beyond the name.
#[verifier::external_body]
fn utf8_lossy(bytes: &[u8]) -> (r: String)
    ensures
        r@ == utf8_lossy_of(bytes@),
        valid_utf8(bytes@) ==> r@ == decode_utf8(bytes@),
{
    String::from_utf8_lossy(bytes).into_owned()
}

/// The lowercase hexadecimal digit of `d < 16`.
pub open spec fn hex_digit(d: u8) -> char {
    if d < 10 {
        ((d + 48) as u8) as char
    } else {
        ((d + 87) as u8) as char
    }
}

/// Two lowercase hexadecimal digits per byte, high nibble first.
pub open spec fn lower_hex(bytes: Seq<u8>) -> Seq<char>
    decreases bytes.len(),
{
    if bytes.len() == 0 {
        Seq::empty()
    } else {
        lower_hex(bytes.drop_last()) + seq![
            hex_digit(bytes.last() / 16),
            hex_digit(bytes.last() % 16),
        ]
    }
}

fn hex_digit_exec(d: u8) -> (c: char)
    requires
        d < 16,
    ensures
        c == hex_digit(d),
{
    if d < 10 {
        (d + 48) as char
    } else {
        (d + 87) as char
    }
}

/// The lowercase hexadecimal text of a byte string.
pub fn lower_hex_string(bytes: &[u8]) -> (r: String)
    ensures
        r@ == lower_hex(bytes@),
{
    let mut v: Vec<char> = Vec::new();
    let mut i: usize = 0;
    while i < bytes.len()
        invariant
            i <= bytes.len(),
            v@ == lower_hex(bytes@.take(i as int)),
        decreases bytes.len() - i,
    {
        let b = bytes[i];
        v.push(hex_digit_exec(b / 16));
        v.push(hex_digit_exec(b % 16));
        proof {
            assert(bytes@.take(i + 1).drop_last() == bytes@.take(i as int));
            assert(bytes@.take(i + 1).last() == b);
        }
        i = i + 1;
    }
    assert(bytes@.take(bytes.len() as int) == bytes@);
    crate::text::string_of(v.as_slice())
}

/// The SHA-256 fingerprint of a byte string as lowercase hexadecimal text.
pub fn sha256_hex(bytes: &[u8]) -> (r: String)
    ensures
        r@ == lower_hex(sha256_of(bytes@)),
        r@.len() == 64,
{
    let d = sha256_digest(bytes);
    let r = lower_hex_string(d.as_slice());
    proof {
        lemma_lower_hex_len(d@);
    }
    r
}

proof fn lemma_lower_hex_len(bytes: Seq<u8>)
    ensures
        lower_hex(bytes).len() == 2 * bytes.len(),
    decreases bytes.len(),
{
    if bytes.len() > 0 {
        lemma_lower_hex_len(bytes.drop_last());
    }
}

/// A source file's bytes as they were read.
#[derive(Debug)]
pub struct SourceBytes {
    pub source_ref: ResolvedSourceRef,
    pub bytes: Vec<u8>,
}

pub open spec fn min_int(a: int, b: int) -> int {
    if a <= b {
        a
    } else {
        b
    }
}

/// How many bytes of a file of `len` bytes are kept when `remaining` bytes
/// of the total allowance are left.
pub open spec fn bytes_taken(len: int, remaining: int) -> int {
    min_int(len, min_int(remaining, MAX_SOURCE_BYTES_PER_FILE as int))
}

/// What is left of the total allowance once files of the given lengths
/// have been taken in order.
pub open spec fn allowance_after(lens: Seq<int>) -> int
    decreases lens.len(),
{
    if lens.len() == 0 {
        MAX_SOURCE_BYTES_TOTAL as int
    } else {
        allowance_after(lens.drop_last()) - bytes_taken(
            lens.last(),
            allowance_after(lens.drop_last()),
        )
    }
}

proof fn lemma_allowance_bounds(lens: Seq<int>)
    requires
        forall|i: int| 0 <= i < lens.len() ==> lens[i] >= 0,
    ensures
        0 <= allowance_after(lens) <= MAX_SOURCE_BYTES_TOTAL,
    decreases lens.len(),
{
    if lens.len() > 0 {
        lemma_allowance_bounds(lens.drop_last());
    }
}

pub open spec fn byte_lengths(sources: Seq<SourceBytes>) -> Seq<int> {
    Seq::new(sources.len(), |i: int| sources[i].bytes@.len() as int)
}

/// The excerpt a bundle keeps of `source` when `remaining` bytes of the
/// total allowance are left: at most the per-file and remaining allowance,
/// decoded lossily, with the fingerprint of the whole file.
pub open spec fn excerpt_of(source: SourceBytes, remaining: int, r: ResolvedSource) -> bool {
    let take = bytes_taken(source.bytes@.len() as int, remaining);
    &&& r.source_ref == source.source_ref
    &&& r.truncated == (source.bytes@.len() > take)
    &&& r.contents@ == utf8_lossy_of(source.bytes@.take(take))
    &&& valid_utf8(source.bytes@.take(take)) ==> r.contents@ == decode_utf8(
        source.bytes@.take(take),
    )
    &&& r.sha256@ == lower_hex(sha256_of(source.bytes@))
    &&& r.sha256@.len() == 64
}

/// The excerpts a bundle keeps of `sources`, one per file in order, each
/// with what is left of the total allowance after the files before it.
pub open spec fn bundle_excerpts(sources: Seq<SourceBytes>, resolved: Seq<ResolvedSource>) -> bool {
    &&& resolved.len() == sources.len()
    &&& forall|i: int|
        0 <= i < sources.len() ==> excerpt_of(
            sources[i],
            allowance_after(byte_lengths(sources).take(i)),
            #[trigger] resolved[i],
        )
}

fn clone_verification(v: &Vec<VerificationCommand>) -> (r: Vec<VerificationCommand>)
    ensures
        r@.len() == v@.len(),
        forall|i: int|
            0 <= i < v@.len() ==> (#[trigger] r@[i]).command@ == v@[i].command@ && r@[i].source
                == v@[i].source,
{
    let mut r: Vec<VerificationCommand> = Vec::new();
    let mut i: usize = 0;
    while i < v.len()
        invariant
            i <= v.len(),
            r@.len() == i,
            forall|j: int|
                0 <= j < i ==> (#[trigger] r@[j]).command@ == v@[j].command@ && r@[j].source
                    == v@[j].source,
        decreases v.len() - i,
    {
        r.push(VerificationCommand { command: v[i].command.clone(), source: v[i].source });
        i = i + 1;
    }
    r
}

/// Builds the bundle of `child` from its source files, read in the order the
/// issue lists them.
pub fn build_intent_bundle(child: ChildIssue, sources: Vec<SourceBytes>) -> (r: IntentBundle)
    ensures
        r.child == child,
        bundle_excerpts(sources@, r.resolved_sources@),
        r.verification@.len() == child.verification@.len(),
        forall|i: int|
            0 <= i < child.verification@.len() ==> (#[trigger] r.verification@[i]).command@
                == child.verification@[i].command@ && r.verification@[i].source
                == child.verification@[i].source,
        r.docs_impact == child.docs_impact,
        r.target_size == child.target_size,
        r.estimate_metadata.suggested_model_profile@ == child.suggested_model_profile@,
        r.estimate_metadata.suggested_model_override == child.suggested_model_override,
        r.estimate_metadata.estimated_minutes == child.estimated_minutes,
        r.estimate_metadata.estimation_basis == child.estimation_basis,
        r.estimate_metadata.estimation_confidence == child.estimation_confidence,
{
    let ghost lens = byte_lengths(sources@);
    let mut remaining: usize = MAX_SOURCE_BYTES_TOTAL;
    let mut resolved: Vec<ResolvedSource> = Vec::new();
    let mut rest = sources;
    let ghost all = rest@;
    let mut taken_count: usize = 0;
    assert(all.len() == rest.len());
    proof {
        assert(lens.take(0) =~= Seq::<int>::empty());
    }
    // Sources are taken from the front, so the list is reversed first and
    // then popped.
    let mut reversed: Vec<SourceBytes> = Vec::new();
    while rest.len() > 0
        invariant
            reversed@.len() + rest@.len() == all.len(),
            forall|j: int| 0 <= j < rest@.len() ==> #[trigger] rest@[j] == all[j],
            forall|j: int|
                0 <= j < reversed@.len() ==> #[trigger] reversed@[j] == all[all.len() - 1 - j],
        decreases rest.len(),
    {
        let ghost before = reversed@;
        let s = rest.pop().unwrap();
        reversed.push(s);
        proof {
            assert forall|j: int| 0 <= j < reversed@.len() implies #[trigger] reversed@[j]
                == all[all.len() - 1 - j] by {
                if j < before.len() {
                    assert(reversed@[j] == before[j]);
                }
            }
        }
    }
    while reversed.len() > 0
        invariant
            taken_count + reversed@.len() == all.len(),
            all.len() <= usize::MAX,
            lens == byte_lengths(all),
            remaining as int == allowance_after(lens.take(taken_count as int)),
            resolved@.len() == taken_count,
            forall|j: int|
                0 <= j < reversed@.len() ==> #[trigger] reversed@[j] == all[all.len() - 1 - j],
            forall|j: int|
                0 <= j < taken_count ==> excerpt_of(
                    all[j],
                    allowance_after(lens.take(j)),
                    #[trigger] resolved@[j],
                ),
        decreases reversed.len(),
    {
        let ghost k = taken_count as int;
        let source = reversed.pop().unwrap();
        assert(source == all[k]);
        proof {
            lemma_allowance_bounds(lens.take(k));
        }
        let len = source.bytes.len();
        let mut take = if remaining < MAX_SOURCE_BYTES_PER_FILE {
            remaining
        } else {
            MAX_SOURCE_BYTES_PER_FILE
        };
        if len < take {
            take = len;
        }
        let truncated = len > take;
        let mut head: Vec<u8> = Vec::new();
        let mut i: usize = 0;
        while i < take
            invariant
                i <= take <= source.bytes@.len(),
                head@ == source.bytes@.take(i as int),
            decreases take - i,
        {
            head.push(source.bytes[i]);
            assert(source.bytes@.take(i + 1) == source.bytes@.take(i as int).push(
                source.bytes@[i as int],
            ));
            i = i + 1;
        }
        let contents = utf8_lossy(head.as_slice());
        let sha256 = sha256_hex(source.bytes.as_slice());
        remaining = remaining - take;
        let item = ResolvedSource { source_ref: source.source_ref, contents, sha256, truncated };
        let ghost before = resolved@;
        resolved.push(item);
        proof {
            assert(lens.take(k + 1).drop_last() == lens.take(k));
            assert(lens.take(k + 1).last() == len as int);
            assert forall|j: int| 0 <= j < k + 1 implies excerpt_of(
                all[j],
                allowance_after(lens.take(j)),
                #[trigger] resolved@[j],
            ) by {
                if j < k {
                    assert(resolved@[j] == before[j]);
                }
            }
        }
        taken_count = taken_count + 1;
    }
    proof {
        assert(taken_count == all.len());
    }
    let verification = clone_verification(&child.verification);
    let estimate_metadata = EstimateMetadata {
        suggested_model_profile: child.suggested_model_profile.clone(),
        suggested_model_override: clone_opt_string(&child.suggested_model_override),
        estimated_minutes: child.estimated_minutes,
        estimation_basis: child.estimation_basis,
        estimation_confidence: child.estimation_confidence,
    };
    let docs_impact = child.docs_impact;
    let target_size = child.target_size;
    IntentBundle {
        child,
        resolved_sources: resolved,
        verification,
        docs_impact,
        target_size,
        estimate_metadata,
    }
}

/// The bytes kept of files of the given lengths, taken in order.
pub open spec fn total_taken(lens: Seq<int>) -> int
    decreases lens.len(),
{
    if lens.len() == 0 {
        0
    } else {
        total_taken(lens.drop_last()) + bytes_taken(lens.last(), allowance_after(lens.drop_last()))
    }
}

/// A bundle keeps at most the per-file allowance of each file, never more
/// than the file holds, and at most the total allowance over all files.
pub proof fn lemma_bundle_within_limits(lens: Seq<int>)
    requires
        forall|i: int| 0 <= i < lens.len() ==> lens[i] >= 0,
    ensures
        total_taken(lens) == MAX_SOURCE_BYTES_TOTAL - allowance_after(lens),
        total_taken(lens) <= MAX_SOURCE_BYTES_TOTAL,
        forall|i: int|
            0 <= i < lens.len() ==> 0 <= #[trigger] bytes_taken(
                lens[i],
                allowance_after(lens.take(i)),
            ) <= MAX_SOURCE_BYTES_PER_FILE && bytes_taken(lens[i], allowance_after(lens.take(i)))
                <= lens[i],
    decreases lens.len(),
{
    lemma_allowance_bounds(lens);
    assert forall|i: int| 0 <= i < lens.len() implies 0 <= #[trigger] bytes_taken(
        lens[i],
        allowance_after(lens.take(i)),
    ) <= MAX_SOURCE_BYTES_PER_FILE && bytes_taken(lens[i], allowance_after(lens.take(i)))
        <= lens[i] by {
        lemma_allowance_bounds(lens.take(i));
    }
    if lens.len() > 0 {
        lemma_bundle_within_limits(lens.drop_last());
    }
}

/// Every byte is ASCII.
pub open spec fn ascii_bytes(bytes: Seq<u8>) -> bool {
    forall|i: int| 0 <= i < bytes.len() ==> bytes[i] < 128
}

/// The text of ASCII bytes: one character per byte.
pub open spec fn ascii_text(bytes: Seq<u8>) -> Seq<char> {
    Seq::new(bytes.len(), |i: int| bytes[i] as char)
}

proof fn lemma_ascii_decodes(bytes: Seq<u8>)
    requires
        ascii_bytes(bytes),
    ensures
        valid_utf8(bytes),
        decode_utf8(bytes) == ascii_text(bytes),
    decreases bytes.len(),
{
    if bytes.len() > 0 {
        let b = bytes[0];
        assert(b & 0x7f == b) by (bit_vector)
            requires
                b < 128,
        ;
        let rest = bytes.subrange(1, bytes.len() as int);
        assert(vstd::utf8::pop_first_scalar(bytes) == rest);
        assert(ascii_bytes(rest)) by {
            assert forall|i: int| 0 <= i < rest.len() implies rest[i] < 128 by {
                assert(rest[i] == bytes[i + 1]);
            }
        }
        lemma_ascii_decodes(rest);
        assert(decode_utf8(bytes) =~= ascii_text(bytes));
    }
}

/// An ASCII file is kept character for byte: its excerpt is the text of
/// the bytes taken, no longer than the per-file allowance, and it is marked
/// truncated exactly when it is shorter than the file.
pub proof fn lemma_ascii_excerpt(source: SourceBytes, remaining: int, r: ResolvedSource)
    requires
        excerpt_of(source, remaining, r),
        ascii_bytes(source.bytes@),
        0 <= remaining,
    ensures
        r.contents@ == ascii_text(
            source.bytes@.take(bytes_taken(source.bytes@.len() as int, remaining)),
        ),
        r.contents@.len() == bytes_taken(source.bytes@.len() as int, remaining),
        r.contents@.len() <= MAX_SOURCE_BYTES_PER_FILE,
        r.truncated <==> r.contents@.len() < source.bytes@.len(),
{
    let take = bytes_taken(source.bytes@.len() as int, remaining);
    let head = source.bytes@.take(take);
    assert(ascii_bytes(head)) by {
        assert forall|i: int| 0 <= i < head.len() implies head[i] < 128 by {
            assert(head[i] == source.bytes@[i]);
        }
    }
    lemma_ascii_decodes(head);
}

/// The characters kept over all excerpts.
pub open spec fn contents_total(resolved: Seq<ResolvedSource>) -> int
    decreases resolved.len(),
{
    if resolved.len() == 0 {
        0
    } else {
        contents_total(resolved.drop_last()) + resolved.last().contents@.len()
    }
}

/// For ASCII files the size limits hold of the text kept: each excerpt has
/// exactly the bytes taken of its file, at most the per-file allowance, and
/// all of them together at most the total allowance; an excerpt is marked
/// truncated exactly when it is shorter than its file.
pub proof fn lemma_ascii_bundle_within_limits(
    sources: Seq<SourceBytes>,
    resolved: Seq<ResolvedSource>,
)
    requires
        bundle_excerpts(sources, resolved),
        forall|i: int| 0 <= i < sources.len() ==> ascii_bytes(#[trigger] sources[i].bytes@),
    ensures
        forall|i: int|
            0 <= i < sources.len() ==> {
                &&& (#[trigger] resolved[i]).contents@.len() == bytes_taken(
                    sources[i].bytes@.len() as int,
                    allowance_after(byte_lengths(sources).take(i)),
                )
                &&& resolved[i].contents@.len() <= MAX_SOURCE_BYTES_PER_FILE
                &&& resolved[i].truncated <==> resolved[i].contents@.len()
                    < sources[i].bytes@.len()
            },
        contents_total(resolved) <= MAX_SOURCE_BYTES_TOTAL,
{
    let lens = byte_lengths(sources);
    assert forall|i: int| 0 <= i < sources.len() implies {
        &&& (#[trigger] resolved[i]).contents@.len() == bytes_taken(
            sources[i].bytes@.len() as int,
            allowance_after(byte_lengths(sources).take(i)),
        )
        &&& resolved[i].contents@.len() <= MAX_SOURCE_BYTES_PER_FILE
        &&& resolved[i].truncated <==> resolved[i].contents@.len() < sources[i].bytes@.len()
    } by {
        assert(excerpt_of(sources[i], allowance_after(lens.take(i)), resolved[i]));
        lemma_allowance_bounds(lens.take(i));
        lemma_ascii_excerpt(sources[i], allowance_after(lens.take(i)), resolved[i]);
    }
    lemma_contents_total_taken(sources, resolved);
    lemma_bundle_within_limits(lens);
}

proof fn lemma_contents_total_taken(sources: Seq<SourceBytes>, resolved: Seq<ResolvedSource>)
    requires
        resolved.len() == sources.len(),
        forall|i: int|
            0 <= i < sources.len() ==> (#[trigger] resolved[i]).contents@.len() == bytes_taken(
                sources[i].bytes@.len() as int,
                allowance_after(byte_lengths(sources).take(i)),
            ),
    ensures
        contents_total(resolved) == total_taken(byte_lengths(sources)),
    decreases sources.len(),
{
    if sources.len() > 0 {
        let n = sources.len() - 1;
        let s0 = sources.drop_last();
        let r0 = resolved.drop_last();
        assert(byte_lengths(s0) =~= byte_lengths(sources).drop_last());
        assert forall|i: int| 0 <= i < s0.len() implies (#[trigger] r0[i]).contents@.len()
            == bytes_taken(
            s0[i].bytes@.len() as int,
            allowance_after(byte_lengths(s0).take(i)),
        ) by {
            assert(r0[i] == resolved[i]);
            assert(s0[i] == sources[i]);
            assert(byte_lengths(s0).take(i) =~= byte_lengths(sources).take(i));
        }
        lemma_contents_total_taken(s0, r0);
        assert(resolved.last() == resolved[n]);
        assert(byte_lengths(sources).take(n) =~= byte_lengths(sources).drop_last());
    }
}

} // verus!
