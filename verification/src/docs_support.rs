//! The documentation files a control repository must hold.
use vstd::prelude::*;

use crate::config::Config;

verus! {

/// A path that must exist, and what kind of file it is.
#[derive(Debug, Clone)]
pub struct MissingPath {
    pub kind: String,
    pub path: String,
}

#[derive(Debug)]
pub struct DocsReport {
    pub ok: bool,
    pub missing_paths: Vec<MissingPath>,
}

/// The markdown file `stem` under `dir`.
pub open spec fn markdown_path(dir: Seq<char>, stem: Seq<char>) -> Seq<char> {
    dir + stem + ".md"@
}

/// The names of the document templates every control repository carries.
pub open spec fn template_stems() -> Seq<Seq<char>> {
    seq!["prd"@, "spec"@, "plan"@, "eval"@, "adr"@]
}

/// The names of the prompts every control repository carries.
pub open spec fn prompt_stems() -> Seq<Seq<char>> {
    seq!["refine_prd"@, "refine_spec"@, "child_issue_from_plan"@, "estimate_issue"@]
}

/// The document templates every control repository carries.
pub open spec fn template_files() -> Seq<Seq<char>> {
    Seq::new(5, |i: int| markdown_path("docs/templates/"@, template_stems()[i]))
}

/// The prompts every control repository carries.
pub open spec fn prompt_files() -> Seq<Seq<char>> {
    Seq::new(4, |i: int| markdown_path("prompts/"@, prompt_stems()[i]))
}

/// The view of a required path: its kind and its path.
pub open spec fn path_views(v: Seq<MissingPath>) -> Seq<(Seq<char>, Seq<char>)> {
    Seq::new(v.len(), |i: int| (v[i].kind@, v[i].path@))
}

pub open spec fn tagged(kind: Seq<char>, paths: Seq<Seq<char>>) -> Seq<(Seq<char>, Seq<char>)> {
    Seq::new(paths.len(), |i: int| (kind, paths[i]))
}

/// Every path that is checked, in order: the configured required paths,
/// then the templates, then the prompts.
pub open spec fn docs_candidates_of(required: Seq<Seq<char>>) -> Seq<(Seq<char>, Seq<char>)> {
    tagged("required_path"@, required) + tagged("template"@, template_files()) + tagged(
        "prompt"@,
        prompt_files(),
    )
}

fn push_path(v: &mut Vec<MissingPath>, kind: &str, path: &str)
    ensures
        path_views(final(v)@) == path_views(old(v)@).push((kind@, path@)),
{
    v.push(MissingPath { kind: kind.to_owned(), path: path.to_owned() });
    assert(path_views(v@) =~= path_views(old(v)@).push((kind@, path@)));
}

/// The paths a docs check looks for, with their kinds.
pub fn docs_candidates(config: &Config) -> (r: Vec<MissingPath>)
    ensures
        path_views(r@) == docs_candidates_of(
            crate::text::string_views(config.docs.required_paths@),
        ),
{
    let required = &config.docs.required_paths;
    let mut v: Vec<MissingPath> = Vec::new();
    let mut i: usize = 0;
    while i < required.len()
        invariant
            i <= required.len(),
            path_views(v@) == tagged(
                "required_path"@,
                crate::text::string_views(required@).take(i as int),
            ),
        decreases required.len() - i,
    {
        push_path(&mut v, "required_path", required[i].as_str());
        proof {
            assert(tagged("required_path"@, crate::text::string_views(required@).take(i + 1))
                =~= tagged("required_path"@, crate::text::string_views(required@).take(i as int)).push(
                ("required_path"@, required@[i as int]@),
            ));
        }
        i = i + 1;
    }
    proof {
        assert(crate::text::string_views(required@).take(required.len() as int)
            == crate::text::string_views(required@));
    }
    let ghost base = path_views(v@);
    let stems = ["prd", "spec", "plan", "eval", "adr"];
    let mut k: usize = 0;
    while k < 5
        invariant
            k <= 5,
            stems@.len() == 5,
            forall|j: int| 0 <= j < 5 ==> #[trigger] stems@[j]@ == template_stems()[j],
            path_views(v@) == base + tagged("template"@, template_files().take(k as int)),
        decreases 5 - k,
    {
        let mut path = "docs/templates/".to_owned();
        path.append(stems[k]);
        path.append(".md");
        push_path(&mut v, "template", path.as_str());
        proof {
            assert(template_files().take(k + 1) =~= template_files().take(k as int).push(path@));
            assert(tagged("template"@, template_files().take(k + 1)) =~= tagged(
                "template"@,
                template_files().take(k as int),
            ).push(("template"@, path@)));
        }
        k = k + 1;
    }
    assert(template_files().take(5) =~= template_files());
    let ghost mid = path_views(v@);
    let prompts = ["refine_prd", "refine_spec", "child_issue_from_plan", "estimate_issue"];
    let mut k: usize = 0;
    while k < 4
        invariant
            k <= 4,
            prompts@.len() == 4,
            forall|j: int| 0 <= j < 4 ==> #[trigger] prompts@[j]@ == prompt_stems()[j],
            path_views(v@) == mid + tagged("prompt"@, prompt_files().take(k as int)),
        decreases 4 - k,
    {
        let mut path = "prompts/".to_owned();
        path.append(prompts[k]);
        path.append(".md");
        push_path(&mut v, "prompt", path.as_str());
        proof {
            assert(prompt_files().take(k + 1) =~= prompt_files().take(k as int).push(path@));
            assert(tagged("prompt"@, prompt_files().take(k + 1)) =~= tagged(
                "prompt"@,
                prompt_files().take(k as int),
            ).push(("prompt"@, path@)));
        }
        k = k + 1;
    }
    assert(prompt_files().take(4) =~= prompt_files());
    proof {
        assert(path_views(v@) =~= base + tagged("template"@, template_files()) + tagged(
            "prompt"@,
            prompt_files(),
        ));
    }
    v
}

/// The entries of `paths` whose `present` flag is false, in order.
pub open spec fn absent(paths: Seq<(Seq<char>, Seq<char>)>, present: Seq<bool>) -> Seq<
    (Seq<char>, Seq<char>),
>
    decreases paths.len(),
{
    if paths.len() == 0 {
        Seq::empty()
    } else {
        let rest = absent(paths.drop_last(), present);
        if present[paths.len() - 1] {
            rest
        } else {
            rest.push(paths.last())
        }
    }
}

/// The report of a docs check: the candidates of [`docs_candidates`] that
/// do not exist (`present` says which do, in the same order); the report
/// is ok when none is missing.
pub fn check_docs(config: &Config, present: &Vec<bool>) -> (r: DocsReport)
    requires
        present@.len() == docs_candidates_of(
            crate::text::string_views(config.docs.required_paths@),
        ).len(),
    ensures
        path_views(r.missing_paths@) == absent(
            docs_candidates_of(crate::text::string_views(config.docs.required_paths@)),
            present@,
        ),
        r.ok == (r.missing_paths@.len() == 0),
{
    let candidates = docs_candidates(config);
    let ghost all = path_views(candidates@);
    let mut missing: Vec<MissingPath> = Vec::new();
    let mut i: usize = 0;
    while i < candidates.len()
        invariant
            i <= candidates.len(),
            all == path_views(candidates@),
            present@.len() == candidates@.len(),
            path_views(missing@) == absent(all.take(i as int), present@),
        decreases candidates.len() - i,
    {
        proof {
            assert(all.take(i + 1).drop_last() == all.take(i as int));
            assert(all.take(i + 1).last() == all[i as int]);
        }
        if !present[i] {
            let c = &candidates[i];
            push_path(&mut missing, c.kind.as_str(), c.path.as_str());
        }
        i = i + 1;
    }
    proof {
        assert(all.take(candidates.len() as int) == all);
    }
    let ok = missing.len() == 0;
    DocsReport { ok, missing_paths: missing }
}

} // verus!
