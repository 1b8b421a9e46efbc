//! Git commands and how their results are read.
//!
//! The calling program runs each command in the target checkout and hands
//! back its [`CommandResult`]; this module builds the command text and
//! decides what the result means.
use vstd::prelude::*;

use crate::agent_exec::CommandResult;
use crate::diff_budget::{parse_numstat, DiffError, DiffStat};
use crate::github::{shell_quote, shell_quoted};
use crate::text::{
    char_vec_views, chars_eq, chars_of, contains_chars, contains_seq, copy_range, has_prefix,
    lines, lines_of, starts_with, string_of, trim, trim_chars,
};

verus! {

#[derive(Debug, Clone)]
pub struct WorktreeStatus {
    pub dirty_paths: Vec<String>,
    pub ignored_only: bool,
    pub stderr: String,
}

#[derive(Debug, Clone)]
pub struct GitFailureDetail {
    pub code: String,
    pub detail: Option<String>,
    pub git_stderr: Option<String>,
}

impl GitFailureDetail {
    fn new(code: &str) -> (r: Self)
        ensures
            r.code@ == code@,
            r.detail is None,
            r.git_stderr is None,
    {
        GitFailureDetail { code: code.to_owned(), detail: None, git_stderr: None }
    }
}

/// A git step that failed.
#[derive(Debug, Clone)]
pub enum GitError {
    StatusFailed,
    WorktreeDirty,
    NotGitRepo,
    SwitchFailed,
    BranchCreate(String),
    RevParseFailed,
    CurrentBranchFailed,
    BranchDeleteFailed,
    AddFailed,
    CommitFailed,
    PushFailed,
    DiffFailed,
    Numstat(DiffError),
}

/// The code a git error is reported by.
pub open spec fn git_fault_text(e: GitError) -> Seq<char> {
    match e {
        GitError::StatusFailed => "git_status_failed"@,
        GitError::WorktreeDirty => "git_worktree_dirty"@,
        GitError::NotGitRepo => "target_repo_not_git_repo"@,
        GitError::SwitchFailed => "git_switch_failed"@,
        GitError::BranchCreate(code) => code@,
        GitError::RevParseFailed => "git_rev_parse_failed"@,
        GitError::CurrentBranchFailed => "git_branch_current_failed"@,
        GitError::BranchDeleteFailed => "git_branch_delete_failed"@,
        GitError::AddFailed => "git_add_failed"@,
        GitError::CommitFailed => "git_commit_failed"@,
        GitError::PushFailed => "git_push_failed"@,
        GitError::DiffFailed => "git_diff_failed"@,
        GitError::Numstat(d) => crate::diff_budget::diff_fault_text(d@),
    }
}

impl GitError {
    pub fn message(&self) -> (r: String)
        ensures
            r@ == git_fault_text(*self),
    {
        match self {
            GitError::StatusFailed => "git_status_failed".to_owned(),
            GitError::WorktreeDirty => "git_worktree_dirty".to_owned(),
            GitError::NotGitRepo => "target_repo_not_git_repo".to_owned(),
            GitError::SwitchFailed => "git_switch_failed".to_owned(),
            GitError::BranchCreate(code) => code.clone(),
            GitError::RevParseFailed => "git_rev_parse_failed".to_owned(),
            GitError::CurrentBranchFailed => "git_branch_current_failed".to_owned(),
            GitError::BranchDeleteFailed => "git_branch_delete_failed".to_owned(),
            GitError::AddFailed => "git_add_failed".to_owned(),
            GitError::CommitFailed => "git_commit_failed".to_owned(),
            GitError::PushFailed => "git_push_failed".to_owned(),
            GitError::DiffFailed => "git_diff_failed".to_owned(),
            GitError::Numstat(d) => d.message(),
        }
    }
}

// ---------------------------------------------------------------------
// Status
// ---------------------------------------------------------------------

/// Bytes that `c` takes in UTF-8.
pub open spec fn utf8_width(c: char) -> int {
    if (c as u32) < 0x80 {
        1
    } else if (c as u32) < 0x800 {
        2
    } else if (c as u32) < 0x10000 {
        3
    } else {
        4
    }
}

/// The number of characters that make up the first `n` bytes of `s`, when
/// byte `n` falls on a character boundary (`str::get(n..)`).
pub open spec fn chars_for_bytes(s: Seq<char>, n: int) -> Option<int>
    decreases s.len(),
{
    if n == 0 {
        Some(0)
    } else if s.len() == 0 || utf8_width(s[0]) > n {
        None
    } else {
        match chars_for_bytes(s.drop_first(), n - utf8_width(s[0])) {
            Some(k) => Some(k + 1),
            None => None,
        }
    }
}

/// Where `p` first occurs in `s`.
pub open spec fn find_seq(s: Seq<char>, p: Seq<char>) -> Option<int>
    decreases s.len(),
{
    if starts_with(s, p) {
        Some(0)
    } else if s.len() == 0 {
        None
    } else {
        match find_seq(s.drop_first(), p) {
            Some(i) => Some(i + 1),
            None => None,
        }
    }
}

/// The last piece of `str::split(p)` for a non-empty `p`.
pub open spec fn last_piece(s: Seq<char>, p: Seq<char>) -> Seq<char>
    decreases s.len(),
{
    match find_seq(s, p) {
        Some(i) => if p.len() > 0 && 0 <= i && i + p.len() <= s.len() {
            last_piece(s.skip(i + p.len()), p)
        } else {
            s
        },
        None => s,
    }
}

/// `s` without leading or trailing `"` characters.
pub open spec fn trim_quotes(s: Seq<char>) -> Seq<char>
    decreases s.len(),
{
    if s.len() > 0 && s[0] == '"' {
        trim_quotes(s.drop_first())
    } else if s.len() > 0 && s.last() == '"' {
        trim_quotes(s.drop_last())
    } else {
        s
    }
}

/// The path a `git status --porcelain` line names: what follows the
/// two-letter status and its space, the new name of a rename, unquoted.
pub open spec fn status_path(line: Seq<char>) -> Option<Seq<char>> {
    match chars_for_bytes(line, 3) {
        None => None,
        Some(k) => {
            let v = trim_quotes(last_piece(trim(line.skip(k)), " -> "@));
            if v.len() == 0 {
                None
            } else {
                Some(v)
            }
        },
    }
}

pub open spec fn status_paths(ls: Seq<Seq<char>>) -> Seq<Seq<char>>
    decreases ls.len(),
{
    if ls.len() == 0 {
        Seq::empty()
    } else {
        match status_path(ls.last()) {
            Some(p) => status_paths(ls.drop_last()).push(p),
            None => status_paths(ls.drop_last()),
        }
    }
}

fn utf8_width_exec(c: char) -> (r: usize)
    ensures
        r == utf8_width(c),
{
    let u = c as u32;
    if u < 0x80 {
        1
    } else if u < 0x800 {
        2
    } else if u < 0x10000 {
        3
    } else {
        4
    }
}

fn chars_for_bytes_exec(s: &[char], n: usize) -> (r: Option<usize>)
    requires
        n <= 4,
    ensures
        match r {
            Some(k) => chars_for_bytes(s@, n as int) == Some(k as int) && k <= s.len(),
            None => chars_for_bytes(s@, n as int) is None,
        },
{
    let mut k: usize = 0;
    let mut left: usize = n;
    proof {
        assert(s@.skip(0) == s@);
    }
    while left > 0
        invariant
            k <= s.len(),
            left <= n,
            k + left <= n,
            chars_for_bytes(s@, n as int) == match chars_for_bytes(s@.skip(k as int), left as int) {
                Some(j) => Some(j + k),
                None => None::<int>,
            },
        decreases left,
    {
        if k >= s.len() {
            return None;
        }
        let w = utf8_width_exec(s[k]);
        if w > left {
            return None;
        }
        proof {
            assert(s@.skip(k as int).drop_first() == s@.skip(k + 1));
        }
        left = left - w;
        k = k + 1;
    }
    Some(k)
}

fn find_chars(s: &[char], p: &[char]) -> (r: Option<usize>)
    requires
        p.len() > 0,
    ensures
        match r {
            Some(i) => find_seq(s@, p@) == Some(i as int) && i + p.len() <= s.len(),
            None => find_seq(s@, p@) is None,
        },
{
    let mut i: usize = 0;
    proof {
        assert(s@.skip(0) == s@);
    }
    while i <= s.len()
        invariant
            i <= s.len(),
            p.len() > 0,
            find_seq(s@, p@) == match find_seq(s@.skip(i as int), p@) {
                Some(j) => Some(j + i),
                None => None::<int>,
            },
        decreases s.len() - i,
    {
        let rest = copy_range(s, i, s.len());
        assert(rest@ == s@.skip(i as int));
        if has_prefix(rest.as_slice(), p) {
            return Some(i);
        }
        if i == s.len() {
            return None;
        }
        proof {
            assert(s@.skip(i as int).drop_first() == s@.skip(i + 1));
        }
        i = i + 1;
    }
    None
}

fn last_piece_chars(s: &[char], p: &[char]) -> (r: Vec<char>)
    requires
        p.len() > 0,
    ensures
        r@ == last_piece(s@, p@),
{
    let mut cur = copy_range(s, 0, s.len());
    proof {
        assert(s@.subrange(0, s@.len() as int) == s@);
    }
    loop
        invariant
            p.len() > 0,
            last_piece(s@, p@) == last_piece(cur@, p@),
        decreases cur@.len(),
    {
        match find_chars(cur.as_slice(), p) {
            Some(i) => {
                let next = copy_range(cur.as_slice(), i + p.len(), cur.len());
                assert(next@ == cur@.skip(i + p.len()));
                cur = next;
            },
            None => {
                return cur;
            },
        }
    }
}

fn trim_quotes_chars(s: &[char]) -> (r: Vec<char>)
    ensures
        r@ == trim_quotes(s@),
{
    let mut a: usize = 0;
    let mut b: usize = s.len();
    proof {
        assert(s@.subrange(0, s@.len() as int) == s@);
    }
    while a < b && (s[a] == '"' || s[b - 1] == '"')
        invariant
            a <= b <= s.len(),
            trim_quotes(s@) == trim_quotes(s@.subrange(a as int, b as int)),
        decreases b - a,
    {
        let ghost t = s@.subrange(a as int, b as int);
        if s[a] == '"' {
            proof {
                assert(t.drop_first() == s@.subrange(a + 1, b as int));
            }
            a = a + 1;
        } else {
            proof {
                assert(t.drop_last() == s@.subrange(a as int, b - 1));
            }
            b = b - 1;
        }
    }
    copy_range(s, a, b)
}

fn parse_status_path(line: &[char]) -> (r: Option<String>)
    ensures
        match r {
            Some(v) => status_path(line@) == Some(v@),
            None => status_path(line@) is None,
        },
{
    let k = match chars_for_bytes_exec(line, 3) {
        Some(k) => k,
        None => {
            return None;
        },
    };
    let rest = copy_range(line, k, line.len());
    assert(rest@ == line@.skip(k as int));
    let t = trim_chars(rest.as_slice());
    let arrow = chars_of(" -> ");
    proof {
        reveal_strlit(" -> ");
    }
    let last = last_piece_chars(t.as_slice(), arrow.as_slice());
    let v = trim_quotes_chars(last.as_slice());
    if v.len() == 0 {
        None
    } else {
        Some(string_of(v.as_slice()))
    }
}

/// ` ':(exclude)PATH'` for a non-empty path (backslashes become slashes).
pub open spec fn exclude_arg(path: Seq<char>) -> Seq<char> {
    if path.len() == 0 {
        Seq::empty()
    } else {
        " "@ + shell_quoted(":(exclude)"@ + slashes(path))
    }
}

pub open spec fn slashes(path: Seq<char>) -> Seq<char> {
    Seq::new(path.len(), |i: int| if path[i] == '\\' { '/' } else { path[i] })
}

fn exclude_arg_exec(path: &String) -> (r: String)
    ensures
        r@ == exclude_arg(path@),
{
    let p = chars_of(path.as_str());
    if p.len() == 0 {
        return String::new();
    }
    let mut v = chars_of(":(exclude)");
    let ghost head = v@;
    let mut i: usize = 0;
    while i < p.len()
        invariant
            i <= p.len(),
            v@ == head + slashes(p@.take(i as int)),
        decreases p.len() - i,
    {
        if p[i] == '\\' {
            v.push('/');
        } else {
            v.push(p[i]);
        }
        assert(v@ =~= head + slashes(p@.take(i + 1)));
        i = i + 1;
    }
    assert(p@.take(p.len() as int) == p@);
    let joined = string_of(v.as_slice());
    let mut r = " ".to_owned();
    let q = shell_quote(joined.as_str());
    r.append(q.as_str());
    r
}

fn append_excludes(base: String, relative_ignored: &Vec<String>) -> (r: String)
    ensures
        r@ == base@ + excludes_text(crate::text::string_views(relative_ignored@)),
{
    let ghost start = base@;
    let mut command = base;
    let mut i: usize = 0;
    proof {
        assert(crate::text::string_views(relative_ignored@).take(0) =~= Seq::<Seq<char>>::empty());
        assert(command@ =~= start + excludes_text(Seq::<Seq<char>>::empty()));
    }
    while i < relative_ignored.len()
        invariant
            i <= relative_ignored.len(),
            command@ == start + excludes_text(
                crate::text::string_views(relative_ignored@).take(i as int),
            ),
        decreases relative_ignored.len() - i,
    {
        let arg = exclude_arg_exec(&relative_ignored[i]);
        command.append(arg.as_str());
        proof {
            let sv = crate::text::string_views(relative_ignored@);
            assert(sv.take(i + 1).drop_last() == sv.take(i as int));
            assert(sv.take(i + 1).last() == relative_ignored@[i as int]@);
        }
        i = i + 1;
    }
    proof {
        let sv = crate::text::string_views(relative_ignored@);
        assert(sv.take(relative_ignored.len() as int) == sv);
    }
    command
}

/// The exclusion arguments for the given paths, in order.
pub open spec fn excludes_text(paths: Seq<Seq<char>>) -> Seq<char>
    decreases paths.len(),
{
    if paths.len() == 0 {
        Seq::empty()
    } else {
        excludes_text(paths.drop_last()) + exclude_arg(paths.last())
    }
}

/// The status command that leaves out the given paths (relative to the
/// work tree; the caller drops paths outside it).
pub fn build_status_command(relative_ignored: &Vec<String>) -> (r: String)
    ensures
        r@ == "git status --porcelain --untracked-files=all -- ."@ + excludes_text(
            crate::text::string_views(relative_ignored@),
        ),
{
    let base = "git status --porcelain --untracked-files=all -- .".to_owned();
    append_excludes(base, relative_ignored)
}

/// Reads the result of the status command.
pub fn worktree_status(result: &CommandResult) -> (r: Result<WorktreeStatus, GitError>)
    ensures
        result.status_code != 0 ==> r matches Err(GitError::StatusFailed),
        result.status_code == 0 ==> (r matches Ok(s) && {
            &&& crate::text::string_views(s.dirty_paths@) == status_paths(lines(result.stdout@))
            &&& s.ignored_only == (trim(result.stdout@).len() == 0)
            &&& s.stderr@ == result.stderr@
        }),
{
    if !result.success() {
        return Err(GitError::StatusFailed);
    }
    let out = chars_of(result.stdout.as_str());
    let ls = lines_of(out.as_slice());
    let mut dirty: Vec<String> = Vec::new();
    let mut i: usize = 0;
    proof {
        assert(lines(result.stdout@).take(0) =~= Seq::<Seq<char>>::empty());
        assert(crate::text::string_views(dirty@) =~= Seq::<Seq<char>>::empty());
    }
    while i < ls.len()
        invariant
            i <= ls.len(),
            char_vec_views(ls@) == lines(result.stdout@),
            crate::text::string_views(dirty@) == status_paths(lines(result.stdout@).take(i as int)),
        decreases ls.len() - i,
    {
        proof {
            assert(lines(result.stdout@).take(i + 1).drop_last() == lines(result.stdout@).take(
                i as int,
            ));
            assert(lines(result.stdout@).take(i + 1).last() == ls@[i as int]@);
        }
        let ghost before = dirty@;
        match parse_status_path(ls[i].as_slice()) {
            Some(p) => {
                dirty.push(p);
                proof {
                    assert(crate::text::string_views(dirty@) =~= crate::text::string_views(
                        before,
                    ).push(dirty@.last()@));
                }
            },
            None => {},
        }
        i = i + 1;
    }
    proof {
        assert(lines(result.stdout@).take(ls.len() as int) == lines(result.stdout@));
    }
    let t = trim_chars(out.as_slice());
    Ok(
        WorktreeStatus {
            dirty_paths: dirty,
            ignored_only: t.len() == 0,
            stderr: result.stderr.clone(),
        },
    )
}

/// A work tree with dirty paths is refused.
pub fn ensure_clean_worktree(status: &WorktreeStatus) -> (r: Result<(), GitError>)
    ensures
        status.dirty_paths@.len() == 0 <==> r is Ok,
        r is Err ==> r matches Err(GitError::WorktreeDirty),
{
    if status.dirty_paths.len() > 0 {
        return Err(GitError::WorktreeDirty);
    }
    Ok(())
}

pub fn inside_work_tree_command() -> (r: String)
    ensures
        r@ == "git rev-parse --is-inside-work-tree"@,
{
    "git rev-parse --is-inside-work-tree".to_owned()
}

/// The target is a git work tree when `git rev-parse --is-inside-work-tree`
/// succeeds and prints `true`.
pub fn ensure_git_worktree(result: &CommandResult) -> (r: Result<(), GitError>)
    ensures
        (result.status_code == 0 && trim(result.stdout@) == "true"@) <==> r is Ok,
        r is Err ==> r matches Err(GitError::NotGitRepo),
{
    let out = chars_of(result.stdout.as_str());
    let t = trim_chars(out.as_slice());
    if !result.success() || !crate::models::eq_lit(t.as_slice(), "true") {
        return Err(GitError::NotGitRepo);
    }
    Ok(())
}

pub fn origin_url_command() -> (r: String)
    ensures
        r@ == "git remote get-url origin"@,
{
    "git remote get-url origin".to_owned()
}

/// `s` without any trailing `.git`.
pub open spec fn strip_git_suffix(s: Seq<char>) -> Seq<char>
    decreases s.len(),
{
    if s.len() >= 4 && s.subrange(s.len() - 4, s.len() as int) == ".git"@ {
        strip_git_suffix(s.take(s.len() - 4))
    } else {
        s
    }
}

/// `OWNER/REPO` of a GitHub remote URL in SSH, HTTPS or `ssh://` form.
pub open spec fn origin_slug_of(url: Seq<char>) -> Option<Seq<char>> {
    let t = trim(url);
    if starts_with(t, "git@github.com:"@) {
        Some(strip_git_suffix(t.skip(15)))
    } else if starts_with(t, "https://github.com/"@) {
        Some(strip_git_suffix(t.skip(19)))
    } else if starts_with(t, "ssh://git@github.com/"@) {
        Some(strip_git_suffix(t.skip(21)))
    } else {
        None
    }
}

/// `s` ends in `.git`.
pub open spec fn ends_in_git(s: Seq<char>) -> bool {
    s.len() >= 4 && s.subrange(s.len() - 4, s.len() as int) == ".git"@
}

proof fn lemma_prefixed_slug(p: Seq<char>, s: Seq<char>, k: int)
    requires
        p.len() == k,
        k > 0,
        !crate::text::is_ws(p[0]),
        s.len() > 0,
        !crate::text::is_ws(s.last()),
        !ends_in_git(s),
    ensures
        trim(p + s) == p + s,
        starts_with(p + s, p),
        (p + s).skip(k) == s,
        strip_git_suffix(s) == s,
        trim(p + s + ".git"@) == p + s + ".git"@,
        starts_with(p + s + ".git"@, p),
        (p + s + ".git"@).skip(k) == s + ".git"@,
        strip_git_suffix(s + ".git"@) == s,
{
    reveal_strlit(".git");
    let u = p + s;
    assert(u[0] == p[0]);
    assert(u.last() == s.last());
    crate::text::lemma_trim_unpadded(u);
    assert(u.take(k) =~= p);
    assert(u.skip(k) =~= s);
    let v = p + s + ".git"@;
    assert(v[0] == p[0]);
    assert(v.last() == 't');
    crate::text::lemma_trim_unpadded(v);
    assert(v.take(k) =~= p);
    assert(v.skip(k) =~= s + ".git"@);
    let sg = s + ".git"@;
    assert(sg.subrange(sg.len() - 4, sg.len() as int) =~= ".git"@);
    assert(sg.take(sg.len() - 4) =~= s);
}

/// The slug is the text after the host part exactly as written, letters in
/// their case, with one trailing `.git` dropped: for any `s` that does not
/// end in whitespace or `.git`, the SSH, HTTPS and `ssh://` remotes of `s`,
/// with or without `.git`, all give `s`.
pub proof fn lemma_origin_slug_verbatim(s: Seq<char>)
    requires
        s.len() > 0,
        !crate::text::is_ws(s.last()),
        !ends_in_git(s),
    ensures
        origin_slug_of("git@github.com:"@ + s) == Some(s),
        origin_slug_of("git@github.com:"@ + s + ".git"@) == Some(s),
        origin_slug_of("https://github.com/"@ + s) == Some(s),
        origin_slug_of("https://github.com/"@ + s + ".git"@) == Some(s),
        origin_slug_of("ssh://git@github.com/"@ + s) == Some(s),
        origin_slug_of("ssh://git@github.com/"@ + s + ".git"@) == Some(s),
{
    reveal_strlit("git@github.com:");
    reveal_strlit("https://github.com/");
    reveal_strlit("ssh://git@github.com/");
    let a = "git@github.com:"@;
    let b = "https://github.com/"@;
    let c = "ssh://git@github.com/"@;
    lemma_prefixed_slug(a, s, 15);
    lemma_prefixed_slug(b, s, 19);
    lemma_prefixed_slug(c, s, 21);
    assert(!starts_with(b + s, a)) by {
        assert((b + s)[0] != a[0]);
    }
    assert(!starts_with(b + s + ".git"@, a)) by {
        assert((b + s + ".git"@)[0] != a[0]);
    }
    assert(!starts_with(c + s, a)) by {
        assert((c + s)[0] != a[0]);
    }
    assert(!starts_with(c + s + ".git"@, a)) by {
        assert((c + s + ".git"@)[0] != a[0]);
    }
    assert(!starts_with(c + s, b)) by {
        assert((c + s)[0] != b[0]);
    }
    assert(!starts_with(c + s + ".git"@, b)) by {
        assert((c + s + ".git"@)[0] != b[0]);
    }
}

fn strip_git_suffix_chars(s: &[char]) -> (r: Vec<char>)
    ensures
        r@ == strip_git_suffix(s@),
{
    let mut end = s.len();
    proof {
        assert(s@.take(s.len() as int) == s@);
        reveal_strlit(".git");
    }
    while end >= 4 && s[end - 4] == '.' && s[end - 3] == 'g' && s[end - 2] == 'i' && s[end - 1] == 't'
        invariant
            end <= s.len(),
            strip_git_suffix(s@) == strip_git_suffix(s@.take(end as int)),
        decreases end,
    {
        proof {
            reveal_strlit(".git");
            let t = s@.take(end as int);
            assert(t.subrange(t.len() - 4, t.len() as int) =~= ".git"@);
            assert(t.take(t.len() - 4) == s@.take(end - 4));
        }
        end = end - 4;
    }
    proof {
        reveal_strlit(".git");
        let t = s@.take(end as int);
        if t.len() >= 4 {
            assert(t.subrange(t.len() - 4, t.len() as int) != ".git"@) by {
                if t.subrange(t.len() - 4, t.len() as int) == ".git"@ {
                    assert(t.subrange(t.len() - 4, t.len() as int)[0] == '.');
                    assert(t.subrange(t.len() - 4, t.len() as int)[1] == 'g');
                    assert(t.subrange(t.len() - 4, t.len() as int)[2] == 'i');
                    assert(t.subrange(t.len() - 4, t.len() as int)[3] == 't');
                }
            }
        }
    }
    copy_range(s, 0, end)
}

/// `OWNER/REPO` of a GitHub remote URL, if it is one.
pub fn parse_origin_repo_slug(url: &str) -> (r: Option<String>)
    ensures
        match r {
            Some(s) => origin_slug_of(url@) == Some(s@),
            None => origin_slug_of(url@) is None,
        },
{
    let u = chars_of(url);
    let t = trim_chars(u.as_slice());
    let ssh = chars_of("git@github.com:");
    let https = chars_of("https://github.com/");
    let sshu = chars_of("ssh://git@github.com/");
    proof {
        reveal_strlit("git@github.com:");
        reveal_strlit("https://github.com/");
        reveal_strlit("ssh://git@github.com/");
    }
    let skip = if has_prefix(t.as_slice(), ssh.as_slice()) {
        15
    } else if has_prefix(t.as_slice(), https.as_slice()) {
        19
    } else if has_prefix(t.as_slice(), sshu.as_slice()) {
        21
    } else {
        return None;
    };
    let rest = copy_range(t.as_slice(), skip, t.len());
    assert(rest@ == t@.skip(skip as int));
    let s = strip_git_suffix_chars(rest.as_slice());
    Some(string_of(s.as_slice()))
}

/// The `origin` slug, or `None` when the remote cannot be read.
pub fn origin_repo_slug(result: &CommandResult) -> (r: Option<String>)
    ensures
        result.status_code != 0 ==> r is None,
        result.status_code == 0 ==> match r {
            Some(s) => origin_slug_of(result.stdout@) == Some(s@),
            None => origin_slug_of(result.stdout@) is None,
        },
{
    if !result.success() {
        return None;
    }
    let out = chars_of(result.stdout.as_str());
    let t = trim_chars(out.as_slice());
    proof {
        crate::text::lemma_trim_idempotent(out@);
    }
    let ts = string_of(t.as_slice());
    parse_origin_repo_slug(ts.as_str())
}

// ---------------------------------------------------------------------
// Branches, commits, pushes, diffs
// ---------------------------------------------------------------------

/// `git switch 'BRANCH'`.
pub fn switch_branch_command(branch: &str) -> (r: String)
    ensures
        r@ == "git switch "@ + shell_quoted(branch@),
{
    let mut s = "git switch ".to_owned();
    let q = shell_quote(branch);
    s.append(q.as_str());
    s
}

pub fn switch_branch(result: &CommandResult) -> (r: Result<(), GitError>)
    ensures
        result.status_code == 0 <==> r is Ok,
        r is Err ==> r matches Err(GitError::SwitchFailed),
{
    if !result.success() {
        return Err(GitError::SwitchFailed);
    }
    Ok(())
}

/// `git switch -c 'BRANCH' 'START'`.
pub fn create_branch_command(branch: &str, start_point: &str) -> (r: String)
    ensures
        r@ == "git switch -c "@ + shell_quoted(branch@) + " "@ + shell_quoted(start_point@),
{
    let mut s = "git switch -c ".to_owned();
    let q = shell_quote(branch);
    s.append(q.as_str());
    s.append(" ");
    let q = shell_quote(start_point);
    s.append(q.as_str());
    s
}

/// Why creating a branch failed: a conflict when git says the branch
/// already exists; git's stderr kept when it is not blank.
pub fn create_branch_detailed(result: &CommandResult) -> (r: Option<GitFailureDetail>)
    ensures
        result.status_code == 0 <==> r is None,
        r matches Some(f) ==> {
            let conflict = contains_seq(result.stderr@, "already exists"@);
            &&& f.code@ == (if conflict {
                "git_branch_conflict"@
            } else {
                "git_branch_create_failed"@
            })
            &&& (if conflict {
                f.detail matches Some(d) && d@ == "branch_already_exists"@
            } else {
                f.detail is None
            })
            &&& (if trim(result.stderr@).len() == 0 {
                f.git_stderr is None
            } else {
                f.git_stderr matches Some(e) && e@ == result.stderr@
            })
        },
{
    if result.success() {
        return None;
    }
    let mut failure = GitFailureDetail::new("git_branch_create_failed");
    let err = chars_of(result.stderr.as_str());
    let t = trim_chars(err.as_slice());
    failure.git_stderr = if t.len() == 0 {
        None
    } else {
        Some(result.stderr.clone())
    };
    let pat = chars_of("already exists");
    if contains_chars(err.as_slice(), pat.as_slice()) {
        failure.code = "git_branch_conflict".to_owned();
        failure.detail = Some("branch_already_exists".to_owned());
    }
    Some(failure)
}

pub fn create_branch(result: &CommandResult) -> (r: Result<(), GitError>)
    ensures
        result.status_code == 0 <==> r is Ok,
        r matches Err(GitError::BranchCreate(code)) ==> (if contains_seq(
            result.stderr@,
            "already exists"@,
        ) {
            code@ == "git_branch_conflict"@
        } else {
            code@ == "git_branch_create_failed"@
        }),
        r is Err ==> r matches Err(GitError::BranchCreate(_)),
{
    match create_branch_detailed(result) {
        Some(failure) => Err(GitError::BranchCreate(failure.code)),
        None => Ok(()),
    }
}

/// `git rev-parse 'VALUE'`.
pub fn rev_parse_command(value: &str) -> (r: String)
    ensures
        r@ == "git rev-parse "@ + shell_quoted(value@),
{
    let mut s = "git rev-parse ".to_owned();
    let q = shell_quote(value);
    s.append(q.as_str());
    s
}

/// The object name `git rev-parse` printed: its first line, trimmed.
pub fn rev_parse(result: &CommandResult) -> (r: Result<String, GitError>)
    ensures
        result.status_code != 0 ==> r matches Err(GitError::RevParseFailed),
        result.status_code == 0 ==> (r matches Ok(s) && s@ == (if lines(result.stdout@).len() > 0 {
            trim(lines(result.stdout@)[0])
        } else {
            Seq::empty()
        })),
{
    if !result.success() {
        return Err(GitError::RevParseFailed);
    }
    let out = chars_of(result.stdout.as_str());
    let ls = lines_of(out.as_slice());
    if ls.len() == 0 {
        return Ok(String::new());
    }
    assert(ls@[0]@ == lines(result.stdout@)[0]);
    let t = trim_chars(ls[0].as_slice());
    Ok(string_of(t.as_slice()))
}

pub fn current_branch_command() -> (r: String)
    ensures
        r@ == "git branch --show-current"@,
{
    "git branch --show-current".to_owned()
}

/// The branch `git branch --show-current` printed, trimmed.
pub fn current_branch(result: &CommandResult) -> (r: Result<String, GitError>)
    ensures
        result.status_code != 0 ==> r matches Err(GitError::CurrentBranchFailed),
        result.status_code == 0 ==> (r matches Ok(s) && s@ == trim(result.stdout@)),
{
    if !result.success() {
        return Err(GitError::CurrentBranchFailed);
    }
    let out = chars_of(result.stdout.as_str());
    let t = trim_chars(out.as_slice());
    Ok(string_of(t.as_slice()))
}

/// `git show-ref --verify --quiet 'refs/heads/BRANCH'`.
pub fn local_branch_exists_command(branch: &str) -> (r: String)
    ensures
        r@ == "git show-ref --verify --quiet "@ + shell_quoted("refs/heads/"@ + branch@),
{
    let mut s = "git show-ref --verify --quiet ".to_owned();
    let mut refname = "refs/heads/".to_owned();
    refname.append(branch);
    let q = shell_quote(refname.as_str());
    s.append(q.as_str());
    s
}

/// The branch exists exactly when `git show-ref` exits with status 0.
pub fn local_branch_exists(result: &CommandResult) -> (r: bool)
    ensures
        r == (result.status_code == 0),
{
    result.status_code == 0
}

/// A branch that is checked out must be left before it is deleted.
pub fn must_switch_before_delete(current: &str, branch: &str) -> (r: bool)
    ensures
        r == (current@ == branch@),
{
    crate::text::str_eq(current, branch)
}

/// `git branch -D 'BRANCH'`.
pub fn delete_branch_command(branch: &str) -> (r: String)
    ensures
        r@ == "git branch -D "@ + shell_quoted(branch@),
{
    let mut s = "git branch -D ".to_owned();
    let q = shell_quote(branch);
    s.append(q.as_str());
    s
}

pub fn delete_local_branch(result: &CommandResult) -> (r: Result<(), GitError>)
    ensures
        result.status_code == 0 <==> r is Ok,
        r is Err ==> r matches Err(GitError::BranchDeleteFailed),
{
    if !result.success() {
        return Err(GitError::BranchDeleteFailed);
    }
    Ok(())
}

pub fn add_all_command() -> (r: String)
    ensures
        r@ == "git add -A"@,
{
    "git add -A".to_owned()
}

/// `git commit -m 'MESSAGE'`.
pub fn commit_command(message: &str) -> (r: String)
    ensures
        r@ == "git commit -m "@ + shell_quoted(message@),
{
    let mut s = "git commit -m ".to_owned();
    let q = shell_quote(message);
    s.append(q.as_str());
    s
}

/// Staging must succeed, then the commit.
pub fn commit_all(add: &CommandResult, commit: Option<&CommandResult>) -> (r: Result<(), GitError>)
    ensures
        add.status_code != 0 ==> r matches Err(GitError::AddFailed),
        add.status_code == 0 ==> match commit {
            None => r matches Err(GitError::CommitFailed),
            Some(c) => if c.status_code == 0 {
                r is Ok
            } else {
                r matches Err(GitError::CommitFailed)
            },
        },
{
    if !add.success() {
        return Err(GitError::AddFailed);
    }
    match commit {
        Some(c) => if c.success() {
            Ok(())
        } else {
            Err(GitError::CommitFailed)
        },
        None => Err(GitError::CommitFailed),
    }
}

/// A git command that has to succeed before the next one of its sequence
/// runs; its kind says which error a failure is.
#[derive(Debug, Clone, Copy, PartialEq, Eq, Structural)]
pub enum GitStepKind {
    Switch,
    DeleteBranch,
    Add,
    Commit,
}

/// One command of a git sequence.
#[derive(Debug)]
pub struct GitStep {
    pub kind: GitStepKind,
    pub command: String,
}

/// The error a failed step of the given kind is reported as.
pub open spec fn step_failure(kind: GitStepKind) -> GitError {
    match kind {
        GitStepKind::Switch => GitError::SwitchFailed,
        GitStepKind::DeleteBranch => GitError::BranchDeleteFailed,
        GitStepKind::Add => GitError::AddFailed,
        GitStepKind::Commit => GitError::CommitFailed,
    }
}

/// Deleting a local branch: a branch that is checked out is left for
/// `switch_to` first, then `git branch -D` deletes it.
pub fn delete_branch_steps(current: &str, branch: &str, switch_to: &str) -> (r: Vec<GitStep>)
    ensures
        current@ == branch@ ==> {
            &&& r@.len() == 2
            &&& r@[0].kind == GitStepKind::Switch
            &&& r@[0].command@ == "git switch "@ + shell_quoted(switch_to@)
            &&& r@[1].kind == GitStepKind::DeleteBranch
            &&& r@[1].command@ == "git branch -D "@ + shell_quoted(branch@)
        },
        current@ != branch@ ==> {
            &&& r@.len() == 1
            &&& r@[0].kind == GitStepKind::DeleteBranch
            &&& r@[0].command@ == "git branch -D "@ + shell_quoted(branch@)
        },
{
    let mut r: Vec<GitStep> = Vec::new();
    if must_switch_before_delete(current, branch) {
        r.push(GitStep { kind: GitStepKind::Switch, command: switch_branch_command(switch_to) });
    }
    r.push(GitStep { kind: GitStepKind::DeleteBranch, command: delete_branch_command(branch) });
    r
}

/// Committing everything: `git add -A`, then `git commit -m`.
pub fn commit_steps(message: &str) -> (r: Vec<GitStep>)
    ensures
        r@.len() == 2,
        r@[0].kind == GitStepKind::Add,
        r@[0].command@ == "git add -A"@,
        r@[1].kind == GitStepKind::Commit,
        r@[1].command@ == "git commit -m "@ + shell_quoted(message@),
{
    let mut r: Vec<GitStep> = Vec::new();
    r.push(GitStep { kind: GitStepKind::Add, command: add_all_command() });
    r.push(GitStep { kind: GitStepKind::Commit, command: commit_command(message) });
    r
}

/// What a step's result means: it succeeded when git exited with status 0,
/// and failed with its kind's error otherwise, which ends the sequence.
pub fn step_result(step: &GitStep, result: &CommandResult) -> (r: Result<(), GitError>)
    ensures
        result.status_code == 0 ==> r is Ok,
        result.status_code != 0 ==> r == Err::<(), GitError>(step_failure(step.kind)),
{
    if result.success() {
        return Ok(());
    }
    match step.kind {
        GitStepKind::Switch => Err(GitError::SwitchFailed),
        GitStepKind::DeleteBranch => Err(GitError::BranchDeleteFailed),
        GitStepKind::Add => Err(GitError::AddFailed),
        GitStepKind::Commit => Err(GitError::CommitFailed),
    }
}

/// `git push --set-upstream origin 'BRANCH'`.
pub fn push_command(branch: &str) -> (r: String)
    ensures
        r@ == "git push --set-upstream origin "@ + shell_quoted(branch@),
{
    let mut s = "git push --set-upstream origin ".to_owned();
    let q = shell_quote(branch);
    s.append(q.as_str());
    s
}

pub fn push_current_branch(result: &CommandResult) -> (r: Result<(), GitError>)
    ensures
        result.status_code == 0 <==> r is Ok,
        r is Err ==> r matches Err(GitError::PushFailed),
{
    if !result.success() {
        return Err(GitError::PushFailed);
    }
    Ok(())
}

/// `git diff --numstat 'BASE' -- .` with the exclusions.
pub fn diff_command(base_sha: &str, relative_ignored: &Vec<String>) -> (r: String)
    ensures
        r@ == "git diff --numstat "@ + shell_quoted(base_sha@) + " -- ."@ + excludes_text(
            crate::text::string_views(relative_ignored@),
        ),
{
    let mut s = "git diff --numstat ".to_owned();
    let q = shell_quote(base_sha);
    s.append(q.as_str());
    s.append(" -- .");
    append_excludes(s, relative_ignored)
}

/// The diff size that `git diff --numstat` reported.
pub fn diff_against(result: &CommandResult) -> (r: Result<DiffStat, GitError>)
    ensures
        result.status_code != 0 ==> r matches Err(GitError::DiffFailed),
        result.status_code == 0 ==> match crate::diff_budget::numstat_of(result.stdout@) {
            Ok((c, f)) => r == Ok::<DiffStat, GitError>(
                DiffStat { changed_lines: c as u32, files_touched: f as u32 },
            ),
            Err(e) => (r matches Err(GitError::Numstat(d)) && d@ == e),
        },
{
    if !result.success() {
        return Err(GitError::DiffFailed);
    }
    match parse_numstat(result.stdout.as_str()) {
        Ok(stat) => Ok(stat),
        Err(e) => Err(GitError::Numstat(e)),
    }
}

} // verus!
