//! Git remotes and the checks made of a repository's worktree.
use vstd::prelude::*;
use crate::config::Config;
use crate::error::Error;
use crate::process::{capture_result, captured, Action, Answer, Captured, Invocation, IoMode, Runner};
use crate::strmap::StrMap;
use crate::text::{
    chars_between, chars_eq_ignore_case, chars_of, concat, concat_all, debug_quote, debug_quoted,
    eq_ignore_case, has_prefix, has_suffix, is_space, str_eq, string_from_chars, trim,
    trim_chars, trim_end, trim_end_char, trim_end_char_chars, trim_start, trim_str, views,
};

verus! {

/// The remote with white space and trailing slashes removed.
pub open spec fn canonical(v: Seq<char>) -> Seq<char> {
    trim_end_char(trim(v), '/')
}

/// The remote without one trailing `.git`.
pub open spec fn without_git_suffix(s: Seq<char>) -> Seq<char> {
    if ".git"@.is_suffix_of(s) {
        s.take(s.len() - ".git"@.len())
    } else {
        s
    }
}

/// What follows a GitHub SSH, `ssh://` or HTTPS prefix.
pub open spec fn github_path(s: Seq<char>) -> Option<Seq<char>> {
    if "git@github.com:"@.is_prefix_of(s) {
        Some(s.skip("git@github.com:"@.len() as int))
    } else if "ssh://git@github.com/"@.is_prefix_of(s) {
        Some(s.skip("ssh://git@github.com/"@.len() as int))
    } else if "https://github.com/"@.is_prefix_of(s) {
        Some(s.skip("https://github.com/"@.len() as int))
    } else {
        None
    }
}

/// Exactly one `/`, with something before and after it: `owner/name`.
pub open spec fn owner_and_name(p: Seq<char>) -> bool {
    exists|k: int|
        0 < k < p.len() - 1 && p[k] == '/' && forall|j: int|
            0 <= j < p.len() && j != k ==> #[trigger] p[j] != '/'
}

/// A GitHub remote in the form `github.com/owner/name`, or `None` for a
/// remote that is not one.
pub open spec fn normalized(v: Seq<char>) -> Option<Seq<char>> {
    match github_path(without_git_suffix(canonical(v))) {
        Some(p) => if owner_and_name(p) {
            Some("github.com/"@ + p)
        } else {
            None
        },
        None => None,
    }
}

/// Two remotes name the same repository: both GitHub remotes equal up to
/// ASCII case once normalized, or neither a GitHub remote and equal once
/// trimmed.
pub open spec fn same_remote(a: Seq<char>, b: Seq<char>) -> bool {
    match (normalized(a), normalized(b)) {
        (Some(x), Some(y)) => eq_ignore_case(x, y),
        (None, None) => canonical(a) == canonical(b),
        _ => false,
    }
}

fn strip_literal_prefix(s: &Vec<char>, prefix: &str) -> (r: Option<Vec<char>>)
    ensures
        match r {
            Some(rest) => prefix@.is_prefix_of(s@) && rest@ == s@.skip(prefix@.len() as int),
            None => !prefix@.is_prefix_of(s@),
        },
{
    let p = chars_of(prefix);
    if has_prefix(s, &p) {
        Some(chars_between(s, p.len(), s.len()))
    } else {
        None
    }
}

fn single_inner_slash(p: &Vec<char>) -> (b: bool)
    ensures
        b == owner_and_name(p@),
{
    let mut count: usize = 0;
    let mut last: usize = 0;
    let ghost mut first: int = 0;
    let mut i: usize = 0;
    let n = p.len();
    while i < n
        invariant
            n == p@.len(),
            i <= p@.len(),
            count <= i,
            count == 0 ==> forall|j: int| 0 <= j < i ==> p@[j] != '/',
            count >= 1 ==> last < i && p@[last as int] == '/',
            count == 1 ==> forall|j: int| 0 <= j < i && j != last ==> p@[j] != '/',
            count >= 2 ==> 0 <= first < i && first != last && p@[first] == '/',
        decreases p@.len() - i,
    {
        if p[i] == '/' {
            if count == 1 {
                proof {
                    first = last as int;
                }
            }
            count = count + 1;
            last = i;
        }
        i += 1;
    }
    if count == 1 && last > 0 && last + 1 < n {
        assert(0 < last < p@.len() - 1 && p@[last as int] == '/' && forall|j: int|
            0 <= j < p@.len() && j != last ==> #[trigger] p@[j] != '/');
        true
    } else {
        proof {
            if owner_and_name(p@) {
                let k = choose|k: int|
                    0 < k < p@.len() - 1 && p@[k] == '/' && forall|j: int|
                        0 <= j < p@.len() && j != k ==> #[trigger] p@[j] != '/';
                if count == 0 {
                    assert(p@[k] != '/');
                } else if count == 1 {
                    if k != last {
                        assert(p@[k] != '/');
                    }
                } else {
                    if first != k {
                        assert(p@[first] != '/');
                    } else {
                        assert(p@[last as int] != '/');
                    }
                }
            }
        }
        false
    }
}

/// A GitHub remote in the form `github.com/owner/name`: white space and
/// trailing slashes removed, then one `.git` suffix, then the SSH, `ssh://`
/// or HTTPS prefix; `None` unless what remains is exactly `owner/name`.
pub fn normalize_remote(value: &str) -> (r: Option<String>)
    ensures
        match r {
            Some(s) => normalized(value@) == Some(s@),
            None => normalized(value@) is None,
        },
{
    let v = chars_of(value);
    let t = trim_chars(&v);
    let s1 = trim_end_char_chars(&t, '/');
    let suffix = chars_of(".git");
    let s2 = if has_suffix(&s1, &suffix) {
        chars_between(&s1, 0, s1.len() - suffix.len())
    } else {
        s1
    };
    assert(s2@ == without_git_suffix(canonical(value@)));
    let rest = match strip_literal_prefix(&s2, "git@github.com:") {
        Some(r) => r,
        None => match strip_literal_prefix(&s2, "ssh://git@github.com/") {
            Some(r) => r,
            None => match strip_literal_prefix(&s2, "https://github.com/") {
                Some(r) => r,
                None => {
                    return None;
                },
            },
        },
    };
    assert(github_path(s2@) == Some(rest@));
    if single_inner_slash(&rest) {
        let tail = string_from_chars(&rest);
        Some(concat("github.com/", tail.as_str()))
    } else {
        None
    }
}

/// The remote with white space and trailing slashes removed.
pub fn canonical_remote(value: &str) -> (r: String)
    ensures
        r@ == canonical(value@),
{
    let v = chars_of(value);
    let t = trim_chars(&v);
    let s = trim_end_char_chars(&t, '/');
    string_from_chars(&s)
}

/// Whether two remotes name the same repository.
pub fn remotes_equal(actual: &str, expected: &str) -> (b: bool)
    ensures
        b == same_remote(actual@, expected@),
{
    match (normalize_remote(actual), normalize_remote(expected)) {
        (Some(a), Some(b)) => {
            let x = chars_of(a.as_str());
            let y = chars_of(b.as_str());
            chars_eq_ignore_case(&x, &y)
        },
        (None, None) => {
            let a = canonical_remote(actual);
            let b = canonical_remote(expected);
            str_eq(a.as_str(), b.as_str())
        },
        _ => false,
    }
}

/// Every remote names the same repository as itself.
pub proof fn lemma_same_remote_reflexive(a: Seq<char>)
    ensures
        same_remote(a, a),
{
}

/// Naming the same repository does not depend on the order of the remotes.
pub proof fn lemma_same_remote_symmetric(a: Seq<char>, b: Seq<char>)
    requires
        same_remote(a, b),
    ensures
        same_remote(b, a),
{
}

/// Naming the same repository is transitive.
pub proof fn lemma_same_remote_transitive(a: Seq<char>, b: Seq<char>, c: Seq<char>)
    requires
        same_remote(a, b),
        same_remote(b, c),
    ensures
        same_remote(a, c),
{
}

/// The text `prefix + owner + "/" + name + suffix` of a GitHub remote.
pub open spec fn github_remote(prefix: Seq<char>, owner: Seq<char>, name: Seq<char>, suffix: Seq<
    char,
>) -> Seq<char> {
    prefix + owner + seq!['/'] + name + suffix
}

/// A repository name that the forms below carry unchanged: it has no `/`,
/// does not end in white space and does not itself end in `.git`.
pub open spec fn plain_segment(s: Seq<char>) -> bool {
    &&& s.len() > 0
    &&& forall|j: int| 0 <= j < s.len() ==> #[trigger] s[j] != '/'
    &&& !is_space(s.last())
    &&& !".git"@.is_suffix_of(s)
}

/// The SSH, `ssh://` and HTTPS forms of a GitHub remote, with or without a
/// `.git` suffix, all normalize to `github.com/owner/name`.
pub proof fn lemma_github_forms_normalize(
    prefix: Seq<char>,
    owner: Seq<char>,
    name: Seq<char>,
    suffix: Seq<char>,
)
    requires
        prefix == "git@github.com:"@ || prefix == "ssh://git@github.com/"@ || prefix
            == "https://github.com/"@,
        suffix == ".git"@ || suffix == Seq::<char>::empty(),
        owner.len() > 0,
        forall|j: int| 0 <= j < owner.len() ==> #[trigger] owner[j] != '/',
        plain_segment(name),
    ensures
        normalized(github_remote(prefix, owner, name, suffix)) == Some(
            "github.com/"@ + owner + seq!['/'] + name,
        ),
{
    reveal_strlit("git@github.com:");
    reveal_strlit("ssh://git@github.com/");
    reveal_strlit("https://github.com/");
    reveal_strlit(".git");
    let v = github_remote(prefix, owner, name, suffix);
    let body = prefix + owner + seq!['/'] + name;
    assert(v =~= body + suffix);
    assert(!is_space(v[0]));
    assert(!is_space(v.last())) by {
        if suffix.len() > 0 {
            assert(v.last() == 't');
        } else {
            assert(v.last() == name.last());
        }
    }
    assert(trim(v) == v) by {
        assert(trim_start(v) == v);
        assert(trim_end(v) == v);
    }
    assert(v.last() != '/') by {
        if suffix.len() > 0 {
            assert(v.last() == 't');
        } else {
            assert(v.last() == name.last());
            assert(name[name.len() - 1] != '/');
        }
    }
    assert(canonical(v) == v);
    assert(without_git_suffix(v) =~= body) by {
        if suffix.len() > 0 {
            assert(".git"@.is_suffix_of(v)) by {
                assert(v.skip(v.len() - 4) =~= suffix);
            }
            assert(v.take(v.len() - 4) =~= body);
        } else {
            assert(v =~= body);
            if ".git"@.is_suffix_of(body) {
                let t = body.skip(body.len() - 4);
                if name.len() >= 4 {
                    assert(t =~= name.skip(name.len() - 4));
                    assert(".git"@.is_suffix_of(name));
                } else {
                    let k = body.len() - 1 - name.len();
                    assert(body[k] == '/');
                    assert(t[k - (body.len() - 4)] == '/');
                }
            }
        }
    }
    let p = owner + seq!['/'] + name;
    assert(github_path(body) == Some(p)) by {
        assert(prefix.is_prefix_of(body)) by {
            assert(body.take(prefix.len() as int) =~= prefix);
        }
        assert(body.skip(prefix.len() as int) =~= p);
        if prefix == "ssh://git@github.com/"@ {
            assert(body[0] == 's');
        } else if prefix == "https://github.com/"@ {
            assert(body[0] == 'h');
        }
    }
    assert(owner_and_name(p)) by {
        let k = owner.len() as int;
        assert(p[k] == '/');
        assert forall|j: int| 0 <= j < p.len() && j != k implies #[trigger] p[j] != '/' by {
            if j < k {
                assert(p[j] == owner[j]);
            } else {
                assert(p[j] == name[j - k - 1]);
            }
        }
    }
    assert("github.com/"@ + p =~= "github.com/"@ + owner + seq!['/'] + name);
}

/// The argv, without the program, of `git -C <repo> <args>`.
pub fn git_args(repo: &str, args: &Vec<&str>) -> (r: Vec<String>)
    ensures
        views(r@) == seq!["-C"@, repo@] + args@.map_values(|a: &str| a@),
{
    let mut r: Vec<String> = Vec::new();
    r.push(String::from_str("-C"));
    r.push(String::from_str(repo));
    let mut i: usize = 0;
    while i < args.len()
        invariant
            i <= args@.len(),
            views(r@) == seq!["-C"@, repo@] + args@.take(i as int).map_values(|a: &str| a@),
        decreases args@.len() - i,
    {
        let ghost before = r@;
        let a = String::from_str(args[i]);
        r.push(a);
        proof {
            assert(views(r@) =~= views(before).push(a@));
            assert(args@.take(i + 1).map_values(|a: &str| a@) =~= args@.take(i as int).map_values(
                |a: &str| a@,
            ).push(args@[i as int]@));
        }
        i += 1;
    }
    assert(args@.take(args@.len() as int) =~= args@);
    r
}

/// The captured invocation of `git -C <repo> <args>`.
pub fn git_invocation(repo: &str, args: Vec<&str>) -> (i: Invocation)
    ensures
        views(i.argv@) == seq!["git"@, "-C"@, repo@] + args@.map_values(|a: &str| a@),
        i.cwd is None,
        i.env@.len() == 0,
        i.io == IoMode::Capture,
{
    let a = git_args(repo, &args);
    let i = Invocation::new("git", a, None, StrMap::new(), IoMode::Capture);
    assert(views(i.argv@) =~= seq!["git"@, "-C"@, repo@] + args@.map_values(|a: &str| a@));
    i
}

/// What the checks of a worktree observe, one command at a time.
pub enum RepoObservation {
    /// Whether `git rev-parse --show-toplevel` names the repository path.
    Toplevel { is_root: bool },
    /// The output of `git symbolic-ref --quiet --short HEAD`, or how it failed.
    Branch(Result<String, Error>),
    /// The output of `git remote get-url origin`.
    Origin(String),
    /// The output of `git status --porcelain=v1 --untracked-files=all`.
    Status(String),
}

/// The argv of the `k`-th command that checks a worktree: the worktree
/// root, the attached branch, the origin remote, the worktree status.
pub open spec fn probe_argv(repo: Seq<char>, k: int) -> Seq<Seq<char>> {
    seq!["git"@, "-C"@, repo] + if k == 0 {
        seq!["rev-parse"@, "--show-toplevel"@]
    } else if k == 1 {
        seq!["symbolic-ref"@, "--quiet"@, "--short"@, "HEAD"@]
    } else if k == 2 {
        seq!["remote"@, "get-url"@, "origin"@]
    } else {
        seq!["status"@, "--porcelain=v1"@, "--untracked-files=all"@]
    }
}

/// `i` is the `k`-th command that checks a worktree, captured.
pub open spec fn is_probe(i: Invocation, repo: Seq<char>, k: int) -> bool {
    &&& views(i.argv@) == probe_argv(repo, k)
    &&& i.cwd is None
    &&& i.env@.len() == 0
    &&& i.io == IoMode::Capture
}

/// The `k`-th command that checks a worktree.
pub fn probe(repo: &str, k: usize) -> (i: Invocation)
    requires
        k < 4,
    ensures
        is_probe(i, repo@, k as int),
{
    let args = if k == 0 {
        vec!["rev-parse", "--show-toplevel"]
    } else if k == 1 {
        vec!["symbolic-ref", "--quiet", "--short", "HEAD"]
    } else if k == 2 {
        vec!["remote", "get-url", "origin"]
    } else {
        vec!["status", "--porcelain=v1", "--untracked-files=all"]
    };
    let i = git_invocation(repo, args);
    assert(views(i.argv@) =~= probe_argv(repo@, k as int));
    i
}

/// The commands that check a worktree, in the order they run.
pub fn repo_probes(repo: &str) -> (v: Vec<Invocation>)
    ensures
        v@.len() == 4,
        forall|k: int| 0 <= k < 4 ==> is_probe(#[trigger] v@[k], repo@, k),
{
    let mut v: Vec<Invocation> = Vec::new();
    let mut k: usize = 0;
    while k < 4
        invariant
            k <= 4,
            v@.len() == k,
            forall|x: int| 0 <= x < k ==> is_probe(#[trigger] v@[x], repo@, x),
        decreases 4 - k,
    {
        v.push(probe(repo, k));
        k += 1;
    }
    v
}

/// What is wrong with the worktree given one observation, if anything.
pub open spec fn observation_problem(
    cfg: Config,
    require_clean: bool,
    obs: RepoObservation,
) -> Option<Seq<char>> {
    match obs {
        RepoObservation::Toplevel { is_root } => if is_root {
            None
        } else {
            Some("repository path is not the Git worktree root"@)
        },
        RepoObservation::Branch(Err(e)) => Some("expected an attached branch: "@ + e.0@),
        RepoObservation::Branch(Ok(out)) => if trim(out@) == cfg.repository.branch@ {
            None
        } else {
            Some("expected branch "@ + cfg.repository.branch@ + ", found "@ + trim(out@))
        },
        RepoObservation::Origin(out) => if same_remote(trim(out@), cfg.repository.origin@) {
            None
        } else {
            Some(
                "origin does not match configured repository: expected "@ + debug_quoted(
                    cfg.repository.origin@,
                ) + ", found "@ + debug_quoted(trim(out@)),
            )
        },
        RepoObservation::Status(out) => if require_clean && out@.len() > 0 {
            Some("worktree is not clean:\n"@ + out@)
        } else {
            None
        },
    }
}

/// Checks one observation of the worktree: it must be the worktree root, on
/// the configured branch, with the configured origin, and, when asked,
/// without tracked or untracked changes.
pub fn check_observation(cfg: &Config, require_clean: bool, obs: &RepoObservation) -> (r: Result<
    (),
    Error,
>)
    ensures
        match r {
            Ok(()) => observation_problem(*cfg, require_clean, *obs) is None,
            Err(e) => observation_problem(*cfg, require_clean, *obs) == Some(e.0@),
        },
{
    match obs {
        RepoObservation::Toplevel { is_root } => {
            if *is_root {
                Ok(())
            } else {
                Err(Error(String::from_str("repository path is not the Git worktree root")))
            }
        },
        RepoObservation::Branch(Err(e)) => {
            Err(Error(concat("expected an attached branch: ", e.0.as_str())))
        },
        RepoObservation::Branch(Ok(out)) => {
            let actual = trim_str(out.as_str());
            if str_eq(actual.as_str(), cfg.repository.branch.as_str()) {
                Ok(())
            } else {
                let parts = vec![
                    "expected branch ",
                    cfg.repository.branch.as_str(),
                    ", found ",
                    actual.as_str(),
                ];
                let m = concat_all(&parts);
                proof {
                    assert(m@ =~= "expected branch "@ + cfg.repository.branch@ + ", found "@
                        + actual@) by {
                        reveal_with_fuel(crate::text::join, 5);
                    }
                }
                Err(Error(m))
            }
        },
        RepoObservation::Origin(out) => {
            let actual = trim_str(out.as_str());
            if remotes_equal(actual.as_str(), cfg.repository.origin.as_str()) {
                Ok(())
            } else {
                let expected_q = debug_quote(cfg.repository.origin.as_str());
                let actual_q = debug_quote(actual.as_str());
                let parts = vec![
                    "origin does not match configured repository: expected ",
                    expected_q.as_str(),
                    ", found ",
                    actual_q.as_str(),
                ];
                let m = concat_all(&parts);
                proof {
                    assert(m@ =~= "origin does not match configured repository: expected "@
                        + expected_q@ + ", found "@ + actual_q@) by {
                        reveal_with_fuel(crate::text::join, 5);
                    }
                }
                Err(Error(m))
            }
        },
        RepoObservation::Status(out) => {
            if require_clean && !out.as_str().is_empty() {
                Err(Error(concat("worktree is not clean:\n", out.as_str())))
            } else {
                Ok(())
            }
        },
    }
}

/// An outcome with its error, if any, taken as text.
pub open spec fn messages(o: Result<Captured, Error>) -> Result<Captured, Seq<char>> {
    match o {
        Ok(c) => Ok(c),
        Err(e) => Err(e.0@),
    }
}

/// What step `k` of the worktree checks finds wrong, if anything, given what
/// capturing its command gave and, for the first step, whether the trimmed
/// output names the repository.  A failure to capture the branch means that
/// `HEAD` is detached.
pub open spec fn step_problem(
    cfg: Config,
    require_clean: bool,
    k: int,
    c: Result<Captured, Seq<char>>,
    root: bool,
) -> Option<Seq<char>> {
    match c {
        Err(m) => if k == 1 {
            Some("expected an attached branch: "@ + m)
        } else {
            Some(m)
        },
        Ok(out) => if k == 0 {
            observation_problem(cfg, require_clean, RepoObservation::Toplevel { is_root: root })
        } else if k == 1 {
            observation_problem(cfg, require_clean, RepoObservation::Branch(Ok(out.stdout)))
        } else if k == 2 {
            observation_problem(cfg, require_clean, RepoObservation::Origin(out.stdout))
        } else {
            observation_problem(cfg, require_clean, RepoObservation::Status(out.stdout))
        },
    }
}

fn check_step(cfg: &Config, require_clean: bool, k: usize, out: &Result<Captured, Error>, root: bool) -> (r:
    Result<(), Error>)
    requires
        k < 4,
    ensures
        match r {
            Ok(()) => step_problem(*cfg, require_clean, k as int, messages(*out), root) is None,
            Err(e) => step_problem(*cfg, require_clean, k as int, messages(*out), root) == Some(e.0@),
        },
{
    match out {
        Err(e) => {
            if k == 1 {
                Err(Error(concat("expected an attached branch: ", e.0.as_str())))
            } else {
                Err(Error(e.0.clone()))
            }
        },
        Ok(c) => {
            let obs = if k == 0 {
                RepoObservation::Toplevel { is_root: root }
            } else if k == 1 {
                RepoObservation::Branch(Ok(c.stdout.clone()))
            } else if k == 2 {
                RepoObservation::Origin(c.stdout.clone())
            } else {
                RepoObservation::Status(c.stdout.clone())
            };
            check_observation(cfg, require_clean, &obs)
        },
    }
}

/// Checking a worktree one probe at a time: that it is the worktree root,
/// on the configured branch, with the configured origin and, when asked,
/// without changes.  Each step records at most one probe, which is then the
/// only command to run, and the checks stop at the first that fails.
pub struct WorktreeCheck {
    /// How many probes have been recorded.
    pub next: usize,
    /// Whether the first probe's output named the repository.
    pub root: bool,
    /// Where the probes start in the runner's record.
    pub base: usize,
}

impl WorktreeCheck {
    /// The probes recorded so far, in order, follow what the runner had
    /// recorded before; the runner really runs.
    pub open spec fn wf(&self, r: Runner, repo: Seq<char>) -> bool {
        &&& !r.dry_run
        &&& self.next <= 4
        &&& r.intended@.len() == self.base + self.next
        &&& forall|j: int| 0 <= j < self.next ==> is_probe(#[trigger] r.intended@[self.base + j], repo, j)
    }

    /// Checks that start with the next invocation `r` records.
    pub fn new(r: &Runner) -> (c: WorktreeCheck)
        ensures
            c.next == 0,
            c.base == r.intended@.len(),
            !r.dry_run ==> forall|repo: Seq<char>| #[trigger] c.wf(*r, repo),
    {
        WorktreeCheck { next: 0, root: false, base: r.intended.len() }
    }

    fn record_probe(&mut self, r: &mut Runner, repo: &str)
        requires
            old(self).wf(*old(r), repo@),
            old(self).next < 4,
        ensures
            final(self).wf(*final(r), repo@),
            final(self).next == old(self).next + 1,
            final(self).base == old(self).base,
            final(self).root == old(self).root,
            final(r).dry_run == old(r).dry_run,
            final(r).intended@.len() == old(r).intended@.len() + 1,
            final(r).intended@.drop_last() == old(r).intended@,
    {
        let inv = probe(repo, self.next);
        r.record(inv);
        self.next = self.next + 1;
        assert(r.intended@.drop_last() =~= old(r).intended@);
    }

    /// One step of the checks, given the answer to the last action: `Begin`
    /// at first, `Captured` for a probe, `Names` for whether the first
    /// probe's trimmed output names the repository.
    pub fn step(
        &mut self,
        r: &mut Runner,
        repo: &str,
        cfg: &Config,
        require_clean: bool,
        answer: Answer,
    ) -> (a: Action)
        requires
            old(self).wf(*old(r), repo@),
            answer is Begin ==> old(self).next == 0,
            answer is Captured ==> old(self).next > 0,
            answer is Names ==> old(self).next == 1,
            answer is Begin || answer is Captured || answer is Names,
        ensures
            final(self).wf(*final(r), repo@),
            final(self).base == old(self).base,
            final(r).dry_run == old(r).dry_run,
            a is Capture ==> final(self).next == old(self).next + 1 && final(r).intended@.len()
                == old(r).intended@.len() + 1 && final(r).intended@.drop_last() == old(r).intended@,
            !(a is Capture) ==> final(r).intended@ == old(r).intended@ && final(self).next == old(
                self,
            ).next,
            a == Action::Done(Ok(())) ==> final(self).next == 4,
            a is Capture || a is NamesRepo || a is Done,
            answer is Begin ==> a is Capture,
            answer matches Answer::Names(b) ==> match observation_problem(
                *cfg,
                require_clean,
                RepoObservation::Toplevel { is_root: b },
            ) {
                Some(m) => a matches Action::Done(Err(e)) && e.0@ == m,
                None => a is Capture && final(self).root == b,
            },
            answer matches Answer::Captured(o) ==> {
                let c = captured(old(r).intended@.last(), o);
                if old(self).next == 1 && c is Ok {
                    a matches Action::NamesRepo(t) && t@ == trim(c->Ok_0.stdout@)
                } else {
                    match step_problem(*cfg, require_clean, old(self).next - 1, c, old(self).root) {
                        Some(m) => a matches Action::Done(Err(e)) && e.0@ == m,
                        None => if old(self).next < 4 {
                            a is Capture
                        } else {
                            a == Action::Done(Ok(()))
                        },
                    }
                }
            },
    {
        match answer {
            Answer::Names(b) => {
                let obs = RepoObservation::Toplevel { is_root: b };
                match check_observation(cfg, require_clean, &obs) {
                    Err(e) => Action::Done(Err(e)),
                    Ok(()) => {
                        self.root = b;
                        self.record_probe(r, repo);
                        Action::Capture
                    },
                }
            },
            Answer::Captured(o) => {
                let k = self.next - 1;
                let last = r.intended.len() - 1;
                let c = capture_result(&r.intended[last], o);
                if k == 0 {
                    match &c {
                        Ok(out) => {
                            return Action::NamesRepo(trim_str(out.stdout.as_str()));
                        },
                        Err(_) => {},
                    }
                }
                match check_step(cfg, require_clean, k, &c, self.root) {
                    Err(e) => Action::Done(Err(e)),
                    Ok(()) => {
                        if self.next < 4 {
                            self.record_probe(r, repo);
                            Action::Capture
                        } else {
                            Action::Done(Ok(()))
                        }
                    },
                }
            },
            _ => {
                self.record_probe(r, repo);
                Action::Capture
            },
        }
    }
}

/// The branch check accepts exactly the configured branch: it passes when
/// the trimmed output of `git symbolic-ref` is the configured branch, and for
/// any other output it fails with a message that names both.
pub proof fn lemma_branch_check_needs_the_configured_branch(cfg: Config, require_clean: bool, out: String)
    ensures
        observation_problem(cfg, require_clean, RepoObservation::Branch(Ok(out))) is None <==> trim(out@)
            == cfg.repository.branch@,
        trim(out@) != cfg.repository.branch@ ==> observation_problem(
            cfg,
            require_clean,
            RepoObservation::Branch(Ok(out)),
        ) == Some("expected branch "@ + cfg.repository.branch@ + ", found "@ + trim(out@)),
{
}

} // verus!
