//! What each command runs and reports: `add`, `edit`, `apply`, `status`,
//! `doctor` and the stages of `update`.
use vstd::prelude::*;
use crate::config::{Config, Environment, Hook};
use crate::error::Error;
use crate::locator::opt_view;
use crate::platform::{lemma_auto_selection_fits, profile_selection, select_profile_for, Platform};
use crate::hooks::{hook_invocations, runs_hook};
use crate::mise::{
    environment_selection, mise_argv, mise_dir, mise_dir_of, mise_invocation, plain, push_all,
    selected_environments, strings_of, trust_plan, trusted_files,
};
use crate::git::{is_probe, WorktreeCheck};
use crate::process::{capture_result, captured, Action, Answer, Invocation, IoMode, PlanRun, Runner};
use crate::strmap::StrMap;
use crate::text::{concat, concat_all, trim, trim_str, views};
use crate::VERSION;

verus! {

/// The targets an environment is applied with: the ones given, or the
/// environment's own when none are given.
pub open spec fn chosen_targets(env: Environment, targets: Seq<Seq<char>>) -> Seq<Seq<char>> {
    if targets.len() == 0 {
        views(env.targets@)
    } else {
        targets
    }
}

/// `mise dotfiles apply --yes` for an environment's chosen targets.
pub open spec fn apply_argv(
    repo: Seq<char>,
    cfg: Config,
    env: Environment,
    targets: Seq<Seq<char>>,
) -> Seq<Seq<char>> {
    mise_argv(
        repo,
        cfg,
        env.mise_environment,
        seq!["dotfiles"@, "apply"@, "--yes"@] + chosen_targets(env, targets),
    )
}

/// `mise dotfiles status --missing` for an environment's chosen targets.
pub open spec fn missing_argv(
    repo: Seq<char>,
    cfg: Config,
    env: Environment,
    targets: Seq<Seq<char>>,
) -> Seq<Seq<char>> {
    mise_argv(
        repo,
        cfg,
        env.mise_environment,
        seq!["dotfiles"@, "status"@, "--missing"@] + chosen_targets(env, targets),
    )
}

/// `mise dotfiles status` for an environment's chosen targets.
pub open spec fn drift_argv(
    repo: Seq<char>,
    cfg: Config,
    env: Environment,
    targets: Seq<Seq<char>>,
) -> Seq<Seq<char>> {
    mise_argv(
        repo,
        cfg,
        env.mise_environment,
        seq!["dotfiles"@, "status"@] + chosen_targets(env, targets),
    )
}

/// The plan of `apply`: each environment applied, then each environment's
/// missing and then full status of the same targets; all passed through.
pub open spec fn is_apply_plan(
    plan: Seq<Invocation>,
    repo: Seq<char>,
    cfg: Config,
    envs: Seq<Environment>,
    targets: Seq<Seq<char>>,
) -> bool {
    let n = envs.len();
    &&& plan.len() == 3 * n
    &&& forall|k: int|
        0 <= k < n ==> views((#[trigger] plan[k]).argv@) == apply_argv(repo, cfg, envs[k], targets)
            && plain(plan[k], IoMode::Inherit)
    &&& forall|k: int|
        0 <= k < n ==> views((#[trigger] plan[n + 2 * k]).argv@) == missing_argv(
            repo,
            cfg,
            envs[k],
            targets,
        ) && plain(plan[n + 2 * k], IoMode::Inherit)
    &&& forall|k: int|
        0 <= k < n ==> views((#[trigger] plan[n + 2 * k + 1]).argv@) == drift_argv(
            repo,
            cfg,
            envs[k],
            targets,
        ) && plain(plan[n + 2 * k + 1], IoMode::Inherit)
}

fn chosen_targets_of(env: &Environment, targets: &Vec<String>) -> (v: Vec<String>)
    ensures
        views(v@) == chosen_targets(*env, views(targets@)),
{
    let mut v: Vec<String> = Vec::new();
    if targets.len() == 0 {
        push_all(&mut v, &env.targets);
    } else {
        push_all(&mut v, targets);
    }
    v
}

fn strings1(a: &str) -> (v: Vec<String>)
    ensures
        views(v@) == seq![a@],
{
    let mut v: Vec<String> = Vec::new();
    v.push(String::from_str(a));
    assert(views(v@) =~= seq![a@]);
    v
}

fn strings2(a: &str, b: &str) -> (v: Vec<String>)
    ensures
        views(v@) == seq![a@, b@],
{
    let mut v = strings1(a);
    let ghost before = v@;
    let x = String::from_str(b);
    v.push(x);
    assert(views(v@) =~= views(before).push(x@));
    assert(views(v@) =~= seq![a@, b@]);
    v
}

fn strings3(a: &str, b: &str, c: &str) -> (v: Vec<String>)
    ensures
        views(v@) == seq![a@, b@, c@],
{
    let mut v = strings2(a, b);
    let ghost before = v@;
    let x = String::from_str(c);
    v.push(x);
    assert(views(v@) =~= views(before).push(x@));
    assert(views(v@) =~= seq![a@, b@, c@]);
    v
}

fn dotfiles_args(words: Vec<&str>, rest: &Vec<String>) -> (v: Vec<String>)
    ensures
        views(v@) == words@.map_values(|w: &str| w@) + views(rest@),
{
    let mut v = strings_of(words);
    push_all(&mut v, rest);
    v
}

/// The invocations of `apply` for a profile: apply each environment's
/// targets (or the targets given), then check their missing and full status.
pub fn apply_plan(repo: &str, cfg: &Config, profile: &str, targets: &Vec<String>) -> (r: Result<
    Vec<Invocation>,
    Error,
>)
    ensures
        match r {
            Ok(v) => environment_selection(*cfg, profile@) matches Ok(envs) && is_apply_plan(
                v@,
                repo@,
                *cfg,
                envs,
                views(targets@),
            ),
            Err(e) => environment_selection(*cfg, profile@) == Err::<Seq<Environment>, Seq<char>>(
                e.0@,
            ),
        },
{
    let envs = selected_environments(cfg, profile)?;
    let ghost es = environment_selection(*cfg, profile@)->Ok_0;
    let ghost ts = views(targets@);
    let n = envs.len();
    let mut plan: Vec<Invocation> = Vec::new();
    let mut k: usize = 0;
    while k < n
        invariant
            n == envs@.len(),
            n == es.len(),
            forall|x: int| 0 <= x < es.len() ==> *(#[trigger] envs@[x]) == es[x],
            ts == views(targets@),
            k <= n,
            plan@.len() == k,
            forall|x: int|
                0 <= x < k ==> views((#[trigger] plan@[x]).argv@) == apply_argv(
                    repo@,
                    *cfg,
                    es[x],
                    ts,
                ) && plain(plan@[x], IoMode::Inherit),
        decreases n - k,
    {
        let chosen = chosen_targets_of(envs[k], targets);
        let mut args = strings3("dotfiles", "apply", "--yes");
        push_all(&mut args, &chosen);
        let inv = mise_invocation(repo, cfg, envs[k], &args, IoMode::Inherit);
        plan.push(inv);
        k += 1;
    }
    let mut k: usize = 0;
    while k < n
        invariant
            n == envs@.len(),
            n == es.len(),
            forall|x: int| 0 <= x < es.len() ==> *(#[trigger] envs@[x]) == es[x],
            ts == views(targets@),
            k <= n,
            plan@.len() == n + 2 * k,
            forall|x: int|
                0 <= x < n ==> views((#[trigger] plan@[x]).argv@) == apply_argv(
                    repo@,
                    *cfg,
                    es[x],
                    ts,
                ) && plain(plan@[x], IoMode::Inherit),
            forall|x: int|
                0 <= x < k ==> views((#[trigger] plan@[n + 2 * x]).argv@) == missing_argv(
                    repo@,
                    *cfg,
                    es[x],
                    ts,
                ) && plain(plan@[n + 2 * x], IoMode::Inherit),
            forall|x: int|
                0 <= x < k ==> views((#[trigger] plan@[n + 2 * x + 1]).argv@) == drift_argv(
                    repo@,
                    *cfg,
                    es[x],
                    ts,
                ) && plain(plan@[n + 2 * x + 1], IoMode::Inherit),
        decreases n - k,
    {
        let chosen = chosen_targets_of(envs[k], targets);
        let mut missing = strings3("dotfiles", "status", "--missing");
        push_all(&mut missing, &chosen);
        let mut full = strings2("dotfiles", "status");
        push_all(&mut full, &chosen);
        let a = mise_invocation(repo, cfg, envs[k], &missing, IoMode::Inherit);
        let b = mise_invocation(repo, cfg, envs[k], &full, IoMode::Inherit);
        let ghost before = plan@;
        plan.push(a);
        plan.push(b);
        proof {
            assert forall|x: int| 0 <= x < n implies views((#[trigger] plan@[x]).argv@)
                == apply_argv(repo@, *cfg, es[x], ts) && plain(plan@[x], IoMode::Inherit) by {
                assert(plan@[x] == before[x]);
            }
            assert forall|x: int| 0 <= x < k + 1 implies views((#[trigger] plan@[n + 2 * x]).argv@)
                == missing_argv(repo@, *cfg, es[x], ts) && plain(plan@[n + 2 * x], IoMode::Inherit) by {
                if x < k {
                    assert(plan@[n + 2 * x] == before[n + 2 * x]);
                }
            }
            assert forall|x: int| 0 <= x < k + 1 implies views(
                (#[trigger] plan@[n + 2 * x + 1]).argv@,
            ) == drift_argv(repo@, *cfg, es[x], ts) && plain(
                plan@[n + 2 * x + 1],
                IoMode::Inherit,
            ) by {
                if x < k {
                    assert(plan@[n + 2 * x + 1] == before[n + 2 * x + 1]);
                }
            }
        }
        k += 1;
    }
    Ok(plan)
}

/// The environment `add` uses: `[common]` unless a profile was given
/// explicitly, then that profile's `add_environment`.
pub open spec fn add_target_environment(cfg: Config, profile: Seq<char>, explicit: bool) -> Result<
    Option<String>,
    Seq<char>,
> {
    if explicit {
        match cfg.profiles.lookup(profile) {
            Some(p) => Ok(p.add_environment),
            None => Err("unknown profile: "@ + profile),
        }
    } else {
        Ok(cfg.common.mise_environment)
    }
}

/// The invocation of `mise dotfiles add <targets>` in the environment
/// `add` uses.
pub fn add_invocation(
    repo: &str,
    cfg: &Config,
    profile: &str,
    profile_explicit: bool,
    targets: &Vec<String>,
) -> (r: Result<Invocation, Error>)
    ensures
        match r {
            Ok(i) => add_target_environment(*cfg, profile@, profile_explicit) matches Ok(name)
                && views(i.argv@) == mise_argv(
                repo@,
                *cfg,
                name,
                seq!["dotfiles"@, "add"@] + views(targets@),
            ) && plain(i, IoMode::Inherit),
            Err(e) => add_target_environment(*cfg, profile@, profile_explicit) == Err::<
                Option<String>,
                Seq<char>,
            >(e.0@),
        },
{
    let env = if profile_explicit {
        match cfg.profiles.get(profile) {
            Some(p) => crate::mise::add_environment(p),
            None => {
                return Err(Error(concat("unknown profile: ", profile)));
            },
        }
    } else {
        cfg.common.duplicate()
    };
    let words_args = vec!["dotfiles", "add"];
    proof {
        assert(words_args@.map_values(|w: &str| w@) =~= seq!["dotfiles"@, "add"@]);
    }
    let args = dotfiles_args(words_args, targets);
    Ok(mise_invocation(repo, cfg, &env, &args, IoMode::Inherit))
}

/// The invocation of `mise dotfiles edit <target>` in the profile's
/// `add_environment`.
pub fn edit_invocation(repo: &str, cfg: &Config, profile: &str, target: &str) -> (r: Result<
    Invocation,
    Error,
>)
    ensures
        match r {
            Ok(i) => cfg.profiles.lookup(profile@) matches Some(p) && views(i.argv@) == mise_argv(
                repo@,
                *cfg,
                p.add_environment,
                seq!["dotfiles"@, "edit"@, target@],
            ) && plain(i, IoMode::Inherit),
            Err(e) => cfg.profiles.lookup(profile@) is None && e.0@ == "unknown profile: "@
                + profile@,
        },
{
    let env = match cfg.profiles.get(profile) {
        Some(p) => crate::mise::add_environment(p),
        None => {
            return Err(Error(concat("unknown profile: ", profile)));
        },
    };
    let args = strings3("dotfiles", "edit", target);
    Ok(mise_invocation(repo, cfg, &env, &args, IoMode::Inherit))
}

/// The captured `mise dotfiles status --missing` of each environment's
/// targets, whose failure is drift.
pub fn status_invocations(repo: &str, cfg: &Config, profile: &str) -> (r: Result<
    Vec<Invocation>,
    Error,
>)
    ensures
        match r {
            Ok(v) => environment_selection(*cfg, profile@) matches Ok(envs) && v@.len()
                == envs.len() && forall|k: int|
                0 <= k < envs.len() ==> views((#[trigger] v@[k]).argv@) == missing_argv(
                    repo@,
                    *cfg,
                    envs[k],
                    Seq::empty(),
                ) && plain(v@[k], IoMode::Capture),
            Err(e) => environment_selection(*cfg, profile@) == Err::<Seq<Environment>, Seq<char>>(
                e.0@,
            ),
        },
{
    let envs = selected_environments(cfg, profile)?;
    let ghost es = environment_selection(*cfg, profile@)->Ok_0;
    let none: Vec<String> = Vec::new();
    let mut v: Vec<Invocation> = Vec::new();
    let mut k: usize = 0;
    while k < envs.len()
        invariant
            envs@.len() == es.len(),
            forall|x: int| 0 <= x < es.len() ==> *(#[trigger] envs@[x]) == es[x],
            none@.len() == 0,
            k <= envs@.len(),
            v@.len() == k,
            forall|x: int|
                0 <= x < k ==> views((#[trigger] v@[x]).argv@) == missing_argv(
                    repo@,
                    *cfg,
                    es[x],
                    Seq::empty(),
                ) && plain(v@[x], IoMode::Capture),
        decreases envs@.len() - k,
    {
        let chosen = chosen_targets_of(envs[k], &none);
        assert(views(none@) =~= Seq::<Seq<char>>::empty());
        let words_args = vec!["dotfiles", "status", "--missing"];
        proof {
            assert(words_args@.map_values(|w: &str| w@) =~= seq![
            "dotfiles"@,
            "status"@,
            "--missing"@,
        ]);
        }
        let args = dotfiles_args(words_args, &chosen);
        v.push(mise_invocation(repo, cfg, envs[k], &args, IoMode::Capture));
        k += 1;
    }
    Ok(v)
}

/// The summary `status` prints before the mise output.
pub open spec fn status_summary_text(
    repo: Seq<char>,
    branch_output: Seq<char>,
    profile: Seq<char>,
    status_output: Seq<char>,
) -> Seq<char> {
    "repository: "@ + repo + "\nbranch: "@ + trim(branch_output) + "\nprofile: "@ + profile
        + "\ngit: "@ + (if status_output.len() == 0 {
        "clean"@
    } else {
        "dirty"@
    })
}

/// The summary `status` prints: repository, branch, profile, and whether
/// the worktree is clean.
pub fn status_summary(repo: &str, branch_output: &str, profile: &str, status_output: &str) -> (r:
    String)
    ensures
        r@ == status_summary_text(repo@, branch_output@, profile@, status_output@),
{
    let branch = trim_str(branch_output);
    let state = if status_output.is_empty() {
        "clean"
    } else {
        "dirty"
    };
    let parts = vec![
        "repository: ",
        repo,
        "\nbranch: ",
        branch.as_str(),
        "\nprofile: ",
        profile,
        "\ngit: ",
        state,
    ];
    let m = concat_all(&parts);
    proof {
        assert(m@ =~= status_summary_text(repo@, branch_output@, profile@, status_output@)) by {
            reveal_with_fuel(crate::text::join, 9);
        }
    }
    m
}

/// The exit code of `status`: 1 when checking and the worktree is dirty or
/// some environment's missing-status check failed, 0 otherwise.
pub fn status_exit_code(check: bool, status_output: &str, env_succeeded: &Vec<bool>) -> (code: u8)
    ensures
        code == (if check && (status_output@.len() > 0 || exists|k: int|
            0 <= k < env_succeeded@.len() && !#[trigger] env_succeeded@[k]) {
            1u8
        } else {
            0u8
        }),
{
    let mut drift = false;
    let mut k: usize = 0;
    while k < env_succeeded.len()
        invariant
            k <= env_succeeded@.len(),
            drift == exists|x: int| 0 <= x < k && !#[trigger] env_succeeded@[x],
        decreases env_succeeded@.len() - k,
    {
        if !env_succeeded[k] {
            drift = true;
        }
        k += 1;
    }
    if check && (!status_output.is_empty() || drift) {
        1
    } else {
        0
    }
}

/// `i` is the captured `git --version` (`k` = 0) or `mise --version`
/// (`k` = 1), which shows that the tool is on `PATH`.
pub open spec fn is_version_probe(i: Invocation, k: int) -> bool {
    &&& views(i.argv@) == seq![if k == 0 { "git"@ } else { "mise"@ }, "--version"@]
    &&& plain(i, IoMode::Capture)
}

/// The `k`-th version probe.
pub fn version_probe(k: usize) -> (i: Invocation)
    requires
        k < 2,
    ensures
        is_version_probe(i, k as int),
{
    let program = if k == 0 {
        "git"
    } else {
        "mise"
    };
    let i = Invocation::new(program, strings1("--version"), None, StrMap::new(), IoMode::Capture);
    assert(views(i.argv@) =~= seq![program@, "--version"@]);
    i
}

/// The captured `git --version` and `mise --version`.
pub fn version_probes() -> (v: Vec<Invocation>)
    ensures
        v@.len() == 2,
        is_version_probe(v@[0], 0),
        is_version_probe(v@[1], 1),
{
    let mut v: Vec<Invocation> = Vec::new();
    v.push(version_probe(0));
    v.push(version_probe(1));
    v
}

/// The error `doctor` reports for a tool that does not answer.
pub fn tool_missing(tool: &str) -> (e: Error)
    ensures
        e.0@ == tool@ + " is required and must be on PATH"@,
{
    Error(concat(tool, " is required and must be on PATH"))
}

/// The report `doctor` prints first.
pub fn doctor_summary(repo: &str, profile: &str) -> (r: String)
    ensures
        r@ == "dotflow "@ + VERSION@ + "\nrepo: "@ + repo@ + "\nprofile: "@ + profile@
            + "\nconfig: valid"@,
{
    let parts = vec!["dotflow ", VERSION, "\nrepo: ", repo, "\nprofile: ", profile, "\nconfig: valid"];
    let m = concat_all(&parts);
    proof {
        assert(m@ =~= "dotflow "@ + VERSION@ + "\nrepo: "@ + repo@ + "\nprofile: "@ + profile@
            + "\nconfig: valid"@) by {
            reveal_with_fuel(crate::text::join, 8);
        }
    }
    m
}

/// The name `doctor` shows for an environment.
pub open spec fn environment_label(env: Environment) -> Seq<char> {
    match env.mise_environment {
        Some(n) => n@,
        None => "base"@,
    }
}

/// The lines `doctor` prints for the profile's environments.
pub fn doctor_environment_lines(cfg: &Config, profile: &str) -> (r: Result<Vec<String>, Error>)
    ensures
        match r {
            Ok(v) => environment_selection(*cfg, profile@) matches Ok(envs) && v@.len()
                == envs.len() && forall|k: int|
                0 <= k < envs.len() ==> (#[trigger] v@[k])@ == "mise environment: "@
                    + environment_label(envs[k]),
            Err(e) => environment_selection(*cfg, profile@) == Err::<Seq<Environment>, Seq<char>>(
                e.0@,
            ),
        },
{
    let envs = selected_environments(cfg, profile)?;
    let ghost es = environment_selection(*cfg, profile@)->Ok_0;
    let mut v: Vec<String> = Vec::new();
    let mut k: usize = 0;
    while k < envs.len()
        invariant
            envs@.len() == es.len(),
            forall|x: int| 0 <= x < es.len() ==> *(#[trigger] envs@[x]) == es[x],
            k <= envs@.len(),
            v@.len() == k,
            forall|x: int|
                0 <= x < k ==> (#[trigger] v@[x])@ == "mise environment: "@ + environment_label(es[x]),
        decreases envs@.len() - k,
    {
        let line = match &envs[k].mise_environment {
            Some(n) => concat("mise environment: ", n.as_str()),
            None => concat("mise environment: ", "base"),
        };
        v.push(line);
        k += 1;
    }
    Ok(v)
}

/// `i` is `git -C <repo> pull --ff-only origin <branch>`, passed through.
pub open spec fn is_pull(i: Invocation, repo: Seq<char>, branch: Seq<char>) -> bool {
    &&& views(i.argv@) == seq!["git"@, "-C"@, repo, "pull"@, "--ff-only"@, "origin"@, branch]
    &&& plain(i, IoMode::Inherit)
}

/// `git -C <repo> pull --ff-only origin <branch>`, passed through.
pub fn pull_invocation(repo: &str, branch: &str) -> (i: Invocation)
    ensures
        is_pull(i, repo@, branch@),
{
    let words = vec!["-C", repo, "pull", "--ff-only", "origin", branch];
    proof {
        assert(words@.map_values(|w: &str| w@) =~= seq![
            "-C"@,
            repo@,
            "pull"@,
            "--ff-only"@,
            "origin"@,
            branch@,
        ]);
    }
    let args = strings_of(words);
    let i = Invocation::new("git", args, None, StrMap::new(), IoMode::Inherit);
    assert(views(i.argv@) =~= seq![
        "git"@,
        "-C"@,
        repo@,
        "pull"@,
        "--ff-only"@,
        "origin"@,
        branch@,
    ]);
    i
}

/// A named stage of `update` and the invocations it runs, or why they could
/// not be planned.
pub struct Stage {
    pub name: String,
    pub plan: Result<Vec<Invocation>, Error>,
}

/// A stage whose plan runs the hooks.
pub open spec fn is_hook_stage(
    plan: Result<Vec<Invocation>, Error>,
    hooks: Seq<Hook>,
    repo: Seq<char>,
    home: Option<Seq<char>>,
    backend: Seq<char>,
) -> bool {
    match plan {
        Ok(v) => home is Some && v@.len() == hooks.len() && forall|k: int|
            0 <= k < hooks.len() ==> runs_hook(#[trigger] v@[k], hooks[k], repo, home->Some_0, backend),
        Err(e) => home is None && e.0@ == "home directory is unavailable"@,
    }
}

/// `mise install` for each environment, passed through.
pub open spec fn is_install_plan(plan: Seq<Invocation>, repo: Seq<char>, cfg: Config, envs: Seq<
    Environment,
>) -> bool {
    &&& plan.len() == envs.len()
    &&& forall|k: int|
        0 <= k < envs.len() ==> views((#[trigger] plan[k]).argv@) == mise_argv(
            repo,
            cfg,
            envs[k].mise_environment,
            seq!["install"@],
        ) && plain(plan[k], IoMode::Inherit)
}

/// The stages of `update` after the pull, for profile `profile` of `cfg`,
/// in the order they run: its `after_sync` hooks, trusting the
/// configuration files, applying and checking the targets, its
/// `before_install` hooks, and installing each environment.
pub open spec fn is_update_plan(
    stages: Seq<Stage>,
    repo: Seq<char>,
    cfg: Config,
    profile: Seq<char>,
    home: Option<Seq<char>>,
) -> bool {
    cfg.profiles.lookup(profile) matches Some(p) && environment_selection(cfg, profile) matches Ok(
        envs,
    ) && {
        let backend = mise_dir(repo, cfg);
        &&& stages.len() == 5
        &&& stages[0].name@ == "after_sync hooks"@
        &&& stages[1].name@ == "trust"@
        &&& stages[2].name@ == "apply"@
        &&& stages[3].name@ == "before_install hooks"@
        &&& stages[4].name@ == "install"@
        &&& is_hook_stage(stages[0].plan, p.after_sync@, repo, home, backend)
        &&& stages[1].plan matches Ok(v) && v@.len() == trusted_files(repo, cfg, envs).len()
            && forall|k: int|
            0 <= k < v@.len() ==> views((#[trigger] v@[k]).argv@) == seq![
                "mise"@,
                "trust"@,
                trusted_files(repo, cfg, envs)[k],
            ] && plain(v@[k], IoMode::Inherit)
        &&& stages[2].plan matches Ok(v) && is_apply_plan(v@, repo, cfg, envs, Seq::empty())
        &&& is_hook_stage(stages[3].plan, p.before_install@, repo, home, backend)
        &&& stages[4].plan matches Ok(v) && is_install_plan(v@, repo, cfg, envs)
    }
}

/// The stages of `update` after the pull, for the selected profile of the
/// refreshed configuration.
pub fn update_stages(repo: &str, cfg: &Config, profile: &str, home: Option<&str>) -> (r: Result<
    Vec<Stage>,
    Error,
>)
    ensures
        match r {
            Ok(stages) => is_update_plan(
                stages@,
                repo@,
                *cfg,
                profile@,
                crate::locator::opt_view(home),
            ),
            Err(e) => cfg.profiles.lookup(profile@) is None && e.0@ == "unknown profile: "@
                + profile@,
        },
{
    let p = match cfg.profiles.get(profile) {
        Some(p) => p,
        None => {
            return Err(Error(concat("unknown profile: ", profile)));
        },
    };
    let backend = mise_dir_of(repo, cfg);
    let after = hook_invocations(&p.after_sync, repo, home, backend.as_str());
    let trust = trust_plan(repo, cfg, profile);
    let none: Vec<String> = Vec::new();
    let apply = apply_plan(repo, cfg, profile, &none);
    assert(views(none@) =~= Seq::<Seq<char>>::empty());
    let before = hook_invocations(&p.before_install, repo, home, backend.as_str());
    let envs = match selected_environments(cfg, profile) {
        Ok(envs) => envs,
        Err(e) => {
            return Err(e);
        },
    };
    let ghost es = environment_selection(*cfg, profile@)->Ok_0;
    let mut install: Vec<Invocation> = Vec::new();
    let mut k: usize = 0;
    while k < envs.len()
        invariant
            envs@.len() == es.len(),
            forall|x: int| 0 <= x < es.len() ==> *(#[trigger] envs@[x]) == es[x],
            k <= envs@.len(),
            install@.len() == k,
            forall|x: int|
                0 <= x < k ==> views((#[trigger] install@[x]).argv@) == mise_argv(
                    repo@,
                    *cfg,
                    es[x].mise_environment,
                    seq!["install"@],
                ) && plain(install@[x], IoMode::Inherit),
        decreases envs@.len() - k,
    {
        let args = strings1("install");
        install.push(mise_invocation(repo, cfg, envs[k], &args, IoMode::Inherit));
        k += 1;
    }
    let mut stages: Vec<Stage> = Vec::new();
    stages.push(Stage { name: String::from_str("after_sync hooks"), plan: after });
    stages.push(Stage { name: String::from_str("trust"), plan: trust });
    stages.push(Stage { name: String::from_str("apply"), plan: apply });
    stages.push(Stage { name: String::from_str("before_install hooks"), plan: before });
    stages.push(Stage { name: String::from_str("install"), plan: Ok(install) });
    Ok(stages)
}

/// The error of a failed stage, naming it.
pub fn stage_error(name: &str, e: &Error) -> (r: Error)
    ensures
        r.0@ == "stage "@ + name@ + " failed: "@ + e.0@,
{
    let parts = vec!["stage ", name, " failed: ", e.0.as_str()];
    let m = concat_all(&parts);
    proof {
        assert(m@ =~= "stage "@ + name@ + " failed: "@ + e.0@) by {
            reveal_with_fuel(crate::text::join, 5);
        }
    }
    Error(m)
}

/// The message of a stage that failed for `cause`.
pub open spec fn stage_message(name: Seq<char>, cause: Seq<char>) -> Seq<char> {
    "stage "@ + name + " failed: "@ + cause
}

/// The invocations of the stages, one stage after the other (a stage that
/// could not be planned adds none).
pub open spec fn staged_invocations(stages: Seq<Stage>) -> Seq<Invocation>
    decreases stages.len(),
{
    if stages.len() == 0 {
        Seq::empty()
    } else {
        staged_invocations(stages.drop_last()) + match stages.last().plan {
            Ok(v) => v@,
            Err(_) => Seq::empty(),
        }
    }
}

/// The names of the stages of an update, in the order they are announced;
/// a dry run does not reload the configuration.
pub open spec fn update_stage_names(dry_run: bool) -> Seq<Seq<char>> {
    seq!["preflight"@, "pull"@] + (if dry_run {
        Seq::<Seq<char>>::empty()
    } else {
        seq!["reload config"@]
    }) + seq![
        "select refreshed profile"@,
        "after_sync hooks"@,
        "trust"@,
        "apply"@,
        "before_install hooks"@,
        "install"@,
    ]
}

/// The profile `update` asks for: the one given when it was given
/// explicitly, otherwise none, so that one is selected automatically.
pub open spec fn requested_profile(profile: Seq<char>, explicit: bool) -> Option<Seq<char>> {
    if explicit {
        Some(profile)
    } else {
        None
    }
}

/// Where an update is.
#[derive(Clone, Copy, Debug, PartialEq, Eq, Structural)]
pub enum UpdatePhase {
    Start,
    /// Checking the worktree.
    Preflight,
    /// Checking that `git` and `mise` answer.
    Tools,
    Pull,
    Reload,
    Select,
    /// Between two stages of `update_stages`.
    NextStage,
    /// Running a stage of `update_stages`.
    Stages,
    Finished,
}

/// An update, driven one step at a time: each step announces the stages it
/// enters and asks for one action, which the caller performs and answers.
pub struct Update {
    pub repo: String,
    /// The configuration: the one given, then the reloaded one.
    pub cfg: Config,
    pub profile: String,
    pub explicit: bool,
    pub platform: Platform,
    pub arch: String,
    pub home: Option<String>,
    /// The branch pulled: the one the configuration named at the start.
    pub branch: String,
    /// The runner of the read-only checks, which always really runs.
    pub checks: Runner,
    /// The runner of everything else, which only records in a dry run.
    pub runner: Runner,
    pub phase: UpdatePhase,
    /// The stage in progress: the last one announced.
    pub stage: String,
    /// How many stages have been announced.
    pub announced: usize,
    pub worktree: WorktreeCheck,
    /// How many version probes have been recorded.
    pub tools: usize,
    /// The invocations of the pull or of the current stage not yet run.
    pub run: PlanRun,
    /// The profile selected from the refreshed configuration.
    pub selected: String,
    /// The stages not started yet, last first.
    pub later: Vec<Stage>,
    /// The stages planned after the pull.
    pub planned: Ghost<Seq<Stage>>,
    /// The pull.
    pub pull: Ghost<Invocation>,
}

/// What one step of an update asks: the stage it entered, if any, to
/// announce first, and then the action to perform.
pub struct UpdateStep {
    pub announce: Option<String>,
    pub action: Action,
}

/// An answer that reports a failure: a probe that could not run or failed,
/// a command that failed, a configuration that could not be loaded.
pub open spec fn failed_answer(last_check: Invocation, answer: Answer) -> bool {
    match answer {
        Answer::Captured(o) => captured(last_check, o) is Err,
        Answer::Ran(Err(_)) => true,
        Answer::Loaded(Err(_)) => true,
        _ => false,
    }
}

impl Update {
    /// The number of stages announced before the stages of `update_stages`.
    pub open spec fn before_stages(&self) -> int {
        if self.runner.dry_run {
            3
        } else {
            4
        }
    }

    /// How far the update has still to go; each transition lowers it.
    pub open spec fn progress(&self) -> nat {
        match self.phase {
            UpdatePhase::Start => 100,
            UpdatePhase::Preflight => 90,
            UpdatePhase::Tools => 80,
            UpdatePhase::Pull => 70,
            UpdatePhase::Reload => 60,
            UpdatePhase::Select => 50,
            UpdatePhase::NextStage => (2 * self.later@.len() + 1) as nat,
            UpdatePhase::Stages => (2 * self.later@.len() + 2) as nat,
            UpdatePhase::Finished => 0,
        }
    }

    /// The state of the update agrees with its phase: what each runner has
    /// recorded, which stages were announced, and what remains to run.
    pub open spec fn wf(&self) -> bool {
        let names = update_stage_names(self.runner.dry_run);
        let started = 5 - self.later@.len();
        &&& !self.checks.dry_run
        &&& self.announced <= names.len()
        &&& self.announced > 0 ==> self.stage@ == names[self.announced - 1]
        &&& self.later@.len() <= 5
        &&& match self.phase {
            UpdatePhase::Start => self.announced == 0 && self.checks.intended@.len() == 0
                && self.runner.intended@.len() == 0,
            UpdatePhase::Preflight => self.announced == 1 && self.worktree.wf(self.checks, self.repo@)
                && self.worktree.base == 0 && self.runner.intended@.len() == 0,
            UpdatePhase::Tools => self.announced == 1 && self.tools <= 2
                && self.checks.intended@.len() == 4 + self.tools && (forall|j: int|
                0 <= j < 4 ==> is_probe(#[trigger] self.checks.intended@[j], self.repo@, j)) && (forall|
                j: int,
            |
                0 <= j < self.tools ==> is_version_probe(#[trigger] self.checks.intended@[4 + j], j))
                && self.runner.intended@.len() == 0,
            UpdatePhase::Pull => self.announced == 2 && is_pull(
                self.pull@,
                self.repo@,
                self.branch@,
            ) && self.runner.intended@ + self.run.rest() == seq![self.pull@],
            UpdatePhase::Reload => !self.runner.dry_run && self.announced == 3 && is_pull(
                self.pull@,
                self.repo@,
                self.branch@,
            ) && self.runner.intended@ == seq![self.pull@],
            UpdatePhase::Select => self.announced == self.before_stages() - 1 && is_pull(
                self.pull@,
                self.repo@,
                self.branch@,
            ) && self.runner.intended@ == seq![self.pull@],
            UpdatePhase::NextStage => self.announced == self.before_stages() + started && profile_selection(
                self.cfg,
                requested_profile(self.profile@, self.explicit),
                self.platform,
                self.arch@,
            ) == Ok::<Seq<char>, Seq<char>>(self.selected@) && is_pull(
                self.pull@,
                self.repo@,
                self.branch@,
            ) && is_update_plan(
                self.planned@,
                self.repo@,
                self.cfg,
                self.selected@,
                opt_view_string(self.home),
            ) && self.later@.reverse() == self.planned@.skip(started) && (forall|j: int|
                0 <= j < started ==> (#[trigger] self.planned@[j]).plan is Ok) && self.runner.intended@
                == seq![self.pull@] + staged_invocations(self.planned@.take(started)),
            UpdatePhase::Stages => started >= 1 && self.announced == self.before_stages() + started
                && profile_selection(
                self.cfg,
                requested_profile(self.profile@, self.explicit),
                self.platform,
                self.arch@,
            ) == Ok::<Seq<char>, Seq<char>>(self.selected@) && is_pull(self.pull@, self.repo@, self.branch@) && is_update_plan(
                self.planned@,
                self.repo@,
                self.cfg,
                self.selected@,
                opt_view_string(self.home),
            ) && self.later@.reverse() == self.planned@.skip(started) && (forall|j: int|
                0 <= j < started ==> (#[trigger] self.planned@[j]).plan is Ok) && self.runner.intended@
                + self.run.rest() == seq![self.pull@] + staged_invocations(self.planned@.take(started)),
            UpdatePhase::Finished => true,
        }
    }

    /// Whether `answer` is what the last action asked for.
    pub open spec fn expects(&self, answer: Answer) -> bool {
        match self.phase {
            UpdatePhase::Start => answer is Begin,
            UpdatePhase::Preflight => (self.worktree.next == 0 ==> answer is Begin) && (self.worktree.next
                > 0 ==> answer is Captured || (self.worktree.next == 1 && answer is Names)),
            UpdatePhase::Tools => (self.tools == 0 ==> answer is Begin) && (self.tools > 0
                ==> answer is Captured),
            UpdatePhase::Pull => answer is Begin || answer is Ran,
            UpdatePhase::Reload => answer is Loaded,
            UpdatePhase::Select => answer is Begin,
            UpdatePhase::NextStage => answer is Begin,
            UpdatePhase::Stages => answer is Begin || answer is Ran,
            UpdatePhase::Finished => false,
        }
    }

    /// An update of `repo` with configuration `cfg`, for `profile` when it
    /// was given explicitly, on this platform and architecture, with the
    /// home directory when it is known; nothing has happened yet.
    pub fn new(
        repo: String,
        cfg: Config,
        profile: String,
        explicit: bool,
        platform: Platform,
        arch: String,
        home: Option<String>,
        dry_run: bool,
    ) -> (u: Update)
        ensures
            u.wf(),
            u.phase == UpdatePhase::Start,
            u.runner.dry_run == dry_run,
            u.repo == repo,
            u.cfg == cfg,
            u.branch@ == cfg.repository.branch@,
            u.profile == profile,
            u.explicit == explicit,
            u.platform == platform,
            u.arch == arch,
            u.home == home,
    {
        let branch = cfg.repository.branch.clone();
        Update {
            repo,
            cfg,
            profile,
            explicit,
            platform,
            arch,
            home,
            branch,
            checks: Runner::new(false),
            runner: Runner::new(dry_run),
            phase: UpdatePhase::Start,
            stage: String::new(),
            announced: 0,
            worktree: WorktreeCheck { next: 0, root: false, base: 0 },
            tools: 0,
            run: PlanRun::new(Vec::new()),
            selected: String::new(),
            later: Vec::new(),
            planned: Ghost(Seq::empty()),
            pull: Ghost(vstd::pervasive::arbitrary()),
        }
    }

    fn enter(&mut self, name: &str) -> (n: Option<String>)
        requires
            old(self).announced < update_stage_names(old(self).runner.dry_run).len(),
            name@ == update_stage_names(old(self).runner.dry_run)[old(self).announced as int],
        ensures
            n matches Some(x) && x@ == name@,
            final(self).announced == old(self).announced + 1,
            final(self).stage@ == name@,
            *final(self) == (Update { announced: final(self).announced, stage: final(self).stage, ..*old(self) }),
    {
        self.stage = String::from_str(name);
        self.announced = self.announced + 1;
        Some(String::from_str(name))
    }

    /// One step of the update, given the answer to the last action (`Begin`
    /// at first and after `Proceed`).  It announces the stage it enters, if
    /// any, and asks for one action.  A `Capture` records exactly one new
    /// invocation in `checks` and a `Run` exactly one in `runner`, which is
    /// then the one to run; no other action records anything in a real run,
    /// and in a dry run nothing is asked to run outside the checks.  An answer
    /// that reports a failure ends the update with an error that names the
    /// stage, and nothing more is recorded.
    pub fn step(&mut self, answer: Answer) -> (s: UpdateStep)
        requires
            old(self).wf(),
            old(self).phase != UpdatePhase::Finished,
            old(self).expects(answer),
        ensures
            stepped(*old(self), *final(self), answer, s),
    {
        match self.phase {
            UpdatePhase::Start => self.begin(answer),
            UpdatePhase::Preflight => self.on_preflight(answer),
            UpdatePhase::Tools => self.on_tools(answer),
            UpdatePhase::Pull => self.on_pull(answer),
            UpdatePhase::Reload => self.on_reload(answer),
            UpdatePhase::Select => self.on_select(answer),
            UpdatePhase::NextStage => self.on_next_stage(answer),
            _ => self.on_stage(answer),
        }
    }

    fn begin(&mut self, answer: Answer) -> (s: UpdateStep)
        requires
            old(self).wf(),
            old(self).phase == UpdatePhase::Start,
            old(self).expects(answer),
        ensures
            stepped(*old(self), *final(self), answer, s),
    {
        let n = self.enter("preflight");
        self.worktree = WorktreeCheck::new(&self.checks);
        self.phase = UpdatePhase::Preflight;
        let a = self.worktree.step(&mut self.checks, self.repo.as_str(), &self.cfg, true, Answer::Begin);
        UpdateStep { announce: n, action: a }
    }

    fn on_preflight(&mut self, answer: Answer) -> (s: UpdateStep)
        requires
            old(self).wf(),
            old(self).phase == UpdatePhase::Preflight,
            old(self).expects(answer),
        ensures
            stepped(*old(self), *final(self), answer, s),
    {
        let a = self.worktree.step(&mut self.checks, self.repo.as_str(), &self.cfg, true, answer);
        match a {
            Action::Done(Ok(())) => {
                proof {
                    assert forall|j: int| 0 <= j < 4 implies is_probe(
                        #[trigger] self.checks.intended@[j],
                        self.repo@,
                        j,
                    ) by {
                        assert(self.checks.intended@[self.worktree.base + j] == self.checks.intended@[j]);
                    }
                }
                self.phase = UpdatePhase::Tools;
                self.tools = 0;
                UpdateStep { announce: None, action: Action::Proceed }
            },
            Action::Done(Err(e)) => {
                self.phase = UpdatePhase::Finished;
                let err = stage_error("preflight", &e);
                proof {
                    assert(err.0@ == stage_message(self.stage@, e.0@));
                }
                UpdateStep { announce: None, action: Action::Done(Err(err)) }
            },
            other => UpdateStep { announce: None, action: other },
        }
    }

    fn on_tools(&mut self, answer: Answer) -> (s: UpdateStep)
        requires
            old(self).wf(),
            old(self).phase == UpdatePhase::Tools,
            old(self).expects(answer),
        ensures
            stepped(*old(self), *final(self), answer, s),
    {
        match answer {
            Answer::Captured(o) => {
                let last = self.checks.intended.len() - 1;
                match capture_result(&self.checks.intended[last], o) {
                    Ok(_) => {},
                    Err(e) => {
                        self.phase = UpdatePhase::Finished;
                        let err = stage_error("preflight", &e);
                        proof {
                            assert(err.0@ == stage_message(self.stage@, e.0@));
                        }
                        return UpdateStep { announce: None, action: Action::Done(Err(err)) };
                    },
                }
            },
            _ => {},
        }
        if self.tools < 2 {
            let p = version_probe(self.tools);
            self.checks.record(p);
            self.tools = self.tools + 1;
            assert(self.checks.intended@.drop_last() =~= old(self).checks.intended@);
            return UpdateStep { announce: None, action: Action::Capture };
        }
        let n = self.enter("pull");
        let p = pull_invocation(self.repo.as_str(), self.branch.as_str());
        proof {
            self.pull = Ghost(p);
        }
        let plan = vec![p];
        self.run = PlanRun::new(plan);
        assert(self.runner.intended@ + self.run.rest() =~= seq![self.pull@]);
        self.phase = UpdatePhase::Pull;
        UpdateStep { announce: n, action: Action::Proceed }
    }

    fn on_pull(&mut self, answer: Answer) -> (s: UpdateStep)
        requires
            old(self).wf(),
            old(self).phase == UpdatePhase::Pull,
            old(self).expects(answer),
        ensures
            stepped(*old(self), *final(self), answer, s),
    {
        let a = self.run.step(&mut self.runner, answer);
        proof {
            let r0 = old(self).run.rest();
            if a is Run {
                assert(r0 =~= seq![r0[0]] + r0.drop_first());
                assert(self.runner.intended@.drop_last() =~= old(self).runner.intended@);
            }
            assert(self.runner.intended@ + self.run.rest() =~= old(self).runner.intended@ + r0);
        }
        match a {
            Action::Done(Ok(())) => {
                if self.runner.dry_run {
                    self.phase = UpdatePhase::Select;
                    UpdateStep { announce: None, action: Action::Proceed }
                } else {
                    let n = self.enter("reload config");
                    self.phase = UpdatePhase::Reload;
                    UpdateStep { announce: n, action: Action::Reload }
                }
            },
            Action::Done(Err(e)) => {
                self.phase = UpdatePhase::Finished;
                let err = stage_error("pull", &e);
                proof {
                    assert(err.0@ == stage_message(self.stage@, e.0@));
                }
                UpdateStep { announce: None, action: Action::Done(Err(err)) }
            },
            other => UpdateStep { announce: None, action: other },
        }
    }

    fn on_reload(&mut self, answer: Answer) -> (s: UpdateStep)
        requires
            old(self).wf(),
            old(self).phase == UpdatePhase::Reload,
            old(self).expects(answer),
        ensures
            stepped(*old(self), *final(self), answer, s),
    {
        match answer {
            Answer::Loaded(Ok(c)) => {
                self.cfg = c;
                self.phase = UpdatePhase::Select;
                UpdateStep { announce: None, action: Action::Proceed }
            },
            Answer::Loaded(Err(e)) => {
                self.phase = UpdatePhase::Finished;
                let err = stage_error("reload config", &e);
                proof {
                    assert(err.0@ == stage_message(self.stage@, e.0@));
                }
                UpdateStep { announce: None, action: Action::Done(Err(err)) }
            },
            _ => {
                proof {
                    assert(false);
                }
                self.phase = UpdatePhase::Finished;
                UpdateStep { announce: None, action: Action::Done(Ok(())) }
            },
        }
    }

    fn on_select(&mut self, answer: Answer) -> (s: UpdateStep)
        requires
            old(self).wf(),
            old(self).phase == UpdatePhase::Select,
            old(self).expects(answer),
        ensures
            stepped(*old(self), *final(self), answer, s),
    {
        let n = self.enter("select refreshed profile");
        let requested = if self.explicit {
            Some(self.profile.as_str())
        } else {
            None
        };
        let selected = match select_profile_for(&self.cfg, requested, self.platform, self.arch.as_str()) {
            Ok(name) => name,
            Err(e) => {
                self.phase = UpdatePhase::Finished;
                let err = stage_error("select refreshed profile", &e);
                proof {
                    assert(err.0@ == stage_message(self.stage@, e.0@));
                }
                return UpdateStep { announce: n, action: Action::Done(Err(err)) };
            },
        };
        proof {
            use_type_invariant(&self.cfg.profiles);
            if !self.explicit {
                lemma_auto_selection_fits(self.cfg, self.platform, self.arch@);
            }
        }
        let home: Option<&str> = match &self.home {
            Some(h) => Some(h.as_str()),
            None => None,
        };
        let stages = match update_stages(self.repo.as_str(), &self.cfg, selected.as_str(), home) {
            Ok(v) => v,
            Err(e) => {
                proof {
                    assert(false);
                }
                self.phase = UpdatePhase::Finished;
                return UpdateStep { announce: n, action: Action::Done(Err(e)) };
            },
        };
        proof {
            self.planned = Ghost(stages@);
            assert(opt_view(home) == opt_view_string(self.home));
            assert(stages@.take(0) =~= Seq::<Stage>::empty());
            assert(seq![self.pull@] + staged_invocations(stages@.take(0)) =~= seq![self.pull@]);
            assert(stages@.skip(0) =~= stages@);
        }
        self.later = reverse_vec(stages);
        proof {
            assert(self.later@.reverse() =~= self.planned@);
        }
        self.selected = selected;
        self.phase = UpdatePhase::NextStage;
        UpdateStep { announce: n, action: Action::Proceed }
    }

    fn on_next_stage(&mut self, answer: Answer) -> (s: UpdateStep)
        requires
            old(self).wf(),
            old(self).phase == UpdatePhase::NextStage,
            old(self).expects(answer),
        ensures
            stepped(*old(self), *final(self), answer, s),
    {
        if self.later.len() == 0 {
            assert(self.planned@.take(5) =~= self.planned@);
            self.phase = UpdatePhase::Finished;
            return UpdateStep { announce: None, action: Action::Done(Ok(())) };
        }
        let ghost started = 5 - self.later@.len();
        let ghost lv = self.later@;
        let st = self.later.pop().unwrap();
        proof {
            assert(lv.reverse()[0] == st);
            assert(self.planned@.skip(started)[0] == self.planned@[started]);
            assert(st == self.planned@[started]);
            assert(self.later@.reverse() =~= self.planned@.skip(started + 1)) by {
                assert(self.later@ =~= lv.drop_last());
                assert forall|x: int| 0 <= x < self.later@.len() implies self.later@.reverse()[x]
                    == self.planned@.skip(started + 1)[x] by {
                    assert(lv.reverse()[x + 1] == self.planned@.skip(started)[x + 1]);
                }
            }
        }
        let n = self.enter(st.name.as_str());
        match st.plan {
            Err(c) => {
                self.phase = UpdatePhase::Finished;
                let err = stage_error(st.name.as_str(), &c);
                proof {
                    assert(err.0@ == stage_message(self.stage@, c.0@));
                }
                UpdateStep { announce: n, action: Action::Done(Err(err)) }
            },
            Ok(v) => {
                let ghost vs = v@;
                self.run = PlanRun::new(v);
                proof {
                    let t = self.planned@.take(started + 1);
                    assert(t.drop_last() =~= self.planned@.take(started));
                    assert(t.last() == st);
                    assert(staged_invocations(t) == staged_invocations(self.planned@.take(started)) + vs);
                    assert(self.runner.intended@ + self.run.rest() =~= seq![self.pull@]
                        + staged_invocations(self.planned@.take(started + 1)));
                    assert forall|j: int| 0 <= j < started + 1 implies (#[trigger] self.planned@[j]).plan is Ok by {
                        if j == started {
                            assert(self.planned@[j] == st);
                        }
                    }
                }
                self.phase = UpdatePhase::Stages;
                UpdateStep { announce: n, action: Action::Proceed }
            },
        }
    }

    fn on_stage(&mut self, answer: Answer) -> (s: UpdateStep)
        requires
            old(self).wf(),
            old(self).phase == UpdatePhase::Stages,
            old(self).expects(answer),
        ensures
            stepped(*old(self), *final(self), answer, s),
    {
        let a = self.run.step(&mut self.runner, answer);
        proof {
            let r0 = old(self).run.rest();
            if a is Run {
                assert(r0 =~= seq![r0[0]] + r0.drop_first());
                assert(self.runner.intended@.drop_last() =~= old(self).runner.intended@);
            }
            assert(self.runner.intended@ + self.run.rest() =~= old(self).runner.intended@ + r0);
        }
        match a {
            Action::Done(Ok(())) => {
                self.phase = UpdatePhase::NextStage;
                UpdateStep { announce: None, action: Action::Proceed }
            },
            Action::Done(Err(e)) => {
                self.phase = UpdatePhase::Finished;
                let err = stage_error(self.stage.as_str(), &e);
                proof {
                    assert(err.0@ == stage_message(self.stage@, e.0@));
                }
                UpdateStep { announce: None, action: Action::Done(Err(err)) }
            },
            other => UpdateStep { announce: None, action: other },
        }
    }
}

/// What one step of an update does, from `before` to `after`, given the
/// answer to the last action and what the step returned:
///
/// - the update stays well formed, and what it was given stays the same,
///   except the configuration, which becomes the reloaded one;
/// - the stage it enters, if any, is the next in `update_stage_names`;
/// - a `Capture` records exactly one invocation in `checks`, a `Run`
///   exactly one in `runner` (never in a dry run), and no other action
///   records anything in a real run: the commands run are exactly the ones
///   recorded, one per step, in the order recorded;
/// - an answer that reports a failure ends the update, with nothing more
///   recorded, and an error that names the stage in progress;
/// - a successful end has recorded the pull and then every invocation of
///   the stages planned for the profile selected from the refreshed
///   configuration.
pub open spec fn stepped(before: Update, after: Update, answer: Answer, s: UpdateStep) -> bool {
    &&& after.wf()
    &&& after.runner.dry_run == before.runner.dry_run
    &&& after.repo == before.repo
    &&& after.branch == before.branch
    &&& after.profile == before.profile
    &&& after.explicit == before.explicit
    &&& after.platform == before.platform
    &&& after.arch == before.arch
    &&& after.home == before.home
    &&& (answer matches Answer::Loaded(Ok(c)) ==> after.cfg == c)
    &&& (!(answer is Loaded) ==> after.cfg == before.cfg)
    &&& (s.announce matches Some(n) ==> after.announced == before.announced + 1 && n@
        == update_stage_names(before.runner.dry_run)[before.announced as int])
    &&& (s.announce is None ==> after.announced == before.announced)
    &&& (s.action is Capture ==> after.checks.intended@.len() == before.checks.intended@.len() + 1
        && after.checks.intended@.drop_last() == before.checks.intended@ && after.runner.intended@
        == before.runner.intended@)
    &&& (!(s.action is Capture) ==> after.checks.intended@ == before.checks.intended@)
    &&& (s.action is Run ==> !before.runner.dry_run && after.runner.intended@.len()
        == before.runner.intended@.len() + 1 && after.runner.intended@.drop_last()
        == before.runner.intended@)
    &&& (!before.runner.dry_run && !(s.action is Run) ==> after.runner.intended@
        == before.runner.intended@)
    &&& before.runner.intended@.is_prefix_of(after.runner.intended@)
    &&& (failed_answer(before.checks.intended@.last(), answer) ==> (s.action matches Action::Done(
        Err(_),
    )) && after.runner.intended@ == before.runner.intended@)
    &&& (s.action is Done <==> after.phase == UpdatePhase::Finished)
    &&& (s.action is Proceed ==> after.expects(Answer::Begin))
    &&& (s.action matches Action::Done(Err(e)) ==> exists|cause: Seq<char>|
        e.0@ == #[trigger] stage_message(after.stage@, cause))
    &&& (s.action matches Action::Done(Ok(())) ==> {
        &&& after.runner.intended@ == seq![after.pull@] + staged_invocations(after.planned@)
        &&& is_pull(after.pull@, after.repo@, after.branch@)
        &&& is_update_plan(
            after.planned@,
            after.repo@,
            after.cfg,
            after.selected@,
            opt_view_string(after.home),
        )
        &&& profile_selection(
            after.cfg,
            requested_profile(after.profile@, after.explicit),
            after.platform,
            after.arch@,
        ) == Ok::<Seq<char>, Seq<char>>(after.selected@)
    })
}

/// The view of an optional string.
pub open spec fn opt_view_string(o: Option<String>) -> Option<Seq<char>> {
    match o {
        Some(s) => Some(s@),
        None => None,
    }
}

/// The elements of `v` in the opposite order.
pub fn reverse_vec<T>(v: Vec<T>) -> (r: Vec<T>)
    ensures
        r@ == v@.reverse(),
{
    let ghost vs = v@;
    let n = v.len();
    let mut v = v;
    let mut r: Vec<T> = Vec::new();
    while v.len() > 0
        invariant
            v@.len() <= n,
            n == vs.len(),
            v@ == vs.take(v@.len() as int),
            r@.len() == n - v@.len(),
            forall|x: int| 0 <= x < r@.len() ==> #[trigger] r@[x] == vs[n - 1 - x],
        decreases v@.len(),
    {
        let ghost m = v@.len();
        let x = v.pop().unwrap();
        r.push(x);
        proof {
            assert(v@ =~= vs.take(m - 1));
        }
    }
    assert(r@ =~= vs.reverse());
    r
}

/// The targets given to `apply` are exactly the targets every environment
/// applies and checks, whatever the environment's own targets are; only
/// when none are given does each environment use its own.
pub proof fn lemma_apply_uses_the_given_targets(
    plan: Seq<Invocation>,
    repo: Seq<char>,
    cfg: Config,
    envs: Seq<Environment>,
    targets: Seq<Seq<char>>,
    k: int,
)
    requires
        is_apply_plan(plan, repo, cfg, envs, targets),
        0 <= k < envs.len(),
    ensures
        ({
            let used = if targets.len() > 0 {
                targets
            } else {
                views(envs[k].targets@)
            };
            let n = envs.len();
            &&& views(plan[k].argv@) == mise_argv(
                repo,
                cfg,
                envs[k].mise_environment,
                seq!["dotfiles"@, "apply"@, "--yes"@] + used,
            )
            &&& views(plan[n + 2 * k].argv@) == mise_argv(
                repo,
                cfg,
                envs[k].mise_environment,
                seq!["dotfiles"@, "status"@, "--missing"@] + used,
            )
            &&& views(plan[n + 2 * k + 1].argv@) == mise_argv(
                repo,
                cfg,
                envs[k].mise_environment,
                seq!["dotfiles"@, "status"@] + used,
            )
        }),
{
    let n = envs.len();
    assert(views(plan[k].argv@) == apply_argv(repo, cfg, envs[k], targets));
    assert(views(plan[n + 2 * k].argv@) == missing_argv(repo, cfg, envs[k], targets));
    assert(views(plan[n + 2 * k + 1].argv@) == drift_argv(repo, cfg, envs[k], targets));
}

} // verus!
