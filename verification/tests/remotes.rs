use dotflow::config::{Config, Environment, Repository};
use dotflow::error::Error;
use dotflow::git::{canonical_remote, normalize_remote, remotes_equal, repo_probes, WorktreeCheck};
use dotflow::process::{Action, Answer, Captured, Invocation, IoMode, Runner};
use dotflow::strmap::StrMap;

#[test]
fn remote_comparison_is_safe() {
    assert!(remotes_equal("git@github.com:A/B.git", "https://github.com/a/b"));
    assert!(remotes_equal("file:///one", "file:///one"));
    assert!(!remotes_equal("https://one.invalid/a", "https://two.invalid/b"));
    assert!(!remotes_equal("https://github.com/a/b", "https://example.com/a/b"));
}

#[test]
fn github_forms_normalize_alike() {
    for form in [
        "git@github.com:owner/repo",
        "git@github.com:owner/repo.git",
        "ssh://git@github.com/owner/repo",
        "ssh://git@github.com/owner/repo.git",
        "https://github.com/owner/repo",
        "https://github.com/owner/repo.git",
        "  https://github.com/owner/repo/  ",
    ] {
        assert_eq!(normalize_remote(form).as_deref(), Some("github.com/owner/repo"), "{form}");
    }
}

#[test]
fn non_github_or_malformed_remotes_do_not_normalize() {
    assert_eq!(normalize_remote("https://github.com/owner"), None);
    assert_eq!(normalize_remote("https://github.com/a/b/c"), None);
    assert_eq!(normalize_remote("https://github.com//b"), None);
    assert_eq!(normalize_remote("https://gitlab.com/a/b"), None);
    assert_eq!(normalize_remote(""), None);
}

#[test]
fn canonical_remote_trims_space_and_slashes() {
    assert_eq!(canonical_remote("  file:///one//  "), "file:///one");
    assert_eq!(canonical_remote("\u{3000}x\u{a0}"), "x");
}

#[test]
fn remote_equality_is_symmetric_and_mixed_kinds_differ() {
    assert!(remotes_equal("https://github.com/a/b", "git@github.com:A/B.git"));
    assert!(!remotes_equal("https://github.com/a/b", "github.com/a/b"));
    assert!(remotes_equal("file:///one/", " file:///one"));
}

fn worktree_config(branch: &str, origin: &str) -> Config {
    Config {
        schema_version: 1,
        minimum_dotflow_version: None,
        repository: Repository {
            branch: branch.to_string(),
            origin: origin.to_string(),
            mise_dir: "mise".to_string(),
        },
        common: Environment::empty(),
        profiles: StrMap::new(),
    }
}

fn answer(stdout: &str) -> Result<Captured, Error> {
    Ok(Captured {
        success: true,
        status: "exit status: 0".to_string(),
        stdout: stdout.to_string(),
        stderr: String::new(),
    })
}

fn fake_git(top: &'static str, branch: Option<&'static str>, origin: &'static str, status: &'static str)
    -> impl Fn(&Invocation) -> Result<Captured, Error> {
    move |i: &Invocation| match i.argv[3].as_str() {
        "rev-parse" => answer(top),
        "symbolic-ref" => match branch {
            Some(b) => answer(b),
            None => Ok(Captured {
                success: false,
                status: "exit status: 1".to_string(),
                stdout: String::new(),
                stderr: String::new(),
            }),
        },
        "remote" => answer(origin),
        _ => answer(status),
    }
}

fn validate(
    r: &mut Runner,
    cfg: &Config,
    require_clean: bool,
    spawn: &dyn Fn(&Invocation) -> Result<Captured, Error>,
) -> Result<(), Error> {
    let mut check = WorktreeCheck::new(r);
    let mut answer = Answer::Begin;
    loop {
        answer = match check.step(r, "/r", cfg, require_clean, answer) {
            Action::Capture => Answer::Captured(spawn(r.intended.last().unwrap())),
            Action::NamesRepo(p) => Answer::Names(p == "/r"),
            Action::Done(result) => return result,
            _ => panic!("the worktree checks only capture"),
        };
    }
}

#[test]
fn worktree_checks_stop_at_the_first_failure() {
    let cfg = worktree_config("master", "https://github.com/a/b");
    let probes = repo_probes("/r");
    assert_eq!(probes[3].argv.join(" "), "git -C /r status --porcelain=v1 --untracked-files=all");
    assert!(probes.iter().all(|p| p.cwd.is_none() && p.env.len() == 0 && p.io == IoMode::Capture));

    let mut r = Runner::new(false);
    let clean = fake_git("/r\n", Some("master\n"), "git@github.com:A/B.git\n", "");
    assert!(validate(&mut r, &cfg, true, &clean).is_ok());
    assert_eq!(r.intended.len(), 4);

    let mut r = Runner::new(false);
    let elsewhere = fake_git("/other\n", Some("master\n"), "", "");
    assert_eq!(
        validate(&mut r, &cfg, true, &elsewhere).unwrap_err().0,
        "repository path is not the Git worktree root"
    );
    assert_eq!(r.intended.len(), 1);

    let mut r = Runner::new(false);
    let detached = fake_git("/r\n", None, "", "");
    assert_eq!(
        validate(&mut r, &cfg, true, &detached).unwrap_err().0,
        "expected an attached branch: command failed with exit status: 1: \"git\" \"-C\" \"/r\" \"symbolic-ref\" \"--quiet\" \"--short\" \"HEAD\""
    );
    assert_eq!(r.intended.len(), 2);

    let mut r = Runner::new(false);
    let other = fake_git("/r\n", Some("master\n"), "https://example.com/a/b\n", "");
    assert_eq!(
        validate(&mut r, &cfg, true, &other).unwrap_err().0,
        "origin does not match configured repository: expected \"https://github.com/a/b\", found \"https://example.com/a/b\""
    );
    assert_eq!(r.intended.len(), 3);

    let mut r = Runner::new(false);
    let dirty = fake_git("/r\n", Some("master\n"), "https://github.com/a/b\n", "?? new\n");
    assert_eq!(
        validate(&mut r, &cfg, true, &dirty).unwrap_err().0,
        "worktree is not clean:\n?? new\n"
    );
    let mut r = Runner::new(false);
    assert!(validate(&mut r, &cfg, false, &dirty).is_ok());
}
