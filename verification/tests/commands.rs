use dotflow::commands::{
    add_invocation, apply_plan, doctor_environment_lines, doctor_summary, edit_invocation,
    pull_invocation, stage_error, status_exit_code, status_invocations, status_summary,
    tool_missing, update_stages, version_probes, Stage, Update,
};
use dotflow::config::{Config, Environment, Hook, Profile, Repository};
use dotflow::error::Error;
use dotflow::mise::trust_plan;
use dotflow::platform::Platform;
use dotflow::process::{intended_lines, Action, Answer, Captured, Invocation, IoMode};
use dotflow::strmap::StrMap;

fn hook(program: &str, args: &[&str]) -> Hook {
    Hook {
        program: program.to_string(),
        args: args.iter().map(|s| s.to_string()).collect(),
        cwd: None,
        env: StrMap::new(),
    }
}

fn env(name: &str, targets: &[&str]) -> Environment {
    Environment {
        mise_environment: Some(name.to_string()),
        targets: targets.iter().map(|s| s.to_string()).collect(),
    }
}

fn fixture() -> Config {
    let mut profiles = StrMap::new();
    profiles.insert(
        "host".to_string(),
        Profile {
            platform: Platform::Linux,
            arch: None,
            add_environment: Some("editing".to_string()),
            environments: vec![env("one", &["first"]), env("two", &["second"])],
            after_sync: vec![hook("hook", &["after", "{backend}"])],
            before_install: vec![hook("hook", &["before"])],
        },
    );
    Config {
        schema_version: 1,
        minimum_dotflow_version: None,
        repository: Repository {
            branch: "master".to_string(),
            origin: "/repo".to_string(),
            mise_dir: "backend".to_string(),
        },
        common: Environment { mise_environment: None, targets: vec!["base".to_string()] },
        profiles,
    }
}

fn line(i: &Invocation) -> String {
    i.argv.join(" ")
}

#[test]
fn add_edit_apply_and_status_route_exact_environments() {
    let c = fixture();
    let add = add_invocation("/repo", &c, "host", false, &vec!["base-target".to_string()]).unwrap();
    assert!(line(&add).ends_with("backend dotfiles add base-target"));
    let add = add_invocation("/repo", &c, "host", true, &vec!["profile-target".to_string()]).unwrap();
    assert!(line(&add).ends_with("backend -E editing dotfiles add profile-target"));
    let edit = edit_invocation("/repo", &c, "host", "editable").unwrap();
    assert!(line(&edit).ends_with("backend -E editing dotfiles edit editable"));
    let lines: Vec<String> = apply_plan("/repo", &c, "host", &vec![]).unwrap().iter().map(line).collect();
    assert_eq!(
        lines,
        [
            "mise -C /repo/backend -E one dotfiles apply --yes first",
            "mise -C /repo/backend -E two dotfiles apply --yes second",
            "mise -C /repo/backend -E one dotfiles status --missing first",
            "mise -C /repo/backend -E one dotfiles status first",
            "mise -C /repo/backend -E two dotfiles status --missing second",
            "mise -C /repo/backend -E two dotfiles status second",
        ]
    );
    let status: Vec<String> = status_invocations("/repo", &c, "host").unwrap().iter().map(line).collect();
    assert_eq!(
        status,
        [
            "mise -C /repo/backend -E one dotfiles status --missing first",
            "mise -C /repo/backend -E two dotfiles status --missing second",
        ]
    );
    assert!(!status.iter().any(|x| x.ends_with("dotfiles status --missing")));
}

#[test]
fn apply_with_explicit_targets_checks_the_same_targets() {
    let c = fixture();
    let plan = apply_plan("/repo", &c, "host", &vec!["x".to_string()]).unwrap();
    assert_eq!(plan.len(), 6);
    assert!(plan.iter().all(|i| i.argv.last().unwrap() == "x"));
    assert!(plan.iter().all(|i| i.io == IoMode::Inherit && i.cwd.is_none()));
}

#[test]
fn profile_without_environments_uses_common_once() {
    let mut c = fixture();
    c.profiles.insert(
        "bare".to_string(),
        Profile {
            platform: Platform::Linux,
            arch: None,
            add_environment: None,
            environments: vec![],
            after_sync: vec![],
            before_install: vec![],
        },
    );
    let lines: Vec<String> = apply_plan("/repo", &c, "bare", &vec![]).unwrap().iter().map(line).collect();
    assert_eq!(lines[0], "mise -C /repo/backend dotfiles apply --yes base");
    assert_eq!(lines.len(), 3);
    assert_eq!(edit_invocation("/repo", &c, "nope", "t").unwrap_err().0, "unknown profile: nope");
    assert_eq!(
        add_invocation("/repo", &c, "nope", true, &vec![]).unwrap_err().0,
        "unknown profile: nope"
    );
}

#[test]
fn trust_deduplicates_environment_files() {
    let mut c = fixture();
    c.profiles.insert(
        "a".to_string(),
        Profile {
            platform: Platform::Linux,
            arch: None,
            add_environment: None,
            environments: vec![env("linux", &[]), env("linux", &[])],
            after_sync: vec![],
            before_install: vec![],
        },
    );
    let mut c2 = c.clone();
    c2.repository.mise_dir = "mise".to_string();
    let plan = trust_plan("/repo", &c2, "a").unwrap();
    assert_eq!(plan.len(), 2);
    assert_eq!(line(&plan[0]), "mise trust /repo/mise/mise.toml");
    assert_eq!(line(&plan[1]), "mise trust /repo/mise/mise.linux.toml");
}

#[test]
fn status_report_and_exit_code() {
    assert_eq!(
        status_summary("/repo", "master\n", "host", ""),
        "repository: /repo\nbranch: master\nprofile: host\ngit: clean"
    );
    assert!(status_summary("/repo", "master", "host", " M x\n").ends_with("git: dirty"));
    assert_eq!(status_exit_code(false, " M x", &vec![false]), 0);
    assert_eq!(status_exit_code(true, "", &vec![true, true]), 0);
    assert_eq!(status_exit_code(true, "", &vec![true, false]), 1);
    assert_eq!(status_exit_code(true, "?? new", &vec![]), 1);
}

#[test]
fn doctor_reports() {
    let c = fixture();
    assert_eq!(
        doctor_summary("/repo", "host"),
        "dotflow 0.1.0\nrepo: /repo\nprofile: host\nconfig: valid"
    );
    assert_eq!(
        doctor_environment_lines(&c, "host").unwrap(),
        ["mise environment: one", "mise environment: two"]
    );
    assert_eq!(tool_missing("mise").0, "mise is required and must be on PATH");
    let probes = version_probes();
    assert_eq!(line(&probes[0]), "git --version");
    assert_eq!(line(&probes[1]), "mise --version");
}

#[test]
fn pull_is_exact() {
    let p = pull_invocation("/repo", "main");
    assert_eq!(line(&p), "git -C /repo pull --ff-only origin main");
    assert_eq!(p.io, IoMode::Inherit);
}

/// What driving an update gave: its result, the stages announced, and the
/// commands run (captured ones first marked `?`).
struct Drive {
    result: Result<(), Error>,
    announced: Vec<String>,
    ran: Vec<String>,
}

fn answer_with(stdout: &str) -> Result<Captured, Error> {
    Ok(Captured {
        success: true,
        status: "exit status: 0".to_string(),
        stdout: stdout.to_string(),
        stderr: String::new(),
    })
}

fn clean_git(i: &Invocation) -> Result<Captured, Error> {
    match i.argv.get(3).map(String::as_str) {
        Some("rev-parse") => answer_with("/repo\n"),
        Some("symbolic-ref") => answer_with("master\n"),
        Some("remote") => answer_with("/repo\n"),
        Some(_) => answer_with(""),
        None => answer_with("version 1"),
    }
}

fn drive(
    u: &mut Update,
    spawn: &dyn Fn(&Invocation) -> Result<Captured, Error>,
    exec: &dyn Fn(&Invocation) -> Result<(), Error>,
    reload: &dyn Fn() -> Result<Config, Error>,
) -> Drive {
    let mut announced = vec![];
    let mut ran = vec![];
    let mut answer = Answer::Begin;
    loop {
        let step = u.step(answer);
        if let Some(name) = step.announce {
            announced.push(name);
        }
        answer = match step.action {
            Action::Capture => {
                let i = u.checks.intended.last().unwrap();
                ran.push(format!("? {}", line(i)));
                Answer::Captured(spawn(i))
            },
            Action::Run => {
                let i = u.runner.intended.last().unwrap();
                ran.push(line(i));
                Answer::Ran(exec(i))
            },
            Action::NamesRepo(p) => Answer::Names(p == "/repo"),
            Action::Reload => Answer::Loaded(reload()),
            Action::Proceed => Answer::Begin,
            Action::Done(result) => return Drive { result, announced, ran },
        };
    }
}

fn update_of(c: &Config, explicit: bool, profile: &str, home: Option<&str>, dry: bool) -> Update {
    Update::new(
        "/repo".to_string(),
        c.clone(),
        profile.to_string(),
        explicit,
        Platform::Linux,
        "x86_64".to_string(),
        home.map(String::from),
        dry,
    )
}

#[test]
fn update_dry_run_executes_only_read_only_preflight_and_applies_before_install() {
    let c = fixture();
    let mut u = update_of(&c, false, "host", Some("/home/u"), true);
    let exec = |_: &Invocation| -> Result<(), Error> { panic!("a dry run runs nothing") };
    let reload = || -> Result<Config, Error> { panic!("a dry run keeps the configuration") };
    let d = drive(&mut u, &clean_git, &exec, &reload);
    assert!(d.result.is_ok());
    assert_eq!(
        d.announced,
        [
            "preflight",
            "pull",
            "select refreshed profile",
            "after_sync hooks",
            "trust",
            "apply",
            "before_install hooks",
            "install"
        ]
    );
    assert!(d.ran.iter().all(|l| l.starts_with("? ")));
    assert_eq!(d.ran.len(), 6);
    assert_eq!(d.ran[4], "? git --version");
    assert_eq!(d.ran[5], "? mise --version");
    let stdout = intended_lines(&u.runner).join("\n");
    for needle in [
        "\"git\" \"-C\"",
        "\"hook\" \"after\"",
        "\"mise\" \"trust\"",
        "\"hook\" \"before\"",
        "\"mise\" \"-C\"",
        "\"dotfiles\" \"status\" \"--missing\" \"first\"",
        "\"dotfiles\" \"status\" \"second\"",
    ] {
        assert!(stdout.contains(needle), "missing {needle}: {stdout}");
    }
    let at = |needle: &str| stdout.find(needle).unwrap();
    assert!(at("\"pull\"") < at("\"after\""));
    assert!(at("\"after\"") < at("\"trust\""));
    assert!(at("\"trust\"") < at("\"apply\""));
    assert!(at("\"apply\"") < at("\"before\""));
    assert!(at("\"before\"") < at("\"install\""));
    assert_eq!(line(&u.runner.intended[0]), "git -C /repo pull --ff-only origin master");
}

#[test]
fn update_is_fail_fast_and_names_the_stage() {
    let c = fixture();
    let mut u = update_of(&c, true, "host", Some("/home/u"), false);
    let exec = |i: &Invocation| -> Result<(), Error> {
        if i.argv.iter().any(|a| a == "after") {
            Err(Error("hook failed".to_string()))
        } else {
            Ok(())
        }
    };
    let reload = || -> Result<Config, Error> { Ok(fixture()) };
    let d = drive(&mut u, &clean_git, &exec, &reload);
    let err = d.result.unwrap_err();
    assert!(err.0.contains("stage after_sync hooks failed"));
    assert_eq!(err.0, "stage after_sync hooks failed: hook failed");
    let run: Vec<&String> = d.ran.iter().filter(|l| !l.starts_with("? ")).collect();
    assert_eq!(run, ["git -C /repo pull --ff-only origin master", "hook after /repo/backend"]);
    assert_eq!(u.runner.intended.len(), 2);
    assert_eq!(d.announced.last().unwrap(), "after_sync hooks");
}

#[test]
fn update_real_run_runs_exactly_what_it_records() {
    let c = fixture();
    let mut u = update_of(&c, true, "host", Some("/home/u"), false);
    let exec = |_: &Invocation| -> Result<(), Error> { Ok(()) };
    let reload = || -> Result<Config, Error> { Ok(fixture()) };
    let d = drive(&mut u, &clean_git, &exec, &reload);
    assert!(d.result.is_ok());
    let run: Vec<String> = d.ran.iter().filter(|l| !l.starts_with("? ")).cloned().collect();
    let recorded: Vec<String> = u.runner.intended.iter().map(line).collect();
    assert_eq!(run, recorded);
    assert_eq!(recorded.last().unwrap(), "mise -C /repo/backend -E two install");
    assert_eq!(d.announced[2], "reload config");
}

#[test]
fn update_stops_at_preflight_pull_reload_and_selection() {
    let c = fixture();
    let run = |_: &Invocation| -> Result<(), Error> { Ok(()) };
    let reload = || -> Result<Config, Error> { Ok(fixture()) };
    let dirty = |i: &Invocation| -> Result<Captured, Error> {
        if i.argv.get(3).map(String::as_str) == Some("status") { answer_with("?? x\n") } else { clean_git(i) }
    };
    let mut u = update_of(&c, true, "host", None, false);
    let d = drive(&mut u, &dirty, &run, &reload);
    assert_eq!(d.result.unwrap_err().0, "stage preflight failed: worktree is not clean:\n?? x\n");
    assert!(u.runner.intended.is_empty());
    assert_eq!(d.ran.len(), 4);

    let no_mise = |i: &Invocation| -> Result<Captured, Error> {
        if i.argv[0] == "mise" { Err(Error("cannot run mise".to_string())) } else { clean_git(i) }
    };
    let mut u = update_of(&c, true, "host", None, false);
    let d = drive(&mut u, &no_mise, &run, &reload);
    assert_eq!(d.result.unwrap_err().0, "stage preflight failed: cannot run mise");
    assert_eq!(d.ran.len(), 6);

    let refuse = |_: &Invocation| -> Result<(), Error> { Err(Error("diverged".to_string())) };
    let mut u = update_of(&c, true, "host", None, false);
    let d = drive(&mut u, &clean_git, &refuse, &reload);
    assert_eq!(d.result.unwrap_err().0, "stage pull failed: diverged");
    assert_eq!(u.runner.intended.len(), 1);

    let broken = || -> Result<Config, Error> { Err(Error("invalid".to_string())) };
    let mut u = update_of(&c, true, "host", None, false);
    let d = drive(&mut u, &clean_git, &run, &broken);
    assert_eq!(d.result.unwrap_err().0, "stage reload config failed: invalid");

    let mut u = update_of(&c, true, "nope", None, true);
    let d = drive(&mut u, &clean_git, &run, &reload);
    assert_eq!(d.result.unwrap_err().0, "stage select refreshed profile failed: unknown profile: nope");
    assert_eq!(u.runner.intended.len(), 1);

    let mut u = update_of(&c, true, "host", None, true);
    let d = drive(&mut u, &clean_git, &run, &reload);
    assert_eq!(d.result.unwrap_err().0, "stage after_sync hooks failed: home directory is unavailable");
}

#[test]
fn stage_errors_name_the_stage() {
    assert_eq!(stage_error("x", &Error("boom".to_string())).0, "stage x failed: boom");
    let c = fixture();
    assert_eq!(update_stages("/repo", &c, "nope", None).err().unwrap().0, "unknown profile: nope");
    let names: Vec<String> =
        update_stages("/repo", &c, "host", None).unwrap().iter().map(|s: &Stage| s.name.clone()).collect();
    assert_eq!(names, ["after_sync hooks", "trust", "apply", "before_install hooks", "install"]);
}

#[test]
fn trust_compares_files_as_paths() {
    let mut c = fixture();
    c.profiles.insert(
        "odd".to_string(),
        Profile {
            platform: Platform::Linux,
            arch: None,
            add_environment: None,
            environments: vec![env("/x", &[]), env("//x", &[]), env("/./x", &[]), env("y", &[])],
            after_sync: vec![],
            before_install: vec![],
        },
    );
    let lines: Vec<String> = trust_plan("/repo", &c, "odd").unwrap().iter().map(line).collect();
    assert_eq!(
        lines,
        [
            "mise trust /repo/backend/mise.toml",
            "mise trust /repo/backend/mise./x.toml",
            "mise trust /repo/backend/mise.y.toml"
        ]
    );
}
