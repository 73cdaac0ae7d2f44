use dotflow::error::Error;
use dotflow::process::{
    capture_result, command_error, display_argv, display_invocation, dry_output, inherit_outcome,
    spawn_error, status_error, Action, Answer, Captured, Invocation, IoMode, PlanRun, Runner,
};
use dotflow::strmap::StrMap;

fn inv(program: &str, args: &[&str], cwd: Option<&str>, env: StrMap<String>, io: IoMode) -> Invocation {
    Invocation::new(
        program,
        args.iter().map(|s| s.to_string()).collect(),
        cwd.map(String::from),
        env,
        io,
    )
}

#[test]
fn runner_records_exact_modes_cwd_env_and_dry_run() {
    let mut r = Runner::new(true);
    let mut vars = StrMap::new();
    vars.insert("K".to_string(), "V".to_string());
    assert!(!r.record(inv("no-such", &["two words"], Some("/tmp"), vars.clone(), IoMode::Capture)));
    assert!(!r.record(inv("no-such", &["$(unsafe)"], None, StrMap::new(), IoMode::Inherit)));
    assert_eq!(r.intended[0].io, IoMode::Capture);
    assert_eq!(r.intended[0].cwd.as_deref(), Some("/tmp"));
    assert_eq!(r.intended[0].env, vars);
    assert_eq!(r.intended[1].io, IoMode::Inherit);
    assert_eq!(r.intended[1].argv, ["no-such", "$(unsafe)"]);
}

#[test]
fn runner_outside_dry_run_asks_to_execute() {
    let mut r = Runner::new(false);
    assert!(r.record(inv("git", &["status"], None, StrMap::new(), IoMode::Capture)));
}

#[test]
fn display_quotes_each_word() {
    assert_eq!(
        display_argv("git", &vec!["-C".to_string(), "two words".to_string()]),
        "\"git\" \"-C\" \"two words\""
    );
    let i = inv("say", &["a\"b", "c\\d"], None, StrMap::new(), IoMode::Inherit);
    assert_eq!(display_invocation(&i), "\"say\" \"a\\\"b\" \"c\\\\d\"");
}

#[test]
fn failure_messages() {
    assert_eq!(
        command_error("exit status: 1", "\"git\"", "out", "").0,
        "command failed with exit status: 1: \"git\"\nstdout:\nout"
    );
    assert_eq!(
        command_error("exit status: 2", "\"x\"", "", "err").0,
        "command failed with exit status: 2: \"x\"\nstderr:\nerr"
    );
    assert_eq!(status_error("exit status: 3", "\"y\"").0, "command failed with exit status: 3: \"y\"");
    assert_eq!(spawn_error("\"z\"", "not found").0, "cannot run \"z\": not found");
}

/// Drives a plan as the library's steps ask, running with `exec`; the
/// result and the programs run.
fn drive(r: &mut Runner, plan: Vec<Invocation>, exec: &dyn Fn(&Invocation) -> Result<(), Error>) -> (Result<(), Error>, Vec<String>) {
    let mut run = PlanRun::new(plan);
    let mut ran = vec![];
    let mut answer = Answer::Begin;
    loop {
        answer = match run.step(r, answer) {
            Action::Run => {
                let i = r.intended.last().unwrap();
                ran.push(i.argv[0].clone());
                Answer::Ran(exec(i))
            },
            Action::Done(result) => return (result, ran),
            _ => panic!("a plan only runs invocations"),
        };
    }
}

fn plan_abc() -> Vec<Invocation> {
    vec![
        inv("a", &[], None, StrMap::new(), IoMode::Inherit),
        inv("b", &[], None, StrMap::new(), IoMode::Inherit),
        inv("c", &[], None, StrMap::new(), IoMode::Inherit),
    ]
}

#[test]
fn run_plan_stops_at_first_failure() {
    let mut r = Runner::new(false);
    let exec = |i: &Invocation| -> Result<(), Error> {
        if i.argv[0] == "b" { Err(Error("b failed".to_string())) } else { Ok(()) }
    };
    let (result, ran) = drive(&mut r, plan_abc(), &exec);
    assert_eq!(result.unwrap_err().0, "b failed");
    assert_eq!(ran, ["a", "b"]);
    assert_eq!(r.intended.len(), 2);
}

#[test]
fn a_plan_runs_exactly_what_it_records_and_a_dry_run_nothing() {
    let mut r = Runner::new(false);
    let ok = |_: &Invocation| -> Result<(), Error> { Ok(()) };
    let (result, ran) = drive(&mut r, plan_abc(), &ok);
    assert!(result.is_ok());
    assert_eq!(ran, ["a", "b", "c"]);
    assert_eq!(r.intended.iter().map(|i| i.argv[0].clone()).collect::<Vec<_>>(), ran);
    let mut dry = Runner::new(true);
    let never = |_: &Invocation| -> Result<(), Error> { panic!("a dry run runs nothing") };
    let (result, ran) = drive(&mut dry, plan_abc(), &never);
    assert!(result.is_ok() && ran.is_empty());
    assert_eq!(dry.intended.len(), 3);
}

fn out(success: bool, status: &str, stdout: &str, stderr: &str) -> Captured {
    Captured {
        success,
        status: status.to_string(),
        stdout: stdout.to_string(),
        stderr: stderr.to_string(),
    }
}

#[test]
fn capture_checks_the_exit_status() {
    let inv = Invocation::new("git", vec!["status".to_string()], None, StrMap::new(), IoMode::Capture);
    assert_eq!(capture_result(&inv, Ok(out(true, "exit status: 0", "x", ""))).unwrap().stdout, "x");
    assert_eq!(
        capture_result(&inv, Ok(out(false, "exit status: 1", "o", "e"))).unwrap_err().0,
        "command failed with exit status: 1: \"git\" \"status\"\nstdout:\no\nstderr:\ne"
    );
    assert_eq!(
        capture_result(&inv, Err(Error("cannot run git".to_string()))).unwrap_err().0,
        "cannot run git"
    );
    let c = dry_output();
    assert!(c.success && c.stdout.is_empty() && c.stderr.is_empty());
    assert!(inherit_outcome(&inv, true, "exit status: 0").is_ok());
    assert_eq!(
        inherit_outcome(&inv, false, "exit status: 2").unwrap_err().0,
        "command failed with exit status: 2: \"git\" \"status\""
    );
}
