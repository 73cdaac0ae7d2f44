//! The commands the tool runs: their exact argv, how they are shown, and the
//! record a runner keeps of them (which is all a dry run does).
use vstd::prelude::*;
use crate::config::Config;
use crate::error::Error;
use crate::strmap::StrMap;
use crate::text::{concat_all, debug_quote, debug_quoted, join, views};

verus! {

/// Whether a command's output is captured or passed through to the terminal.
#[derive(Clone, Copy, Debug, PartialEq, Eq, Structural)]
pub enum IoMode {
    Capture,
    Inherit,
}

/// A command to run: program and arguments, working directory, extra
/// environment variables, and how its output is handled.
#[derive(Clone, Debug, PartialEq, Eq)]
pub struct Invocation {
    /// The program followed by its arguments.
    pub argv: Vec<String>,
    pub cwd: Option<String>,
    pub env: StrMap<String>,
    pub io: IoMode,
}

/// Runs commands, or in a dry run only records them; every command it is
/// asked to run is recorded, in order.
pub struct Runner {
    pub dry_run: bool,
    pub intended: Vec<Invocation>,
}

impl Invocation {
    /// The invocation of `program` with `args`.
    pub fn new(
        program: &str,
        args: Vec<String>,
        cwd: Option<String>,
        env: StrMap<String>,
        io: IoMode,
    ) -> (i: Invocation)
        ensures
            views(i.argv@) == seq![program@] + views(args@),
            i.cwd == cwd,
            i.env == env,
            i.io == io,
    {
        let mut argv: Vec<String> = Vec::new();
        argv.push(String::from_str(program));
        let ghost first = argv@;
        let mut i: usize = 0;
        while i < args.len()
            invariant
                i <= args@.len(),
                views(argv@) == seq![program@] + views(args@.take(i as int)),
            decreases args@.len() - i,
        {
            let ghost before = argv@;
            let a = args[i].clone();
            assert(a@ == args@[i as int]@);
            argv.push(a);
            proof {
                assert(args@.take(i + 1) =~= args@.take(i as int).push(args@[i as int]));
                assert(views(argv@) =~= views(before).push(a@));
                assert(views(args@.take(i + 1)) =~= views(args@.take(i as int)).push(a@));
                assert(views(argv@) =~= seq![program@] + views(args@.take(i + 1)));
            }
            i += 1;
        }
        assert(args@.take(args@.len() as int) =~= args@);
        Invocation { argv, cwd, env, io }
    }
}

impl Runner {
    /// A runner with nothing recorded yet.
    pub fn new(dry_run: bool) -> (r: Runner)
        ensures
            r.dry_run == dry_run,
            r.intended@.len() == 0,
    {
        Runner { dry_run, intended: Vec::new() }
    }

    /// Records an invocation; returns whether it must really run, which is
    /// the case unless this is a dry run.
    pub fn record(&mut self, invocation: Invocation) -> (execute: bool)
        ensures
            final(self).dry_run == old(self).dry_run,
            final(self).intended@ == old(self).intended@.push(invocation),
            execute == !old(self).dry_run,
    {
        self.intended.push(invocation);
        !self.dry_run
    }
}

/// What a step of a driven run asks for next.  The caller performs it and
/// answers with what happened; nothing else is run.
pub enum Action {
    /// Run, with its output captured, the invocation just recorded by the
    /// runner that checks; answer `Captured`.
    Capture,
    /// Run, with the terminal passed through, the invocation just recorded
    /// by the runner; answer `Ran`.
    Run,
    /// Tell whether this path names the repository; answer `Names`.
    NamesRepo(String),
    /// Load the configuration again; answer `Loaded`.
    Reload,
    /// Nothing to perform: ask for the next step, answering `Begin`.
    Proceed,
    /// Finished, with this result; nothing more is asked.
    Done(Result<(), Error>),
}

/// What the caller answers to the last action.
pub enum Answer {
    /// The first step: there was no action yet.
    Begin,
    Captured(Result<Captured, Error>),
    Ran(Result<(), Error>),
    Names(bool),
    Loaded(Result<Config, Error>),
}

/// Running a plan one invocation at a time: each step records the next
/// invocation and asks for it to be run, until one fails or none is left.
pub struct PlanRun {
    /// The invocations not yet recorded, last first.
    pending: Vec<Invocation>,
}

impl PlanRun {
    /// The invocations not yet recorded, in order.
    pub closed spec fn rest(&self) -> Seq<Invocation> {
        self.pending@.reverse()
    }

    /// A run of `plan`, from its first invocation.
    pub fn new(plan: Vec<Invocation>) -> (p: PlanRun)
        ensures
            p.rest() == plan@,
    {
        let ghost ps = plan@;
        let n = plan.len();
        let mut plan = plan;
        let mut pending: Vec<Invocation> = Vec::new();
        while plan.len() > 0
            invariant
                plan@.len() <= n,
                n == ps.len(),
                plan@ == ps.take(plan@.len() as int),
                pending@.len() == n - plan@.len(),
                forall|x: int| 0 <= x < pending@.len() ==> #[trigger] pending@[x] == ps[n - 1 - x],
            decreases plan@.len(),
        {
            let ghost m = plan@.len();
            let inv = plan.pop().unwrap();
            pending.push(inv);
            proof {
                assert(plan@ =~= ps.take(m - 1));
            }
        }
        let p = PlanRun { pending };
        assert(p.rest() =~= ps);
        p
    }

    /// One step of the run, given the answer to the last action (`Begin` at
    /// first, then `Ran`): after a failure the run is done with that error
    /// and nothing more is recorded; otherwise the next invocation is recorded
    /// and `Run` is asked for, or the run is done when none is left.  In a dry
    /// run every invocation left is recorded and none is run.
    pub fn step(&mut self, r: &mut Runner, answer: Answer) -> (a: Action)
        requires
            answer is Begin || answer is Ran,
        ensures
            final(r).dry_run == old(r).dry_run,
            answer matches Answer::Ran(Err(e)) ==> a == Action::Done(Err(e)) && final(r).intended@
                == old(r).intended@ && final(self).rest() == old(self).rest(),
            !(answer matches Answer::Ran(Err(_))) && old(r).dry_run ==> a == Action::Done(Ok(()))
                && final(r).intended@ == old(r).intended@ + old(self).rest() && final(self).rest().len()
                == 0,
            !(answer matches Answer::Ran(Err(_))) && !old(r).dry_run && old(self).rest().len() > 0
                ==> a is Run && final(r).intended@ == old(r).intended@.push(old(self).rest()[0])
                && final(self).rest() == old(self).rest().drop_first(),
            !(answer matches Answer::Ran(Err(_))) && !old(r).dry_run && old(self).rest().len() == 0
                ==> a == Action::Done(Ok(())) && final(r).intended@ == old(r).intended@
                && final(self).rest().len() == 0,
    {
        match answer {
            Answer::Ran(Err(e)) => {
                return Action::Done(Err(e));
            },
            _ => {},
        }
        if r.dry_run {
            let ghost start = r.intended@;
            let ghost rest = self.rest();
            while self.pending.len() > 0
                invariant
                    r.dry_run,
                    r.intended@ + self.rest() == start + rest,
                decreases self.pending@.len(),
            {
                let ghost before = self.rest();
                let inv = self.pending.pop().unwrap();
                proof {
                    assert(before =~= seq![inv] + self.rest());
                }
                r.record(inv);
                assert(r.intended@ + self.rest() =~= start + rest);
            }
            assert(self.rest() =~= Seq::<Invocation>::empty());
            assert(r.intended@ =~= start + rest);
            return Action::Done(Ok(()));
        }
        if self.pending.len() == 0 {
            return Action::Done(Ok(()));
        }
        let ghost before = self.rest();
        let inv = self.pending.pop().unwrap();
        proof {
            assert(before =~= seq![inv] + self.rest());
            assert(before.drop_first() =~= self.rest());
        }
        r.record(inv);
        Action::Run
    }
}

/// Each word quoted as `{:?}` does it, joined with single spaces.
pub open spec fn quoted_line(words: Seq<Seq<char>>) -> Seq<char> {
    join(words.map_values(|w: Seq<char>| debug_quoted(w)), " "@)
}

/// The words quoted and joined with single spaces.
pub fn quote_words(words: &Vec<String>) -> (r: String)
    ensures
        r@ == quoted_line(views(words@)),
{
    let mut quoted: Vec<String> = Vec::new();
    let mut i: usize = 0;
    while i < words.len()
        invariant
            i <= words@.len(),
            views(quoted@) == views(words@.take(i as int)).map_values(
                |w: Seq<char>| debug_quoted(w),
            ),
        decreases words@.len() - i,
    {
        let q = debug_quote(words[i].as_str());
        let ghost before = quoted@;
        quoted.push(q);
        proof {
            assert(views(quoted@) =~= views(before).push(q@));
            assert(views(words@.take(i + 1)) =~= views(words@.take(i as int)).push(words@[i as int]@));
            assert(words@.take(i + 1) =~= words@.take(i as int).push(words@[i as int]));
            assert(views(quoted@) =~= views(words@.take(i + 1)).map_values(
                |w: Seq<char>| debug_quoted(w),
            ));
        }
        i += 1;
    }
    assert(words@.take(words@.len() as int) =~= words@);
    crate::text::join_strings(&quoted, " ")
}

/// The program and its arguments, each quoted, separated by spaces.
pub fn display_argv(program: &str, args: &Vec<String>) -> (r: String)
    ensures
        r@ == quoted_line(seq![program@] + views(args@)),
{
    let mut words: Vec<String> = Vec::new();
    words.push(String::from_str(program));
    let mut i: usize = 0;
    while i < args.len()
        invariant
            i <= args@.len(),
            views(words@) == seq![program@] + views(args@.take(i as int)),
        decreases args@.len() - i,
    {
        let ghost before = words@;
        let a = args[i].clone();
        assert(a@ == args@[i as int]@);
        words.push(a);
        proof {
            assert(views(words@) =~= views(before).push(a@));
            assert(views(args@.take(i + 1)) =~= views(args@.take(i as int)).push(a@));
            assert(args@.take(i + 1) =~= args@.take(i as int).push(args@[i as int]));
            assert(views(words@) =~= seq![program@] + views(args@.take(i + 1)));
        }
        i += 1;
    }
    assert(args@.take(args@.len() as int) =~= args@);
    quote_words(&words)
}

/// The invocation's argv, each word quoted, separated by spaces: the line a
/// dry run prints for it.
pub fn display_invocation(i: &Invocation) -> (r: String)
    ensures
        r@ == quoted_line(views(i.argv@)),
{
    quote_words(&i.argv)
}

/// The message of a captured command that failed: its status and argv, then
/// its standard output and standard error when they are not empty.
pub open spec fn failure_message(
    status: Seq<char>,
    shown: Seq<char>,
    stdout: Seq<char>,
    stderr: Seq<char>,
) -> Seq<char> {
    "command failed with "@ + status + ": "@ + shown + (if stdout.len() > 0 {
        "\nstdout:\n"@ + stdout
    } else {
        Seq::empty()
    }) + (if stderr.len() > 0 {
        "\nstderr:\n"@ + stderr
    } else {
        Seq::empty()
    })
}

/// The error of a command that ran and failed; `status` is how the exit
/// status displays, `shown` the displayed argv.
pub fn command_error(status: &str, shown: &str, stdout: &str, stderr: &str) -> (e: Error)
    ensures
        e.0@ == failure_message(status@, shown@, stdout@, stderr@),
{
    let out_part = if stdout.is_empty() {
        String::new()
    } else {
        crate::text::concat("\nstdout:\n", stdout)
    };
    let err_part = if stderr.is_empty() {
        String::new()
    } else {
        crate::text::concat("\nstderr:\n", stderr)
    };
    let parts = vec!["command failed with ", status, ": ", shown, out_part.as_str(), err_part.as_str()];
    let m = concat_all(&parts);
    proof {
        assert(m@ =~= failure_message(status@, shown@, stdout@, stderr@)) by {
            reveal_with_fuel(crate::text::join, 7);
        }
    }
    Error(m)
}

/// The error of a command whose output was passed through and that failed.
pub fn status_error(status: &str, shown: &str) -> (e: Error)
    ensures
        e.0@ == "command failed with "@ + status@ + ": "@ + shown@,
{
    let parts = vec!["command failed with ", status, ": ", shown];
    let m = concat_all(&parts);
    proof {
        assert(m@ =~= "command failed with "@ + status@ + ": "@ + shown@) by {
            reveal_with_fuel(crate::text::join, 5);
        }
    }
    Error(m)
}

/// The error of a command that could not be started.
pub fn spawn_error(shown: &str, reason: &str) -> (e: Error)
    ensures
        e.0@ == "cannot run "@ + shown@ + ": "@ + reason@,
{
    let parts = vec!["cannot run ", shown, ": ", reason];
    let m = concat_all(&parts);
    proof {
        assert(m@ =~= "cannot run "@ + shown@ + ": "@ + reason@) by {
            reveal_with_fuel(crate::text::join, 5);
        }
    }
    Error(m)
}

/// What a captured command that ran to its end produced.
#[derive(Clone, Debug)]
pub struct Captured {
    /// Whether it exited successfully.
    pub success: bool,
    /// How its exit status displays.
    pub status: String,
    pub stdout: String,
    pub stderr: String,
}

/// What capturing `inv` makes of the outcome `o` of running it: the output
/// of a command that succeeded, or the message of one that could not start
/// or failed.
pub open spec fn captured(inv: Invocation, o: Result<Captured, Error>) -> Result<Captured, Seq<char>> {
    match o {
        Err(e) => Err(e.0@),
        Ok(c) => if c.success {
            Ok(c)
        } else {
            Err(failure_message(c.status@, quoted_line(views(inv.argv@)), c.stdout@, c.stderr@))
        },
    }
}

/// The output a dry run gives for a captured command: success, and nothing
/// written.
pub open spec fn empty_success(c: Captured) -> bool {
    c.success && c.stdout@.len() == 0 && c.stderr@.len() == 0
}

/// The output a dry run gives for a captured command: success, and nothing
/// written.
pub fn dry_output() -> (c: Captured)
    ensures
        empty_success(c),
{
    Captured { success: true, status: String::new(), stdout: String::new(), stderr: String::new() }
}

/// The result of capturing `inv` when running it gave `o`: the output of a
/// command that succeeded, or an error for one that could not start or
/// exited unsuccessfully, showing its argv, status and what it wrote.
pub fn capture_result(inv: &Invocation, o: Result<Captured, Error>) -> (r: Result<Captured, Error>)
    ensures
        match captured(*inv, o) {
            Ok(c) => r == Ok::<Captured, Error>(c),
            Err(m) => r matches Err(e) && e.0@ == m,
        },
{
    match o {
        Err(e) => Err(e),
        Ok(c) => {
            if c.success {
                Ok(c)
            } else {
                let shown = display_invocation(inv);
                Err(command_error(c.status.as_str(), shown.as_str(), c.stdout.as_str(), c.stderr.as_str()))
            }
        },
    }
}

/// The result of a command whose output was passed through and that exited
/// with `status`: `Ok` on success, otherwise an error that shows the status
/// and the argv.
pub fn inherit_outcome(inv: &Invocation, success: bool, status: &str) -> (r: Result<(), Error>)
    ensures
        r is Ok <==> success,
        r matches Err(e) ==> e.0@ == "command failed with "@ + status@ + ": "@ + quoted_line(
            views(inv.argv@),
        ),
{
    if success {
        Ok(())
    } else {
        Err(status_error(status, display_invocation(inv).as_str()))
    }
}

/// The lines a dry run prints: each recorded invocation's argv, quoted, in
/// the order they were recorded.
pub fn intended_lines(r: &Runner) -> (v: Vec<String>)
    ensures
        v@.len() == r.intended@.len(),
        forall|k: int| 0 <= k < v@.len() ==> (#[trigger] v@[k])@ == quoted_line(views(r.intended@[k].argv@)),
{
    let mut v: Vec<String> = Vec::new();
    let mut k: usize = 0;
    while k < r.intended.len()
        invariant
            k <= r.intended@.len(),
            v@.len() == k,
            forall|x: int| 0 <= x < k ==> (#[trigger] v@[x])@ == quoted_line(views(r.intended@[x].argv@)),
        decreases r.intended@.len() - k,
    {
        v.push(display_invocation(&r.intended[k]));
        k += 1;
    }
    v
}

} // verus!
