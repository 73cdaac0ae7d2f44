//! Hooks: programs run before install and after sync, with `{repo}`,
//! `{home}` and `{backend}` expanded and nothing else interpreted.
use vstd::prelude::*;
use crate::config::Hook;
use crate::error::Error;
use crate::process::{Invocation, IoMode};
use crate::text::{replace_all, replace_str, views};

verus! {

/// `value` with `{repo}`, then `{home}`, then `{backend}` replaced.
pub open spec fn expanded(value: Seq<char>, repo: Seq<char>, home: Seq<char>, backend: Seq<char>) -> Seq<
    char,
> {
    replace_all(
        replace_all(replace_all(value, "{repo}"@, repo), "{home}"@, home),
        "{backend}"@,
        backend,
    )
}

/// Replaces `{repo}`, `{home}` and `{backend}` in `value`; nothing else in
/// it is interpreted.
pub fn expand(value: &str, repo: &str, home: &str, backend: &str) -> (r: String)
    ensures
        r@ == expanded(value@, repo@, home@, backend@),
{
    proof {
        reveal_strlit("{repo}");
        reveal_strlit("{home}");
        reveal_strlit("{backend}");
    }
    let a = replace_str(value, "{repo}", repo);
    let b = replace_str(a.as_str(), "{home}", home);
    replace_str(b.as_str(), "{backend}", backend)
}

/// `pat` occurs somewhere in `s`.
pub open spec fn occurs(pat: Seq<char>, s: Seq<char>) -> bool {
    exists|i: int| 0 <= i && i + pat.len() <= s.len() && #[trigger] s.subrange(i, i + pat.len()) == pat
}

/// Replacing a pattern that does not occur leaves the text as it is.
pub proof fn lemma_replace_absent(s: Seq<char>, pat: Seq<char>, rep: Seq<char>)
    requires
        pat.len() > 0,
        !occurs(pat, s),
    ensures
        replace_all(s, pat, rep) == s,
    decreases s.len(),
{
    if s.len() >= pat.len() {
        assert(!pat.is_prefix_of(s)) by {
            if pat.is_prefix_of(s) {
                let z: int = 0;
                assert(s.subrange(z, z + pat.len()) =~= pat);
                assert(occurs(pat, s));
            }
        }
        let t = s.drop_first();
        assert(!occurs(pat, t)) by {
            if occurs(pat, t) {
                let i = choose|i: int|
                    0 <= i && i + pat.len() <= t.len() && #[trigger] t.subrange(i, i + pat.len()) == pat;
                let j = i + 1;
                assert(s.subrange(j, j + pat.len()) =~= t.subrange(i, i + pat.len()));
                assert(occurs(pat, s));
            }
        }
        lemma_replace_absent(t, pat, rep);
        assert(seq![s[0]] + t =~= s);
    }
}

/// A text in which none of `{repo}`, `{home}` and `{backend}` occurs is
/// passed on exactly as written: in particular `$HOME`, `$(..)`, quotes and
/// other braces are never evaluated.
pub proof fn lemma_expand_plain_text(value: Seq<char>, repo: Seq<char>, home: Seq<char>, backend: Seq<
    char,
>)
    requires
        !occurs("{repo}"@, value),
        !occurs("{home}"@, value),
        !occurs("{backend}"@, value),
    ensures
        expanded(value, repo, home, backend) == value,
{
    reveal_strlit("{repo}");
    reveal_strlit("{home}");
    reveal_strlit("{backend}");
    lemma_replace_absent(value, "{repo}"@, repo);
    lemma_replace_absent(value, "{home}"@, home);
    lemma_replace_absent(value, "{backend}"@, backend);
}

/// The argv a hook runs: its program and arguments, each expanded.
pub open spec fn hook_argv(h: Hook, repo: Seq<char>, home: Seq<char>, backend: Seq<char>) -> Seq<
    Seq<char>,
> {
    seq![expanded(h.program@, repo, home, backend)] + views(h.args@).map_values(
        |a: Seq<char>| expanded(a, repo, home, backend),
    )
}

/// `i` runs hook `h`: expanded argv, working directory and variable values,
/// the same variable names, output passed through.
pub open spec fn runs_hook(
    i: Invocation,
    h: Hook,
    repo: Seq<char>,
    home: Seq<char>,
    backend: Seq<char>,
) -> bool {
    &&& views(i.argv@) == hook_argv(h, repo, home, backend)
    &&& match h.cwd {
        Some(c) => i.cwd matches Some(d) && d@ == expanded(c@, repo, home, backend),
        None => i.cwd is None,
    }
    &&& i.env@.len() == h.env@.len()
    &&& forall|k: int|
        0 <= k < h.env@.len() ==> (#[trigger] i.env@[k]).0 == h.env@[k].0 && i.env@[k].1@
            == expanded(h.env@[k].1@, repo, home, backend)
    &&& i.io == IoMode::Inherit
}

/// The invocation that runs one hook.
pub fn hook_invocation(h: &Hook, repo: &str, home: &str, backend: &str) -> (i: Invocation)
    ensures
        runs_hook(i, *h, repo@, home@, backend@),
{
    let mut args: Vec<String> = Vec::new();
    let mut k: usize = 0;
    while k < h.args.len()
        invariant
            k <= h.args@.len(),
            views(args@) == views(h.args@.take(k as int)).map_values(
                |a: Seq<char>| expanded(a, repo@, home@, backend@),
            ),
        decreases h.args@.len() - k,
    {
        let e = expand(h.args[k].as_str(), repo, home, backend);
        let ghost before = args@;
        args.push(e);
        proof {
            assert(views(args@) =~= views(before).push(e@));
            assert(views(h.args@.take(k + 1)) =~= views(h.args@.take(k as int)).push(
                h.args@[k as int]@,
            ));
            assert(views(args@) =~= views(h.args@.take(k + 1)).map_values(
                |a: Seq<char>| expanded(a, repo@, home@, backend@),
            ));
        }
        k += 1;
    }
    assert(h.args@.take(h.args@.len() as int) =~= h.args@);
    let cwd = match &h.cwd {
        Some(c) => Some(expand(c.as_str(), repo, home, backend)),
        None => None,
    };
    let mut values: Vec<String> = Vec::new();
    let mut j: usize = 0;
    while j < h.env.len()
        invariant
            j <= h.env@.len(),
            values@.len() == j,
            forall|x: int|
                0 <= x < j ==> (#[trigger] values@[x])@ == expanded(
                    h.env@[x].1@,
                    repo@,
                    home@,
                    backend@,
                ),
        decreases h.env@.len() - j,
    {
        let v = expand(h.env.value_at(j).as_str(), repo, home, backend);
        values.push(v);
        j += 1;
    }
    let env = h.env.with_values(values);
    let program = expand(h.program.as_str(), repo, home, backend);
    let i = Invocation::new(program.as_str(), args, cwd, env, IoMode::Inherit);
    proof {
        assert(views(i.argv@) =~= hook_argv(*h, repo@, home@, backend@));
    }
    i
}

/// The invocations that run the hooks, in order; the home directory must be
/// known to expand them, even when there are none.
pub fn hook_invocations(hooks: &Vec<Hook>, repo: &str, home: Option<&str>, backend: &str) -> (r:
    Result<Vec<Invocation>, Error>)
    ensures
        match r {
            Ok(v) => home is Some && v@.len() == hooks@.len() && forall|k: int|
                0 <= k < hooks@.len() ==> runs_hook(
                    #[trigger] v@[k],
                    hooks@[k],
                    repo@,
                    home->Some_0@,
                    backend@,
                ),
            Err(e) => home is None && e.0@ == "home directory is unavailable"@,
        },
{
    let home = match home {
        Some(h) => h,
        None => {
            return Err(Error(String::from_str("home directory is unavailable")));
        },
    };
    let mut v: Vec<Invocation> = Vec::new();
    let mut k: usize = 0;
    while k < hooks.len()
        invariant
            k <= hooks@.len(),
            v@.len() == k,
            forall|x: int|
                0 <= x < k ==> runs_hook(#[trigger] v@[x], hooks@[x], repo@, home@, backend@),
        decreases hooks@.len() - k,
    {
        let i = hook_invocation(&hooks[k], repo, home, backend);
        v.push(i);
        k += 1;
    }
    Ok(v)
}

} // verus!
