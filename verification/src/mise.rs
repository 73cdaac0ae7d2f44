//! mise environments: which ones a profile uses, and the argv of the mise
//! commands run for them.
use vstd::prelude::*;
use crate::config::{Config, Environment, Profile};
use crate::error::Error;
use crate::process::{Invocation, IoMode};
use crate::strmap::StrMap;
use crate::text::{concat, concat_all, join_path, path_join, path_key, path_key_of, str_eq, views};

verus! {

/// The environments a profile uses: its own, or `[common]` once when it has
/// none; an unknown profile is an error.
pub open spec fn environment_selection(cfg: Config, profile: Seq<char>) -> Result<
    Seq<Environment>,
    Seq<char>,
> {
    match cfg.profiles.lookup(profile) {
        None => Err("unknown profile: "@ + profile),
        Some(p) => if p.environments@.len() == 0 {
            Ok(seq![cfg.common])
        } else {
            Ok(p.environments@)
        },
    }
}

/// The environments the profile uses, in order.
pub fn selected_environments<'a>(cfg: &'a Config, profile: &str) -> (r: Result<
    Vec<&'a Environment>,
    Error,
>)
    ensures
        match r {
            Ok(v) => environment_selection(*cfg, profile@) matches Ok(s) && v@.len() == s.len()
                && forall|k: int| 0 <= k < s.len() ==> *(#[trigger] v@[k]) == s[k],
            Err(e) => environment_selection(*cfg, profile@) == Err::<Seq<Environment>, Seq<char>>(
                e.0@,
            ),
        },
{
    let p = match cfg.profiles.get(profile) {
        Some(p) => p,
        None => {
            return Err(Error(concat("unknown profile: ", profile)));
        },
    };
    let mut v: Vec<&'a Environment> = Vec::new();
    if p.environments.len() == 0 {
        v.push(&cfg.common);
        return Ok(v);
    }
    let mut k: usize = 0;
    while k < p.environments.len()
        invariant
            k <= p.environments@.len(),
            v@.len() == k,
            forall|x: int| 0 <= x < k ==> *(#[trigger] v@[x]) == p.environments@[x],
        decreases p.environments@.len() - k,
    {
        v.push(&p.environments[k]);
        k += 1;
    }
    Ok(v)
}

/// The environment `add` and `edit` use for a profile: its
/// `add_environment`, with no targets.
pub fn add_environment(profile: &Profile) -> (e: Environment)
    ensures
        e.mise_environment == profile.add_environment,
        e.targets@.len() == 0,
{
    Environment { mise_environment: profile.add_environment.clone(), targets: Vec::new() }
}

/// The repository's mise directory.
pub open spec fn mise_dir(repo: Seq<char>, cfg: Config) -> Seq<char> {
    path_join(repo, cfg.repository.mise_dir@)
}

/// The argv of `mise -C <mise dir> [-E <environment>] <args>`.
pub open spec fn mise_argv(
    repo: Seq<char>,
    cfg: Config,
    name: Option<String>,
    args: Seq<Seq<char>>,
) -> Seq<Seq<char>> {
    seq!["mise"@, "-C"@, mise_dir(repo, cfg)] + (match name {
        Some(e) => seq!["-E"@, e@],
        None => Seq::<Seq<char>>::empty(),
    }) + args
}

/// An invocation with no working directory and no extra variables.
pub open spec fn plain(i: Invocation, io: IoMode) -> bool {
    i.cwd is None && i.env@.len() == 0 && i.io == io
}

/// The path of the repository's mise directory.
pub fn mise_dir_of(repo: &str, cfg: &Config) -> (d: String)
    ensures
        d@ == mise_dir(repo@, *cfg),
{
    join_path(repo, cfg.repository.mise_dir.as_str())
}

/// Appends strings to a list.
pub fn push_all(v: &mut Vec<String>, w: &Vec<String>)
    ensures
        views(final(v)@) == views(old(v)@) + views(w@),
{
    let mut k: usize = 0;
    while k < w.len()
        invariant
            k <= w@.len(),
            views(v@) == views(old(v)@) + views(w@.take(k as int)),
        decreases w@.len() - k,
    {
        let ghost before = v@;
        let s = w[k].clone();
        v.push(s);
        proof {
            assert(views(v@) =~= views(before).push(s@));
            assert(views(w@.take(k + 1)) =~= views(w@.take(k as int)).push(w@[k as int]@));
        }
        k += 1;
    }
    assert(w@.take(w@.len() as int) =~= w@);
}

/// Strings made from literals.
pub fn strings_of(words: Vec<&str>) -> (v: Vec<String>)
    ensures
        views(v@) == words@.map_values(|w: &str| w@),
{
    let mut v: Vec<String> = Vec::new();
    let mut k: usize = 0;
    while k < words.len()
        invariant
            k <= words@.len(),
            views(v@) == words@.take(k as int).map_values(|w: &str| w@),
        decreases words@.len() - k,
    {
        let ghost before = v@;
        let s = String::from_str(words[k]);
        v.push(s);
        proof {
            assert(views(v@) =~= views(before).push(s@));
            assert(words@.take(k + 1).map_values(|w: &str| w@) =~= words@.take(k as int).map_values(
                |w: &str| w@,
            ).push(words@[k as int]@));
        }
        k += 1;
    }
    assert(words@.take(words@.len() as int) =~= words@);
    v
}

/// The invocation of `mise -C <mise dir> [-E <environment>] <args>`.
pub fn mise_invocation(
    repo: &str,
    cfg: &Config,
    env: &Environment,
    args: &Vec<String>,
    io: IoMode,
) -> (i: Invocation)
    ensures
        views(i.argv@) == mise_argv(repo@, *cfg, env.mise_environment, views(args@)),
        plain(i, io),
{
    let mut a: Vec<String> = Vec::new();
    a.push(String::from_str("-C"));
    a.push(mise_dir_of(repo, cfg));
    match &env.mise_environment {
        Some(e) => {
            a.push(String::from_str("-E"));
            a.push(e.clone());
        },
        None => {},
    }
    push_all(&mut a, args);
    let i = Invocation::new("mise", a, None, StrMap::new(), io);
    proof {
        assert(views(i.argv@) =~= mise_argv(repo@, *cfg, env.mise_environment, views(args@)));
    }
    i
}

/// The mise file of each environment that names one, in order.
pub open spec fn environment_files(dir: Seq<char>, envs: Seq<Environment>) -> Seq<Seq<char>>
    decreases envs.len(),
{
    if envs.len() == 0 {
        Seq::empty()
    } else {
        let rest = environment_files(dir, envs.drop_last());
        match envs.last().mise_environment {
            Some(n) => rest.push(path_join(dir, "mise."@ + n@ + ".toml"@)),
            None => rest,
        }
    }
}

/// The keys of paths.
pub open spec fn path_keys(s: Seq<Seq<char>>) -> Seq<Seq<char>> {
    s.map_values(|p: Seq<char>| path_key(p))
}

/// The first of each set of paths that are the same path, in order.
pub open spec fn first_paths(s: Seq<Seq<char>>) -> Seq<Seq<char>>
    decreases s.len(),
{
    if s.len() == 0 {
        Seq::empty()
    } else {
        let rest = first_paths(s.drop_last());
        if path_keys(rest).contains(path_key(s.last())) {
            rest
        } else {
            rest.push(s.last())
        }
    }
}

/// The configuration files to trust: the base `mise.toml`, then each
/// environment's file, each path once.
pub open spec fn trusted_files(repo: Seq<char>, cfg: Config, envs: Seq<Environment>) -> Seq<Seq<char>> {
    let dir = mise_dir(repo, cfg);
    first_paths(seq![path_join(dir, "mise.toml"@)] + environment_files(dir, envs))
}

/// Keeping the first of each path keeps every path once: no two kept
/// entries are the same path, each is one of the candidates, and each
/// candidate is the same path as one kept.
pub proof fn lemma_first_paths(s: Seq<Seq<char>>)
    ensures
        path_keys(first_paths(s)).no_duplicates(),
        forall|x: Seq<char>| #[trigger] first_paths(s).contains(x) ==> s.contains(x),
        forall|x: Seq<char>| s.contains(x) ==> #[trigger] path_keys(first_paths(s)).contains(path_key(x)),
    decreases s.len(),
{
    if s.len() > 0 {
        let init = s.drop_last();
        lemma_first_paths(init);
        let rest = first_paths(init);
        let f = first_paths(s);
        assert(s =~= init.push(s.last()));
        if !path_keys(rest).contains(path_key(s.last())) {
            assert(path_keys(f) =~= path_keys(rest).push(path_key(s.last())));
        }
        assert forall|x: Seq<char>| #[trigger] f.contains(x) implies s.contains(x) by {
            let i = choose|i: int| 0 <= i < f.len() && f[i] == x;
            if i < rest.len() {
                assert(rest[i] == x);
                assert(rest.contains(x));
                let j = choose|j: int| 0 <= j < init.len() && init[j] == x;
                assert(s[j] == x);
            } else {
                assert(s[s.len() - 1] == x);
            }
        }
        assert forall|x: Seq<char>| s.contains(x) implies #[trigger] path_keys(f).contains(path_key(x)) by {
            let j = choose|j: int| 0 <= j < s.len() && s[j] == x;
            if j < s.len() - 1 {
                assert(init[j] == x);
                assert(init.contains(x));
                assert(path_keys(rest).contains(path_key(x)));
                let i = choose|i: int| 0 <= i < path_keys(rest).len() && path_keys(rest)[i] == path_key(x);
                assert(f[i] == rest[i]);
                assert(path_keys(f)[i] == path_key(x));
            } else {
                if !path_keys(rest).contains(path_key(s.last())) {
                    assert(path_keys(f)[rest.len() as int] == path_key(x));
                }
            }
        }
    }
}

/// Whether `s` is one of the strings of `v`.
pub fn contains_string(v: &Vec<String>, s: &str) -> (b: bool)
    ensures
        b == views(v@).contains(s@),
{
    let mut k: usize = 0;
    while k < v.len()
        invariant
            k <= v@.len(),
            forall|x: int| 0 <= x < k ==> v@[x]@ != s@,
        decreases v@.len() - k,
    {
        if str_eq(v[k].as_str(), s) {
            assert(views(v@)[k as int] == s@);
            return true;
        }
        k += 1;
    }
    proof {
        if views(v@).contains(s@) {
            let j = choose|j: int| 0 <= j < views(v@).len() && views(v@)[j] == s@;
            assert(v@[j]@ == s@);
        }
    }
    false
}

/// The `mise trust <file>` invocations of a profile: the base configuration
/// and each environment's file, each exactly once, in order.
pub fn trust_plan(repo: &str, cfg: &Config, profile: &str) -> (r: Result<Vec<Invocation>, Error>)
    ensures
        match r {
            Ok(v) => environment_selection(*cfg, profile@) matches Ok(envs) && v@.len()
                == trusted_files(repo@, *cfg, envs).len() && forall|k: int|
                0 <= k < v@.len() ==> views((#[trigger] v@[k]).argv@) == seq![
                    "mise"@,
                    "trust"@,
                    trusted_files(repo@, *cfg, envs)[k],
                ] && plain(v@[k], IoMode::Inherit),
            Err(e) => environment_selection(*cfg, profile@) == Err::<Seq<Environment>, Seq<char>>(
                e.0@,
            ),
        },
{
    let envs = selected_environments(cfg, profile)?;
    let ghost es = environment_selection(*cfg, profile@)->Ok_0;
    let dir = mise_dir_of(repo, cfg);
    let mut paths: Vec<String> = Vec::new();
    paths.push(join_path(dir.as_str(), "mise.toml"));
    let mut k: usize = 0;
    while k < envs.len()
        invariant
            k <= envs@.len(),
            envs@.len() == es.len(),
            forall|x: int| 0 <= x < es.len() ==> *(#[trigger] envs@[x]) == es[x],
            dir@ == mise_dir(repo@, *cfg),
            views(paths@) == seq![path_join(dir@, "mise.toml"@)] + environment_files(
                dir@,
                es.take(k as int),
            ),
        decreases envs@.len() - k,
    {
        let ghost before = paths@;
        assert(es.take(k + 1).drop_last() =~= es.take(k as int));
        assert(es.take(k + 1).last() == es[k as int]);
        match &envs[k].mise_environment {
            Some(n) => {
                let parts = vec!["mise.", n.as_str(), ".toml"];
                let file = concat_all(&parts);
                proof {
                    assert(file@ =~= "mise."@ + n@ + ".toml"@) by {
                        reveal_with_fuel(crate::text::join, 4);
                    }
                }
                let p = join_path(dir.as_str(), file.as_str());
                paths.push(p);
                proof {
                    assert(views(paths@) =~= views(before).push(p@));
                }
            },
            None => {},
        }
        k += 1;
    }
    assert(es.take(es.len() as int) =~= es);
    let ghost cands = views(paths@);
    let mut kept: Vec<String> = Vec::new();
    let mut keys: Vec<String> = Vec::new();
    let mut plan: Vec<Invocation> = Vec::new();
    let mut j: usize = 0;
    while j < paths.len()
        invariant
            j <= paths@.len(),
            cands == views(paths@),
            views(kept@) == first_paths(cands.take(j as int)),
            views(keys@) == path_keys(views(kept@)),
            plan@.len() == kept@.len(),
            forall|x: int|
                0 <= x < plan@.len() ==> views((#[trigger] plan@[x]).argv@) == seq![
                    "mise"@,
                    "trust"@,
                    kept@[x]@,
                ] && plain(plan@[x], IoMode::Inherit),
        decreases paths@.len() - j,
    {
        assert(cands.take(j + 1).drop_last() =~= cands.take(j as int));
        assert(cands.take(j + 1).last() == paths@[j as int]@);
        let key = path_key_of(paths[j].as_str());
        if !contains_string(&keys, key.as_str()) {
            let ghost before = kept@;
            let ghost keys_before = keys@;
            let p = paths[j].clone();
            kept.push(p);
            keys.push(key);
            assert(views(kept@) =~= views(before).push(paths@[j as int]@));
            assert(views(keys@) =~= views(keys_before).push(path_key(paths@[j as int]@)));
            assert(path_keys(views(kept@)) =~= path_keys(views(before)).push(path_key(paths@[j as int]@)));
            let args = vec![String::from_str("trust"), paths[j].clone()];
            let inv = Invocation::new("mise", args, None, StrMap::new(), IoMode::Inherit);
            assert(views(inv.argv@) =~= seq!["mise"@, "trust"@, kept@[kept@.len() - 1]@]);
            plan.push(inv);
        }
        j += 1;
    }
    assert(cands.take(cands.len() as int) =~= cands);
    proof {
        assert forall|x: int| 0 <= x < plan@.len() implies views((#[trigger] plan@[x]).argv@) == seq![
            "mise"@,
            "trust"@,
            trusted_files(repo@, *cfg, es)[x],
        ] by {
            assert(views(kept@)[x] == kept@[x]@);
        }
    }
    Ok(plan)
}

/// A profile's `trust` plan names each configuration file once: no two
/// of its files are the same path, each is the base configuration or an
/// environment's file, and each of those is the same path as one of them.
pub proof fn lemma_trust_each_file_once(repo: Seq<char>, cfg: Config, envs: Seq<Environment>)
    ensures
        path_keys(trusted_files(repo, cfg, envs)).no_duplicates(),
        forall|x: Seq<char>|
            #[trigger] trusted_files(repo, cfg, envs).contains(x) ==> (seq![
                path_join(mise_dir(repo, cfg), "mise.toml"@),
            ] + environment_files(mise_dir(repo, cfg), envs)).contains(x),
        forall|x: Seq<char>|
            (seq![path_join(mise_dir(repo, cfg), "mise.toml"@)] + environment_files(
                mise_dir(repo, cfg),
                envs,
            )).contains(x) ==> #[trigger] path_keys(trusted_files(repo, cfg, envs)).contains(
                path_key(x),
            ),
{
    lemma_first_paths(
        seq![path_join(mise_dir(repo, cfg), "mise.toml"@)] + environment_files(
            mise_dir(repo, cfg),
            envs,
        ),
    );
}

} // verus!
