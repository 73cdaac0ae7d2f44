//! Registering an existing clone: the checks `init` makes, the environments
//! it picks, and the configuration and locator it writes.
use vstd::prelude::*;
use crate::config::Config;
use crate::error::Error;
use crate::git::{remotes_equal, same_remote};
use crate::platform::{platform_name, Platform};
use crate::strmap::{lemma_lt_irreflexive, lemma_lt_total, lemma_lt_transitive};
use crate::text::{
    chars_between, chars_of, chars_eq_ignore_case, concat, concat_all, debug_quote, debug_quoted,
    eq_ignore_case, has_prefix, has_suffix, seq_lt, str_eq, str_lt,
    string_from_chars, trim, trim_str, views,
};

verus! {

/// `init` takes only the root of a Git clone.
pub fn check_init_root(is_root: bool) -> (r: Result<(), Error>)
    ensures
        r is Ok <==> is_root,
        r matches Err(e) ==> e.0@ == "init path must be the root of an existing Git clone"@,
{
    if is_root {
        Ok(())
    } else {
        Err(Error(String::from_str("init path must be the root of an existing Git clone")))
    }
}

/// What an existing locator file means for `init`: it must name this
/// repository, and the configuration must then exist too.
pub open spec fn locator_problem(
    locator: Seq<char>,
    registered: Seq<char>,
    repo: Seq<char>,
    config: Seq<char>,
    config_exists: bool,
) -> Option<Seq<char>> {
    if registered != repo {
        Some(locator + " already registers "@ + registered + "; refusing to replace it"@)
    } else if !config_exists {
        Some(
            locator + " already registers this repository but "@ + config
                + " is missing; refusing a partial registration"@,
        )
    } else {
        None
    }
}

/// Checks an existing locator file against the repository being registered.
pub fn check_locator_registration(
    locator: &str,
    registered: &str,
    repo: &str,
    config: &str,
    config_exists: bool,
) -> (r: Result<(), Error>)
    ensures
        match r {
            Ok(()) => locator_problem(locator@, registered@, repo@, config@, config_exists) is None,
            Err(e) => locator_problem(locator@, registered@, repo@, config@, config_exists) == Some(
                e.0@,
            ),
        },
{
    if !str_eq(registered, repo) {
        let parts = vec![locator, " already registers ", registered, "; refusing to replace it"];
        let m = concat_all(&parts);
        proof {
            assert(m@ =~= locator@ + " already registers "@ + registered@
                + "; refusing to replace it"@) by {
                reveal_with_fuel(crate::text::join, 5);
            }
        }
        return Err(Error(m));
    }
    if !config_exists {
        let parts = vec![
            locator,
            " already registers this repository but ",
            config,
            " is missing; refusing a partial registration",
        ];
        let m = concat_all(&parts);
        proof {
            assert(m@ =~= locator@ + " already registers this repository but "@ + config@
                + " is missing; refusing a partial registration"@) by {
                reveal_with_fuel(crate::text::join, 5);
            }
        }
        return Err(Error(m));
    }
    Ok(())
}

/// An existing configuration must agree with the clone's branch and origin.
pub open spec fn existing_config_agrees(
    existing: Config,
    branch_output: Seq<char>,
    origin_output: Seq<char>,
) -> bool {
    existing.repository.branch@ == trim(branch_output) && same_remote(
        existing.repository.origin@,
        trim(origin_output),
    )
}

/// Checks an existing configuration against the clone's branch and origin.
pub fn check_existing_config(
    config: &str,
    existing: &Config,
    branch_output: &str,
    origin_output: &str,
) -> (r: Result<(), Error>)
    ensures
        r is Ok <==> existing_config_agrees(*existing, branch_output@, origin_output@),
        r matches Err(e) ==> e.0@ == config@
            + " conflicts with the current branch or origin; refusing to overwrite it"@,
{
    let branch = trim_str(branch_output);
    let origin = trim_str(origin_output);
    if !str_eq(existing.repository.branch.as_str(), branch.as_str()) || !remotes_equal(
        existing.repository.origin.as_str(),
        origin.as_str(),
    ) {
        return Err(
            Error(
                concat(config, " conflicts with the current branch or origin; refusing to overwrite it"),
            ),
        );
    }
    Ok(())
}

/// What `init` does with a clone whose checks passed.
#[derive(Debug, PartialEq, Eq, Structural)]
pub enum Registration {
    /// The configuration exists and agrees with the clone; the locator is
    /// written only when there is none.
    Keep { write_locator: bool },
    /// There is no configuration yet: write one, then the locator.
    Create,
}

/// The decision of `init`, from the locator file (the repository it
/// registers, when it exists) and the configuration (how loading it went,
/// when it exists).
pub open spec fn registration_outcome(
    locator: Seq<char>,
    registered: Option<Seq<char>>,
    repo: Seq<char>,
    config: Seq<char>,
    existing: Option<Result<Config, Error>>,
    branch_output: Seq<char>,
    origin_output: Seq<char>,
) -> Result<Option<bool>, Seq<char>> {
    if registered is Some && locator_problem(
        locator,
        registered->Some_0,
        repo,
        config,
        existing is Some,
    ) is Some {
        Err(locator_problem(locator, registered->Some_0, repo, config, existing is Some)->Some_0)
    } else {
        match existing {
            Some(Err(e)) => Err(e.0@),
            Some(Ok(c)) => if existing_config_agrees(c, branch_output, origin_output) {
                Ok(Some(registered is None))
            } else {
                Err(config + " conflicts with the current branch or origin; refusing to overwrite it"@)
            },
            None => Ok(None),
        }
    }
}

/// Decides what `init` does: an existing locator must register this
/// repository and then the configuration must exist; an existing
/// configuration must load and agree with the clone, and is kept; only when
/// there is none is one created.
pub fn plan_registration(
    locator: &str,
    registered: Option<&str>,
    repo: &str,
    config: &str,
    existing: Option<Result<Config, Error>>,
    branch_output: &str,
    origin_output: &str,
) -> (r: Result<Registration, Error>)
    ensures
        match r {
            Ok(Registration::Keep { write_locator }) => registration_outcome(
                locator@,
                crate::locator::opt_view(registered),
                repo@,
                config@,
                existing,
                branch_output@,
                origin_output@,
            ) == Ok::<Option<bool>, Seq<char>>(Some(write_locator)),
            Ok(Registration::Create) => registration_outcome(
                locator@,
                crate::locator::opt_view(registered),
                repo@,
                config@,
                existing,
                branch_output@,
                origin_output@,
            ) == Ok::<Option<bool>, Seq<char>>(None),
            Err(e) => registration_outcome(
                locator@,
                crate::locator::opt_view(registered),
                repo@,
                config@,
                existing,
                branch_output@,
                origin_output@,
            ) == Err::<Option<bool>, Seq<char>>(e.0@),
        },
        existing is Some ==> !(r matches Ok(Registration::Create)),
{
    let exists = existing.is_some();
    if let Some(reg) = registered {
        check_locator_registration(locator, reg, repo, config, exists)?;
    }
    match existing {
        Some(Err(e)) => Err(e),
        Some(Ok(c)) => {
            check_existing_config(config, &c, branch_output, origin_output)?;
            Ok(Registration::Keep { write_locator: registered.is_none() })
        },
        None => Ok(Registration::Create),
    }
}

/// The mise directory of a new configuration: `mise` when `mise/mise.toml`
/// exists, `.` when `mise.toml` exists at the root, an error otherwise.
pub fn init_mise_dir(nested: bool, at_root: bool) -> (r: Result<String, Error>)
    ensures
        match r {
            Ok(d) => (nested && d@ == "mise"@) || (!nested && at_root && d@ == "."@),
            Err(e) => !nested && !at_root && e.0@
                == "cannot initialize: no mise.toml found at repository root or mise/mise.toml"@,
        },
{
    if nested {
        Ok(String::from_str("mise"))
    } else if at_root {
        Ok(String::from_str("."))
    } else {
        Err(
            Error(
                String::from_str(
                    "cannot initialize: no mise.toml found at repository root or mise/mise.toml",
                ),
            ),
        )
    }
}

/// The environment a mise file is for: `mise.<name>.toml` gives `<name>`.
pub open spec fn environment_of_file(f: Seq<char>) -> Option<Seq<char>> {
    if "mise."@.is_prefix_of(f) && ".toml"@.is_suffix_of(f.skip(5)) {
        Some(f.skip(5).take(f.len() - 10))
    } else {
        None
    }
}

/// The environments of the files, in the order of the files.
pub open spec fn environments_of_files(files: Seq<Seq<char>>) -> Seq<Seq<char>>
    decreases files.len(),
{
    if files.len() == 0 {
        Seq::empty()
    } else {
        let rest = environments_of_files(files.drop_last());
        match environment_of_file(files.last()) {
            Some(n) => rest.push(n),
            None => rest,
        }
    }
}

/// Ascending, equal names allowed.
pub open spec fn sorted(s: Seq<Seq<char>>) -> bool {
    forall|i: int, j: int| 0 <= i < j < s.len() ==> !seq_lt(#[trigger] s[j], #[trigger] s[i])
}

/// The environment a file name is for, if it is `mise.<name>.toml`.
pub fn environment_name(file: &str) -> (r: Option<String>)
    ensures
        match r {
            Some(n) => environment_of_file(file@) == Some(n@),
            None => environment_of_file(file@) is None,
        },
{
    proof {
        reveal_strlit("mise.");
        reveal_strlit(".toml");
    }
    let f = chars_of(file);
    let p = chars_of("mise.");
    if !has_prefix(&f, &p) {
        return None;
    }
    let rest = chars_between(&f, 5, f.len());
    let s = chars_of(".toml");
    if !has_suffix(&rest, &s) {
        return None;
    }
    let name = chars_between(&rest, 0, rest.len() - 5);
    assert(name@ =~= f@.skip(5).take(f@.len() - 10));
    Some(string_from_chars(&name))
}

fn insert_sorted(v: &mut Vec<String>, x: String)
    requires
        sorted(views(old(v)@)),
    ensures
        sorted(views(final(v)@)),
        views(final(v)@).to_multiset() == views(old(v)@).to_multiset().insert(x@),
{
    let ghost s = views(v@);
    let mut i: usize = 0;
    while i < v.len() && !str_lt(x.as_str(), v[i].as_str())
        invariant
            s == views(v@),
            i <= s.len(),
            forall|j: int| 0 <= j < i ==> !seq_lt(x@, #[trigger] s[j]),
        decreases s.len() - i,
    {
        i += 1;
    }
    let ghost xv = x@;
    v.insert(i, x);
    proof {
        let t = views(v@);
        assert(t =~= s.insert(i as int, xv));
        vstd::seq_lib::to_multiset_insert(s, i as int, xv);
        assert forall|a: int, b: int| 0 <= a < b < t.len() implies !seq_lt(
            #[trigger] t[b],
            #[trigger] t[a],
        ) by {
            if b < i {
                assert(t[a] == s[a] && t[b] == s[b]);
            } else if a > i {
                assert(t[a] == s[a - 1] && t[b] == s[b - 1]);
            } else if a == i {
                // t[a] is x and t[b] comes after it.
                assert(t[b] == s[b - 1]);
                assert(seq_lt(xv, s[i as int]));
                if seq_lt(s[b - 1], xv) {
                    if b - 1 > i {
                        lemma_lt_transitive(s[b - 1], xv, s[i as int]);
                        lemma_lt_transitive(xv, s[i as int], xv);
                        lemma_lt_irreflexive(xv);
                    } else {
                        lemma_lt_transitive(xv, s[i as int], xv);
                        lemma_lt_irreflexive(xv);
                    }
                }
            } else if b == i {
                assert(t[a] == s[a]);
                assert(!seq_lt(xv, s[a]));
            } else {
                assert(t[a] == s[a] && t[b] == s[b - 1]);
                assert(!seq_lt(xv, s[a]));
                // s[a] <= x < s[i] <= s[b - 1]
                if seq_lt(s[b - 1], s[a]) {
                    if s[a] != xv {
                        lemma_lt_total(s[a], xv);
                        lemma_lt_transitive(s[b - 1], s[a], xv);
                    } else {
                        assert(seq_lt(s[b - 1], xv));
                    }
                    // now s[b - 1] < x < s[i]
                    lemma_lt_transitive(s[b - 1], xv, s[i as int]);
                    if b - 1 > i {
                        assert(!seq_lt(s[b - 1], s[i as int]));
                    } else {
                        lemma_lt_irreflexive(s[i as int]);
                    }
                }
            }
        }
    }
}

/// The environments of the files of a mise directory, by their names in
/// ascending order.
pub fn environment_names(files: &Vec<String>) -> (names: Vec<String>)
    ensures
        sorted(views(names@)),
        views(names@).to_multiset() == environments_of_files(views(files@)).to_multiset(),
{
    let ghost fs = views(files@);
    let mut names: Vec<String> = Vec::new();
    let mut k: usize = 0;
    assert(views(names@) =~= Seq::<Seq<char>>::empty());
    assert(fs.take(0) =~= Seq::<Seq<char>>::empty());
    while k < files.len()
        invariant
            k <= files@.len(),
            fs == views(files@),
            sorted(views(names@)),
            views(names@).to_multiset() == environments_of_files(fs.take(k as int)).to_multiset(),
        decreases files@.len() - k,
    {
        assert(fs.take(k + 1).drop_last() =~= fs.take(k as int));
        assert(fs.take(k + 1).last() == files@[k as int]@);
        match environment_name(files[k].as_str()) {
            Some(n) => {
                let ghost nv = n@;
                insert_sorted(&mut names, n);
                proof {
                    vstd::seq_lib::to_multiset_build(environments_of_files(fs.take(k as int)), nv);
                }
            },
            None => {},
        }
        k += 1;
    }
    assert(fs.take(fs.len() as int) =~= fs);
    names
}

/// The environment names `init` looks for on a platform, in order.
pub open spec fn preferred_environments(p: Platform) -> Seq<Seq<char>> {
    match p {
        Platform::Wsl => seq!["wsl"@, "linux"@],
        Platform::Linux => seq!["linux"@],
        Platform::Macos => seq!["macos"@, "darwin"@],
        Platform::Windows => seq!["windows"@, "powershell"@, "pwsh"@],
    }
}

/// Whether a name is among the names, up to ASCII case.
pub open spec fn listed(names: Seq<Seq<char>>, p: Seq<char>) -> bool {
    exists|i: int| 0 <= i < names.len() && eq_ignore_case(#[trigger] names[i], p)
}

/// The preferred names that are listed, in preferred order.
pub open spec fn listed_preferred(prefs: Seq<Seq<char>>, names: Seq<Seq<char>>) -> Seq<Seq<char>>
    decreases prefs.len(),
{
    if prefs.len() == 0 {
        Seq::empty()
    } else {
        let rest = listed_preferred(prefs.drop_last(), names);
        if listed(names, prefs.last()) {
            rest.push(prefs.last())
        } else {
            rest
        }
    }
}

/// The environments a new configuration uses: the preferred names for the
/// platform that exist, or else the only environment when there is exactly
/// one.
pub open spec fn init_environments(p: Platform, names: Seq<Seq<char>>) -> Seq<Seq<char>> {
    let chosen = listed_preferred(preferred_environments(p), names);
    if chosen.len() == 0 && names.len() == 1 {
        names
    } else {
        chosen
    }
}

fn is_listed(names: &Vec<String>, p: &str) -> (b: bool)
    ensures
        b == listed(views(names@), p@),
{
    let q = chars_of(p);
    let mut k: usize = 0;
    while k < names.len()
        invariant
            k <= names@.len(),
            q@ == p@,
            forall|x: int| 0 <= x < k ==> !eq_ignore_case(#[trigger] views(names@)[x], p@),
        decreases names@.len() - k,
    {
        let n = chars_of(names[k].as_str());
        if chars_eq_ignore_case(&n, &q) {
            assert(views(names@)[k as int] == names@[k as int]@);
            return true;
        }
        assert(views(names@)[k as int] == names@[k as int]@);
        k += 1;
    }
    false
}

fn preferred_list(platform: Platform) -> (v: Vec<&'static str>)
    ensures
        v@.map_values(|s: &str| s@) == preferred_environments(platform),
{
    let v = match platform {
        Platform::Wsl => vec!["wsl", "linux"],
        Platform::Linux => vec!["linux"],
        Platform::Macos => vec!["macos", "darwin"],
        Platform::Windows => vec!["windows", "powershell", "pwsh"],
    };
    assert(v@.map_values(|s: &str| s@) =~= preferred_environments(platform));
    v
}

/// The environments `init` configures for the platform, given the names of
/// the environment files found.
pub fn choose_init_environments(platform: Platform, names: &Vec<String>) -> (r: Vec<String>)
    ensures
        views(r@) == init_environments(platform, views(names@)),
{
    let prefs = preferred_list(platform);
    let ghost ps = prefs@.map_values(|s: &str| s@);
    let mut chosen: Vec<String> = Vec::new();
    let mut k: usize = 0;
    while k < prefs.len()
        invariant
            k <= prefs@.len(),
            ps == prefs@.map_values(|s: &str| s@),
            views(chosen@) == listed_preferred(ps.take(k as int), views(names@)),
        decreases prefs@.len() - k,
    {
        assert(ps.take(k + 1).drop_last() =~= ps.take(k as int));
        assert(ps.take(k + 1).last() == prefs@[k as int]@);
        if is_listed(names, prefs[k]) {
            let ghost before = chosen@;
            let s = String::from_str(prefs[k]);
            chosen.push(s);
            assert(views(chosen@) =~= views(before).push(s@));
        }
        k += 1;
    }
    assert(ps.take(ps.len() as int) =~= ps);
    if chosen.len() == 0 && names.len() == 1 {
        crate::config::copy_strings(names)
    } else {
        chosen
    }
}

/// The opening of a new configuration file, up to the branch.
pub const INIT_OPENING: &'static str = "schema_version = 1\nminimum_dotflow_version = \"0.1.0\"\n\n[repository]\nbranch = ";

/// The `[[profiles.<profile>.environments]]` tables of the environments.
pub open spec fn environment_tables(profile: Seq<char>, names: Seq<Seq<char>>) -> Seq<char>
    decreases names.len(),
{
    if names.len() == 0 {
        Seq::empty()
    } else {
        environment_tables(profile, names.drop_last()) + "\n[[profiles."@ + profile
            + ".environments]]\nmise_environment = "@ + debug_quoted(names.last()) + "\n"@
    }
}

/// The configuration `init` writes: the branch and origin of the clone, the
/// mise directory, one profile named after the platform, its
/// `add_environment` (the first environment chosen), and its environments.
pub open spec fn init_config(
    branch_output: Seq<char>,
    origin_output: Seq<char>,
    mise_dir: Seq<char>,
    platform: Platform,
    chosen: Seq<Seq<char>>,
) -> Seq<char> {
    let profile = platform_name(platform);
    init_head(branch_output, origin_output, mise_dir, profile) + (if chosen.len() > 0 {
        "add_environment = "@ + debug_quoted(chosen[0]) + "\n"@
    } else {
        Seq::empty()
    }) + environment_tables(profile, chosen)
}

/// The configuration up to the profile's platform line.
pub open spec fn init_head(
    branch_output: Seq<char>,
    origin_output: Seq<char>,
    mise_dir: Seq<char>,
    profile: Seq<char>,
) -> Seq<char> {
    INIT_OPENING@ + debug_quoted(trim(branch_output)) + "\norigin = "@ + debug_quoted(
        trim(origin_output),
    ) + "\nmise_dir = "@ + debug_quoted(mise_dir) + "\n\n[profiles."@ + profile
        + "]\nplatform = "@ + debug_quoted(profile) + "\n"@
}

fn head_text(branch_output: &str, origin_output: &str, mise_dir: &str, profile: &str) -> (r: String)
    ensures
        r@ == init_head(branch_output@, origin_output@, mise_dir@, profile@),
{
    let branch = trim_str(branch_output);
    let origin = trim_str(origin_output);
    let bq = debug_quote(branch.as_str());
    let oq = debug_quote(origin.as_str());
    let mq = debug_quote(mise_dir);
    let pq = debug_quote(profile);
    let parts = vec![
        INIT_OPENING,
        bq.as_str(),
        "\norigin = ",
        oq.as_str(),
        "\nmise_dir = ",
        mq.as_str(),
        "\n\n[profiles.",
        profile,
        "]\nplatform = ",
        pq.as_str(),
        "\n",
    ];
    let head = concat_all(&parts);
    proof {
        assert(head@ =~= INIT_OPENING@ + bq@ + "\norigin = "@ + oq@ + "\nmise_dir = "@ + mq@
            + "\n\n[profiles."@ + profile@ + "]\nplatform = "@ + pq@ + "\n"@) by {
            reveal_with_fuel(crate::text::join, 12);
        }
    }
    head
}

fn add_environment_line(chosen: &Vec<String>) -> (r: String)
    ensures
        r@ == (if chosen@.len() > 0 {
            "add_environment = "@ + debug_quoted(chosen@[0]@) + "\n"@
        } else {
            Seq::empty()
        }),
{
    if chosen.len() > 0 {
        let fq = debug_quote(chosen[0].as_str());
        let line = vec!["add_environment = ", fq.as_str(), "\n"];
        let m = concat_all(&line);
        proof {
            assert(m@ =~= "add_environment = "@ + fq@ + "\n"@) by {
                reveal_with_fuel(crate::text::join, 4);
            }
        }
        m
    } else {
        String::new()
    }
}

fn tables_text(profile: &str, chosen: &Vec<String>) -> (r: String)
    ensures
        r@ == environment_tables(profile@, views(chosen@)),
{
    let ghost cs = views(chosen@);
    let mut text = String::new();
    let mut k: usize = 0;
    assert(cs.take(0) =~= Seq::<Seq<char>>::empty());
    while k < chosen.len()
        invariant
            k <= chosen@.len(),
            cs == views(chosen@),
            text@ == environment_tables(profile@, cs.take(k as int)),
        decreases chosen@.len() - k,
    {
        let nq = debug_quote(chosen[k].as_str());
        let block = vec![
            text.as_str(),
            "\n[[profiles.",
            profile,
            ".environments]]\nmise_environment = ",
            nq.as_str(),
            "\n",
        ];
        let next = concat_all(&block);
        proof {
            assert(next@ =~= text@ + "\n[[profiles."@ + profile@
                + ".environments]]\nmise_environment = "@ + nq@ + "\n"@) by {
                reveal_with_fuel(crate::text::join, 7);
            }
            assert(cs.take(k + 1).drop_last() =~= cs.take(k as int));
            assert(cs.take(k + 1).last() == chosen@[k as int]@);
        }
        text = next;
        k += 1;
    }
    assert(cs.take(cs.len() as int) =~= cs);
    text
}

/// The text of the configuration `init` writes.
pub fn init_config_text(
    branch_output: &str,
    origin_output: &str,
    mise_dir: &str,
    platform: Platform,
    chosen: &Vec<String>,
) -> (r: String)
    ensures
        r@ == init_config(branch_output@, origin_output@, mise_dir@, platform, views(chosen@)),
{
    let profile = platform.name();
    let head = head_text(branch_output, origin_output, mise_dir, profile);
    let line = add_environment_line(chosen);
    let tables = tables_text(profile, chosen);
    let parts = vec![head.as_str(), line.as_str(), tables.as_str()];
    let m = concat_all(&parts);
    proof {
        assert(m@ =~= head@ + line@ + tables@) by {
            reveal_with_fuel(crate::text::join, 4);
        }
        assert(views(chosen@).len() > 0 ==> views(chosen@)[0] == chosen@[0]@);
        assert(m@ =~= init_config(branch_output@, origin_output@, mise_dir@, platform, views(chosen@)));
    }
    m
}

/// The text of the locator file naming a repository.
pub fn locator_text(repo: &str) -> (r: String)
    ensures
        r@ == "repo = "@ + debug_quoted(repo@) + "\n"@,
{
    let q = debug_quote(repo);
    let parts = vec!["repo = ", q.as_str(), "\n"];
    let m = concat_all(&parts);
    proof {
        assert(m@ =~= "repo = "@ + q@ + "\n"@) by {
            reveal_with_fuel(crate::text::join, 4);
        }
    }
    m
}

/// The files `init` writes once every check passed: the configuration,
/// when there is none yet, and the locator, when there is none yet.
pub struct InitWrites {
    pub config: Option<String>,
    pub locator: bool,
}

/// Decides what `init` writes, from what it read: the locator file (the
/// repository it registers, when it exists), the configuration (how loading
/// it went, when it exists), the branch and origin of the clone, whether
/// `mise/mise.toml` and `mise.toml` exist, and the files of the mise
/// directory that a new configuration would use.  Every refusal is decided
/// here, before anything is written.
pub fn plan_init(
    locator: &str,
    registered: Option<&str>,
    repo: &str,
    config: &str,
    existing: Option<Result<Config, Error>>,
    branch_output: &str,
    origin_output: &str,
    nested: bool,
    at_root: bool,
    files: Option<Result<Vec<String>, Error>>,
    platform: Platform,
) -> (r: Result<InitWrites, Error>)
    requires
        existing is None && (nested || at_root) ==> files is Some,
    ensures
        match registration_outcome(
            locator@,
            crate::locator::opt_view(registered),
            repo@,
            config@,
            existing,
            branch_output@,
            origin_output@,
        ) {
            Err(m) => r matches Err(e) && e.0@ == m,
            Ok(Some(w)) => r matches Ok(p) && p.config is None && p.locator == w,
            Ok(None) => if !nested && !at_root {
                r matches Err(e) && e.0@
                    == "cannot initialize: no mise.toml found at repository root or mise/mise.toml"@
            } else {
                match files {
                    Some(Err(e)) => r == Err::<InitWrites, Error>(e),
                    Some(Ok(fs)) => r matches Ok(p) && p.locator && (p.config matches Some(t)
                        && exists|names: Seq<Seq<char>>|
                        #![trigger init_environments(platform, names)]
                        sorted(names) && names.to_multiset() == environments_of_files(views(fs@)).to_multiset()
                            && t@ == init_config(
                            branch_output@,
                            origin_output@,
                            if nested {
                                "mise"@
                            } else {
                                "."@
                            },
                            platform,
                            init_environments(platform, names),
                        )),
                    None => false,
                }
            },
        },
{
    let plan = plan_registration(locator, registered, repo, config, existing, branch_output, origin_output)?;
    match plan {
        Registration::Keep { write_locator } => Ok(InitWrites { config: None, locator: write_locator }),
        Registration::Create => {
            let dir = init_mise_dir(nested, at_root)?;
            let listed = match files {
                Some(Ok(fs)) => fs,
                Some(Err(e)) => {
                    return Err(e);
                },
                None => {
                    return Err(Error(String::new()));
                },
            };
            let names = environment_names(&listed);
            let chosen = choose_init_environments(platform, &names);
            let text = init_config_text(branch_output, origin_output, dir.as_str(), platform, &chosen);
            proof {
                assert(sorted(views(names@)));
            }
            Ok(InitWrites { config: Some(text), locator: true })
        },
    }
}

/// What the writing of a registration asks for next.
pub enum FileAction {
    /// Write the configuration with this text; answer how it went.
    WriteConfig(String),
    /// Write the locator; answer how it went.
    WriteLocator,
    /// Remove the configuration just written; answer how it went.
    RemoveConfig,
    /// Finished, with this result.
    Finish(Result<(), Error>),
}

/// Where the writing of a registration is.
#[derive(Clone, Copy, Debug, PartialEq, Eq, Structural)]
pub enum WritePhase {
    Start,
    WritingConfig,
    WritingLocator,
    Removing,
    Finished,
}

/// Writing a registration one file at a time: the configuration first, then
/// the locator; when the locator cannot be written after the configuration
/// was, the configuration is removed again and the locator's error is the
/// result.
pub struct Registrar {
    pub config: Option<String>,
    pub locator: bool,
    pub config_written: bool,
    pub failure: Option<Error>,
    pub phase: WritePhase,
}

impl Registrar {
    /// The writing of `writes`, not started.
    pub fn new(writes: InitWrites) -> (w: Registrar)
        ensures
            w.config == writes.config,
            w.locator == writes.locator,
            !w.config_written,
            w.phase == WritePhase::Start,
    {
        Registrar { config: writes.config, locator: writes.locator, config_written: false, failure: None, phase: WritePhase::Start }
    }

    /// One step, given how the last file action went (`None` at first).
    pub fn step(&mut self, answer: Option<Result<(), Error>>) -> (a: FileAction)
        requires
            old(self).phase != WritePhase::Finished,
            old(self).phase == WritePhase::Start <==> answer is None,
            old(self).phase == WritePhase::Removing ==> old(self).failure is Some,
        ensures
            final(self).phase == WritePhase::Removing ==> final(self).failure is Some,
            final(self).locator == old(self).locator,
            a is Finish <==> final(self).phase == WritePhase::Finished,
            a matches FileAction::WriteConfig(t) ==> old(self).phase == WritePhase::Start
                && old(self).config == Some(t) && final(self).phase == WritePhase::WritingConfig,
            a is WriteLocator ==> old(self).locator && final(self).phase == WritePhase::WritingLocator
                && (old(self).phase == WritePhase::Start ==> old(self).config is None)
                && (old(self).phase != WritePhase::Start ==> old(self).phase == WritePhase::WritingConfig
                && answer is Some && answer->Some_0 is Ok),
            a is RemoveConfig ==> old(self).phase == WritePhase::WritingLocator && old(self).config_written
                && (answer matches Some(Err(e)) && final(self).failure == Some(e)) && final(self).phase
                == WritePhase::Removing,
            old(self).phase == WritePhase::Start && old(self).config is None && !old(self).locator
                ==> a == FileAction::Finish(Ok(())),
            old(self).phase == WritePhase::WritingConfig ==> match answer {
                Some(Err(e)) => a == FileAction::Finish(Err(e)),
                _ => if old(self).locator {
                    a is WriteLocator
                } else {
                    a == FileAction::Finish(Ok(()))
                },
            },
            old(self).phase == WritePhase::WritingConfig ==> (final(self).config_written <==> (answer
                is Some && answer->Some_0 is Ok)),
            old(self).phase != WritePhase::WritingConfig ==> final(self).config_written == old(
                self,
            ).config_written,
            old(self).phase == WritePhase::WritingLocator ==> match answer {
                Some(Err(e)) => if old(self).config_written {
                    a is RemoveConfig
                } else {
                    a == FileAction::Finish(Err(e))
                },
                _ => a == FileAction::Finish(Ok(())),
            },
            old(self).phase == WritePhase::Removing ==> a == FileAction::Finish(Err(old(self).failure->Some_0)),
    {
        match self.phase {
            WritePhase::Start => {
                match self.config.take() {
                    Some(t) => {
                        self.phase = WritePhase::WritingConfig;
                        FileAction::WriteConfig(t)
                    },
                    None => {
                        if self.locator {
                            self.phase = WritePhase::WritingLocator;
                            FileAction::WriteLocator
                        } else {
                            self.phase = WritePhase::Finished;
                            FileAction::Finish(Ok(()))
                        }
                    },
                }
            },
            WritePhase::WritingConfig => {
                match answer {
                    Some(Err(e)) => {
                        self.config_written = false;
                        self.phase = WritePhase::Finished;
                        FileAction::Finish(Err(e))
                    },
                    Some(Ok(())) => {
                        self.config_written = true;
                        if self.locator {
                            self.phase = WritePhase::WritingLocator;
                            FileAction::WriteLocator
                        } else {
                            self.phase = WritePhase::Finished;
                            FileAction::Finish(Ok(()))
                        }
                    },
                    None => {
                        self.phase = WritePhase::Finished;
                        FileAction::Finish(Ok(()))
                    },
                }
            },
            WritePhase::WritingLocator => {
                match answer {
                    Some(Err(e)) => {
                        if self.config_written {
                            self.failure = Some(e);
                            self.phase = WritePhase::Removing;
                            FileAction::RemoveConfig
                        } else {
                            self.phase = WritePhase::Finished;
                            FileAction::Finish(Err(e))
                        }
                    },
                    _ => {
                        self.phase = WritePhase::Finished;
                        FileAction::Finish(Ok(()))
                    },
                }
            },
            _ => {
                self.phase = WritePhase::Finished;
                match self.failure.take() {
                    Some(e) => FileAction::Finish(Err(e)),
                    None => FileAction::Finish(Ok(())),
                }
            },
        }
    }
}

/// `[p]` when `p` is among the names up to ASCII case, else nothing.
pub open spec fn if_listed(names: Seq<Seq<char>>, p: Seq<char>) -> Seq<Seq<char>> {
    if exists|i: int| 0 <= i < names.len() && eq_ignore_case(#[trigger] names[i], p) {
        seq![p]
    } else {
        Seq::empty()
    }
}

/// The environments `init` picks are the platform's own names that are
/// present (up to ASCII case), in this order: `wsl` then `linux` on WSL,
/// `linux` on Linux, `macos` then `darwin` on macOS, `windows`, `powershell`
/// then `pwsh` on Windows; only when none is present and there is exactly
/// one environment is that one picked.
pub proof fn lemma_init_picks_the_platform_names(p: Platform, names: Seq<Seq<char>>)
    ensures
        ({
            let own = match p {
                Platform::Wsl => if_listed(names, "wsl"@) + if_listed(names, "linux"@),
                Platform::Linux => if_listed(names, "linux"@),
                Platform::Macos => if_listed(names, "macos"@) + if_listed(names, "darwin"@),
                Platform::Windows => if_listed(names, "windows"@) + if_listed(names, "powershell"@)
                    + if_listed(names, "pwsh"@),
            };
            init_environments(p, names) == if own.len() == 0 && names.len() == 1 {
                names
            } else {
                own
            }
        }),
{
    let prefs = preferred_environments(p);
    reveal_with_fuel(listed_preferred, 4);
    assert(prefs.drop_last().drop_last().drop_last().len() == 0 ==> listed_preferred(
        prefs.drop_last().drop_last().drop_last(),
        names,
    ) == Seq::<Seq<char>>::empty());
    match p {
        Platform::Wsl => {
            assert(prefs.drop_last() =~= seq!["wsl"@]);
            assert(prefs.drop_last().drop_last() =~= Seq::<Seq<char>>::empty());
        },
        Platform::Linux => {
            assert(prefs.drop_last() =~= Seq::<Seq<char>>::empty());
        },
        Platform::Macos => {
            assert(prefs.drop_last() =~= seq!["macos"@]);
            assert(prefs.drop_last().drop_last() =~= Seq::<Seq<char>>::empty());
        },
        Platform::Windows => {
            assert(prefs.drop_last() =~= seq!["windows"@, "powershell"@]);
            assert(prefs.drop_last().drop_last() =~= seq!["windows"@]);
            assert(prefs.drop_last().drop_last().drop_last() =~= Seq::<Seq<char>>::empty());
        },
    }
    let own = match p {
        Platform::Wsl => if_listed(names, "wsl"@) + if_listed(names, "linux"@),
        Platform::Linux => if_listed(names, "linux"@),
        Platform::Macos => if_listed(names, "macos"@) + if_listed(names, "darwin"@),
        Platform::Windows => if_listed(names, "windows"@) + if_listed(names, "powershell"@)
            + if_listed(names, "pwsh"@),
    };
    assert(listed_preferred(prefs, names) =~= own);
}

/// On Linux, an environment named `linux` (up to ASCII case) is always
/// picked.
pub proof fn lemma_linux_environment_is_picked(names: Seq<Seq<char>>, i: int)
    requires
        0 <= i < names.len(),
        eq_ignore_case(names[i], "linux"@),
    ensures
        init_environments(Platform::Linux, names).contains("linux"@),
{
    lemma_init_picks_the_platform_names(Platform::Linux, names);
    assert(if_listed(names, "linux"@) == seq!["linux"@]);
    assert(seq!["linux"@][0] == "linux"@);
}

} // verus!
