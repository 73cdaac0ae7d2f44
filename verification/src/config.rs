//! The repository's `.dotflow.toml`: its data model and its validation.
use vstd::prelude::*;
use crate::error::Error;
use crate::platform::Platform;
use crate::strmap::StrMap;
use crate::text::{concat, concat_all, decimal, decimal_string, trim, trim_str};
use crate::version::{requirement_matches, requirement_parse, version_parse, Release, Requirement};
use crate::{SCHEMA_VERSION, VERSION};

verus! {

/// The `[repository]` table.
#[derive(Clone, Debug)]
pub struct Repository {
    pub branch: String,
    pub origin: String,
    /// Directory of the mise configuration, relative to the repository.
    pub mise_dir: String,
}

/// A set of dotfile targets, optionally under a named mise environment.
#[derive(Clone, Debug)]
pub struct Environment {
    pub mise_environment: Option<String>,
    pub targets: Vec<String>,
}

/// A program to run, with arguments, working directory and environment
/// variables; none of them is ever evaluated by a shell.
#[derive(Clone, Debug)]
pub struct Hook {
    pub program: String,
    pub args: Vec<String>,
    pub cwd: Option<String>,
    pub env: StrMap<String>,
}

/// A named profile: the machine it is for, its environments and its hooks.
#[derive(Clone, Debug)]
pub struct Profile {
    pub platform: Platform,
    pub arch: Option<String>,
    pub add_environment: Option<String>,
    pub environments: Vec<Environment>,
    pub after_sync: Vec<Hook>,
    pub before_install: Vec<Hook>,
}

/// The whole configuration file.
#[derive(Clone, Debug)]
pub struct Config {
    pub schema_version: u32,
    pub minimum_dotflow_version: Option<String>,
    pub repository: Repository,
    pub common: Environment,
    pub profiles: StrMap<Profile>,
}

/// The path of the configuration file of a repository.
pub fn config_path(repo: &str) -> (p: String)
    ensures
        p@ == crate::text::path_join(repo@, ".dotflow.toml"@),
{
    crate::text::join_path(repo, ".dotflow.toml")
}

/// The mise directory used when the configuration names none.
pub fn default_mise_dir() -> (d: String)
    ensures
        d@ == "mise"@,
{
    String::from_str("mise")
}

impl Environment {
    /// The environment of `[common]` when the file has no such table: no mise
    /// environment and no targets.
    pub fn empty() -> (e: Environment)
        ensures
            e.mise_environment is None,
            e.targets@.len() == 0,
    {
        Environment { mise_environment: None, targets: Vec::new() }
    }

    /// A copy of this environment.
    pub fn duplicate(&self) -> (e: Environment)
        ensures
            e.mise_environment == self.mise_environment,
            e.targets@ == self.targets@,
    {
        Environment { mise_environment: self.mise_environment.clone(), targets: copy_strings(&self.targets) }
    }
}

/// A copy of a list of strings.
pub fn copy_strings(v: &Vec<String>) -> (r: Vec<String>)
    ensures
        r@ == v@,
{
    let mut r: Vec<String> = Vec::new();
    let mut i: usize = 0;
    while i < v.len()
        invariant
            i <= v@.len(),
            r@ == v@.take(i as int),
        decreases v@.len() - i,
    {
        r.push(v[i].clone());
        proof {
            assert(v@.take(i + 1) =~= v@.take(i as int).push(v@[i as int]));
        }
        i += 1;
    }
    assert(v@.take(v@.len() as int) =~= v@);
    r
}

/// Whether an optional text is present but blank.
pub open spec fn blank(o: Option<String>) -> bool {
    o matches Some(a) && trim(a@).len() == 0
}

/// The first problem, in key order, of the profiles' optional fields.
pub open spec fn profile_problem(entries: Seq<(Seq<char>, Profile)>) -> Option<Seq<char>>
    decreases entries.len(),
{
    if entries.len() == 0 {
        None
    } else if blank(entries[0].1.arch) {
        Some("profile "@ + entries[0].0 + " has an empty arch"@)
    } else if blank(entries[0].1.add_environment) {
        Some("profile "@ + entries[0].0 + " has an empty add_environment"@)
    } else {
        profile_problem(entries.drop_first())
    }
}

/// What is wrong with a `minimum_dotflow_version`, if anything.
///
/// A plain version is a minimum: it is read as `>=` followed by it.  Any
/// other text is read as a semver requirement as it stands, or else with
/// `>=` in front of it.  This version must satisfy what was read.
pub open spec fn minimum_version_problem(req: Seq<char>) -> Option<Seq<char>> {
    let chosen = if version_parse(req) is Err && requirement_parse(req) is Ok {
        req
    } else {
        ">="@ + req
    };
    match requirement_parse(chosen) {
        Err(m) => Some("invalid minimum_dotflow_version: "@ + m),
        Ok(_) => match version_parse(VERSION@) {
            Err(m) => Some(m),
            Ok(_) => if requirement_matches(chosen, VERSION@) {
                None
            } else {
                Some("dotflow "@ + VERSION@ + " does not satisfy minimum version "@ + req)
            },
        },
    }
}

/// The first problem of a configuration, in the order the checks run:
/// schema version, minimum version, repository fields, profiles.
pub open spec fn config_problem(cfg: Config) -> Option<Seq<char>> {
    if cfg.schema_version != SCHEMA_VERSION {
        Some(
            "unsupported schema version "@ + decimal(cfg.schema_version as nat)
                + "; this dotflow supports 1"@,
        )
    } else if cfg.minimum_dotflow_version is Some && minimum_version_problem(
        cfg.minimum_dotflow_version->Some_0@,
    ) is Some {
        minimum_version_problem(cfg.minimum_dotflow_version->Some_0@)
    } else if trim(cfg.repository.branch@).len() == 0 || trim(cfg.repository.origin@).len() == 0 {
        Some("repository branch and origin are required"@)
    } else {
        profile_problem(cfg.profiles@)
    }
}

fn is_blank(o: &Option<String>) -> (b: bool)
    ensures
        b == blank(*o),
{
    match o {
        Some(a) => {
            let t = trim_str(a.as_str());
            t.as_str().is_empty()
        },
        None => false,
    }
}

fn check_minimum_version(req: &String) -> (r: Result<(), Error>)
    ensures
        match r {
            Ok(()) => minimum_version_problem(req@) is None,
            Err(e) => minimum_version_problem(req@) == Some(e.0@),
        },
{
    let widened = concat(">=", req.as_str());
    let plain_version = match Release::parse(req.as_str()) {
        Ok(_) => true,
        Err(_) => false,
    };
    let first = if plain_version {
        Requirement::parse(widened.as_str())
    } else {
        match Requirement::parse(req.as_str()) {
            Ok(q) => Ok(q),
            Err(_) => Requirement::parse(widened.as_str()),
        }
    };
    let requirement = match first {
        Ok(q) => q,
        Err(m) => {
            return Err(Error(concat("invalid minimum_dotflow_version: ", m.as_str())));
        },
    };
    let current = match Release::parse(VERSION) {
        Ok(v) => v,
        Err(m) => {
            return Err(Error(m));
        },
    };
    if requirement.matches(&current) {
        Ok(())
    } else {
        let parts = vec!["dotflow ", VERSION, " does not satisfy minimum version ", req.as_str()];
        let m = concat_all(&parts);
        proof {
            assert(m@ =~= "dotflow "@ + VERSION@ + " does not satisfy minimum version "@ + req@)
                by {
                reveal_with_fuel(crate::text::join, 5);
            }
        }
        Err(Error(m))
    }
}

impl Config {
    /// Checks the schema version, the minimum tool version, that branch and
    /// origin are given, and that no profile has a blank `arch` or
    /// `add_environment`; the first failing check gives the error.
    pub fn validate(&self) -> (r: Result<(), Error>)
        ensures
            match r {
                Ok(()) => config_problem(*self) is None,
                Err(e) => config_problem(*self) == Some(e.0@),
            },
    {
        if self.schema_version != SCHEMA_VERSION {
            let n = decimal_string(self.schema_version);
            let parts = vec!["unsupported schema version ", n.as_str(), "; this dotflow supports 1"];
            let m = concat_all(&parts);
            proof {
                assert(m@ =~= "unsupported schema version "@ + decimal(self.schema_version as nat)
                    + "; this dotflow supports 1"@) by {
                    reveal_with_fuel(crate::text::join, 4);
                }
            }
            return Err(Error(m));
        }
        match &self.minimum_dotflow_version {
            Some(req) => {
                check_minimum_version(req)?;
            },
            None => {},
        }
        let branch = trim_str(self.repository.branch.as_str());
        let origin = trim_str(self.repository.origin.as_str());
        if branch.as_str().is_empty() || origin.as_str().is_empty() {
            return Err(Error(String::from_str("repository branch and origin are required")));
        }
        let ghost s = self.profiles@;
        let mut i: usize = 0;
        assert(s.skip(0) =~= s);
        assert(config_problem(*self) == profile_problem(s));
        while i < self.profiles.len()
            invariant
                config_problem(*self) == profile_problem(s),
                s == self.profiles@,
                i <= s.len(),
                profile_problem(s) == profile_problem(s.skip(i as int)),
            decreases s.len() - i,
        {
            let name = self.profiles.key_at(i);
            let p = self.profiles.value_at(i);
            assert(s.skip(i as int)[0] == s[i as int]);
            if is_blank(&p.arch) {
                let parts = vec!["profile ", name.as_str(), " has an empty arch"];
                let m = concat_all(&parts);
                proof {
                    assert(m@ =~= "profile "@ + name@ + " has an empty arch"@) by {
                        reveal_with_fuel(crate::text::join, 4);
                    }
                }
                return Err(Error(m));
            }
            if is_blank(&p.add_environment) {
                let parts = vec!["profile ", name.as_str(), " has an empty add_environment"];
                let m = concat_all(&parts);
                proof {
                    assert(m@ =~= "profile "@ + name@ + " has an empty add_environment"@) by {
                        reveal_with_fuel(crate::text::join, 4);
                    }
                }
                return Err(Error(m));
            }
            assert(s.skip(i as int).drop_first() =~= s.skip(i + 1));
            i += 1;
        }
        assert(s.skip(s.len() as int) =~= Seq::<(Seq<char>, Profile)>::empty());
        Ok(())
    }
}

} // verus!
