//! Where the repository is: the user's locator file, and the precedence of
//! the ways to name the repository.
use vstd::prelude::*;
use crate::error::Error;
use crate::text::{join_path, path_join};

verus! {

/// Where the user's locator file is: under `%APPDATA%` on Windows, else
/// under `$XDG_CONFIG_HOME`, else under `~/.config`; without a home
/// directory there is none.
pub open spec fn locator_location(
    appdata: Option<Seq<char>>,
    xdg: Option<Seq<char>>,
    home: Option<Seq<char>>,
) -> Result<Seq<char>, Seq<char>> {
    match appdata {
        Some(a) => Ok(path_join(a, "dotflow/config.toml"@)),
        None => match xdg {
            Some(x) => Ok(path_join(x, "dotflow/config.toml"@)),
            None => match home {
                Some(h) => Ok(path_join(h, ".config/dotflow/config.toml"@)),
                None => Err("home directory is unavailable"@),
            },
        },
    }
}

/// The view of an optional text.
pub open spec fn opt_view(o: Option<&str>) -> Option<Seq<char>> {
    match o {
        Some(s) => Some(s@),
        None => None,
    }
}

/// The path of the locator file, from `%APPDATA%` (given only on Windows),
/// `$XDG_CONFIG_HOME` and the home directory.
pub fn locator_path_for(appdata: Option<&str>, xdg: Option<&str>, home: Option<&str>) -> (r: Result<
    String,
    Error,
>)
    ensures
        match r {
            Ok(p) => locator_location(opt_view(appdata), opt_view(xdg), opt_view(home)) == Ok::<
                Seq<char>,
                Seq<char>,
            >(p@),
            Err(e) => locator_location(opt_view(appdata), opt_view(xdg), opt_view(home)) == Err::<
                Seq<char>,
                Seq<char>,
            >(e.0@),
        },
{
    if let Some(a) = appdata {
        return Ok(join_path(a, "dotflow/config.toml"));
    }
    if let Some(x) = xdg {
        return Ok(join_path(x, "dotflow/config.toml"));
    }
    match home {
        Some(h) => Ok(join_path(h, ".config/dotflow/config.toml")),
        None => Err(Error(String::from_str("home directory is unavailable"))),
    }
}

/// The repository to operate: the one given on the command line, else the
/// one in `DOTFLOW_REPO`, else the one the locator file names, else the
/// fallback under the home directory; made canonical by `canon` (the
/// canonical path when it exists, else the path itself).
///
/// `locator` gives the repository named by the locator file, when there is
/// one; `fallback` gives the default.  Each is asked only when everything
/// before it is absent: that is all that this function's `requires` allows
/// it, so a repository given on the command line or in the environment is
/// used without looking at the locator or the home directory.  Each is
/// asked at most once.
pub fn resolve_repo_with<L, F, K>(
    cli: Option<String>,
    env_repo: Option<String>,
    locator: L,
    fallback: F,
    canon: K,
) -> (r: Result<String, Error>) where
    L: FnOnce() -> Result<Option<String>, Error>,
    F: FnOnce() -> Result<String, Error>,
    K: FnOnce(String) -> String,

    requires
        cli is None && env_repo is None ==> locator.requires(()),
        cli is None && env_repo is None ==> fallback.requires(()),
        forall|p: String| #[trigger] canon.requires((p,)),
    ensures
        cli matches Some(p) ==> (r matches Ok(x) && canon.ensures((p,), x)),
        cli is None ==> (env_repo matches Some(p) ==> (r matches Ok(x) && canon.ensures((p,), x))),
        cli is None && env_repo is None ==> exists|l: Result<Option<String>, Error>|
            #[trigger] locator.ensures((), l) && match l {
                Err(e) => r == Err::<String, Error>(e),
                Ok(Some(p)) => r matches Ok(x) && canon.ensures((p,), x),
                Ok(None) => exists|f: Result<String, Error>|
                    #[trigger] fallback.ensures((), f) && match f {
                        Err(e) => r == Err::<String, Error>(e),
                        Ok(p) => r matches Ok(x) && canon.ensures((p,), x),
                    },
            },
{
    let chosen = if let Some(p) = cli {
        p
    } else if let Some(p) = env_repo {
        p
    } else {
        let located = locator();
        match located {
            Err(e) => {
                return Err(e);
            },
            Ok(Some(p)) => p,
            Ok(None) => {
                let f = fallback();
                match f {
                    Err(e) => {
                        return Err(e);
                    },
                    Ok(p) => p,
                }
            },
        }
    };
    Ok(canon(chosen))
}

/// The repository to operate, from the command line, the environment, the
/// repository the locator file names, and the fallback, in that order; made
/// canonical by `canon`.
pub fn resolve_repo_from<K>(
    cli: Option<String>,
    env_repo: Option<String>,
    located: Option<String>,
    fallback: String,
    canon: K,
) -> (r: Result<String, Error>) where K: FnOnce(String) -> String
    requires
        forall|p: String| #[trigger] canon.requires((p,)),
    ensures
        r matches Ok(x) && canon.ensures(
            (match cli {
                Some(c) => c,
                None => match env_repo {
                    Some(e) => e,
                    None => match located {
                        Some(l) => l,
                        None => fallback,
                    },
                },
            },),
            x,
        ),
{
    let ghost expected_located = located;
    let ghost expected_fallback = fallback;
    let from_locator = move || -> (l: Result<Option<String>, Error>)
        ensures
            l == Ok::<Option<String>, Error>(expected_located),
        { Ok(located) };
    let from_home = move || -> (f: Result<String, Error>)
        ensures
            f == Ok::<String, Error>(expected_fallback),
        { Ok(fallback) };
    resolve_repo_with(cli, env_repo, from_locator, from_home, canon)
}

} // verus!
