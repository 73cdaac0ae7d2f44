//! Platforms, their detection, and the choice of a profile for a machine.
use vstd::prelude::*;
use crate::config::{Config, Profile};
use crate::error::Error;
use crate::text::{concat, concat_all, contains_ignore_ascii_case, contains_ignore_case,
    eq_ignore_ascii_case, eq_ignore_case, join, join_strings, views};

verus! {

/// The kind of machine a profile is for.
#[derive(Clone, Copy, Debug, PartialEq, Eq, Structural)]
pub enum Platform {
    Wsl,
    Linux,
    Macos,
    Windows,
}

/// The lower-case name of a platform, as configuration files write it.
pub open spec fn platform_name(p: Platform) -> Seq<char> {
    match p {
        Platform::Wsl => "wsl"@,
        Platform::Linux => "linux"@,
        Platform::Macos => "macos"@,
        Platform::Windows => "windows"@,
    }
}

impl Platform {
    /// The lower-case name of this platform.
    pub fn name(&self) -> (s: &'static str)
        ensures
            s@ == platform_name(*self),
    {
        match self {
            Platform::Wsl => "wsl",
            Platform::Linux => "linux",
            Platform::Macos => "macos",
            Platform::Windows => "windows",
        }
    }
}

/// The platform of the running machine, from what can be observed of it:
/// the operating system the tool was built for, whether `WSL_DISTRO_NAME`
/// is set, and the text of `/proc/version` when it could be read.
pub open spec fn platform_of(
    windows: bool,
    macos: bool,
    wsl_distro_set: bool,
    proc_version: Option<Seq<char>>,
) -> Platform {
    if windows {
        Platform::Windows
    } else if macos {
        Platform::Macos
    } else if wsl_distro_set || (proc_version matches Some(v) && contains_ignore_case(
        v,
        "microsoft"@,
    )) {
        Platform::Wsl
    } else {
        Platform::Linux
    }
}

/// Decides the platform from what was observed of the machine.
pub fn platform_from(
    windows: bool,
    macos: bool,
    wsl_distro_set: bool,
    proc_version: Option<&str>,
) -> (p: Platform)
    ensures
        p == platform_of(
            windows,
            macos,
            wsl_distro_set,
            match proc_version {
                Some(v) => Some(v@),
                None => None,
            },
        ),
{
    if windows {
        Platform::Windows
    } else if macos {
        Platform::Macos
    } else if wsl_distro_set {
        Platform::Wsl
    } else {
        match proc_version {
            Some(v) => {
                if contains_ignore_ascii_case(v, "microsoft") {
                    Platform::Wsl
                } else {
                    Platform::Linux
                }
            },
            None => Platform::Linux,
        }
    }
}

/// Whether a profile is for this platform and architecture: the platform
/// must be equal, and the architecture, when the profile names one, equal up
/// to ASCII case.
pub open spec fn profile_fits(p: Profile, platform: Platform, arch: Seq<char>) -> bool {
    &&& p.platform == platform
    &&& (p.arch matches Some(a) ==> eq_ignore_case(a@, arch))
}

/// The names of the profiles that fit, in key order.
pub open spec fn fitting_names(
    entries: Seq<(Seq<char>, Profile)>,
    platform: Platform,
    arch: Seq<char>,
) -> Seq<Seq<char>>
    decreases entries.len(),
{
    if entries.len() == 0 {
        Seq::empty()
    } else {
        let rest = fitting_names(entries.drop_last(), platform, arch);
        if profile_fits(entries.last().1, platform, arch) {
            rest.push(entries.last().0)
        } else {
            rest
        }
    }
}

/// The profile chosen: the requested one if it exists, otherwise the only
/// profile that fits the machine; with the error message otherwise.
pub open spec fn profile_selection(
    cfg: Config,
    requested: Option<Seq<char>>,
    platform: Platform,
    arch: Seq<char>,
) -> Result<Seq<char>, Seq<char>> {
    match requested {
        Some(name) => if cfg.profiles.lookup(name) is Some {
            Ok(name)
        } else {
            Err("unknown profile: "@ + name)
        },
        None => {
            let c = fitting_names(cfg.profiles@, platform, arch);
            if c.len() == 1 {
                Ok(c[0])
            } else if c.len() == 0 {
                Err(
                    "no profile matches platform "@ + platform_name(platform) + " and arch "@ + arch
                        + "; use --profile"@,
                )
            } else {
                Err(
                    "multiple profiles match platform "@ + platform_name(platform) + " and arch "@
                        + arch + ": "@ + join(c, ", "@) + "; use --profile"@,
                )
            }
        },
    }
}

fn fits(p: &Profile, platform: Platform, arch: &str) -> (b: bool)
    ensures
        b == profile_fits(*p, platform, arch@),
{
    if p.platform != platform {
        return false;
    }
    match &p.arch {
        Some(a) => eq_ignore_ascii_case(a.as_str(), arch),
        None => true,
    }
}

/// The names of the profiles of `config` that fit the platform and
/// architecture, in key order.
pub fn fitting_profiles(config: &Config, platform: Platform, arch: &str) -> (names: Vec<String>)
    ensures
        views(names@) == fitting_names(config.profiles@, platform, arch@),
{
    let ghost s = config.profiles@;
    let mut names: Vec<String> = Vec::new();
    let mut i: usize = 0;
    while i < config.profiles.len()
        invariant
            s == config.profiles@,
            i <= s.len(),
            views(names@) == fitting_names(s.take(i as int), platform, arch@),
        decreases s.len() - i,
    {
        let p = config.profiles.value_at(i);
        let ghost t = s.take(i + 1);
        assert(t.drop_last() =~= s.take(i as int));
        if fits(p, platform, arch) {
            let n = config.profiles.key_at(i).clone();
            let ghost before = names@;
            names.push(n);
            assert(views(names@) =~= views(before).push(s[i as int].0));
        }
        i += 1;
    }
    assert(s.take(s.len() as int) =~= s);
    names
}

/// Chooses the profile: the requested one, which must exist, or else the
/// only one whose platform and architecture fit the machine.
pub fn select_profile_for(
    config: &Config,
    requested: Option<&str>,
    platform: Platform,
    arch: &str,
) -> (r: Result<String, Error>)
    ensures
        match r {
            Ok(name) => profile_selection(
                *config,
                match requested {
                    Some(q) => Some(q@),
                    None => None,
                },
                platform,
                arch@,
            ) == Ok::<Seq<char>, Seq<char>>(name@),
            Err(e) => profile_selection(
                *config,
                match requested {
                    Some(q) => Some(q@),
                    None => None,
                },
                platform,
                arch@,
            ) == Err::<Seq<char>, Seq<char>>(e.0@),
        },
{
    if let Some(name) = requested {
        if config.profiles.contains_key(name) {
            return Ok(String::from_str(name));
        }
        return Err(Error(concat("unknown profile: ", name)));
    }
    let candidates = fitting_profiles(config, platform, arch);
    if candidates.len() == 1 {
        Ok(candidates[0].clone())
    } else if candidates.len() == 0 {
        let parts = vec!["no profile matches platform ", platform.name(), " and arch ", arch, "; use --profile"];
        let m = concat_all(&parts);
        proof {
            assert(m@ =~= "no profile matches platform "@ + platform_name(platform) + " and arch "@
                + arch@ + "; use --profile"@) by {
                reveal_with_fuel(crate::text::join, 6);
            }
        }
        Err(Error(m))
    } else {
        let joined = join_strings(&candidates, ", ");
        let parts = vec![
            "multiple profiles match platform ",
            platform.name(),
            " and arch ",
            arch,
            ": ",
            joined.as_str(),
            "; use --profile",
        ];
        let m = concat_all(&parts);
        proof {
            assert(m@ =~= "multiple profiles match platform "@ + platform_name(platform)
                + " and arch "@ + arch@ + ": "@ + join(views(candidates@), ", "@)
                + "; use --profile"@) by {
                reveal_with_fuel(crate::text::join, 8);
            }
        }
        Err(Error(m))
    }
}

/// A profile chosen automatically exists and fits the machine.
pub proof fn lemma_auto_selection_fits(cfg: Config, platform: Platform, arch: Seq<char>)
    requires
        cfg.profiles.wf(),
        profile_selection(cfg, None, platform, arch) is Ok,
    ensures
        ({
            let name = profile_selection(cfg, None, platform, arch)->Ok_0;
            cfg.profiles.lookup(name) matches Some(p) && profile_fits(p, platform, arch)
        }),
{
    let s = cfg.profiles@;
    lemma_fitting_names_found(s, platform, arch, 0);
    let i = choose|i: int|
        0 <= i < s.len() && s[i].0 == fitting_names(s, platform, arch)[0] && profile_fits(
            s[i].1,
            platform,
            arch,
        );
    crate::strmap::lemma_find_present(s, i);
}

/// Every fitting name is the key of an entry whose profile fits.
pub proof fn lemma_fitting_names_found(
    entries: Seq<(Seq<char>, Profile)>,
    platform: Platform,
    arch: Seq<char>,
    k: int,
)
    requires
        0 <= k < fitting_names(entries, platform, arch).len(),
    ensures
        exists|i: int|
            0 <= i < entries.len() && entries[i].0 == fitting_names(entries, platform, arch)[k]
                && profile_fits(entries[i].1, platform, arch),
    decreases entries.len(),
{
    let rest = fitting_names(entries.drop_last(), platform, arch);
    if k < rest.len() {
        lemma_fitting_names_found(entries.drop_last(), platform, arch, k);
        let i = choose|i: int|
            0 <= i < entries.drop_last().len() && entries.drop_last()[i].0 == rest[k]
                && profile_fits(entries.drop_last()[i].1, platform, arch);
        assert(entries[i] == entries.drop_last()[i]);
    } else {
        assert(entries[entries.len() - 1] == entries.last());
    }
}

/// A profile fits the machine exactly when its platform is the machine's
/// and, when it names an architecture, that architecture is the machine's
/// up to ASCII case; on every platform.
pub proof fn lemma_fit_needs_platform_and_named_arch(p: Profile, platform: Platform, arch: Seq<char>)
    ensures
        profile_fits(p, platform, arch) <==> p.platform == platform && match p.arch {
            Some(a) => a@.len() == arch.len() && forall|i: int|
                0 <= i < arch.len() ==> #[trigger] crate::text::folded(a@[i]) == crate::text::folded(arch[i]),
            None => true,
        },
{
}

/// A profile chosen automatically is for the machine's platform, and the
/// architecture it names, if any, is the machine's up to ASCII case.
pub proof fn lemma_auto_selection_matches_the_machine(cfg: Config, platform: Platform, arch: Seq<char>)
    requires
        cfg.profiles.wf(),
        profile_selection(cfg, None, platform, arch) is Ok,
    ensures
        ({
            let name = profile_selection(cfg, None, platform, arch)->Ok_0;
            cfg.profiles.lookup(name) matches Some(p) && p.platform == platform && (p.arch matches Some(
                a,
            ) ==> eq_ignore_case(a@, arch))
        }),
{
    lemma_auto_selection_fits(cfg, platform, arch);
    let name = profile_selection(cfg, None, platform, arch)->Ok_0;
    lemma_fit_needs_platform_and_named_arch(cfg.profiles.lookup(name)->Some_0, platform, arch);
}

} // verus!
