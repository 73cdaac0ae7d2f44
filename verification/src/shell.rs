//! Shell integration: a `dotflow` function that turns `dotflow cd` into a
//! change of the calling shell's directory.
use vstd::prelude::*;
use crate::error::Error;
use crate::text::{concat, str_eq};

verus! {

/// The bash function.
pub const BASH_INIT: &'static str = "dotflow() { if [ \"${1-}\" = cd ]; then shift; cd \"$(command dotflow root \"$@\")\"; else command dotflow \"$@\"; fi; }\n";

/// The zsh function.
pub const ZSH_INIT: &'static str = "function dotflow { if [[ ${1-} == cd ]]; then shift; cd \"$(command dotflow root \"$@\")\"; else command dotflow \"$@\"; fi }\n";

/// The fish function.
pub const FISH_INIT: &'static str = "function dotflow; if test (count $argv) -gt 0; and test \"$argv[1]\" = cd; set -e argv[1]; cd (command dotflow root $argv); else; command dotflow $argv; end; end\n";

/// The PowerShell function.
pub const POWERSHELL_INIT: &'static str = "function dotflow { if ($args.Count -gt 0 -and $args[0] -eq 'cd') { Set-Location (& dotflow.exe root @($args | Select-Object -Skip 1)) } else { & dotflow.exe @args } }\n";

/// The function for a shell, by the shell's name.
pub open spec fn shell_function(shell: Seq<char>) -> Option<Seq<char>> {
    if shell == "bash"@ {
        Some(BASH_INIT@)
    } else if shell == "zsh"@ {
        Some(ZSH_INIT@)
    } else if shell == "fish"@ {
        Some(FISH_INIT@)
    } else if shell == "powershell"@ {
        Some(POWERSHELL_INIT@)
    } else {
        None
    }
}

/// The shell function to evaluate for `bash`, `zsh`, `fish` or
/// `powershell`; any other shell is an error.
pub fn shell_init(shell: &str) -> (r: Result<String, Error>)
    ensures
        match r {
            Ok(s) => shell_function(shell@) == Some(s@),
            Err(e) => shell_function(shell@) is None && e.0@ == "unsupported shell: "@ + shell@,
        },
{
    if str_eq(shell, "bash") {
        Ok(String::from_str(BASH_INIT))
    } else if str_eq(shell, "zsh") {
        Ok(String::from_str(ZSH_INIT))
    } else if str_eq(shell, "fish") {
        Ok(String::from_str(FISH_INIT))
    } else if str_eq(shell, "powershell") {
        Ok(String::from_str(POWERSHELL_INIT))
    } else {
        Err(Error(concat("unsupported shell: ", shell)))
    }
}

/// Each supported shell gets the function written for it, and no two
/// shells get the same function: `bash`, `zsh`, `fish` and `powershell`
/// get `BASH_INIT`, `ZSH_INIT`, `FISH_INIT` and `POWERSHELL_INIT`, which
/// are pairwise different, and any other name gets none.
pub proof fn lemma_each_shell_gets_its_own_function(shell: Seq<char>, other: Seq<char>)
    ensures
        shell == "bash"@ <==> shell_function(shell) == Some(BASH_INIT@),
        shell == "zsh"@ <==> shell_function(shell) == Some(ZSH_INIT@),
        shell == "fish"@ <==> shell_function(shell) == Some(FISH_INIT@),
        shell == "powershell"@ <==> shell_function(shell) == Some(POWERSHELL_INIT@),
        shell_function(shell) is Some && shell_function(other) is Some && shell != other
            ==> shell_function(shell) != shell_function(other),
{
    reveal_strlit("bash");
    reveal_strlit("zsh");
    reveal_strlit("fish");
    reveal_strlit("powershell");
    reveal_strlit("dotflow() { if [ \"${1-}\" = cd ]; then shift; cd \"$(command dotflow root \"$@\")\"; else command dotflow \"$@\"; fi; }\n");
    reveal_strlit("function dotflow { if [[ ${1-} == cd ]]; then shift; cd \"$(command dotflow root \"$@\")\"; else command dotflow \"$@\"; fi }\n");
    reveal_strlit("function dotflow; if test (count $argv) -gt 0; and test \"$argv[1]\" = cd; set -e argv[1]; cd (command dotflow root $argv); else; command dotflow $argv; end; end\n");
    reveal_strlit("function dotflow { if ($args.Count -gt 0 -and $args[0] -eq 'cd') { Set-Location (& dotflow.exe root @($args | Select-Object -Skip 1)) } else { & dotflow.exe @args } }\n");
    assert(BASH_INIT@[0] != ZSH_INIT@[0]);
    assert(BASH_INIT@[0] != FISH_INIT@[0]);
    assert(BASH_INIT@[0] != POWERSHELL_INIT@[0]);
    assert(FISH_INIT@[16] == ';');
    assert(ZSH_INIT@[16] == ' ');
    assert(POWERSHELL_INIT@[16] == ' ');
    assert(ZSH_INIT@[22] != POWERSHELL_INIT@[22]);
    assert("bash"@[0] == 'b' && "zsh"@[0] == 'z' && "fish"@[0] == 'f' && "powershell"@[0] == 'p');
}

} // verus!
