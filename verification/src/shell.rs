//! Shell integration: the wrapper function that each shell is given, and
//! the line that makes the shell load it.

use crate::text::chars_of;
use vstd::prelude::*;
use vstd::string::StringExecFns;

verus! {

/// The shells that the integration can be set up for.
#[derive(Clone, Copy, PartialEq, Eq, Structural, Debug)]
pub enum Shell {
    Fish,
    Zsh,
    Bash,
    NuShell,
    PowerShell,
}

/// The function that wraps the program for fish.
pub const FISH_SCRIPT: &'static str = r#"function try-rs
    # Captures the output of the binary (stdout) which is the "cd" command
    # The TUI is rendered on stderr, so it doesn't interfere.
    set command (command try-rs $argv | string collect)

    if test -n "$command"
        eval $command
    end
end
"#;

/// The function that wraps the program for zsh.
pub const ZSH_SCRIPT: &'static str = r#"try-rs() {
    # Captures the output of the binary (stdout) which is the "cd" command
    # The TUI is rendered on stderr, so it doesn't interfere.
    local output
    output=$(command try-rs "$@")

    if [ -n "$output" ]; then
        eval "$output"
    fi
}
"#;

/// The function that wraps the program for bash.
pub const BASH_SCRIPT: &'static str = r#"try-rs() {
    # Captures the output of the binary (stdout) which is the "cd" command
    # The TUI is rendered on stderr, so it doesn't interfere.
    local output
    output=$(command try-rs "$@")

    if [ -n "$output" ]; then
        eval "$output"
    fi
}
"#;

/// The function that wraps the program for PowerShell.
pub const POWERSHELL_SCRIPT: &'static str = r#"# try-rs integration for PowerShell
function try-rs {
    # Captures the output of the binary (stdout) which is the "cd" or editor command
    # The TUI is rendered on stderr, so it doesn't interfere.
    $command = (try-rs.exe @args)

    if ($command) {
        Invoke-Expression $command
    }
}"#;

/// The function that wraps the program for Nushell.
pub const NUSHELL_SCRIPT: &'static str = r#"def --wrapped try-rs [...args] {
    # Capture output. Stderr (TUI) goes directly to terminal.
    let output = (try-rs.exe ...$args)

    if ($output | is-not-empty) {

        # Grabs the path out of stdout returned by the binary and removes the single quotes
        let $path = ($output | split row ' ').1 | str replace --all "\'" ''
        cd $path
    }
}
"#;

/// The wrapper function for `shell`.
pub open spec fn script_text(shell: Shell) -> Seq<char> {
    match shell {
        Shell::Fish => FISH_SCRIPT@,
        Shell::Zsh => ZSH_SCRIPT@,
        Shell::Bash => BASH_SCRIPT@,
        Shell::NuShell => NUSHELL_SCRIPT@,
        Shell::PowerShell => POWERSHELL_SCRIPT@,
    }
}

/// The wrapper function that `shell` is given: it runs the program, takes
/// the command line that it prints and evaluates it.
pub fn integration_script(shell: Shell) -> (script: &'static str)
    ensures
        script@ == script_text(shell),
{
    match shell {
        Shell::Fish => FISH_SCRIPT,
        Shell::Zsh => ZSH_SCRIPT,
        Shell::Bash => BASH_SCRIPT,
        Shell::NuShell => NUSHELL_SCRIPT,
        Shell::PowerShell => POWERSHELL_SCRIPT,
    }
}

/// The name of the file that holds the wrapper function for `shell`.
pub open spec fn script_file_text(shell: Shell) -> Seq<char> {
    match shell {
        Shell::Fish => "try-rs.fish"@,
        Shell::Zsh => "try-rs.zsh"@,
        Shell::Bash => "try-rs.bash"@,
        Shell::NuShell => "try-rs.nu"@,
        Shell::PowerShell => "try-rs.ps1"@,
    }
}

/// The name of the file that the wrapper function for `shell` is written to.
pub fn script_file_name(shell: Shell) -> (name: &'static str)
    ensures
        name@ == script_file_text(shell),
{
    match shell {
        Shell::Fish => "try-rs.fish",
        Shell::Zsh => "try-rs.zsh",
        Shell::Bash => "try-rs.bash",
        Shell::NuShell => "try-rs.nu",
        Shell::PowerShell => "try-rs.ps1",
    }
}

/// The line that loads the file at `path` into `shell`: PowerShell
/// dot-sources the quoted path, the others `source` it.
pub open spec fn source_text(shell: Shell, path: Seq<char>) -> Seq<char> {
    match shell {
        Shell::PowerShell => ". '"@ + path + "'"@,
        _ => "source "@ + path,
    }
}

/// The line for the profile of `shell` that loads the wrapper function from
/// the file at `path`.
pub fn source_command(shell: Shell, path: &str) -> (line: String)
    ensures
        line@ == source_text(shell, path@),
{
    match shell {
        Shell::PowerShell => {
            let mut line = ". '".to_owned();
            line.append(path);
            line.append("'");
            line
        },
        _ => {
            let mut line = "source ".to_owned();
            line.append(path);
            line
        },
    }
}

/// What is added to a profile: a comment and the line that loads the
/// wrapper function, each on a line of its own, set off by an empty line
/// from what the profile held before.
pub open spec fn addition_text(source_line: Seq<char>, to_empty_profile: bool) -> Seq<char> {
    (if to_empty_profile {
        Seq::<char>::empty()
    } else {
        seq!['\n']
    }) + "# try-rs integration"@ + seq!['\n'] + source_line + seq!['\n']
}

/// The text to add to a profile so that it loads the wrapper function.
pub fn profile_addition(source_line: &str, to_empty_profile: bool) -> (text: String)
    ensures
        text@ == addition_text(source_line@, to_empty_profile),
{
    let mut text = String::new();
    if !to_empty_profile {
        text.push('\n');
    }
    text.append("# try-rs integration");
    text.push('\n');
    text.append(source_line);
    text.push('\n');
    assert(text@ =~= addition_text(source_line@, to_empty_profile));
    text
}

/// The profiles that PowerShell reads: that of PowerShell 7, and that of
/// Windows PowerShell 5.
#[derive(Clone, Copy, PartialEq, Eq, Structural, Debug)]
pub enum PowerShellProfile {
    Core,
    Windows,
}

/// Chooses the profile that the integration is written to: the one that
/// exists, that of PowerShell 7 where both exist, and that one too, to be
/// made, where neither does.
pub fn powershell_profile(core_exists: bool, windows_exists: bool) -> (profile:
    PowerShellProfile)
    ensures
        profile == if !core_exists && windows_exists {
            PowerShellProfile::Windows
        } else {
            PowerShellProfile::Core
        },
{
    if core_exists {
        PowerShellProfile::Core
    } else if windows_exists {
        PowerShellProfile::Windows
    } else {
        PowerShellProfile::Core
    }
}

/// Whether `word` occurs in `text` at position `i`.
pub open spec fn occurs_at(text: Seq<char>, word: Seq<char>, i: int) -> bool {
    0 <= i && i + word.len() <= text.len() && text.subrange(i, i + word.len()) == word
}

/// Whether `word` occurs in `text`.
pub open spec fn contains_text(text: Seq<char>, word: Seq<char>) -> bool {
    exists|i: int| occurs_at(text, word, i)
}

fn found_at(text: &Vec<char>, word: &Vec<char>, at: usize) -> (found: bool)
    requires
        at + word@.len() <= text@.len(),
    ensures
        found == occurs_at(text@, word@, at as int),
{
    let mut k: usize = 0;
    while k < word.len()
        invariant
            k <= word.len(),
            at + word.len() <= text.len(),
            forall|j: int| 0 <= j < k ==> text@[at + j] == word@[j],
        decreases word@.len() - k,
    {
        if text[at + k] != word[k] {
            assert(text@.subrange(at as int, at + word@.len())[k as int] == text@[at + k]);
            return false;
        }
        k += 1;
    }
    assert(text@.subrange(at as int, at + word@.len()) =~= word@);
    true
}

fn contains(text: &Vec<char>, word: &str) -> (found: bool)
    ensures
        found == contains_text(text@, word@),
{
    let letters = chars_of(word);
    if letters.len() > text.len() {
        return false;
    }
    let last: usize = text.len() - letters.len();
    let mut at: usize = 0;
    loop
        invariant
            at <= last,
            letters@ == word@,
            last + letters.len() == text.len(),
            forall|i: int| 0 <= i < at ==> !occurs_at(text@, word@, i),
        decreases last - at,
    {
        if found_at(text, &letters, at) {
            assert(occurs_at(text@, word@, at as int));
            return true;
        }
        if at == last {
            return false;
        }
        at += 1;
    }
}

/// Whether `profile` holds `source_line` already, so that nothing is to be
/// added to it.
pub fn is_configured(profile: &str, source_line: &str) -> (configured: bool)
    ensures
        configured == contains_text(profile@, source_line@),
{
    contains(&chars_of(profile), source_line)
}

/// The shell that the path of a login shell belongs to: the first of fish,
/// zsh and bash whose name occurs in it.
pub open spec fn shell_of(path: Seq<char>) -> Option<Shell> {
    if contains_text(path, "fish"@) {
        Some(Shell::Fish)
    } else if contains_text(path, "zsh"@) {
        Some(Shell::Zsh)
    } else if contains_text(path, "bash"@) {
        Some(Shell::Bash)
    } else {
        None
    }
}

/// Tells the shell from the path of the login shell.
pub fn detect_shell(path: &str) -> (shell: Option<Shell>)
    ensures
        shell == shell_of(path@),
{
    let chars = chars_of(path);
    if contains(&chars, "fish") {
        Some(Shell::Fish)
    } else if contains(&chars, "zsh") {
        Some(Shell::Zsh)
    } else if contains(&chars, "bash") {
        Some(Shell::Bash)
    } else {
        None
    }
}

/// Whether an answer to a yes-or-no question with yes as its default says
/// yes: it is empty or `y`, in either case.
pub open spec fn says_yes(answer: Seq<char>) -> bool {
    answer.len() == 0 || answer == seq!['y'] || answer == seq!['Y']
}

/// Reads the answer to a yes-or-no question whose default is yes; `answer`
/// is what was typed, the blanks around it taken off.
pub fn accepts(answer: &str) -> (yes: bool)
    ensures
        yes == says_yes(answer@),
{
    let chars = chars_of(answer);
    if chars.len() == 0 {
        true
    } else if chars.len() == 1 {
        assert(chars@ =~= seq![chars@[0]]);
        chars[0] == 'y' || chars[0] == 'Y'
    } else {
        false
    }
}

} // verus!
