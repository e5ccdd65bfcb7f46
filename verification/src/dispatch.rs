//! What becomes of a chosen name: the directory to enter, the repository to
//! clone or the directory to make, and the command line handed to the shell.

use crate::utils::{extract_repo_name, is_git_url, looks_like_git_url, repo_name};
use vstd::prelude::*;
use vstd::string::StringExecFns;

verus! {

/// What is to be done for a chosen name.
#[derive(Debug)]
pub enum Plan {
    /// The directory of that name exists: enter it.
    Enter,
    /// The name is the address of a repository: clone it into the directory
    /// named here, then enter that.
    Clone(String),
    /// Make an empty directory of that name, then enter it.
    Create,
}

impl View for Plan {
    type V = Option<Option<Seq<char>>>;

    open spec fn view(&self) -> Option<Option<Seq<char>>> {
        match self {
            Plan::Enter => None,
            Plan::Create => Some(None),
            Plan::Clone(folder) => Some(Some(folder@)),
        }
    }
}

/// The plan for `selection`: to enter the directory where it exists; else
/// to clone where the name reads as the address of a repository, into the
/// directory named after it; else to make the directory.
pub open spec fn plan_of(selection: Seq<char>, exists: bool) -> Option<Option<Seq<char>>> {
    if exists {
        None
    } else if looks_like_git_url(selection) {
        Some(Some(repo_name(selection)))
    } else {
        Some(None)
    }
}

/// Decides what is to be done for `selection`; `exists` says whether the
/// directory of that name is there already.
pub fn plan_for(selection: &str, exists: bool) -> (plan: Plan)
    ensures
        plan@ == plan_of(selection@, exists),
{
    if exists {
        Plan::Enter
    } else if is_git_url(selection) {
        Plan::Clone(extract_repo_name(selection))
    } else {
        Plan::Create
    }
}

/// The command line that takes the shell to `path`: the editor command
/// where the editor was asked for and one is configured, else `cd`; the path
/// follows in single quotes.
pub open spec fn command_text(
    open_editor: bool,
    editor_cmd: Option<Seq<char>>,
    path: Seq<char>,
) -> Seq<char> {
    (if open_editor && editor_cmd.is_some() {
        editor_cmd.unwrap()
    } else {
        "cd"@
    }) + " '"@ + path + "'"@
}

/// Writes the command line that the calling shell evaluates.
pub fn shell_command(open_editor: bool, editor_cmd: Option<&str>, path: &str) -> (line: String)
    ensures
        line@ == command_text(
            open_editor,
            match editor_cmd {
                Some(cmd) => Some(cmd@),
                None => None,
            },
            path@,
        ),
{
    let mut line = match editor_cmd {
        Some(cmd) => if open_editor {
            cmd.to_owned()
        } else {
            "cd".to_owned()
        },
        None => "cd".to_owned(),
    };
    line.append(" '");
    line.append(path);
    line.append("'");
    line
}

} // verus!
