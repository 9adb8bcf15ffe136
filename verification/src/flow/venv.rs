//! The Python virtual environment that Shrinkwrap runs in.

use super::path;
use super::path::join;
use super::plan;
use super::plan::{Command, CommandView};
use crate::text;
use vstd::prelude::*;
use vstd::string::StringExecFns;

verus! {

/// The search path, with the programs of the virtual environment first.
pub open spec fn venv_search_path(
    venv_dir: Seq<char>,
    search_path: Option<Seq<char>>,
) -> Seq<char> {
    let rest = match search_path {
        Some(search_path) => search_path,
        None => ""@,
    };
    path::joined(venv_dir, "bin"@) + ":"@ + rest
}

/// A command that runs in the virtual environment.
pub open spec fn in_venv(
    command: CommandView,
    venv_dir: Seq<char>,
    search_path: Option<Seq<char>>,
) -> CommandView {
    command.env("VIRTUAL_ENV"@, venv_dir).env("PATH"@, venv_search_path(venv_dir, search_path))
}

/// Lets a command run in the virtual environment.
pub fn run_in_venv(command: Command, venv_dir: &str, search_path: &Option<String>) -> (r: Command)
    ensures
        r@ == in_venv(command@, venv_dir@, text::opt_view(*search_path)),
{
    let bin = join(venv_dir, "bin");
    let path = bin.concat(":");
    let path = match search_path {
        Some(rest) => path.concat(rest.as_str()),
        None => path.concat(""),
    };
    command.env("VIRTUAL_ENV", venv_dir).env("PATH", path.as_str())
}

/// The program of a Shrinkwrap repository.
pub open spec fn shrinkwrap_exe(shrinkwrap_dir: Seq<char>) -> Seq<char> {
    path::joined(path::joined(shrinkwrap_dir, "shrinkwrap"@), "shrinkwrap"@)
}

pub fn shrinkwrap_exe_path(shrinkwrap_dir: &str) -> (exe: String)
    ensures
        exe@ == shrinkwrap_exe(shrinkwrap_dir@),
{
    let dir = join(shrinkwrap_dir, "shrinkwrap");
    join(dir.as_str(), "shrinkwrap")
}

} // verus!
