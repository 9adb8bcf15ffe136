//! Run shrinkwrap build command to build FVP artifacts.

use super::path;
use super::path::join;
use super::plan::{Action, ActionView, Actions, Command, CommandView, Plan, StepView};
use super::venv;
use super::venv::{run_in_venv, shrinkwrap_exe_path};
use crate::text;
use vstd::prelude::*;
use vstd::string::StringExecFns;

verus! {

/// What to build, and where.
#[derive(Debug)]
pub struct Params {
    pub out_dir: String,
    /// Path to shrinkwrap repo (containing shrinkwrap/shrinkwrap executable)
    pub shrinkwrap_dir: String,
    pub platform_yaml: String,
    pub overlays: Vec<String>,
    /// "KEY=VALUE"
    pub btvars: Vec<String>,
    /// Extra args appended to `shrinkwrap build`
    pub extra_args: Vec<String>,
}

/// What to build, and where.
#[verifier::ext_equal]
pub struct ParamsView {
    pub out_dir: Seq<char>,
    pub shrinkwrap_dir: Seq<char>,
    pub platform_yaml: Seq<char>,
    pub overlays: Seq<Seq<char>>,
    pub btvars: Seq<Seq<char>>,
    pub extra_args: Seq<Seq<char>>,
}

impl View for Params {
    type V = ParamsView;

    open spec fn view(&self) -> ParamsView {
        ParamsView {
            out_dir: self.out_dir@,
            shrinkwrap_dir: self.shrinkwrap_dir@,
            platform_yaml: self.platform_yaml@,
            overlays: text::views(self.overlays@),
            btvars: text::views(self.btvars@),
            extra_args: text::views(self.extra_args@),
        }
    }
}

impl ParamsView {
    /// The build, with the virtual environment of the repository.
    pub open spec fn command(self, search_path: Option<Seq<char>>) -> CommandView {
        venv::in_venv(
            CommandView::program(venv::shrinkwrap_exe(self.shrinkwrap_dir)).current_dir(
                self.out_dir,
            ),
            path::joined(self.shrinkwrap_dir, "venv"@),
            search_path,
        ).arg("build"@).arg(self.platform_yaml).options("--overlay"@, self.overlays).options(
            "--btvar"@,
            self.btvars,
        ).args(self.extra_args)
    }

    /// What the build takes.
    pub open spec fn steps(self, search_path: Option<Seq<char>>) -> Seq<StepView> {
        let log_dir = path::joined(self.out_dir, "logs"@);
        let log = path::joined(log_dir, "shrinkwrap-build.log"@);
        seq![
            StepView::always(
                Seq::empty().push(ActionView::CreateDirAll(self.out_dir)).push(
                    ActionView::CreateDirAll(log_dir),
                ).push(
                    ActionView::RunLogged {
                        command: self.command(search_path),
                        log,
                        failure: "shrinkwrap build failed (see "@ + log + ")"@,
                    },
                ),
            ),
        ]
    }
}

/// What a build takes, given the search path of the environment.
pub fn process_request(params: &Params, search_path: &Option<String>) -> (plan: Plan)
    ensures
        plan@ == params@.steps(text::opt_view(*search_path)),
{
    let log_dir = join(params.out_dir.as_str(), "logs");
    let log = join(log_dir.as_str(), "shrinkwrap-build.log");
    // Build command line - use shrinkwrap wrapper script with venv activated
    let exe = shrinkwrap_exe_path(params.shrinkwrap_dir.as_str());
    let venv_dir = join(params.shrinkwrap_dir.as_str(), "venv");
    // keep build outputs contained
    let command = Command::new(exe.as_str()).current_dir(params.out_dir.as_str());
    let command = run_in_venv(command, venv_dir.as_str(), search_path);
    let command = command.arg("build").arg(params.platform_yaml.as_str()).options(
        "--overlay",
        &params.overlays,
    ).options("--btvar", &params.btvars).args(&params.extra_args);
    let failure = String::from_str("shrinkwrap build failed (see ").concat(log.as_str()).concat(
        ")",
    );
    let mut actions = Actions::new();
    actions.create_dir_all(params.out_dir.as_str());
    actions.create_dir_all(log_dir.as_str());
    actions.push(Action::RunLogged { command, log, failure });
    let mut plan = Plan::new();
    plan.always(actions);
    plan
}

} // verus!
