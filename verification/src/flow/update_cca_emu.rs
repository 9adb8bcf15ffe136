//! Update components in CCA emulation environment according to options specified.

use super::install_cca_emu;
use super::install_cca_emu::{build_cca_rootfs, build_plane0_linux};
use super::install_shrinkwrap;
use super::install_shrinkwrap::kernel_image_path;
use super::kernel;
use super::kernel::job_count;
use super::path;
use super::path::join;
use super::plan;
use super::plan::{ActionView, Actions, Command, CommandView, Plan, StepView};
use crate::text;
use vstd::prelude::*;
use vstd::string::StringExecFns;

verus! {

/// What to update.
#[derive(Debug)]
pub struct SubCmds {
    pub rebuild_plane0_linux: bool,
    pub rebuild_rootfs: bool,
    pub tfa_rev: Option<String>,
    pub tfrmm_rev: Option<String>,
    pub plane0_linux_rev: Option<String>,
}

/// What to update.
#[verifier::ext_equal]
pub struct SubCmdsView {
    pub rebuild_plane0_linux: bool,
    pub rebuild_rootfs: bool,
    pub tfa_rev: Option<Seq<char>>,
    pub tfrmm_rev: Option<Seq<char>>,
    pub plane0_linux_rev: Option<Seq<char>>,
}

impl View for SubCmds {
    type V = SubCmdsView;

    open spec fn view(&self) -> SubCmdsView {
        SubCmdsView {
            rebuild_plane0_linux: self.rebuild_plane0_linux,
            rebuild_rootfs: self.rebuild_rootfs,
            tfa_rev: text::opt_view(self.tfa_rev),
            tfrmm_rev: text::opt_view(self.tfrmm_rev),
            plane0_linux_rev: text::opt_view(self.plane0_linux_rev),
        }
    }
}

impl Default for SubCmds {
    fn default() -> (sub_cmds: SubCmds)
        ensures
            sub_cmds@ == (SubCmdsView {
                rebuild_plane0_linux: false,
                rebuild_rootfs: false,
                tfa_rev: None,
                tfrmm_rev: None,
                plane0_linux_rev: None,
            }),
    {
        SubCmds {
            rebuild_plane0_linux: false,
            rebuild_rootfs: false,
            tfa_rev: None,
            tfrmm_rev: None,
            plane0_linux_rev: None,
        }
    }
}

/// What to update, and where.
#[derive(Debug)]
pub struct Params {
    pub test_root: String,
    pub sub_cmds: SubCmds,
}

/// What is known of the host.
#[derive(Debug)]
pub struct Host {
    /// The search path, where the environment has one.
    pub search_path: Option<String>,
    /// How many jobs the host can run at once, where that is known.
    pub parallelism: Option<usize>,
}

/// That the source tree of plane 0 is there, and at a revision where one is asked
/// for.
pub open spec fn plane0_checkout(
    plane0_linux: Seq<char>,
    revision: Option<Seq<char>>,
) -> Seq<ActionView> {
    let found = seq![
        ActionView::Require {
            path: plane0_linux,
            error: "plane0 Linux source tree is missing at "@ + plane0_linux
                + ", try --install-emu first"@,
        },
    ];
    match revision {
        Some(revision) => found.push(ActionView::ChangeDir(plane0_linux)).push(
            plan::run_or(
                CommandView::program("git"@).arg("fetch"@),
                "Failed to fetch plane0 Linux"@,
            ),
        ).push(
            plan::run_or(
                CommandView::program("git"@).arg("checkout"@).arg(revision),
                "Failed to check out plane0 Linux revision "@ + revision,
            ),
        ),
        None => found,
    }
}

fn check_out_plane0(plane0_linux: &str, revision: &Option<String>) -> (actions: Actions)
    ensures
        actions@ == plane0_checkout(plane0_linux@, text::opt_view(*revision)),
{
    let mut actions = Actions::new();
    actions.require(
        plane0_linux,
        String::from_str("plane0 Linux source tree is missing at ").concat(plane0_linux).concat(
            ", try --install-emu first",
        ),
    );
    if let Some(revision) = revision {
        actions.change_dir(plane0_linux);
        actions.run_with_context(
            Command::new("git").arg("fetch"),
            String::from_str("Failed to fetch plane0 Linux"),
        );
        actions.run_with_context(
            Command::new("git").arg("checkout").arg(revision.as_str()),
            String::from_str("Failed to check out plane0 Linux revision ").concat(
                revision.as_str(),
            ),
        );
    }
    actions
}

/// Rebuilds the kernel of plane 0, at a revision where one is asked for.
pub open spec fn plane0_steps(
    test_root: Seq<char>,
    sub_cmds: SubCmdsView,
    jobs: Seq<char>,
) -> Seq<StepView> {
    let plane0_linux = path::joined(test_root, "plane0-linux"@);
    if sub_cmds.rebuild_plane0_linux || sub_cmds.plane0_linux_rev is Some {
        seq![
            StepView::always(
                install_cca_emu::with_plane0_build(
                    plane0_checkout(plane0_linux, sub_cmds.plane0_linux_rev),
                    plane0_linux,
                    install_shrinkwrap::kernel_image(plane0_linux),
                    jobs,
                ),
            ),
        ]
    } else {
        Seq::empty()
    }
}

/// The build of the firmwares, at the revisions that are asked for, and the root
/// file system.
pub open spec fn firmware_build(
    test_root: Seq<char>,
    tfa_rev: Option<Seq<char>>,
    tfrmm_rev: Option<Seq<char>>,
    search_path: Option<Seq<char>>,
) -> StepView {
    let shrinkwrap_dir = path::joined(test_root, "shrinkwrap"@);
    StepView::always(
        install_cca_emu::with_rootfs_build(
            Seq::empty(),
            test_root,
            shrinkwrap_dir,
            path::joined(shrinkwrap_dir, "venv"@),
            search_path,
            tfa_rev,
            tfrmm_rev,
        ),
    )
}

/// What the update takes.
pub open spec fn update_steps(
    test_root: Seq<char>,
    sub_cmds: SubCmdsView,
    search_path: Option<Seq<char>>,
    jobs: Seq<char>,
) -> Seq<StepView> {
    if sub_cmds.rebuild_rootfs || sub_cmds.tfa_rev is Some || sub_cmds.tfrmm_rev is Some {
        plane0_steps(test_root, sub_cmds, jobs).push(
            firmware_build(test_root, sub_cmds.tfa_rev, sub_cmds.tfrmm_rev, search_path),
        )
    } else {
        plane0_steps(test_root, sub_cmds, jobs)
    }
}

/// What the update takes.
pub fn process_request(params: &Params, host: &Host) -> (plan: Plan)
    ensures
        plan@ == update_steps(
            params.test_root@,
            params.sub_cmds@,
            text::opt_view(host.search_path),
            kernel::job_count_text(host.parallelism),
        ),
{
    let test_root = params.test_root.as_str();
    let sub_cmds = &params.sub_cmds;
    let mut plan = Plan::new();
    if sub_cmds.rebuild_plane0_linux || sub_cmds.plane0_linux_rev.is_some() {
        let plane0_linux = join(test_root, "plane0-linux");
        let plane0_image = kernel_image_path(plane0_linux.as_str());
        let jobs = job_count(host.parallelism);
        let mut build = check_out_plane0(plane0_linux.as_str(), &sub_cmds.plane0_linux_rev);
        build_plane0_linux(
            &mut build,
            plane0_linux.as_str(),
            plane0_image.as_str(),
            jobs.as_str(),
        );
        plan.always(build);
    }
    if sub_cmds.rebuild_rootfs || sub_cmds.tfa_rev.is_some() || sub_cmds.tfrmm_rev.is_some() {
        let shrinkwrap_dir = join(test_root, "shrinkwrap");
        let venv_dir = join(shrinkwrap_dir.as_str(), "venv");
        let mut build = Actions::new();
        build_cca_rootfs(
            &mut build,
            test_root,
            shrinkwrap_dir.as_str(),
            venv_dir.as_str(),
            &host.search_path,
            &sub_cmds.tfa_rev,
            &sub_cmds.tfrmm_rev,
        );
        plan.always(build);
    }
    plan
}

/// No revision is ignored, whatever else is asked for: the kernel of plane 0 is
/// checked out at its revision before it is built, and the firmwares are built at
/// theirs.
pub proof fn revisions_are_not_ignored(
    test_root: Seq<char>,
    sub_cmds: SubCmdsView,
    search_path: Option<Seq<char>>,
    jobs: Seq<char>,
)
    ensures
        ({
            let steps = update_steps(test_root, sub_cmds, search_path, jobs);
            let plane0_linux = path::joined(test_root, "plane0-linux"@);
            &&& sub_cmds.plane0_linux_rev matches Some(revision) ==> steps.len() > 0 && steps[0]
                == StepView::always(
                install_cca_emu::with_plane0_build(
                    plane0_checkout(plane0_linux, Some(revision)),
                    plane0_linux,
                    install_shrinkwrap::kernel_image(plane0_linux),
                    jobs,
                ),
            )
            &&& sub_cmds.tfa_rev matches Some(revision) ==> steps.len() > 0 && steps.last()
                == firmware_build(test_root, Some(revision), sub_cmds.tfrmm_rev, search_path)
            &&& sub_cmds.tfrmm_rev matches Some(revision) ==> steps.len() > 0 && steps.last()
                == firmware_build(test_root, sub_cmds.tfa_rev, Some(revision), search_path)
        }),
{
}

/// A revision drops no rebuild: what is rebuilt without one is rebuilt with one.
pub proof fn revisions_keep_the_rebuilds(
    test_root: Seq<char>,
    sub_cmds: SubCmdsView,
    search_path: Option<Seq<char>>,
    jobs: Seq<char>,
)
    ensures
        ({
            let steps = update_steps(test_root, sub_cmds, search_path, jobs);
            &&& sub_cmds.rebuild_plane0_linux ==> steps.len() > 0 && steps[0] == plane0_steps(
                test_root,
                sub_cmds,
                jobs,
            )[0]
            &&& sub_cmds.rebuild_rootfs ==> steps.len() > 0 && steps.last() == firmware_build(
                test_root,
                sub_cmds.tfa_rev,
                sub_cmds.tfrmm_rev,
                search_path,
            )
        }),
{
}

} // verus!
