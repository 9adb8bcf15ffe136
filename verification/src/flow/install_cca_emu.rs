//! Install CCA emulation environment. The emulator is ARM's Fixed Virtual
//! Platform (FVP). The environment also contains a few essential firmwares in
//! CCA stack, for example TF-A and TF-RMM, which 'shrinkwrap' deploys.

use super::install_shrinkwrap;
use super::install_shrinkwrap::{kernel_image_path, make_venv_command, push_pip_installs};
use super::kernel;
use super::kernel::{
    cca_configs, config_script_command, hyperv_configs, job_count, make_kernel_command,
    ninep_configs,
};
use super::path;
use super::path::join;
use super::plan;
use super::plan::{Action, ActionView, Actions, Command, CommandView, Plan, StepView};
use super::venv;
use super::venv::run_in_venv;
use crate::text;
use vstd::prelude::*;
use vstd::string::StringExecFns;

verus! {

/// Where to install.
#[derive(Debug)]
pub struct Params {
    /// The CCA test root directory, defaults to target/cca-tests.
    pub test_root: String,
}

/// What is known of the host.
#[derive(Debug)]
pub struct Host {
    /// The home directory of the user.
    pub home: String,
    /// The search path, where the environment has one.
    pub search_path: Option<String>,
    /// How many jobs the host can run at once, where that is known.
    pub parallelism: Option<usize>,
}

/// A clone of a repository.
pub open spec fn clone_command(
    repo_url: Seq<char>,
    target_dir: Seq<char>,
    branch: Option<Seq<char>>,
) -> CommandView {
    let clone = CommandView::program("git"@).arg("clone"@);
    let clone = match branch {
        Some(branch) => clone.arg("--branch"@).arg(branch),
        None => clone,
    };
    clone.arg(repo_url).arg(target_dir)
}

/// Clones a repository, unless it has been cloned.
fn clone_repo(actions: &mut Actions, repo_url: &str, target_dir: &str, branch: Option<&str>)
    ensures
        final(actions)@ == old(actions)@.push(
            ActionView::RunUnlessExists {
                path: target_dir@,
                command: clone_command(
                    repo_url@,
                    target_dir@,
                    match branch {
                        Some(branch) => Some(branch@),
                        None => None,
                    },
                ),
            },
        ),
{
    let mut clone = Command::new("git").arg("clone");
    if let Some(b) = branch {
        clone = clone.arg("--branch").arg(b);
    }
    let command = clone.arg(repo_url).arg(target_dir);
    actions.push(Action::RunUnlessExists { path: String::from_str(target_dir), command });
}

/// Enables kernel options, one at a time.
pub open spec fn with_configs(
    actions: Seq<ActionView>,
    group: Seq<char>,
    configs: Seq<Seq<char>>,
) -> Seq<ActionView>
    decreases configs.len(),
{
    if configs.len() == 0 {
        actions
    } else {
        with_configs(actions, group, configs.drop_last()).push(
            plan::run_or(
                kernel::config_script().arg("--enable"@).arg(configs.last()),
                "Failed to enable "@ + group + " kernel config "@ + configs.last(),
            ),
        )
    }
}

fn enable_kernel_configs(actions: &mut Actions, group: &str, configs: &Vec<&'static str>)
    ensures
        final(actions)@ == with_configs(
            old(actions)@,
            group@,
            kernel::str_views(configs@),
        ),
{
    let ghost before = actions@;
    let ghost names = kernel::str_views(configs@);
    // Enable each config one at a time to avoid shell argument parsing issues
    let mut i: usize = 0;
    while i < configs.len()
        invariant
            i <= configs@.len(),
            names == kernel::str_views(configs@),
            actions@ == with_configs(before, group@, names.take(i as int)),
        decreases configs@.len() - i,
    {
        let config = configs[i];
        let context = String::from_str("Failed to enable ").concat(group).concat(
            " kernel config ",
        ).concat(config);
        actions.run_with_context(config_script_command().arg("--enable").arg(config), context);
        proof {
            assert(names.take(i + 1).drop_last() =~= names.take(i as int));
        }
        i = i + 1;
    }
    proof {
        assert(names.take(i as int) =~= names);
    }
}

/// A target of the kernel's build.
pub open spec fn make(target: Seq<char>, jobs: Seq<char>) -> ActionView {
    plan::run_or(
        kernel::make_kernel("aarch64-linux-gnu-"@, target).arg("-j"@ + jobs),
        "Failed to run `make "@ + target + "`"@,
    )
}

fn make_target(actions: &mut Actions, target: &str, jobs: &str)
    ensures
        final(actions)@ == old(actions)@.push(make(target@, jobs@)),
{
    let jobs = String::from_str("-j").concat(jobs);
    actions.run_with_context(
        make_kernel_command("aarch64-linux-gnu-", target).arg(jobs.as_str()),
        String::from_str("Failed to run `make ").concat(target).concat("`"),
    );
}

/// Builds the kernel of plane 0.
pub open spec fn with_plane0_build(
    actions: Seq<ActionView>,
    plane0_linux: Seq<char>,
    plane0_image: Seq<char>,
    jobs: Seq<char>,
) -> Seq<ActionView> {
    let started = actions.push(ActionView::ChangeDir(plane0_linux)).push(
        make("defconfig"@, "1"@),
    );
    let configured = with_configs(
        with_configs(
            with_configs(started, "CCA"@, kernel::cca_config_names()),
            "9P"@,
            kernel::ninep_config_names(),
        ),
        "Hyper-V"@,
        kernel::hyperv_config_names(),
    );
    configured.push(make("olddefconfig"@, "1"@)).push(make("Image"@, jobs)).push(
        ActionView::Require {
            path: plane0_image,
            error: "Plane0 kernel compilation appeared to succeed but image file was not found at "@
                + plane0_image,
        },
    )
}

pub fn build_plane0_linux(
    actions: &mut Actions,
    plane0_linux: &str,
    plane0_image: &str,
    jobs: &str,
)
    ensures
        final(actions)@ == with_plane0_build(
            old(actions)@,
            plane0_linux@,
            plane0_image@,
            jobs@,
        ),
{
    actions.change_dir(plane0_linux);
    make_target(actions, "defconfig", "1");
    enable_kernel_configs(actions, "CCA", &cca_configs());
    enable_kernel_configs(actions, "9P", &ninep_configs());
    enable_kernel_configs(actions, "Hyper-V", &hyperv_configs());
    make_target(actions, "olddefconfig", "1");
    make_target(actions, "Image", jobs);
    actions.require(
        plane0_image,
        String::from_str(
            "Plane0 kernel compilation appeared to succeed but image file was not found at ",
        ).concat(plane0_image),
    );
}

/// The revision of TF-A that is built where no other is asked for.
pub open spec fn default_tfa_revision() -> Seq<char> {
    "8dae0862c502e08568a61a1050091fa9357f1240"@
}

/// The command line of the build of the firmwares and the root file system, with
/// the firmwares at the revisions that are asked for. TF-A has one of its own
/// where none is; TF-RMM then has the one of the configuration. Where a revision is
/// asked for, the build has to succeed, and not only the copy of its output.
pub open spec fn rootfs_build_script(
    shrinkwrap_dir: Seq<char>,
    tfa_rev: Option<Seq<char>>,
    tfrmm_rev: Option<Seq<char>>,
    log_file: Seq<char>,
) -> Seq<char> {
    let start = if tfa_rev is Some || tfrmm_rev is Some {
        "set -o pipefail; "@
    } else {
        ""@
    };
    let tfa_revision = match tfa_rev {
        Some(revision) => revision,
        None => default_tfa_revision(),
    };
    let tfrmm_option = match tfrmm_rev {
        Some(revision) => " --btvar TFRMM_REVISION="@ + revision,
        None => ""@,
    };
    start + path::joined(shrinkwrap_dir, "shrinkwrap/shrinkwrap"@)
        + " build cca-3world.yaml --overlay buildroot.yaml --overlay cca_planes.yaml --btvar GUEST_ROOTFS=${artifact:BUILDROOT} --btvar TFA_REVISION="@
        + tfa_revision + tfrmm_option + " 2>&1 | tee "@ + log_file
}

fn rootfs_build_script_text(
    shrinkwrap_dir: &str,
    tfa_rev: &Option<String>,
    tfrmm_rev: &Option<String>,
    log_file: &str,
) -> (script: String)
    ensures
        script@ == rootfs_build_script(
            shrinkwrap_dir@,
            text::opt_view(*tfa_rev),
            text::opt_view(*tfrmm_rev),
            log_file@,
        ),
{
    let start = if tfa_rev.is_some() || tfrmm_rev.is_some() {
        "set -o pipefail; "
    } else {
        ""
    };
    let tfa_revision = match tfa_rev {
        Some(revision) => revision.as_str(),
        None => "8dae0862c502e08568a61a1050091fa9357f1240",
    };
    let tfrmm_option = match tfrmm_rev {
        Some(revision) => String::from_str(" --btvar TFRMM_REVISION=").concat(revision.as_str()),
        None => String::from_str(""),
    };
    let exe = join(shrinkwrap_dir, "shrinkwrap/shrinkwrap");
    String::from_str(start).concat(exe.as_str()).concat(
        " build cca-3world.yaml --overlay buildroot.yaml --overlay cca_planes.yaml --btvar GUEST_ROOTFS=${artifact:BUILDROOT} --btvar TFA_REVISION=",
    ).concat(tfa_revision).concat(tfrmm_option.as_str()).concat(" 2>&1 | tee ").concat(log_file)
}

/// Builds the firmwares, at the revisions that are asked for, and the root file
/// system.
pub open spec fn with_rootfs_build(
    actions: Seq<ActionView>,
    test_root: Seq<char>,
    shrinkwrap_dir: Seq<char>,
    venv_dir: Seq<char>,
    search_path: Option<Seq<char>>,
    tfa_rev: Option<Seq<char>>,
    tfrmm_rev: Option<Seq<char>>,
) -> Seq<ActionView> {
    let log_dir = path::joined(test_root, "logs"@);
    actions.push(ActionView::CreateDirAll(log_dir)).push(
        plan::run_or(
            venv::in_venv(
                CommandView::program("bash"@).arg("-c"@).arg(
                    rootfs_build_script(
                        shrinkwrap_dir,
                        tfa_rev,
                        tfrmm_rev,
                        path::joined(log_dir, "shrinkwrap.build.log"@),
                    ),
                ),
                venv_dir,
                search_path,
            ),
            "failed to do shrinkwrap build"@,
        ),
    )
}

pub fn build_cca_rootfs(
    actions: &mut Actions,
    test_root: &str,
    shrinkwrap_dir: &str,
    venv_dir: &str,
    search_path: &Option<String>,
    tfa_rev: &Option<String>,
    tfrmm_rev: &Option<String>,
)
    ensures
        final(actions)@ == with_rootfs_build(
            old(actions)@,
            test_root@,
            shrinkwrap_dir@,
            venv_dir@,
            text::opt_view(*search_path),
            text::opt_view(*tfa_rev),
            text::opt_view(*tfrmm_rev),
        ),
{
    let log_dir = join(test_root, "logs");
    actions.create_dir_all(log_dir.as_str());
    let log_file = join(log_dir.as_str(), "shrinkwrap.build.log");
    let script = rootfs_build_script_text(
        shrinkwrap_dir,
        tfa_rev,
        tfrmm_rev,
        log_file.as_str(),
    );
    let command = Command::new("bash").arg("-c").arg(script.as_str());
    actions.run_with_context(
        run_in_venv(command, venv_dir, search_path),
        String::from_str("failed to do shrinkwrap build"),
    );
}

/// The root file system that the build makes.
pub open spec fn rootfs_file(home: Seq<char>) -> Seq<char> {
    path::joined(home, ".shrinkwrap/package/cca-3world/rootfs.ext2"@)
}

/// What comes with a fresh clone of Shrinkwrap: the plane configuration, and a
/// virtual environment with all packages that it needs.
pub open spec fn shrinkwrap_setup(
    shrinkwrap_dir: Seq<char>,
    openvmm_root: Seq<char>,
) -> Seq<ActionView> {
    let venv_dir = path::joined(shrinkwrap_dir, "venv"@);
    Seq::empty().push(
        ActionView::RunUnlessExists {
            path: shrinkwrap_dir,
            command: clone_command(
                "https://git.gitlab.arm.com/tooling/shrinkwrap.git"@,
                shrinkwrap_dir,
                None,
            ),
        },
    ).push(ActionView::CreateDirAll(path::joined(shrinkwrap_dir, "config"@))).push(
        ActionView::Copy {
            from: path::joined(openvmm_root, "vmm_tests/vmm_tests/test_data/cca_planes.yaml"@),
            to: path::joined(shrinkwrap_dir, "config/cca_planes.yaml"@),
            context: None,
        },
    ).push(
        ActionView::RunUnlessExists {
            path: venv_dir,
            command: install_shrinkwrap::make_venv(venv_dir),
        },
    ) + install_shrinkwrap::pip_installs(path::joined(venv_dir, "bin/pip"@))
}

fn set_up_shrinkwrap(shrinkwrap_dir: &str, openvmm_root: &str) -> (actions: Actions)
    ensures
        actions@ == shrinkwrap_setup(shrinkwrap_dir@, openvmm_root@),
{
    let mut actions = Actions::new();
    clone_repo(
        &mut actions,
        "https://git.gitlab.arm.com/tooling/shrinkwrap.git",
        shrinkwrap_dir,
        None,
    );
    // A few cleanups after we checkout 'shrinkwrap' source code
    //   - copy over cca plane configuration
    //   - create python venv and install all packages needed when using 'shrinkwrap'
    let config_dir = join(shrinkwrap_dir, "config");
    let planes_src = join(openvmm_root, "vmm_tests/vmm_tests/test_data/cca_planes.yaml");
    let planes_dest = join(shrinkwrap_dir, "config/cca_planes.yaml");
    actions.create_dir_all(config_dir.as_str());
    actions.copy(planes_src.as_str(), planes_dest.as_str());
    let venv_dir = join(shrinkwrap_dir, "venv");
    let command = make_venv_command(venv_dir.as_str());
    let pip = join(venv_dir.as_str(), "bin/pip");
    actions.push(Action::RunUnlessExists { path: venv_dir, command });
    push_pip_installs(&mut actions, pip.as_str());
    actions
}

/// What the installation takes, given the root of this repository.
pub open spec fn install_steps(
    test_root: Seq<char>,
    openvmm_root: Seq<char>,
    home: Seq<char>,
    search_path: Option<Seq<char>>,
    jobs: Seq<char>,
) -> Seq<StepView> {
    let plane0_linux = path::joined(test_root, "plane0-linux"@);
    let plane0_image = install_shrinkwrap::kernel_image(plane0_linux);
    let shrinkwrap_dir = path::joined(test_root, "shrinkwrap"@);
    Seq::empty().push(StepView::always(seq![ActionView::CreateDirAll(test_root)])).push(
        StepView::if_missing(
            plane0_linux,
            seq![
                ActionView::RunUnlessExists {
                    path: plane0_linux,
                    command: clone_command(
                        "https://github.com/weiding-msft/OHCL-Linux-Kernel.git"@,
                        plane0_linux,
                        Some("with-arm-rebased-planes"@),
                    ),
                },
            ],
        ),
    ).push(
        StepView::if_missing(
            plane0_image,
            with_plane0_build(Seq::empty(), plane0_linux, plane0_image, jobs),
        ),
    ).push(
        StepView::if_missing(shrinkwrap_dir, shrinkwrap_setup(shrinkwrap_dir, openvmm_root)),
    ).push(
        StepView::if_missing(
            rootfs_file(home),
            with_rootfs_build(
                Seq::empty(),
                test_root,
                shrinkwrap_dir,
                path::joined(shrinkwrap_dir, "venv"@),
                search_path,
                None,
                None,
            ),
        ),
    )
}

/// What the installation takes, given the root of this repository.
pub fn process_request(params: &Params, openvmm_root: &str, host: &Host) -> (plan: Plan)
    ensures
        plan@ == install_steps(
            params.test_root@,
            openvmm_root@,
            host.home@,
            text::opt_view(host.search_path),
            kernel::job_count_text(host.parallelism),
        ),
{
    let test_root = params.test_root.as_str();
    let mut plan = Plan::new();
    // emulation environment is under 'test_root'
    let mut dirs = Actions::new();
    dirs.create_dir_all(test_root);
    plan.always(dirs);
    // 'shrinkwrap' only build host Linux kernel, plane0 Linux kernel
    // needs to be downloaded and built separately.
    let plane0_linux = join(test_root, "plane0-linux");
    let plane0_image = kernel_image_path(plane0_linux.as_str());
    let mut clone = Actions::new();
    clone_repo(
        &mut clone,
        "https://github.com/weiding-msft/OHCL-Linux-Kernel.git",
        plane0_linux.as_str(),
        Some("with-arm-rebased-planes"),
    );
    plan.if_missing(plane0_linux.as_str(), clone);
    // Now check if image has been built
    let jobs = job_count(host.parallelism);
    let mut build = Actions::new();
    build_plane0_linux(&mut build, plane0_linux.as_str(), plane0_image.as_str(), jobs.as_str());
    plan.if_missing(plane0_image.as_str(), build);
    // Install the remaining emulation environment components
    // using 'shrinkwrap', which leverages YAML to define all required
    // components.
    let shrinkwrap_dir = join(test_root, "shrinkwrap");
    let venv_dir = join(shrinkwrap_dir.as_str(), "venv");
    let setup = set_up_shrinkwrap(shrinkwrap_dir.as_str(), openvmm_root);
    plan.if_missing(shrinkwrap_dir.as_str(), setup);
    // Now, we are all good to use 'shrinkwrap' to build all
    // components needed by OpenVMM CCA tests
    let rootfs = join(host.home.as_str(), ".shrinkwrap/package/cca-3world/rootfs.ext2");
    let mut firmware = Actions::new();
    build_cca_rootfs(
        &mut firmware,
        test_root,
        shrinkwrap_dir.as_str(),
        venv_dir.as_str(),
        &host.search_path,
        &None,
        &None,
    );
    plan.if_missing(rootfs.as_str(), firmware);
    plan
}

/// Where everything is in place already, no program runs.
pub proof fn nothing_runs_when_all_is_there(
    test_root: Seq<char>,
    openvmm_root: Seq<char>,
    home: Seq<char>,
    search_path: Option<Seq<char>>,
    jobs: Seq<char>,
    step: int,
    action: int,
)
    requires
        ({
            let steps = install_steps(test_root, openvmm_root, home, search_path, jobs);
            &&& 0 <= step < steps.len()
            &&& 0 <= action < steps[step].actions(|path: Seq<char>| true).len()
        }),
    ensures
        !install_steps(test_root, openvmm_root, home, search_path, jobs)[step].actions(
            |path: Seq<char>| true,
        )[action].is_effort(),
{
}

} // verus!
