//! What the installations and the update are sure to do: what they install, clone,
//! configure and build.

use super::install_cca_emu;
use super::install_shrinkwrap;
use super::kernel;
use super::laws;
use super::path;
use super::plan::{ActionView, CommandView, StepView};
use super::update_cca_emu;
use vstd::prelude::*;

verus! {

/// Whether a name is one of the kernel options that a plane needs: those for
/// guests of a realm, for shared file systems and for the paravisor.
pub open spec fn is_needed_config(name: Seq<char>) -> bool {
    ||| name == "CONFIG_VIRT_DRIVERS"@
    ||| name == "CONFIG_ARM_CCA_GUEST"@
    ||| name == "CONFIG_NET_9P"@
    ||| name == "CONFIG_NET_9P_FD"@
    ||| name == "CONFIG_NET_9P_VIRTIO"@
    ||| name == "CONFIG_NET_9P_FS"@
    ||| name == "CONFIG_HYPERV"@
    ||| name == "CONFIG_HYPERV_MSHV"@
    ||| name == "CONFIG_MSHV"@
    ||| name == "CONFIG_MSHV_VTL"@
    ||| name == "CONFIG_HYPERV_VTL_MODE"@
}

/// Whether a name is one of the system packages that building needs.
pub open spec fn is_needed_package(name: Seq<char>) -> bool {
    ||| name == "build-essential"@
    ||| name == "flex"@
    ||| name == "bison"@
    ||| name == "libssl-dev"@
    ||| name == "libelf-dev"@
    ||| name == "bc"@
    ||| name == "git"@
    ||| name == "netcat-openbsd"@
    ||| name == "python3"@
    ||| name == "python3-pip"@
    ||| name == "python3-venv"@
    ||| name == "telnet"@
    ||| name == "docker.io"@
    ||| name == "unzip"@
}

/// Where installation is asked for, the package lists are updated, then every
/// needed package is installed in one run, and the user joins the docker group.
pub proof fn needed_packages_are_installed(
    shrinkwrap_dir: Seq<char>,
    update_repo: bool,
    user: Seq<char>,
    jobs: Seq<char>,
    parent: Seq<char>,
    name: Seq<char>,
)
    requires
        is_needed_package(name),
    ensures
        ({
            let steps = install_shrinkwrap::install_steps(
                shrinkwrap_dir,
                true,
                update_repo,
                user,
                jobs,
                Some(parent),
            );
            let actions = steps[1].present;
            &&& steps[1].path is None
            &&& laws::is_run_of(actions[0], seq!["sudo"@, "apt-get"@, "update"@])
            &&& actions[1] matches ActionView::Run { command, .. }
            &&& command.argv.take(4) =~= seq!["sudo"@, "apt-get"@, "install"@, "-y"@]
            &&& command.argv.contains(name)
            &&& laws::is_run_of(
                actions[3],
                seq!["sudo"@, "usermod"@, "-aG"@, "docker"@, user],
            )
        }),
{
    let start = CommandView::program("sudo"@).arg("apt-get"@).arg("install"@).arg("-y"@);
    let argv = install_shrinkwrap::with_packages(start).argv;
    assert(argv[4] == "build-essential"@ && argv[5] == "flex"@ && argv[6] == "bison"@);
    assert(argv[7] == "libssl-dev"@ && argv[8] == "libelf-dev"@ && argv[9] == "bc"@);
    assert(argv[10] == "git"@ && argv[11] == "netcat-openbsd"@ && argv[12] == "python3"@);
    assert(argv[13] == "python3-pip"@ && argv[14] == "python3-venv"@ && argv[15] == "telnet"@);
    assert(argv[16] == "docker.io"@ && argv[17] == "unzip"@);
}

/// The words that clone a repository.
pub open spec fn cloning(url: Seq<char>, branch: Option<Seq<char>>, dir: Seq<char>) -> Seq<Seq<char>> {
    match branch {
        Some(branch) => seq!["git"@, "clone"@, "--branch"@, branch, url, dir],
        None => seq!["git"@, "clone"@, url, dir],
    }
}

/// Whether a repository is one that the installation of Shrinkwrap needs, from
/// this place, on this branch and in this directory.
pub open spec fn is_needed_repo(
    url: Seq<char>,
    branch: Option<Seq<char>>,
    dir: Seq<char>,
    shrinkwrap_dir: Seq<char>,
    parent: Seq<char>,
) -> bool {
    ||| {
        &&& url == "https://github.com/weiding-msft/OHCL-Linux-Kernel.git"@
        &&& branch == Some("with-arm-rebased-planes"@)
        &&& dir == path::joined(parent, "OHCL-Linux-Kernel"@)
    }
    ||| {
        &&& url == "https://github.com/Flgodd67/openvmm.git"@
        &&& branch == Some("cca-enablement"@)
        &&& dir == path::joined(parent, "OpenVMM-TMK"@)
    }
    ||| {
        &&& url == "https://git.gitlab.arm.com/tooling/shrinkwrap.git"@
        &&& branch is None
        &&& dir == shrinkwrap_dir
    }
    ||| {
        &&& url == "https://github.com/weiding-msft/cca_config"@
        &&& branch is None
        &&& dir == path::joined(parent, "cca_config"@)
    }
}

/// Whether a step has a repository cloned where its directory is missing, updated
/// there where an update is asked for, and left alone otherwise.
pub open spec fn keeps_repo(
    step: StepView,
    url: Seq<char>,
    branch: Option<Seq<char>>,
    dir: Seq<char>,
    update_repo: bool,
    is_there: spec_fn(Seq<char>) -> bool,
) -> bool {
    let actions = step.actions(is_there);
    &&& !is_there(dir) ==> actions.len() == 1 && laws::is_run_of(
        actions[0],
        cloning(url, branch, dir),
    )
    &&& is_there(dir) && update_repo ==> {
        &&& actions.len() == 2
        &&& actions[0] == ActionView::ChangeDir(dir)
        &&& laws::is_run_of(actions[1], seq!["git"@, "pull"@, "--ff-only"@])
    }
    &&& is_there(dir) && !update_repo ==> actions.len() == 0
}

/// A step that clones a repository or updates it.
proof fn lemma_clone_or_update(
    url: Seq<char>,
    dir: Seq<char>,
    update_repo: bool,
    branch: Option<Seq<char>>,
    is_there: spec_fn(Seq<char>) -> bool,
)
    ensures
        keeps_repo(
            install_shrinkwrap::clone_or_update(url, dir, update_repo, branch),
            url,
            branch,
            dir,
            update_repo,
            is_there,
        ),
{
}

/// Each repository that Shrinkwrap's installation needs has a step that clones it
/// where it is missing, or updates it where that is asked for, whether anything is
/// installed or not.
pub proof fn needed_repos_are_cloned(
    shrinkwrap_dir: Seq<char>,
    do_installs: bool,
    update_repo: bool,
    user: Seq<char>,
    jobs: Seq<char>,
    parent: Seq<char>,
    is_there: spec_fn(Seq<char>) -> bool,
    url: Seq<char>,
    branch: Option<Seq<char>>,
    dir: Seq<char>,
)
    requires
        is_needed_repo(url, branch, dir, shrinkwrap_dir, parent),
    ensures
        ({
            let steps = install_shrinkwrap::install_steps(
                shrinkwrap_dir,
                do_installs,
                update_repo,
                user,
                jobs,
                Some(parent),
            );
            exists|i: int|
                0 <= i < steps.len() && keeps_repo(
                    #[trigger] steps[i],
                    url,
                    branch,
                    dir,
                    update_repo,
                    is_there,
                )
        }),
{
    let steps = install_shrinkwrap::install_steps(
        shrinkwrap_dir,
        do_installs,
        update_repo,
        user,
        jobs,
        Some(parent),
    );
    lemma_clone_or_update(url, dir, update_repo, branch, is_there);
    let step = install_shrinkwrap::clone_or_update(url, dir, update_repo, branch);
    if do_installs {
        if dir == path::joined(parent, "OHCL-Linux-Kernel"@) && url
            == "https://github.com/weiding-msft/OHCL-Linux-Kernel.git"@ && branch == Some(
            "with-arm-rebased-planes"@,
        ) {
            assert(steps[4] == step);
        } else if url == "https://github.com/Flgodd67/openvmm.git"@ && branch == Some(
            "cca-enablement"@,
        ) && dir == path::joined(parent, "OpenVMM-TMK"@) {
            assert(steps[6] == step);
        } else if url == "https://git.gitlab.arm.com/tooling/shrinkwrap.git"@ && branch is None
            && dir == shrinkwrap_dir {
            assert(steps[11] == step);
        } else {
            assert(steps[12] == step);
        }
    } else {
        if dir == path::joined(parent, "OHCL-Linux-Kernel"@) && url
            == "https://github.com/weiding-msft/OHCL-Linux-Kernel.git"@ && branch == Some(
            "with-arm-rebased-planes"@,
        ) {
            assert(steps[1] == step);
        } else if url == "https://github.com/Flgodd67/openvmm.git"@ && branch == Some(
            "cca-enablement"@,
        ) && dir == path::joined(parent, "OpenVMM-TMK"@) {
            assert(steps[2] == step);
        } else if url == "https://git.gitlab.arm.com/tooling/shrinkwrap.git"@ && branch is None
            && dir == shrinkwrap_dir {
            assert(steps[4] == step);
        } else {
            assert(steps[5] == step);
        }
    }
}

/// An argument that enables options enables each of them.
proof fn lemma_enables(configs: Seq<Seq<char>>, i: int)
    requires
        0 <= i < configs.len(),
    ensures
        laws::occurs(
            install_shrinkwrap::enable_argument(configs),
            "--enable "@ + configs[i] + " "@,
        ),
    decreases configs.len(),
{
    let part = "--enable "@ + configs[i] + " "@;
    let before = install_shrinkwrap::enable_argument(configs.drop_last());
    let last = "--enable "@ + configs.last() + " "@;
    let all = install_shrinkwrap::enable_argument(configs);
    assert(all =~= before + last);
    if i == configs.len() - 1 {
        assert(all =~= before + part + Seq::empty());
        assert(laws::is_split(all, before, part, Seq::empty()));
    } else {
        lemma_enables(configs.drop_last(), i);
        laws::lemma_occurs_inside(Seq::empty(), before, last, part);
        assert(Seq::empty() + before + last =~= all);
    }
}

/// Whether an action enables a kernel option, alone or with others.
pub open spec fn enables(action: ActionView, name: Seq<char>) -> bool {
    &&& action matches ActionView::Run { command, .. }
    &&& command.argv.len() == 4
    &&& command.argv[0] == "./scripts/config"@
    &&& command.argv[1] == "--file"@
    &&& command.argv[2] == ".config"@
    &&& laws::occurs(command.argv[3], "--enable "@ + name + " "@)
}

/// Where installation is asked for and the host kernel has no image, it is built in
/// its directory: from the default configuration, with every needed option enabled
/// before the image is made with the toolchain; and then the image has to be there.
pub proof fn host_kernel_has_the_needed_configs(
    shrinkwrap_dir: Seq<char>,
    update_repo: bool,
    user: Seq<char>,
    jobs: Seq<char>,
    parent: Seq<char>,
    is_there: spec_fn(Seq<char>) -> bool,
    name: Seq<char>,
)
    requires
        is_needed_config(name),
        !is_there(path::joined(path::joined(parent, "OHCL-Linux-Kernel"@), "arch/arm64/boot/Image"@)),
    ensures
        ({
            let steps = install_shrinkwrap::install_steps(
                shrinkwrap_dir,
                true,
                update_repo,
                user,
                jobs,
                Some(parent),
            );
            let dir = path::joined(parent, "OHCL-Linux-Kernel"@);
            let image = path::joined(dir, "arch/arm64/boot/Image"@);
            let cross = "CROSS_COMPILE="@ + path::joined(
                path::joined(
                    path::joined(parent, "arm-gnu-toolchain-14.3.rel1-x86_64-aarch64-none-elf"@),
                    "bin"@,
                ),
                "aarch64-none-elf-"@,
            );
            let actions = steps[5].actions(is_there);
            &&& actions.len() == 8
            &&& actions[0] == ActionView::ChangeDir(dir)
            &&& laws::is_run_of(actions[1], seq!["make"@, "ARCH=arm64"@, cross, "defconfig"@])
            &&& enables(actions[2], name) || enables(actions[3], name) || enables(actions[4], name)
            &&& laws::is_run_of(actions[5], seq!["make"@, "ARCH=arm64"@, cross, "olddefconfig"@])
            &&& laws::is_run_of(
                actions[6],
                seq!["make"@, "ARCH=arm64"@, cross, "Image"@, "-j"@ + jobs],
            )
            &&& actions[7] matches ActionView::Require { path, .. }
            &&& path == image
        }),
{
    install_shrinkwrap::lemma_kernel_image(path::joined(parent, "OHCL-Linux-Kernel"@));
    let cca = kernel::cca_config_names();
    let ninep = kernel::ninep_config_names();
    let hyperv = kernel::hyperv_config_names();
    lemma_config_place(name);
    if exists|i: int| 0 <= i < cca.len() && #[trigger] cca[i] == name {
        let i = choose|i: int| 0 <= i < cca.len() && #[trigger] cca[i] == name;
        lemma_enables(cca, i);
    } else if exists|i: int| 0 <= i < ninep.len() && #[trigger] ninep[i] == name {
        let i = choose|i: int| 0 <= i < ninep.len() && #[trigger] ninep[i] == name;
        lemma_enables(ninep, i);
    } else {
        let i = choose|i: int| 0 <= i < hyperv.len() && #[trigger] hyperv[i] == name;
        lemma_enables(hyperv, i);
    }
    let steps = install_shrinkwrap::install_steps(
        shrinkwrap_dir,
        true,
        update_repo,
        user,
        jobs,
        Some(parent),
    );
    let actions = steps[5].actions(is_there);
    assert(actions[2] == install_shrinkwrap::enable_configs("CCA"@, cca));
    assert(actions[3] == install_shrinkwrap::enable_configs("9P"@, ninep));
    assert(actions[4] == install_shrinkwrap::enable_configs("Hyper-V"@, hyperv));
}

/// Each needed option is in one of the three groups.
proof fn lemma_config_place(name: Seq<char>)
    requires
        is_needed_config(name),
    ensures
        ({
            let cca = kernel::cca_config_names();
            let ninep = kernel::ninep_config_names();
            let hyperv = kernel::hyperv_config_names();
            ||| exists|i: int| 0 <= i < cca.len() && #[trigger] cca[i] == name
            ||| exists|i: int| 0 <= i < ninep.len() && #[trigger] ninep[i] == name
            ||| exists|i: int| 0 <= i < hyperv.len() && #[trigger] hyperv[i] == name
        }),
{
    let cca = kernel::cca_config_names();
    let ninep = kernel::ninep_config_names();
    let hyperv = kernel::hyperv_config_names();
    assert(cca[0] == "CONFIG_VIRT_DRIVERS"@ && cca[1] == "CONFIG_ARM_CCA_GUEST"@);
    assert(ninep[0] == "CONFIG_NET_9P"@ && ninep[1] == "CONFIG_NET_9P_FD"@);
    assert(ninep[2] == "CONFIG_NET_9P_VIRTIO"@ && ninep[3] == "CONFIG_NET_9P_FS"@);
    assert(hyperv[0] == "CONFIG_HYPERV"@ && hyperv[1] == "CONFIG_HYPERV_MSHV"@);
    assert(hyperv[2] == "CONFIG_MSHV"@ && hyperv[3] == "CONFIG_MSHV_VTL"@);
    assert(hyperv[4] == "CONFIG_HYPERV_VTL_MODE"@);
}

/// Where installation is asked for, the toolchain is downloaded and then unpacked,
/// as far as it is missing.
pub proof fn missing_toolchain_is_made(
    shrinkwrap_dir: Seq<char>,
    update_repo: bool,
    user: Seq<char>,
    jobs: Seq<char>,
    parent: Seq<char>,
    is_there: spec_fn(Seq<char>) -> bool,
)
    ensures
        ({
            let steps = install_shrinkwrap::install_steps(
                shrinkwrap_dir,
                true,
                update_repo,
                user,
                jobs,
                Some(parent),
            );
            let archive = path::joined(
                parent,
                "arm-gnu-toolchain-14.3.rel1-x86_64-aarch64-none-elf.tar.xz"@,
            );
            let toolchain = path::joined(
                parent,
                "arm-gnu-toolchain-14.3.rel1-x86_64-aarch64-none-elf"@,
            );
            &&& !is_there(archive) ==> laws::is_run_of(
                steps[2].actions(is_there)[0],
                seq![
                    "wget"@,
                    "-O"@,
                    archive,
                    "https://developer.arm.com/-/media/Files/downloads/gnu/14.3.rel1/binrel/arm-gnu-toolchain-14.3.rel1-x86_64-aarch64-none-elf.tar.xz"@,
                ],
            )
            &&& !is_there(toolchain) ==> {
                &&& steps[3].actions(is_there)[0] == ActionView::ChangeDir(parent)
                &&& laws::is_run_of(
                    steps[3].actions(is_there)[1],
                    seq!["tar"@, "-xvf"@, archive],
                )
            }
        }),
{
    let start = seq![StepView::always(seq![ActionView::CreateDirAll(parent)])];
    let deps = install_shrinkwrap::with_system_deps(start, user);
    let tools = install_shrinkwrap::with_toolchain(deps, parent);
    let steps = install_shrinkwrap::install_steps(
        shrinkwrap_dir,
        true,
        update_repo,
        user,
        jobs,
        Some(parent),
    );
    assert(steps[2] == tools[2] && steps[3] == tools[3]);
}

/// Where installation is asked for, the test microkernel and the monitor are built
/// in their repository, as far as they are missing, once the Rust targets are
/// there.
pub proof fn missing_binaries_are_built(
    shrinkwrap_dir: Seq<char>,
    update_repo: bool,
    user: Seq<char>,
    jobs: Seq<char>,
    parent: Seq<char>,
    is_there: spec_fn(Seq<char>) -> bool,
)
    ensures
        ({
            let steps = install_shrinkwrap::install_steps(
                shrinkwrap_dir,
                true,
                update_repo,
                user,
                jobs,
                Some(parent),
            );
            let repo = path::joined(parent, "OpenVMM-TMK"@);
            let target = path::joined(repo, "target"@);
            let simple_tmk = path::joined(
                path::joined(path::joined(target, "aarch64-minimal_rt-none"@), "debug"@),
                "simple_tmk"@,
            );
            let tmk_vmm = path::joined(
                path::joined(path::joined(target, "aarch64-unknown-linux-gnu"@), "debug"@),
                "tmk_vmm"@,
            );
            let targets = steps[7].actions(is_there);
            &&& laws::is_run_of(
                targets[0],
                seq!["rustup"@, "target"@, "add"@, "aarch64-unknown-linux-gnu"@],
            )
            &&& laws::is_run_of(
                targets[1],
                seq!["rustup"@, "target"@, "add"@, "aarch64-unknown-none"@],
            )
            &&& targets[2] == ActionView::ChangeDir(repo)
            &&& !is_there(simple_tmk) ==> laws::is_run_of(
                steps[8].actions(is_there)[0],
                seq![
                    "cargo"@,
                    "build"@,
                    "-p"@,
                    "simple_tmk"@,
                    "--config"@,
                    "openhcl/minimal_rt/aarch64-config.toml"@,
                ],
            )
            &&& !is_there(tmk_vmm) ==> laws::is_run_of(
                steps[9].actions(is_there)[0],
                seq![
                    "cargo"@,
                    "build"@,
                    "-p"@,
                    "tmk_vmm"@,
                    "--target"@,
                    "aarch64-unknown-linux-gnu"@,
                ],
            )
        }),
{
    let start = seq![StepView::always(seq![ActionView::CreateDirAll(parent)])];
    let deps = install_shrinkwrap::with_system_deps(start, user);
    let tools = install_shrinkwrap::with_toolchain(deps, parent);
    let host = install_shrinkwrap::with_host_kernel(tools, parent, update_repo, true, jobs);
    let tmk = install_shrinkwrap::with_tmk(host, parent, update_repo, true);
    let steps = install_shrinkwrap::install_steps(
        shrinkwrap_dir,
        true,
        update_repo,
        user,
        jobs,
        Some(parent),
    );
    assert(host.len() == 6);
    assert(steps[7] == tmk[7] && steps[8] == tmk[8] && steps[9] == tmk[9]);
}

/// The plane configuration is copied to Shrinkwrap where it is there. Where
/// installation is asked for, Shrinkwrap gets its virtual environment if it has
/// none, and what it needs from Python is installed there.
pub proof fn shrinkwrap_is_made_ready(
    shrinkwrap_dir: Seq<char>,
    update_repo: bool,
    user: Seq<char>,
    jobs: Seq<char>,
    parent: Seq<char>,
    is_there: spec_fn(Seq<char>) -> bool,
)
    ensures
        ({
            let steps = install_shrinkwrap::install_steps(
                shrinkwrap_dir,
                true,
                update_repo,
                user,
                jobs,
                Some(parent),
            );
            let venv_dir = path::joined(shrinkwrap_dir, "venv"@);
            let pip = path::joined(path::joined(venv_dir, "bin"@), "pip"@);
            let config = path::joined(path::joined(parent, "cca_config"@), "planes.yaml"@);
            &&& is_there(config) ==> steps[14].actions(is_there)[0] == (ActionView::Copy {
                from: config,
                to: path::joined(path::joined(shrinkwrap_dir, "config"@), "planes.yaml"@),
                context: None,
            })
            &&& !is_there(venv_dir) ==> laws::is_run_of(
                steps[15].actions(is_there)[0],
                seq!["python3"@, "-m"@, "venv"@, venv_dir],
            )
            &&& laws::is_run_of(
                steps[16].actions(is_there)[1],
                seq![pip, "install"@, "pyyaml"@, "termcolor"@, "tuxmake"@],
            )
        }),
{
    let start = seq![StepView::always(seq![ActionView::CreateDirAll(parent)])];
    let deps = install_shrinkwrap::with_system_deps(start, user);
    let tools = install_shrinkwrap::with_toolchain(deps, parent);
    let host = install_shrinkwrap::with_host_kernel(tools, parent, update_repo, true, jobs);
    let tmk = install_shrinkwrap::with_tmk(host, parent, update_repo, true);
    let all = install_shrinkwrap::with_shrinkwrap(tmk, shrinkwrap_dir, parent, update_repo, true);
    let steps = install_shrinkwrap::install_steps(
        shrinkwrap_dir,
        true,
        update_repo,
        user,
        jobs,
        Some(parent),
    );
    assert(tmk.len() == 11);
    assert(steps[14] == all[14] && steps[15] == all[15] && steps[16] == all[16]);
}

/// The fixed part of the build's command line, in pieces.
proof fn lemma_build_pieces()
    ensures
        " build cca-3world.yaml --overlay buildroot.yaml --overlay cca_planes.yaml --btvar GUEST_ROOTFS=${artifact:BUILDROOT} --btvar TFA_REVISION="@
            == " build cca-3world.yaml --overlay buildroot.yaml --overlay cca_planes.yaml"@
            + " --btvar GUEST_ROOTFS=${artifact:BUILDROOT}"@ + " --btvar TFA_REVISION="@,
        ""@ == Seq::<char>::empty(),
{
    reveal_strlit(" build cca-3world.yaml --overlay buildroot.yaml --overlay cca_planes.yaml --btvar GUEST_ROOTFS=${artifact:BUILDROOT} --btvar TFA_REVISION=");
    reveal_strlit(" build cca-3world.yaml --overlay buildroot.yaml --overlay cca_planes.yaml");
    reveal_strlit(" --btvar GUEST_ROOTFS=${artifact:BUILDROOT}");
    reveal_strlit(" --btvar TFA_REVISION=");
    reveal_strlit("");
    assert(" build cca-3world.yaml --overlay buildroot.yaml --overlay cca_planes.yaml --btvar GUEST_ROOTFS=${artifact:BUILDROOT} --btvar TFA_REVISION="@
        =~= " build cca-3world.yaml --overlay buildroot.yaml --overlay cca_planes.yaml"@
        + " --btvar GUEST_ROOTFS=${artifact:BUILDROOT}"@ + " --btvar TFA_REVISION="@);
}

/// What a build of the firmwares and the root file system runs: Shrinkwrap's
/// program on the three-world configuration with both overlays, with the root file
/// system of the guest; then TF-A at the revision that is asked for, or at its own
/// where none is, and TF-RMM at its revision where one is; and what it prints goes
/// to the log. Where a revision is asked for, the script fails where the build does.
pub proof fn firmware_revisions_reach_the_build(
    shrinkwrap_dir: Seq<char>,
    tfa_rev: Option<Seq<char>>,
    tfrmm_rev: Option<Seq<char>>,
    log_file: Seq<char>,
)
    ensures
        ({
            let script = install_cca_emu::rootfs_build_script(
                shrinkwrap_dir,
                tfa_rev,
                tfrmm_rev,
                log_file,
            );
            let tfa = " --btvar TFA_REVISION="@ + match tfa_rev {
                Some(revision) => revision,
                None => "8dae0862c502e08568a61a1050091fa9357f1240"@,
            };
            let tfrmm = match tfrmm_rev {
                Some(revision) => " --btvar TFRMM_REVISION="@ + revision,
                None => Seq::empty(),
            };
            &&& laws::occurs(
                script,
                path::joined(shrinkwrap_dir, "shrinkwrap/shrinkwrap"@)
                    + " build cca-3world.yaml --overlay buildroot.yaml --overlay cca_planes.yaml"@,
            )
            &&& laws::occurs(script, " --btvar GUEST_ROOTFS=${artifact:BUILDROOT}"@)
            &&& laws::ends(script, tfa + tfrmm + " 2>&1 | tee "@ + log_file)
            &&& tfa_rev is Some || tfrmm_rev is Some ==> laws::starts(script, "set -o pipefail; "@)
        }),
{
    let script = install_cca_emu::rootfs_build_script(
        shrinkwrap_dir,
        tfa_rev,
        tfrmm_rev,
        log_file,
    );
    lemma_build_pieces();
    let exe = path::joined(shrinkwrap_dir, "shrinkwrap/shrinkwrap"@);
    let start = if tfa_rev is Some || tfrmm_rev is Some {
        "set -o pipefail; "@
    } else {
        ""@
    };
    let revision = match tfa_rev {
        Some(revision) => revision,
        None => "8dae0862c502e08568a61a1050091fa9357f1240"@,
    };
    let tfrmm = match tfrmm_rev {
        Some(revision) => " --btvar TFRMM_REVISION="@ + revision,
        None => ""@,
    };
    lemma_script_pieces(
        start,
        exe,
        " build cca-3world.yaml --overlay buildroot.yaml --overlay cca_planes.yaml"@,
        " --btvar GUEST_ROOTFS=${artifact:BUILDROOT}"@,
        " --btvar TFA_REVISION="@,
        revision,
        tfrmm,
        " 2>&1 | tee "@,
        log_file,
        script,
    );
}

proof fn lemma_script_pieces(
    start: Seq<char>,
    exe: Seq<char>,
    build: Seq<char>,
    guest: Seq<char>,
    tfa: Seq<char>,
    revision: Seq<char>,
    tfrmm: Seq<char>,
    tee: Seq<char>,
    log_file: Seq<char>,
    script: Seq<char>,
)
    requires
        script == start + exe + (build + guest + tfa) + revision + tfrmm + tee + log_file,
    ensures
        laws::occurs(script, exe + build),
        laws::occurs(script, guest),
        laws::ends(script, tfa + revision + tfrmm + tee + log_file),
        laws::starts(script, start),
{
    let end = revision + tfrmm + tee + log_file;
    assert(script =~= start + (exe + build) + (guest + tfa + end));
    assert(laws::is_split(script, start, exe + build, guest + tfa + end));
    assert(script =~= (start + exe + build) + guest + (tfa + end));
    assert(laws::is_split(script, start + exe + build, guest, tfa + end));
    let tail = tfa + revision + tfrmm + tee + log_file;
    assert(script =~= (start + exe + build + guest) + tail);
    assert(script.skip(script.len() - tail.len()) =~= tail);
    assert(script.take(start.len() as int) =~= start);
}

/// Enabling options, one at a time, keeps what was to be done before, and enables
/// each of them behind it, in their order.
proof fn lemma_with_configs(
    actions: Seq<ActionView>,
    group: Seq<char>,
    configs: Seq<Seq<char>>,
)
    ensures
        ({
            let all = install_cca_emu::with_configs(actions, group, configs);
            &&& all.len() == actions.len() + configs.len()
            &&& forall|k: int| 0 <= k < actions.len() ==> #[trigger] all[k] == actions[k]
            &&& forall|i: int|
                0 <= i < configs.len() ==> laws::is_run_of(
                    #[trigger] all[actions.len() + i],
                    seq!["./scripts/config"@, "--file"@, ".config"@, "--enable"@, configs[i]],
                )
        }),
    decreases configs.len(),
{
    if configs.len() > 0 {
        lemma_with_configs(actions, group, configs.drop_last());
        let all = install_cca_emu::with_configs(actions, group, configs);
        assert forall|i: int| 0 <= i < configs.len() implies laws::is_run_of(
            #[trigger] all[actions.len() + i],
            seq!["./scripts/config"@, "--file"@, ".config"@, "--enable"@, configs[i]],
        ) by {
            if i < configs.len() - 1 {
                let before = install_cca_emu::with_configs(actions, group, configs.drop_last());
                assert(all[actions.len() + i] == before[actions.len() + i]);
                assert(configs.drop_last()[i] == configs[i]);
            }
        }
    }
}

/// Whether an action enables one kernel option.
pub open spec fn enables_alone(action: ActionView, name: Seq<char>) -> bool {
    laws::is_run_of(
        action,
        seq!["./scripts/config"@, "--file"@, ".config"@, "--enable"@, name],
    )
}

/// Whether, behind what was to be done before, a kernel is built in its directory:
/// from the default configuration, with an option enabled before the image is made
/// with the host's cross compiler; and then the image has to be there.
pub open spec fn builds_plane0_with(
    actions: Seq<ActionView>,
    before: Seq<ActionView>,
    dir: Seq<char>,
    image: Seq<char>,
    jobs: Seq<char>,
    name: Seq<char>,
    place: int,
) -> bool {
    let n = before.len() as int;
    let cross = "CROSS_COMPILE=aarch64-linux-gnu-"@;
    &&& actions.len() == n + 16
    &&& forall|k: int| 0 <= k < n ==> #[trigger] actions[k] == before[k]
    &&& actions[n] == ActionView::ChangeDir(dir)
    &&& laws::is_run_of(
        actions[n + 1],
        seq!["make"@, "ARCH=arm64"@, cross, "defconfig"@, "-j1"@],
    )
    &&& n + 2 <= place < n + 13
    &&& enables_alone(actions[place], name)
    &&& laws::is_run_of(
        actions[n + 13],
        seq!["make"@, "ARCH=arm64"@, cross, "olddefconfig"@, "-j1"@],
    )
    &&& laws::is_run_of(
        actions[n + 14],
        seq!["make"@, "ARCH=arm64"@, cross, "Image"@, "-j"@ + jobs],
    )
    &&& actions[n + 15] matches ActionView::Require { path, .. }
    &&& path == image
}

/// Every needed option is enabled before the kernel of plane 0 is built. What is
/// given back is where.
pub proof fn plane0_has_the_needed_configs(
    before: Seq<ActionView>,
    dir: Seq<char>,
    image: Seq<char>,
    jobs: Seq<char>,
    name: Seq<char>,
) -> (place: int)
    requires
        is_needed_config(name),
    ensures
        builds_plane0_with(
            install_cca_emu::with_plane0_build(before, dir, image, jobs),
            before,
            dir,
            image,
            jobs,
            name,
            place,
        ),
{
    let n = before.len() as int;
    let cca = kernel::cca_config_names();
    let ninep = kernel::ninep_config_names();
    let hyperv = kernel::hyperv_config_names();
    let started = before.push(ActionView::ChangeDir(dir)).push(
        install_cca_emu::make("defconfig"@, "1"@),
    );
    let one = install_cca_emu::with_configs(started, "CCA"@, cca);
    let two = install_cca_emu::with_configs(one, "9P"@, ninep);
    let three = install_cca_emu::with_configs(two, "Hyper-V"@, hyperv);
    lemma_with_configs(started, "CCA"@, cca);
    lemma_with_configs(one, "9P"@, ninep);
    lemma_with_configs(two, "Hyper-V"@, hyperv);
    let all = install_cca_emu::with_plane0_build(before, dir, image, jobs);
    reveal_strlit("CROSS_COMPILE=");
    reveal_strlit("aarch64-linux-gnu-");
    reveal_strlit("CROSS_COMPILE=aarch64-linux-gnu-");
    reveal_strlit("-j");
    reveal_strlit("1");
    reveal_strlit("-j1");
    assert("CROSS_COMPILE="@ + "aarch64-linux-gnu-"@ =~= "CROSS_COMPILE=aarch64-linux-gnu-"@);
    assert("-j"@ + "1"@ =~= "-j1"@);
    assert(three.len() == n + 13);
    assert forall|k: int| 0 <= k < n + 13 implies #[trigger] all[k] == three[k] by {}
    assert forall|k: int| 0 <= k < n implies #[trigger] all[k] == before[k] by {
        assert(three[k] == two[k] && two[k] == one[k] && one[k] == started[k]);
    }
    assert(three[n] == two[n] && two[n] == one[n] && one[n] == started[n]);
    assert(three[n + 1] == two[n + 1] && two[n + 1] == one[n + 1] && one[n + 1] == started[n + 1]);
    lemma_config_place(name);
    if exists|i: int| 0 <= i < cca.len() && #[trigger] cca[i] == name {
        let i = choose|i: int| 0 <= i < cca.len() && #[trigger] cca[i] == name;
        let place = started.len() + i;
        assert(three[place] == two[place] && two[place] == one[place]);
        assert(enables_alone(one[started.len() + i], name));
        place
    } else if exists|i: int| 0 <= i < ninep.len() && #[trigger] ninep[i] == name {
        let i = choose|i: int| 0 <= i < ninep.len() && #[trigger] ninep[i] == name;
        let place = one.len() + i;
        assert(three[place] == two[place]);
        assert(enables_alone(two[one.len() + i], name));
        place
    } else {
        let i = choose|i: int| 0 <= i < hyperv.len() && #[trigger] hyperv[i] == name;
        assert(enables_alone(three[two.len() + i], name));
        two.len() + i
    }
}

/// What installing the emulation environment makes where it is missing: the source
/// tree of plane 0 is cloned, its kernel built with every needed option, Shrinkwrap
/// cloned and made ready with the plane configuration of this repository, and the
/// firmwares and the root file system built in Shrinkwrap's virtual environment.
pub proof fn missing_environment_is_made(
    test_root: Seq<char>,
    openvmm_root: Seq<char>,
    home: Seq<char>,
    search_path: Option<Seq<char>>,
    jobs: Seq<char>,
    is_there: spec_fn(Seq<char>) -> bool,
    name: Seq<char>,
) -> (place: int)
    requires
        is_needed_config(name),
    ensures
        ({
            let steps = install_cca_emu::install_steps(
                test_root,
                openvmm_root,
                home,
                search_path,
                jobs,
            );
            let source = path::joined(test_root, "plane0-linux"@);
            let image = path::joined(source, "arch/arm64/boot/Image"@);
            let shrinkwrap = path::joined(test_root, "shrinkwrap"@);
            let venv_dir = path::joined(shrinkwrap, "venv"@);
            let rootfs = path::joined(home, ".shrinkwrap/package/cca-3world/rootfs.ext2"@);
            let log_dir = path::joined(test_root, "logs"@);
            let url = "https://github.com/weiding-msft/OHCL-Linux-Kernel.git"@;
            let tool_url = "https://git.gitlab.arm.com/tooling/shrinkwrap.git"@;
            let setup = steps[3].actions(is_there);
            let build = steps[4].actions(is_there);
            &&& steps.len() == 5
            &&& steps[0].actions(is_there) =~= seq![ActionView::CreateDirAll(test_root)]
            &&& !is_there(source) ==> {
                &&& steps[1].actions(is_there)[0] matches ActionView::RunUnlessExists { path, command }
                &&& path == source
                &&& command.argv =~= cloning(url, Some("with-arm-rebased-planes"@), source)
            }
            &&& !is_there(image) ==> builds_plane0_with(
                steps[2].actions(is_there),
                Seq::empty(),
                source,
                image,
                jobs,
                name,
                place,
            )
            &&& !is_there(shrinkwrap) ==> {
                &&& setup[0] matches ActionView::RunUnlessExists { path, command }
                &&& path == shrinkwrap
                &&& command.argv =~= cloning(tool_url, None, shrinkwrap)
                &&& setup[1] == ActionView::CreateDirAll(path::joined(shrinkwrap, "config"@))
                &&& setup[2] == (ActionView::Copy {
                    from: path::joined(
                        openvmm_root,
                        "vmm_tests/vmm_tests/test_data/cca_planes.yaml"@,
                    ),
                    to: path::joined(shrinkwrap, "config/cca_planes.yaml"@),
                    context: None,
                })
                &&& setup[3] matches ActionView::RunUnlessExists { path, command }
                &&& path == venv_dir
                &&& command.argv =~= seq!["python3"@, "-m"@, "venv"@, venv_dir]
                &&& laws::is_run_of(
                    setup[5],
                    seq![
                        path::joined(venv_dir, "bin/pip"@),
                        "install"@,
                        "pyyaml"@,
                        "termcolor"@,
                        "tuxmake"@,
                    ],
                )
            }
            &&& !is_there(rootfs) ==> {
                &&& build[0] == ActionView::CreateDirAll(log_dir)
                &&& build[1] matches ActionView::Run { command, .. }
                &&& command.argv =~= seq![
                    "bash"@,
                    "-c"@,
                    install_cca_emu::rootfs_build_script(
                        shrinkwrap,
                        None,
                        None,
                        path::joined(log_dir, "shrinkwrap.build.log"@),
                    ),
                ]
                &&& laws::is_in_venv(command, venv_dir, search_path)
            }
        }),
{
    reveal_strlit("");
    assert(""@ =~= Seq::<char>::empty());
    let source = path::joined(test_root, "plane0-linux"@);
    let image = path::joined(source, "arch/arm64/boot/Image"@);
    install_shrinkwrap::lemma_kernel_image(source);
    plane0_has_the_needed_configs(Seq::empty(), source, image, jobs, name)
}

/// A revision of plane 0 that is asked for is fetched and checked out in its source
/// tree, which has to be there, before its kernel is built with every needed
/// option; and without a revision or a rebuild the kernel is left alone.
#[verifier::rlimit(60)]
#[verifier::spinoff_prover]
pub proof fn plane0_is_built_at_its_revision(
    test_root: Seq<char>,
    sub_cmds: update_cca_emu::SubCmdsView,
    search_path: Option<Seq<char>>,
    jobs: Seq<char>,
    name: Seq<char>,
) -> (place: int)
    requires
        is_needed_config(name),
    ensures
        ({
            let steps = update_cca_emu::update_steps(test_root, sub_cmds, search_path, jobs);
            let source = path::joined(test_root, "plane0-linux"@);
            let image = path::joined(source, "arch/arm64/boot/Image"@);
            let actions = steps[0].present;
            let rebuilt = sub_cmds.rebuild_rootfs || sub_cmds.tfa_rev is Some
                || sub_cmds.tfrmm_rev is Some;
            &&& sub_cmds.plane0_linux_rev matches Some(revision) ==> {
                &&& steps[0].path is None
                &&& actions[0] matches ActionView::Require { path, .. }
                &&& path == source
                &&& actions[1] == ActionView::ChangeDir(source)
                &&& laws::is_run_of(actions[2], seq!["git"@, "fetch"@])
                &&& laws::is_run_of(actions[3], seq!["git"@, "checkout"@, revision])
                &&& builds_plane0_with(
                    actions,
                    actions.take(4),
                    source,
                    image,
                    jobs,
                    name,
                    place,
                )
            }
            &&& sub_cmds.plane0_linux_rev is None && sub_cmds.rebuild_plane0_linux ==> {
                &&& steps[0].path is None
                &&& builds_plane0_with(
                    actions,
                    actions.take(1),
                    source,
                    image,
                    jobs,
                    name,
                    place,
                )
            }
            &&& steps.len() == (if sub_cmds.plane0_linux_rev is Some
                || sub_cmds.rebuild_plane0_linux {
                1int
            } else {
                0
            }) + (if rebuilt {
                1int
            } else {
                0
            })
        }),
{
    let source = path::joined(test_root, "plane0-linux"@);
    let image = path::joined(source, "arch/arm64/boot/Image"@);
    install_shrinkwrap::lemma_kernel_image(source);
    let before = update_cca_emu::plane0_checkout(source, sub_cmds.plane0_linux_rev);
    let all = install_cca_emu::with_plane0_build(before, source, image, jobs);
    let place = plane0_has_the_needed_configs(before, source, image, jobs, name);
    assert(all.take(before.len() as int) =~= before);
    let steps = update_cca_emu::update_steps(test_root, sub_cmds, search_path, jobs);
    if sub_cmds.plane0_linux_rev is Some || sub_cmds.rebuild_plane0_linux {
        assert(steps[0] == StepView::always(all));
    }
    if sub_cmds.plane0_linux_rev is Some {
        assert(before.len() == 4);
        assert(all[0] == before[0] && all[1] == before[1] && all[2] == before[2] && all[3]
            == before[3]);
    } else {
        assert(before.len() == 1);
    }
    place
}

/// The firmwares that are asked for, by a revision or a rebuild, are built last: in
/// Shrinkwrap's virtual environment, with the revisions that were given.
pub proof fn firmwares_are_built_at_their_revisions(
    test_root: Seq<char>,
    sub_cmds: update_cca_emu::SubCmdsView,
    search_path: Option<Seq<char>>,
    jobs: Seq<char>,
)
    requires
        sub_cmds.rebuild_rootfs || sub_cmds.tfa_rev is Some || sub_cmds.tfrmm_rev is Some,
    ensures
        ({
            let steps = update_cca_emu::update_steps(test_root, sub_cmds, search_path, jobs);
            let actions = steps.last().present;
            let shrinkwrap = path::joined(test_root, "shrinkwrap"@);
            let log_dir = path::joined(test_root, "logs"@);
            let tfa = " --btvar TFA_REVISION="@ + match sub_cmds.tfa_rev {
                Some(revision) => revision,
                None => "8dae0862c502e08568a61a1050091fa9357f1240"@,
            };
            let tfrmm = match sub_cmds.tfrmm_rev {
                Some(revision) => " --btvar TFRMM_REVISION="@ + revision,
                None => Seq::empty(),
            };
            &&& steps.len() > 0
            &&& steps.last().path is None
            &&& actions[0] == ActionView::CreateDirAll(log_dir)
            &&& actions[1] matches ActionView::Run { command, .. }
            &&& command.argv.len() == 3 && command.argv[0] == "bash"@ && command.argv[1] == "-c"@
            &&& laws::ends(
                command.argv[2],
                tfa + tfrmm + " 2>&1 | tee "@ + path::joined(log_dir, "shrinkwrap.build.log"@),
            )
            &&& laws::is_in_venv(command, path::joined(shrinkwrap, "venv"@), search_path)
        }),
{
    reveal_strlit("");
    assert(""@ =~= Seq::<char>::empty());
    let shrinkwrap = path::joined(test_root, "shrinkwrap"@);
    let log_dir = path::joined(test_root, "logs"@);
    firmware_revisions_reach_the_build(
        shrinkwrap,
        sub_cmds.tfa_rev,
        sub_cmds.tfrmm_rev,
        path::joined(log_dir, "shrinkwrap.build.log"@),
    );
}

/// Whether an action tells the user a line.
pub open spec fn tells(action: ActionView, line: Seq<char>) -> bool {
    action == ActionView::Tell(line)
}

/// Whether some step tells the user a line, given which paths exist.
pub open spec fn is_told(
    steps: Seq<StepView>,
    is_there: spec_fn(Seq<char>) -> bool,
    line: Seq<char>,
) -> bool {
    exists|i: int, k: int|
        0 <= i < steps.len() && 0 <= k < steps[i].actions(is_there).len() && #[trigger] tells(
            steps[i].actions(is_there)[k],
            line,
        )
}

/// At the end the user is told where everything is that is there, and how to use it:
/// the repository and its virtual environment, and the kernel; the toolchain, the
/// kernel image and the two programs where they exist; and what to set in a shell.
pub proof fn user_is_told_what_is_there(
    shrinkwrap_dir: Seq<char>,
    do_installs: bool,
    update_repo: bool,
    user: Seq<char>,
    jobs: Seq<char>,
    parent: Seq<char>,
    is_there: spec_fn(Seq<char>) -> bool,
)
    ensures
        ({
            let steps = install_shrinkwrap::install_steps(
                shrinkwrap_dir,
                do_installs,
                update_repo,
                user,
                jobs,
                Some(parent),
            );
            let venv_dir = path::joined(shrinkwrap_dir, "venv"@);
            let toolchain = path::joined(
                parent,
                "arm-gnu-toolchain-14.3.rel1-x86_64-aarch64-none-elf"@,
            );
            let kernel = path::joined(parent, "OHCL-Linux-Kernel"@);
            let target = path::joined(path::joined(parent, "OpenVMM-TMK"@), "target"@);
            let image = path::joined(
                path::joined(path::joined(path::joined(kernel, "arch"@), "arm64"@), "boot"@),
                "Image"@,
            );
            let simple_tmk = path::joined(
                path::joined(path::joined(target, "aarch64-minimal_rt-none"@), "debug"@),
                "simple_tmk"@,
            );
            let tmk_vmm = path::joined(
                path::joined(path::joined(target, "aarch64-unknown-linux-gnu"@), "debug"@),
                "tmk_vmm"@,
            );
            &&& is_told(steps, is_there, "Shrinkwrap repo ready at: "@ + shrinkwrap_dir)
            &&& is_told(steps, is_there, "Virtual environment at: "@ + venv_dir)
            &&& is_told(steps, is_there, "OHCL Linux Kernel ready at: "@ + kernel)
            &&& is_there(toolchain) ==> is_told(
                steps,
                is_there,
                "ARM GNU toolchain ready at: "@ + toolchain,
            )
            &&& is_there(image) ==> is_told(steps, is_there, "Kernel Image at: "@ + image)
            &&& is_there(simple_tmk) ==> is_told(
                steps,
                is_there,
                "simple_tmk binary at: "@ + simple_tmk,
            )
            &&& is_there(tmk_vmm) ==> is_told(steps, is_there, "tmk_vmm binary at: "@ + tmk_vmm)
            &&& is_told(steps, is_there, "  source "@ + venv_dir + "/bin/activate"@)
            &&& is_told(
                steps,
                is_there,
                "  export PATH="@ + path::joined(shrinkwrap_dir, "shrinkwrap"@) + ":$PATH"@,
            )
            &&& is_told(steps, is_there, "  export ARCH=arm64"@)
            &&& is_told(
                steps,
                is_there,
                "  export CROSS_COMPILE="@ + path::joined(
                    path::joined(toolchain, "bin"@),
                    "aarch64-none-elf-"@,
                ),
            )
        }),
{
    let steps = install_shrinkwrap::install_steps(
        shrinkwrap_dir,
        do_installs,
        update_repo,
        user,
        jobs,
        Some(parent),
    );
    let n = steps.len() as int;
    let venv_dir = path::joined(shrinkwrap_dir, "venv"@);
    assert(tells(
        steps[n - 7].actions(is_there)[2],
        "Shrinkwrap repo ready at: "@ + shrinkwrap_dir,
    ));
    assert(tells(steps[n - 7].actions(is_there)[3], "Virtual environment at: "@ + venv_dir));
    let toolchain = path::joined(parent, install_shrinkwrap::toolchain_name());
    let kernel = path::joined(parent, "OHCL-Linux-Kernel"@);
    let tmk = path::joined(parent, "OpenVMM-TMK"@);
    if is_there(toolchain) {
        assert(tells(
            steps[n - 6].actions(is_there)[0],
            "ARM GNU toolchain ready at: "@ + toolchain,
        ));
    }
    assert(tells(steps[n - 5].actions(is_there)[0], "OHCL Linux Kernel ready at: "@ + kernel));
    let image = install_shrinkwrap::kernel_image(kernel);
    if is_there(image) {
        assert(tells(steps[n - 4].actions(is_there)[0], "Kernel Image at: "@ + image));
    }
    let simple_tmk = install_shrinkwrap::tmk_binary(tmk, "aarch64-minimal_rt-none"@, "simple_tmk"@);
    if is_there(simple_tmk) {
        assert(tells(steps[n - 3].actions(is_there)[0], "simple_tmk binary at: "@ + simple_tmk));
    }
    let tmk_vmm = install_shrinkwrap::tmk_binary(tmk, "aarch64-unknown-linux-gnu"@, "tmk_vmm"@);
    if is_there(tmk_vmm) {
        assert(tells(steps[n - 2].actions(is_there)[0], "tmk_vmm binary at: "@ + tmk_vmm));
    }
    let usage = steps[n - 1].actions(is_there);
    assert(usage == install_shrinkwrap::usage(shrinkwrap_dir, parent));
    assert(tells(usage[2], "  source "@ + venv_dir + "/bin/activate"@));
    assert(tells(
        usage[3],
        "  export PATH="@ + path::joined(shrinkwrap_dir, "shrinkwrap"@) + ":$PATH"@,
    ));
    assert(tells(usage[6], "  export ARCH=arm64"@));
    assert(tells(
        usage[7],
        "  export CROSS_COMPILE="@ + install_shrinkwrap::cross_compile_prefix(parent),
    ));
}

} // verus!
