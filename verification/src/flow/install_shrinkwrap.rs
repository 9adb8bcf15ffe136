//! Install Shrinkwrap and its dependencies on Ubuntu.

use super::kernel;
use super::kernel::{
    cca_configs, config_script_command, hyperv_configs, job_count, make_kernel_command,
    ninep_configs,
};
use super::path;
use super::path::join;
use super::plan;
use super::plan::{Action, ActionView, Actions, Command, CommandView, Plan, StepView};
use vstd::prelude::*;
use vstd::string::StringExecFns;

verus! {

/// What to install, and where.
#[derive(Debug)]
pub struct Params {
    /// Directory where shrinkwrap repo will be cloned (e.g. <out_dir>/shrinkwrap)
    pub shrinkwrap_dir: String,
    /// If true, run apt-get and pip installs (requires sudo).
    /// If false, only clones repo and writes instructions.
    pub do_installs: bool,
    /// If true, run `git pull --ff-only` if the repo already exists.
    pub update_repo: bool,
}

/// What to install, and where.
#[verifier::ext_equal]
pub struct ParamsView {
    pub shrinkwrap_dir: Seq<char>,
    pub do_installs: bool,
    pub update_repo: bool,
}

impl View for Params {
    type V = ParamsView;

    open spec fn view(&self) -> ParamsView {
        ParamsView {
            shrinkwrap_dir: self.shrinkwrap_dir@,
            do_installs: self.do_installs,
            update_repo: self.update_repo,
        }
    }
}

/// What is known of the host.
#[derive(Debug)]
pub struct Host {
    /// The name of the user, where the environment has one.
    pub user: Option<String>,
    /// How many jobs the host can run at once, where that is known.
    pub parallelism: Option<usize>,
}

impl Host {
    /// The name of the user.
    pub open spec fn user_name(&self) -> Seq<char> {
        match self.user {
            Some(user) => user@,
            None => "vscode"@,
        }
    }
}

/// Clone a repository, or update it where it exists already.
pub open spec fn clone_or_update(
    repo_url: Seq<char>,
    target_dir: Seq<char>,
    update_repo: bool,
    branch: Option<Seq<char>>,
) -> StepView {
    let clone = CommandView::program("git"@).arg("clone"@);
    let clone = match branch {
        Some(branch) => clone.arg("--branch"@).arg(branch),
        None => clone,
    };
    StepView {
        path: Some(target_dir),
        missing: seq![plan::run(clone.arg(repo_url).arg(target_dir))],
        present: if update_repo {
            Seq::empty().push(
                ActionView::ChangeDir(target_dir),
            ).push(
                plan::run(CommandView::program("git"@).arg("pull"@).arg("--ff-only"@)),
            )
        } else {
            Seq::empty()
        },
    }
}

/// clone or update a git repository
fn clone_or_update_repo(
    plan: &mut Plan,
    repo_url: &str,
    target_dir: &str,
    update_repo: bool,
    branch: Option<&str>,
)
    ensures
        final(plan)@ == old(plan)@.push(
            clone_or_update(
                repo_url@,
                target_dir@,
                update_repo,
                match branch {
                    Some(branch) => Some(branch@),
                    None => None,
                },
            ),
        ),
{
    let mut clone = Command::new("git").arg("clone");
    if let Some(b) = branch {
        clone = clone.arg("--branch").arg(b);
    }
    let mut missing = Actions::new();
    missing.run(clone.arg(repo_url).arg(target_dir));
    let mut present = Actions::new();
    if update_repo {
        present.change_dir(target_dir);
        present.run(Command::new("git").arg("pull").arg("--ff-only"));
    }
    plan.either(target_dir, missing, present);
}

/// A single argument like "--enable A --enable B ".
pub open spec fn enable_argument(configs: Seq<Seq<char>>) -> Seq<char>
    decreases configs.len(),
{
    if configs.len() == 0 {
        Seq::empty()
    } else {
        enable_argument(configs.drop_last()) + "--enable "@ + configs.last() + " "@
    }
}

/// Enables a group of kernel options.
pub open spec fn enable_configs(group: Seq<char>, configs: Seq<Seq<char>>) -> ActionView {
    plan::run_or(
        kernel::config_script().arg(enable_argument(configs)),
        "Failed to enable "@ + group + " kernel configs"@,
    )
}

fn enable_kernel_configs(actions: &mut Actions, group: &str, configs: &Vec<&'static str>)
    ensures
        final(actions)@ == old(actions)@.push(
            enable_configs(group@, kernel::str_views(configs@)),
        ),
{
    // Build a single argument string like: "--enable A --enable B ..."
    let ghost names = kernel::str_views(configs@);
    let mut args = String::new();
    let mut i: usize = 0;
    proof {
        assert(names.take(0) =~= Seq::empty());
    }
    while i < configs.len()
        invariant
            i <= configs@.len(),
            names == kernel::str_views(configs@),
            args@ == enable_argument(names.take(i as int)),
        decreases configs@.len() - i,
    {
        args.append("--enable ");
        args.append(configs[i]);
        args.append(" ");
        proof {
            assert(names.take(i + 1).drop_last() =~= names.take(i as int));
        }
        i = i + 1;
    }
    proof {
        assert(names.take(i as int) =~= names);
    }
    let context = String::from_str("Failed to enable ").concat(group).concat(" kernel configs");
    actions.run_with_context(config_script_command().arg(args.as_str()), context);
}

/// Build a Rust binary if it doesn't already exist
pub open spec fn build_binary(
    binary_path: Seq<char>,
    package: Seq<char>,
    option: Seq<char>,
    value: Seq<char>,
) -> StepView {
    StepView::if_missing(
        binary_path,
        seq![
            plan::run_or(
                CommandView::program("cargo"@).arg("build"@).arg("-p"@).arg(package).arg(
                    option,
                ).arg(value).env("RUSTC_BOOTSTRAP"@, "1"@).env_remove("ARCH"@).env_remove(
                    "CROSS_COMPILE"@,
                ),
                "Failed to build "@ + package,
            ),
        ],
    )
}

fn build_rust_binary(plan: &mut Plan, binary_path: &str, package: &str, option: &str, value: &str)
    ensures
        final(plan)@ == old(plan)@.push(
            build_binary(binary_path@, package@, option@, value@),
        ),
{
    let command = Command::new("cargo").arg("build").arg("-p").arg(package).arg(option).arg(
        value,
    ).env("RUSTC_BOOTSTRAP", "1").env_remove("ARCH").env_remove("CROSS_COMPILE");
    let mut actions = Actions::new();
    actions.run_with_context(command, String::from_str("Failed to build ").concat(package));
    plan.if_missing(binary_path, actions);
}

/// The system packages that are installed.
pub open spec fn with_packages(command: CommandView) -> CommandView {
    command.arg("build-essential"@).arg("flex"@).arg("bison"@).arg("libssl-dev"@).arg(
        "libelf-dev"@,
    ).arg("bc"@).arg("git"@).arg("netcat-openbsd"@).arg("python3"@).arg("python3-pip"@).arg(
        "python3-venv"@,
    ).arg("telnet"@).arg("docker.io"@).arg("unzip"@)
}

/// System deps (Ubuntu), and the docker group with the current user.
pub open spec fn with_system_deps(steps: Seq<StepView>, user: Seq<char>) -> Seq<StepView> {
    steps.push(
        StepView::always(
            Seq::empty().push(
                plan::run(CommandView::program("sudo"@).arg("apt-get"@).arg("update"@)),
            ).push(
                plan::run(
                    with_packages(
                        CommandView::program("sudo"@).arg("apt-get"@).arg("install"@).arg("-y"@),
                    ),
                ),
            ).push(
                ActionView::TryRun(
                    CommandView::program("sudo"@).arg("groupadd"@).arg("docker"@),
                ),
            ).push(
                plan::run(
                    CommandView::program("sudo"@).arg("usermod"@).arg("-aG"@).arg("docker"@).arg(
                        user,
                    ),
                ),
            ).push(
                ActionView::Tell(
                    "Docker group membership updated. You may need to log out and log back in for docker permissions to take effect."@,
                ),
            ).push(ActionView::Tell("Alternatively, run: newgrp docker"@)),
        ),
    )
}

fn push_system_deps(plan: &mut Plan, user: &str)
    ensures
        final(plan)@ == with_system_deps(old(plan)@, user@),
{
    let mut actions = Actions::new();
    actions.run(Command::new("sudo").arg("apt-get").arg("update"));
    let install = Command::new("sudo").arg("apt-get").arg("install").arg("-y");
    actions.run(
        install.arg("build-essential").arg("flex").arg("bison").arg("libssl-dev").arg(
            "libelf-dev",
        ).arg("bc").arg("git").arg("netcat-openbsd").arg("python3").arg("python3-pip").arg(
            "python3-venv",
        ).arg("telnet").arg("docker.io").arg("unzip"),
    );
    // Create docker group (ignore error if it already exists)
    actions.push(Action::TryRun(Command::new("sudo").arg("groupadd").arg("docker")));
    // Add user to docker group
    actions.run(Command::new("sudo").arg("usermod").arg("-aG").arg("docker").arg(user));
    actions.tell(
        String::from_str(
            "Docker group membership updated. You may need to log out and log back in for docker permissions to take effect.",
        ),
    );
    actions.tell(String::from_str("Alternatively, run: newgrp docker"));
    plan.always(actions);
}

/// The name of the toolchain's directory, and of its archive but for the
/// suffix.
pub open spec fn toolchain_name() -> Seq<char> {
    "arm-gnu-toolchain-14.3.rel1-x86_64-aarch64-none-elf"@
}

/// Download and extract ARM GNU toolchain for Host linux kernel compilation
pub open spec fn with_toolchain(steps: Seq<StepView>, toolchain_dir: Seq<char>) -> Seq<StepView> {
    let archive = path::joined(
        toolchain_dir,
        "arm-gnu-toolchain-14.3.rel1-x86_64-aarch64-none-elf.tar.xz"@,
    );
    steps.push(
        StepView::if_missing(
            archive,
            seq![
                plan::run(
                    CommandView::program("wget"@).arg("-O"@).arg(archive).arg(
                        "https://developer.arm.com/-/media/Files/downloads/gnu/14.3.rel1/binrel/arm-gnu-toolchain-14.3.rel1-x86_64-aarch64-none-elf.tar.xz"@,
                    ),
                ),
            ],
        ),
    ).push(
        StepView::if_missing(
            path::joined(toolchain_dir, toolchain_name()),
            Seq::empty().push(
                ActionView::ChangeDir(toolchain_dir),
            ).push(
                plan::run(CommandView::program("tar"@).arg("-xvf"@).arg(archive)),
            ),
        ),
    )
}

fn push_toolchain(plan: &mut Plan, toolchain_dir: &str)
    ensures
        final(plan)@ == with_toolchain(old(plan)@, toolchain_dir@),
{
    let archive = join(
        toolchain_dir,
        "arm-gnu-toolchain-14.3.rel1-x86_64-aarch64-none-elf.tar.xz",
    );
    let extracted = join(toolchain_dir, "arm-gnu-toolchain-14.3.rel1-x86_64-aarch64-none-elf");
    // Download toolchain if not present
    let mut download = Actions::new();
    download.run(
        Command::new("wget").arg("-O").arg(archive.as_str()).arg(
            "https://developer.arm.com/-/media/Files/downloads/gnu/14.3.rel1/binrel/arm-gnu-toolchain-14.3.rel1-x86_64-aarch64-none-elf.tar.xz",
        ),
    );
    plan.if_missing(archive.as_str(), download);
    // Extract toolchain if not already extracted
    let mut extract = Actions::new();
    extract.change_dir(toolchain_dir);
    extract.run(Command::new("tar").arg("-xvf").arg(archive.as_str()));
    plan.if_missing(extracted.as_str(), extract);
}

/// The prefix of the toolchain's programs.
pub open spec fn cross_compile_prefix(toolchain_dir: Seq<char>) -> Seq<char> {
    path::joined(
        path::joined(path::joined(toolchain_dir, toolchain_name()), "bin"@),
        "aarch64-none-elf-"@,
    )
}

fn cross_compile_path(toolchain_dir: &str) -> (prefix: String)
    ensures
        prefix@ == cross_compile_prefix(toolchain_dir@),
{
    let extracted = join(toolchain_dir, "arm-gnu-toolchain-14.3.rel1-x86_64-aarch64-none-elf");
    let bin = join(extracted.as_str(), "bin");
    join(bin.as_str(), "aarch64-none-elf-")
}

/// The image that building a kernel gives.
pub open spec fn kernel_image(kernel_dir: Seq<char>) -> Seq<char> {
    path::joined(
        path::joined(path::joined(path::joined(kernel_dir, "arch"@), "arm64"@), "boot"@),
        "Image"@,
    )
}

/// The image that building a kernel gives.
pub fn kernel_image_path(kernel_dir: &str) -> (image: String)
    ensures
        image@ == kernel_image(kernel_dir@),
{
    let arch = join(kernel_dir, "arch");
    let arm64 = join(arch.as_str(), "arm64");
    let boot = join(arm64.as_str(), "boot");
    join(boot.as_str(), "Image")
}

/// The kernel image, with its directories named at once.
pub proof fn lemma_kernel_image(kernel_dir: Seq<char>)
    ensures
        path::joined(kernel_dir, "arch/arm64/boot/Image"@) == kernel_image(
            kernel_dir,
        ),
{
    reveal_strlit("/");
    reveal_strlit("arch");
    reveal_strlit("arm64");
    reveal_strlit("boot");
    reveal_strlit("Image");
    reveal_strlit("arch/arm64/boot/Image");
    path::lemma_joined_four(kernel_dir, "arch"@, "arm64"@, "boot"@, "Image"@);
    assert("arch/arm64/boot/Image"@ =~= "arch"@ + "/"@ + "arm64"@ + "/"@ + "boot"@ + "/"@
        + "Image"@);
}

/// Clone the host kernel, and compile it with the toolchain where installation is
/// asked for.
pub open spec fn with_host_kernel(
    steps: Seq<StepView>,
    toolchain_dir: Seq<char>,
    update_repo: bool,
    do_installs: bool,
    jobs: Seq<char>,
) -> Seq<StepView> {
    let dir = path::joined(toolchain_dir, "OHCL-Linux-Kernel"@);
    let cross_compile = cross_compile_prefix(toolchain_dir);
    let image = kernel_image(dir);
    let cloned = steps.push(
        clone_or_update(
            "https://github.com/weiding-msft/OHCL-Linux-Kernel.git"@,
            dir,
            update_repo,
            Some("with-arm-rebased-planes"@),
        ),
    );
    let build = StepView::if_missing(
        image,
        Seq::empty().push(
            ActionView::ChangeDir(dir),
        ).push(
            plan::run_or(
                kernel::make_kernel(cross_compile, "defconfig"@),
                "Failed to run make defconfig"@,
            ),
        ).push(
            enable_configs("CCA"@, kernel::cca_config_names()),
        ).push(
            enable_configs("9P"@, kernel::ninep_config_names()),
        ).push(
            enable_configs("Hyper-V"@, kernel::hyperv_config_names()),
        ).push(
            plan::run_or(
                kernel::make_kernel(cross_compile, "olddefconfig"@),
                "Failed to run make olddefconfig"@,
            ),
        ).push(
            plan::run_or(
                kernel::make_kernel(cross_compile, "Image"@).arg("-j"@ + jobs),
                "Failed to build kernel Image"@,
            ),
        ).push(
            ActionView::Require {
                path: image,
                error: "Kernel compilation appeared to succeed but Image file was not created at "@
                    + image,
            },
        ),
    );
    if do_installs {
        cloned.push(build)
    } else {
        cloned
    }
}

fn push_host_kernel(
    plan: &mut Plan,
    toolchain_dir: &str,
    update_repo: bool,
    do_installs: bool,
    jobs: &str,
)
    ensures
        final(plan)@ == with_host_kernel(
            old(plan)@,
            toolchain_dir@,
            update_repo,
            do_installs,
            jobs@,
        ),
{
    let dir = join(toolchain_dir, "OHCL-Linux-Kernel");
    let cross_compile = cross_compile_path(toolchain_dir);
    let image = kernel_image_path(dir.as_str());
    clone_or_update_repo(
        plan,
        "https://github.com/weiding-msft/OHCL-Linux-Kernel.git",
        dir.as_str(),
        update_repo,
        Some("with-arm-rebased-planes"),
    );
    if !do_installs {
        return ;
    }
    let mut build = Actions::new();
    build.change_dir(dir.as_str());
    build.run_with_context(
        make_kernel_command(cross_compile.as_str(), "defconfig"),
        String::from_str("Failed to run make defconfig"),
    );
    // Enable required kernel configs in groups
    enable_kernel_configs(&mut build, "CCA", &cca_configs());
    enable_kernel_configs(&mut build, "9P", &ninep_configs());
    enable_kernel_configs(&mut build, "Hyper-V", &hyperv_configs());
    build.run_with_context(
        make_kernel_command(cross_compile.as_str(), "olddefconfig"),
        String::from_str("Failed to run make olddefconfig"),
    );
    let jobs_arg = String::from_str("-j").concat(jobs);
    build.run_with_context(
        make_kernel_command(cross_compile.as_str(), "Image").arg(jobs_arg.as_str()),
        String::from_str("Failed to build kernel Image"),
    );
    // Verify kernel Image was created
    let error = String::from_str(
        "Kernel compilation appeared to succeed but Image file was not created at ",
    ).concat(image.as_str());
    build.require(image.as_str(), error);
    plan.if_missing(image.as_str(), build);
}

/// The place of a binary of the TMK repository.
pub open spec fn tmk_binary(repo: Seq<char>, target: Seq<char>, name: Seq<char>) -> Seq<char> {
    path::joined(
        path::joined(path::joined(path::joined(repo, "target"@), target), "debug"@),
        name,
    )
}

fn tmk_binary_path(repo: &str, target: &str, name: &str) -> (r: String)
    ensures
        r@ == tmk_binary(repo@, target@, name@),
{
    let dir = join(repo, "target");
    let target_dir = join(dir.as_str(), target);
    let debug = join(target_dir.as_str(), "debug");
    join(debug.as_str(), name)
}

/// Clone OpenVMM TMK branch with plane0 support and build TMK components
pub open spec fn with_tmk(
    steps: Seq<StepView>,
    toolchain_dir: Seq<char>,
    update_repo: bool,
    do_installs: bool,
) -> Seq<StepView> {
    let dir = path::joined(toolchain_dir, "OpenVMM-TMK"@);
    let cloned = steps.push(
        clone_or_update(
            "https://github.com/Flgodd67/openvmm.git"@,
            dir,
            update_repo,
            Some("cca-enablement"@),
        ),
    );
    if do_installs {
        let rustup = CommandView::program("rustup"@).arg("target"@).arg("add"@);
        cloned.push(
            StepView::always(
                Seq::empty().push(
                    plan::run(rustup.arg("aarch64-unknown-linux-gnu"@)),
                ).push(
                    plan::run(rustup.arg("aarch64-unknown-none"@)),
                ).push(
                    ActionView::ChangeDir(dir),
                ),
            ),
        ).push(
            build_binary(
                tmk_binary(dir, "aarch64-minimal_rt-none"@, "simple_tmk"@),
                "simple_tmk"@,
                "--config"@,
                "openhcl/minimal_rt/aarch64-config.toml"@,
            ),
        ).push(
            build_binary(
                tmk_binary(dir, "aarch64-unknown-linux-gnu"@, "tmk_vmm"@),
                "tmk_vmm"@,
                "--target"@,
                "aarch64-unknown-linux-gnu"@,
            ),
        ).push(StepView::always(seq![ActionView::ChangeDir(toolchain_dir)]))
    } else {
        cloned.push(
            StepView::always(
                seq![
                    ActionView::Tell(
                        "Skipping TMK builds (do_installs=false). Run with --install-missing-deps to build."@,
                    ),
                ],
            ),
        )
    }
}

fn push_tmk(plan: &mut Plan, toolchain_dir: &str, update_repo: bool, do_installs: bool)
    ensures
        final(plan)@ == with_tmk(old(plan)@, toolchain_dir@, update_repo, do_installs),
{
    let dir = join(toolchain_dir, "OpenVMM-TMK");
    clone_or_update_repo(
        plan,
        "https://github.com/Flgodd67/openvmm.git",
        dir.as_str(),
        update_repo,
        Some("cca-enablement"),
    );
    // Install Rust targets and build TMK components if do_installs is true
    if do_installs {
        let mut targets = Actions::new();
        targets.run(
            Command::new("rustup").arg("target").arg("add").arg("aarch64-unknown-linux-gnu"),
        );
        targets.run(Command::new("rustup").arg("target").arg("add").arg("aarch64-unknown-none"));
        // Change to the TMK kernel directory (which should be the openvmm repo root)
        targets.change_dir(dir.as_str());
        plan.always(targets);
        let simple_tmk = tmk_binary_path(dir.as_str(), "aarch64-minimal_rt-none", "simple_tmk");
        build_rust_binary(
            plan,
            simple_tmk.as_str(),
            "simple_tmk",
            "--config",
            "openhcl/minimal_rt/aarch64-config.toml",
        );
        let tmk_vmm = tmk_binary_path(dir.as_str(), "aarch64-unknown-linux-gnu", "tmk_vmm");
        build_rust_binary(
            plan,
            tmk_vmm.as_str(),
            "tmk_vmm",
            "--target",
            "aarch64-unknown-linux-gnu",
        );
        // Return to parent directory
        let mut back = Actions::new();
        back.change_dir(toolchain_dir);
        plan.always(back);
    } else {
        let mut skip = Actions::new();
        skip.tell(
            String::from_str(
                "Skipping TMK builds (do_installs=false). Run with --install-missing-deps to build.",
            ),
        );
        plan.always(skip);
    }
}

/// Make a Python virtual environment, where there is none.
pub open spec fn make_venv(venv_dir: Seq<char>) -> CommandView {
    CommandView::program("python3"@).arg("-m"@).arg("venv"@).arg(venv_dir)
}

/// Install what Shrinkwrap needs with a Python installer.
pub open spec fn pip_installs(pip: Seq<char>) -> Seq<ActionView> {
    Seq::empty().push(
        plan::run(
            CommandView::program(pip).arg("install"@).arg("--upgrade"@).arg("pip"@),
        ),
    ).push(
        plan::run(
            CommandView::program(pip).arg("install"@).arg("pyyaml"@).arg("termcolor"@).arg(
                "tuxmake"@,
            ),
        ),
    )
}

/// Clone Shrinkwrap and its configuration, and make its virtual environment.
pub open spec fn with_shrinkwrap(
    steps: Seq<StepView>,
    shrinkwrap_dir: Seq<char>,
    toolchain_dir: Seq<char>,
    update_repo: bool,
    do_installs: bool,
) -> Seq<StepView> {
    let cca_config_dir = path::joined(toolchain_dir, "cca_config"@);
    let config_dir = path::joined(shrinkwrap_dir, "config"@);
    let planes = path::joined(cca_config_dir, "planes.yaml"@);
    let venv_dir = path::joined(shrinkwrap_dir, "venv"@);
    let bin_dir = path::joined(shrinkwrap_dir, "shrinkwrap"@);
    let cloned = steps.push(
        clone_or_update(
            "https://git.gitlab.arm.com/tooling/shrinkwrap.git"@,
            shrinkwrap_dir,
            update_repo,
            None,
        ),
    ).push(
        clone_or_update(
            "https://github.com/weiding-msft/cca_config"@,
            cca_config_dir,
            update_repo,
            None,
        ),
    ).push(StepView::always(seq![ActionView::CreateDirAll(config_dir)])).push(
        StepView {
            path: Some(planes),
            missing: seq![
                ActionView::Tell("planes.yaml not found in cca_config repo at "@ + planes),
            ],
            present: seq![
                ActionView::Copy {
                    from: planes,
                    to: path::joined(config_dir, "planes.yaml"@),
                    context: None,
                },
            ],
        },
    );
    let installed = if do_installs {
        cloned.push(StepView::if_missing(venv_dir, seq![plan::run(make_venv(venv_dir))])).push(
            StepView::always(pip_installs(path::joined(path::joined(venv_dir, "bin"@), "pip"@))),
        )
    } else {
        cloned
    };
    installed.push(
        StepView::always(
            seq![
                ActionView::Require {
                    path: bin_dir,
                    error: "expected shrinkwrap directory at "@ + bin_dir
                        + ", but it does not exist"@,
                },
            ],
        ),
    )
}

fn push_shrinkwrap(
    plan: &mut Plan,
    shrinkwrap_dir: &str,
    toolchain_dir: &str,
    update_repo: bool,
    do_installs: bool,
)
    ensures
        final(plan)@ == with_shrinkwrap(
            old(plan)@,
            shrinkwrap_dir@,
            toolchain_dir@,
            update_repo,
            do_installs,
        ),
{
    clone_or_update_repo(
        plan,
        "https://git.gitlab.arm.com/tooling/shrinkwrap.git",
        shrinkwrap_dir,
        update_repo,
        None,
    );
    let cca_config_dir = join(toolchain_dir, "cca_config");
    clone_or_update_repo(
        plan,
        "https://github.com/weiding-msft/cca_config",
        cca_config_dir.as_str(),
        update_repo,
        None,
    );
    // Copy planes.yaml to shrinkwrap config directory, cca-3world.yaml configuration does not bring
    // in the right versions of all the components, this builds a planes-enabled stack
    let planes = join(cca_config_dir.as_str(), "planes.yaml");
    let config_dir = join(shrinkwrap_dir, "config");
    let planes_dest = join(config_dir.as_str(), "planes.yaml");
    let mut dirs = Actions::new();
    dirs.create_dir_all(config_dir.as_str());
    plan.always(dirs);
    let mut warning = Actions::new();
    warning.tell(
        String::from_str("planes.yaml not found in cca_config repo at ").concat(planes.as_str()),
    );
    let mut copy = Actions::new();
    copy.copy(planes.as_str(), planes_dest.as_str());
    plan.either(planes.as_str(), warning, copy);
    let venv_dir = join(shrinkwrap_dir, "venv");
    if do_installs {
        let mut venv = Actions::new();
        venv.run(make_venv_command(venv_dir.as_str()));
        plan.if_missing(venv_dir.as_str(), venv);
        let venv_bin = join(venv_dir.as_str(), "bin");
        let pip = join(venv_bin.as_str(), "pip");
        let mut pips = Actions::new();
        push_pip_installs(&mut pips, pip.as_str());
        plan.always(pips);
    }
    // Validate shrinkwrap entrypoint exists
    let bin_dir = join(shrinkwrap_dir, "shrinkwrap");
    let error = String::from_str("expected shrinkwrap directory at ").concat(
        bin_dir.as_str(),
    ).concat(", but it does not exist");
    let mut check = Actions::new();
    check.require(bin_dir.as_str(), error);
    plan.always(check);
}

/// A line for the user about what lies at a path, where it is there.
pub open spec fn report(what: Seq<char>, path: Seq<char>) -> StepView {
    StepView::if_present(path, seq![ActionView::Tell(what + path)])
}

fn push_report(plan: &mut Plan, what: &str, path: &str)
    ensures
        final(plan)@ == old(plan)@.push(report(what@, path@)),
{
    let mut line = Actions::new();
    line.tell(String::from_str(what).concat(path));
    plan.if_present(path, line);
}

/// How to use what is there.
pub open spec fn usage(shrinkwrap_dir: Seq<char>, toolchain_dir: Seq<char>) -> Seq<ActionView> {
    let venv_dir = path::joined(shrinkwrap_dir, "venv"@);
    let bin_dir = path::joined(shrinkwrap_dir, "shrinkwrap"@);
    Seq::empty().push(ActionView::Tell(""@)).push(
        ActionView::Tell("To use shrinkwrap in your shell:"@),
    ).push(ActionView::Tell("  source "@ + venv_dir + "/bin/activate"@)).push(
        ActionView::Tell("  export PATH="@ + bin_dir + ":$PATH"@),
    ).push(ActionView::Tell(""@)).push(
        ActionView::Tell("For kernel compilation, set these environment variables:"@),
    ).push(ActionView::Tell("  export ARCH=arm64"@)).push(
        ActionView::Tell("  export CROSS_COMPILE="@ + cross_compile_prefix(toolchain_dir)),
    ).push(ActionView::Tell(""@)).push(
        ActionView::Tell(
            "For TMK builds, Rust targets are installed (aarch64-unknown-linux-gnu, aarch64-unknown-none)"@,
        ),
    ).push(
        ActionView::Tell("Or the pipeline will invoke it directly using the venv Python."@),
    )
}

fn tell_usage(shrinkwrap_dir: &str, toolchain_dir: &str) -> (lines: Actions)
    ensures
        lines@ == usage(shrinkwrap_dir@, toolchain_dir@),
{
    let venv_dir = join(shrinkwrap_dir, "venv");
    let bin_dir = join(shrinkwrap_dir, "shrinkwrap");
    let cross_compile = cross_compile_path(toolchain_dir);
    let mut lines = Actions::new();
    lines.tell(String::from_str(""));
    lines.tell(String::from_str("To use shrinkwrap in your shell:"));
    lines.tell(String::from_str("  source ").concat(venv_dir.as_str()).concat("/bin/activate"));
    lines.tell(String::from_str("  export PATH=").concat(bin_dir.as_str()).concat(":$PATH"));
    lines.tell(String::from_str(""));
    lines.tell(String::from_str("For kernel compilation, set these environment variables:"));
    lines.tell(String::from_str("  export ARCH=arm64"));
    lines.tell(String::from_str("  export CROSS_COMPILE=").concat(cross_compile.as_str()));
    lines.tell(String::from_str(""));
    lines.tell(
        String::from_str(
            "For TMK builds, Rust targets are installed (aarch64-unknown-linux-gnu, aarch64-unknown-none)",
        ),
    );
    lines.tell(
        String::from_str("Or the pipeline will invoke it directly using the venv Python."),
    );
    lines
}

/// What is there, and how to use it. The toolchain, the kernel image and the TMK
/// binaries are named where they are there.
pub open spec fn with_instructions(
    steps: Seq<StepView>,
    shrinkwrap_dir: Seq<char>,
    toolchain_dir: Seq<char>,
) -> Seq<StepView> {
    let kernel_dir = path::joined(toolchain_dir, "OHCL-Linux-Kernel"@);
    let tmk_dir = path::joined(toolchain_dir, "OpenVMM-TMK"@);
    steps.push(
        StepView::always(
            Seq::empty().push(ActionView::Tell("=== Setup Complete ==="@)).push(
                ActionView::Tell(""@),
            ).push(ActionView::Tell("Shrinkwrap repo ready at: "@ + shrinkwrap_dir)).push(
                ActionView::Tell(
                    "Virtual environment at: "@ + path::joined(shrinkwrap_dir, "venv"@),
                ),
            ),
        ),
    ).push(
        report("ARM GNU toolchain ready at: "@, path::joined(toolchain_dir, toolchain_name())),
    ).push(
        StepView::always(
            seq![ActionView::Tell("OHCL Linux Kernel ready at: "@ + kernel_dir)],
        ),
    ).push(report("Kernel Image at: "@, kernel_image(kernel_dir))).push(
        report(
            "simple_tmk binary at: "@,
            tmk_binary(tmk_dir, "aarch64-minimal_rt-none"@, "simple_tmk"@),
        ),
    ).push(
        report(
            "tmk_vmm binary at: "@,
            tmk_binary(tmk_dir, "aarch64-unknown-linux-gnu"@, "tmk_vmm"@),
        ),
    ).push(StepView::always(usage(shrinkwrap_dir, toolchain_dir)))
}

fn push_instructions(plan: &mut Plan, shrinkwrap_dir: &str, toolchain_dir: &str)
    ensures
        final(plan)@ == with_instructions(old(plan)@, shrinkwrap_dir@, toolchain_dir@),
{
    let venv_dir = join(shrinkwrap_dir, "venv");
    let mut done = Actions::new();
    done.tell(String::from_str("=== Setup Complete ==="));
    done.tell(String::from_str(""));
    done.tell(String::from_str("Shrinkwrap repo ready at: ").concat(shrinkwrap_dir));
    done.tell(String::from_str("Virtual environment at: ").concat(venv_dir.as_str()));
    plan.always(done);
    let extracted = join(toolchain_dir, "arm-gnu-toolchain-14.3.rel1-x86_64-aarch64-none-elf");
    push_report(plan, "ARM GNU toolchain ready at: ", extracted.as_str());
    let kernel_dir = join(toolchain_dir, "OHCL-Linux-Kernel");
    let mut kernel_line = Actions::new();
    kernel_line.tell(String::from_str("OHCL Linux Kernel ready at: ").concat(kernel_dir.as_str()));
    plan.always(kernel_line);
    let image = kernel_image_path(kernel_dir.as_str());
    push_report(plan, "Kernel Image at: ", image.as_str());
    // Check if TMK binaries exist and report their status
    let tmk_dir = join(toolchain_dir, "OpenVMM-TMK");
    let simple_tmk = tmk_binary_path(tmk_dir.as_str(), "aarch64-minimal_rt-none", "simple_tmk");
    push_report(plan, "simple_tmk binary at: ", simple_tmk.as_str());
    let tmk_vmm = tmk_binary_path(tmk_dir.as_str(), "aarch64-unknown-linux-gnu", "tmk_vmm");
    push_report(plan, "tmk_vmm binary at: ", tmk_vmm.as_str());
    plan.always(tell_usage(shrinkwrap_dir, toolchain_dir));
}

pub fn make_venv_command(venv_dir: &str) -> (command: Command)
    ensures
        command@ == make_venv(venv_dir@),
{
    Command::new("python3").arg("-m").arg("venv").arg(venv_dir)
}

pub fn push_pip_installs(actions: &mut Actions, pip: &str)
    ensures
        final(actions)@ == old(actions)@ + pip_installs(pip@),
{
    let ghost before = actions@;
    actions.run(Command::new(pip).arg("install").arg("--upgrade").arg("pip"));
    actions.run(
        Command::new(pip).arg("install").arg("pyyaml").arg("termcolor").arg("tuxmake"),
    );
    proof {
        assert(actions@ =~= before + pip_installs(pip@));
    }
}

/// What installing Shrinkwrap takes, given the directory above it.
pub open spec fn install_steps(
    shrinkwrap_dir: Seq<char>,
    do_installs: bool,
    update_repo: bool,
    user: Seq<char>,
    jobs: Seq<char>,
    parent: Option<Seq<char>>,
) -> Seq<StepView> {
    let start = match parent {
        Some(parent) => seq![StepView::always(seq![ActionView::CreateDirAll(parent)])],
        None => Seq::empty(),
    };
    let deps = if do_installs {
        with_system_deps(start, user)
    } else {
        start
    };
    match parent {
        None => deps.push(
            StepView::always(seq![ActionView::Fail("shrinkwrap_dir has no parent"@)]),
        ),
        Some(toolchain_dir) => with_instructions(
            with_shrinkwrap(
                with_tmk(
                    with_host_kernel(
                        if do_installs {
                            with_toolchain(deps, toolchain_dir)
                        } else {
                            deps
                        },
                        toolchain_dir,
                        update_repo,
                        do_installs,
                        jobs,
                    ),
                    toolchain_dir,
                    update_repo,
                    do_installs,
                ),
                shrinkwrap_dir,
                toolchain_dir,
                update_repo,
                do_installs,
            ),
            shrinkwrap_dir,
            toolchain_dir,
        ),
    }
}

/// What installing Shrinkwrap takes, given the directory above it.
pub fn plan_install(params: &Params, host: &Host, parent: Option<String>) -> (plan: Plan)
    ensures
        plan@ == install_steps(
            params.shrinkwrap_dir@,
            params.do_installs,
            params.update_repo,
            host.user_name(),
            kernel::job_count_text(host.parallelism),
            match parent {
                Some(parent) => Some(parent@),
                None => None,
            },
        ),
{
    let mut plan = Plan::new();
    // Create parent dir
    if let Some(parent) = &parent {
        let mut dirs = Actions::new();
        dirs.create_dir_all(parent.as_str());
        plan.always(dirs);
    }
    if params.do_installs {
        match &host.user {
            Some(user) => push_system_deps(&mut plan, user.as_str()),
            None => push_system_deps(&mut plan, "vscode"),
        }
    }
    match &parent {
        None => {
            let mut fail = Actions::new();
            fail.push(Action::Fail(String::from_str("shrinkwrap_dir has no parent")));
            plan.always(fail);
        },
        Some(toolchain_dir) => {
            let toolchain_dir = toolchain_dir.as_str();
            let shrinkwrap_dir = params.shrinkwrap_dir.as_str();
            let jobs = job_count(host.parallelism);
            if params.do_installs {
                push_toolchain(&mut plan, toolchain_dir);
            }
            push_host_kernel(
                &mut plan,
                toolchain_dir,
                params.update_repo,
                params.do_installs,
                jobs.as_str(),
            );
            push_tmk(&mut plan, toolchain_dir, params.update_repo, params.do_installs);
            push_shrinkwrap(
                &mut plan,
                shrinkwrap_dir,
                toolchain_dir,
                params.update_repo,
                params.do_installs,
            );
            push_instructions(&mut plan, shrinkwrap_dir, toolchain_dir);
        },
    }
    plan
}

/// What installing Shrinkwrap takes.
pub fn process_request(params: &Params, host: &Host) -> (plan: Plan)
    ensures
        plan@ == install_steps(
            params.shrinkwrap_dir@,
            params.do_installs,
            params.update_repo,
            host.user_name(),
            kernel::job_count_text(host.parallelism),
            path::path_parent(params.shrinkwrap_dir@),
        ),
{
    plan_install(params, host, path::parent(params.shrinkwrap_dir.as_str()))
}

/// Where everything is in place already, and nothing is to be installed or
/// updated, no program runs.
pub proof fn nothing_runs_when_all_is_there(
    shrinkwrap_dir: Seq<char>,
    user: Seq<char>,
    jobs: Seq<char>,
    parent: Seq<char>,
    step: int,
    action: int,
)
    requires
        ({
            let steps = install_steps(shrinkwrap_dir, false, false, user, jobs, Some(parent));
            &&& 0 <= step < steps.len()
            &&& 0 <= action < steps[step].actions(|path: Seq<char>| true).len()
        }),
    ensures
        !install_steps(shrinkwrap_dir, false, false, user, jobs, Some(parent))[step].actions(
            |path: Seq<char>| true,
        )[action].is_effort(),
{
}

/// Unless installation is asked for, no program but `git` runs, whatever exists:
/// repositories are cloned and updated, and nothing is downloaded, built or
/// installed.
pub proof fn nothing_is_installed_unless_asked(
    shrinkwrap_dir: Seq<char>,
    update_repo: bool,
    user: Seq<char>,
    jobs: Seq<char>,
    parent: Seq<char>,
    is_there: spec_fn(Seq<char>) -> bool,
    step: int,
    action: int,
)
    requires
        ({
            let steps = install_steps(
                shrinkwrap_dir,
                false,
                update_repo,
                user,
                jobs,
                Some(parent),
            );
            &&& 0 <= step < steps.len()
            &&& 0 <= action < steps[step].actions(is_there).len()
            &&& steps[step].actions(is_there)[action].is_effort()
        }),
    ensures
        ({
            let steps = install_steps(
                shrinkwrap_dir,
                false,
                update_repo,
                user,
                jobs,
                Some(parent),
            );
            &&& steps[step].actions(is_there)[action] matches ActionView::Run { command, .. }
            &&& command.argv[0] == "git"@
        }),
{
}

} // verus!
