//! Modify rootfs.ext2, and run shrinkwrap with it.

use super::install_shrinkwrap;
use super::path;
use super::path::{is_absolute, join};
use super::plan::{Action, ActionView, Actions, Command, CommandView, Plan, StepView};
use super::rootfs;
use super::rootfs::{copy_if_there_line_text, copy_or_warn_line_text, mount_script_text};
use super::venv;
use super::venv::{run_in_venv, shrinkwrap_exe_path};
use crate::text;
use vstd::prelude::*;
use vstd::string::StringExecFns;

verus! {

/// Parameters for modifying rootfs.ext2 and running shrinkwrap.
#[derive(Debug)]
pub struct Params {
    /// Output directory where shrinkwrap build artifacts are located
    pub out_dir: String,
    /// Directory where shrinkwrap repo is cloned
    pub shrinkwrap_dir: String,
    /// Platform YAML file for shrinkwrap run
    pub platform_yaml: String,
    /// Path to rootfs.ext2 file
    pub rootfs_path: String,
    /// Runtime variables for shrinkwrap run (e.g., "FOO=bar"), besides ROOTFS
    pub rtvars: Vec<String>,
    /// Extra args appended to `shrinkwrap run`
    pub extra_args: Vec<String>,
    /// Timeout in seconds for `shrinkwrap run`
    pub timeout_sec: u64,
}

/// Parameters for modifying rootfs.ext2 and running shrinkwrap.
#[verifier::ext_equal]
pub struct ParamsView {
    pub out_dir: Seq<char>,
    pub shrinkwrap_dir: Seq<char>,
    pub platform_yaml: Seq<char>,
    pub rootfs_path: Seq<char>,
    pub rtvars: Seq<Seq<char>>,
    pub extra_args: Seq<Seq<char>>,
    pub timeout_sec: u64,
}

impl View for Params {
    type V = ParamsView;

    open spec fn view(&self) -> ParamsView {
        ParamsView {
            out_dir: self.out_dir@,
            shrinkwrap_dir: self.shrinkwrap_dir@,
            platform_yaml: self.platform_yaml@,
            rootfs_path: self.rootfs_path@,
            rtvars: text::views(self.rtvars@),
            extra_args: text::views(self.extra_args@),
            timeout_sec: self.timeout_sec,
        }
    }
}

/// The files that have to do with the root file system.
#[derive(Debug)]
pub struct RootfsFiles {
    /// The directory of rootfs.ext2.
    pub rootfs_dir: String,
    /// The name of rootfs.ext2.
    pub rootfs_filename: String,
    pub simple_tmk: String,
    pub tmk_vmm: String,
    pub kernel_image: String,
    pub guest_disk: String,
    pub kvmtool_efi: String,
    /// The copy of the kernel image beside rootfs.ext2.
    pub image_ohcl: String,
    pub lkvm: String,
}

/// The files that have to do with the root file system.
#[verifier::ext_equal]
pub struct RootfsFilesView {
    pub rootfs_dir: Seq<char>,
    pub rootfs_filename: Seq<char>,
    pub simple_tmk: Seq<char>,
    pub tmk_vmm: Seq<char>,
    pub kernel_image: Seq<char>,
    pub guest_disk: Seq<char>,
    pub kvmtool_efi: Seq<char>,
    pub image_ohcl: Seq<char>,
    pub lkvm: Seq<char>,
}

impl View for RootfsFiles {
    type V = RootfsFilesView;

    open spec fn view(&self) -> RootfsFilesView {
        RootfsFilesView {
            rootfs_dir: self.rootfs_dir@,
            rootfs_filename: self.rootfs_filename@,
            simple_tmk: self.simple_tmk@,
            tmk_vmm: self.tmk_vmm@,
            kernel_image: self.kernel_image@,
            guest_disk: self.guest_disk@,
            kvmtool_efi: self.kvmtool_efi@,
            image_ohcl: self.image_ohcl@,
            lkvm: self.lkvm@,
        }
    }
}

/// The files, given the directory above Shrinkwrap's and the place of
/// rootfs.ext2.
pub open spec fn rootfs_files(
    toolchain_dir: Seq<char>,
    rootfs_dir: Seq<char>,
    rootfs_filename: Seq<char>,
) -> RootfsFilesView {
    let tmk_kernel_dir = path::joined(toolchain_dir, "OpenVMM-TMK"@);
    RootfsFilesView {
        rootfs_dir,
        rootfs_filename,
        simple_tmk: path::joined(
            tmk_kernel_dir,
            "target/aarch64-minimal_rt-none/debug/simple_tmk"@,
        ),
        tmk_vmm: path::joined(tmk_kernel_dir, "target/aarch64-unknown-linux-gnu/debug/tmk_vmm"@),
        kernel_image: path::joined(
            path::joined(toolchain_dir, "OHCL-Linux-Kernel"@),
            "arch/arm64/boot/Image"@,
        ),
        guest_disk: path::joined(rootfs_dir, "guest-disk.img"@),
        kvmtool_efi: path::joined(rootfs_dir, "KVMTOOL_EFI.fd"@),
        image_ohcl: path::joined(rootfs_dir, "Image_ohcl"@),
        lkvm: path::joined(rootfs_dir, "lkvm"@),
    }
}

fn find_rootfs_files(toolchain_dir: &str, rootfs_dir: &str, rootfs_filename: &str) -> (r:
    RootfsFiles)
    ensures
        r@ == rootfs_files(toolchain_dir@, rootfs_dir@, rootfs_filename@),
{
    let tmk_kernel_dir = join(toolchain_dir, "OpenVMM-TMK");
    let host_kernel_dir = join(toolchain_dir, "OHCL-Linux-Kernel");
    RootfsFiles {
        rootfs_dir: String::from_str(rootfs_dir),
        rootfs_filename: String::from_str(rootfs_filename),
        simple_tmk: join(
            tmk_kernel_dir.as_str(),
            "target/aarch64-minimal_rt-none/debug/simple_tmk",
        ),
        tmk_vmm: join(
            tmk_kernel_dir.as_str(),
            "target/aarch64-unknown-linux-gnu/debug/tmk_vmm",
        ),
        kernel_image: join(host_kernel_dir.as_str(), "arch/arm64/boot/Image"),
        // Same directory as rootfs.ext2
        guest_disk: join(rootfs_dir, "guest-disk.img"),
        kvmtool_efi: join(rootfs_dir, "KVMTOOL_EFI.fd"),
        image_ohcl: join(rootfs_dir, "Image_ohcl"),
        lkvm: join(rootfs_dir, "lkvm"),
    }
}

/// A shell script, run in a container that sees the directory of rootfs.ext2.
pub open spec fn in_container(rootfs_dir: Seq<char>, script: Seq<char>) -> CommandView {
    CommandView::program("docker"@).arg("run"@).arg("--rm"@).arg("-v"@).arg(
        rootfs_dir + ":"@ + rootfs_dir,
    ).arg("-w"@).arg(rootfs_dir).arg("ubuntu:24.04"@).arg("bash"@).arg("-lc"@).arg(script)
}

fn container_command(rootfs_dir: &str, script: &str) -> (command: Command)
    ensures
        command@ == in_container(rootfs_dir@, script@),
{
    let volume = String::from_str(rootfs_dir).concat(":").concat(rootfs_dir);
    Command::new("docker").arg("run").arg("--rm").arg("-v").arg(volume.as_str()).arg("-w").arg(
        rootfs_dir,
    ).arg("ubuntu:24.04").arg("bash").arg("-lc").arg(script)
}

/// The check of the file system, as a script.
pub open spec fn check_script(rootfs_filename: Seq<char>) -> Seq<char> {
    "apt-get update && apt-get install -y e2fsprogs && e2fsck -fp "@ + rootfs_filename
}

fn check_script_text(rootfs_filename: &str) -> (script: String)
    ensures
        script@ == check_script(rootfs_filename@),
{
    String::from_str("apt-get update && apt-get install -y e2fsprogs && e2fsck -fp ").concat(
        rootfs_filename,
    )
}

/// The check of the file system and the change of its size, as a script.
pub open spec fn resize_script(rootfs_filename: Seq<char>) -> Seq<char> {
    check_script(rootfs_filename) + " && resize2fs "@ + rootfs_filename + " 1024M"@
}

/// What happens before files are put into rootfs.ext2: it is checked and
/// resized, and the kernel image is copied beside it.
pub open spec fn preparation(files: RootfsFilesView) -> Seq<StepView> {
    Seq::empty().push(
        StepView::always(
            Seq::empty().push(
                ActionView::RunLeniently {
                    command: in_container(files.rootfs_dir, check_script(files.rootfs_filename)),
                    failure: "Failed to run e2fsck"@,
                },
            ).push(
                ActionView::RunLeniently {
                    command: in_container(files.rootfs_dir, resize_script(files.rootfs_filename)),
                    failure: "Failed to run resize2fs"@,
                },
            ),
        ),
    ).push(
        StepView::if_present(
            files.kernel_image,
            seq![
                ActionView::Copy {
                    from: files.kernel_image,
                    to: files.image_ohcl,
                    context: Some("Failed to copy kernel Image"@),
                },
            ],
        ),
    )
}

/// A step that gives up.
pub open spec fn giving_up(error: Seq<char>) -> StepView {
    StepView::always(seq![ActionView::Fail(error)])
}

/// What happens before files are put into rootfs.ext2, given the directory
/// above Shrinkwrap's, and the directory and the name of rootfs.ext2.
pub open spec fn prepare_steps(
    rootfs_path: Seq<char>,
    toolchain_dir: Option<Seq<char>>,
    rootfs_dir: Option<Seq<char>>,
    rootfs_filename: Option<Seq<char>>,
) -> Seq<StepView> {
    let found = StepView::always(
        seq![
            ActionView::Require {
                path: rootfs_path,
                error: "rootfs.ext2 not found at "@ + rootfs_path,
            },
        ],
    );
    match (toolchain_dir, rootfs_dir, rootfs_filename) {
        (None, _, _) => seq![giving_up("shrinkwrap_dir has no parent"@)],
        (_, None, _) => Seq::empty().push(found).push(
            giving_up("rootfs.ext2 has no parent directory"@),
        ),
        (_, _, None) => Seq::empty().push(found).push(giving_up("Invalid rootfs path"@)),
        (Some(toolchain_dir), Some(rootfs_dir), Some(rootfs_filename)) => seq![found]
            + preparation(rootfs_files(toolchain_dir, rootfs_dir, rootfs_filename)),
    }
}

/// The files, where everything about their places is known.
pub open spec fn prepared_files(
    toolchain_dir: Option<Seq<char>>,
    rootfs_dir: Option<Seq<char>>,
    rootfs_filename: Option<Seq<char>>,
) -> Option<RootfsFilesView> {
    match (toolchain_dir, rootfs_dir, rootfs_filename) {
        (Some(toolchain_dir), Some(rootfs_dir), Some(rootfs_filename)) => Some(
            rootfs_files(toolchain_dir, rootfs_dir, rootfs_filename),
        ),
        _ => None,
    }
}

/// The first part of the job: what to do, and the files that the second part
/// works on, which are missing if the plan gives up.
#[derive(Debug)]
pub struct Preparation {
    pub plan: Plan,
    pub files: Option<RootfsFiles>,
}

impl Preparation {
    pub open spec fn files_view(&self) -> Option<RootfsFilesView> {
        match self.files {
            Some(files) => Some(files@),
            None => None,
        }
    }
}

fn give_up(plan: &mut Plan, error: &str)
    ensures
        final(plan)@ == old(plan)@.push(giving_up(error@)),
{
    let mut actions = Actions::new();
    actions.push(Action::Fail(String::from_str(error)));
    plan.always(actions);
}

fn push_preparation(plan: &mut Plan, files: &RootfsFiles)
    ensures
        final(plan)@ == old(plan)@ + preparation(files@),
{
    let ghost before = plan@;
    let dir = files.rootfs_dir.as_str();
    let name = files.rootfs_filename.as_str();
    let check = check_script_text(name);
    let resize = check_script_text(name).concat(" && resize2fs ").concat(name).concat(" 1024M");
    let mut scripts = Actions::new();
    scripts.push(
        Action::RunLeniently {
            command: container_command(dir, check.as_str()),
            failure: String::from_str("Failed to run e2fsck"),
        },
    );
    scripts.push(
        Action::RunLeniently {
            command: container_command(dir, resize.as_str()),
            failure: String::from_str("Failed to run resize2fs"),
        },
    );
    plan.always(scripts);
    // Copy kernel to Image_ohcl
    let mut copy = Actions::new();
    copy.push(
        Action::Copy {
            from: files.kernel_image.clone(),
            to: files.image_ohcl.clone(),
            context: Some(String::from_str("Failed to copy kernel Image")),
        },
    );
    plan.if_present(files.kernel_image.as_str(), copy);
    proof {
        assert(plan@ =~= before + preparation(files@));
    }
}

/// The first part of the job, given the directory above Shrinkwrap's, and the
/// directory and the name of rootfs.ext2.
pub fn plan_preparation(
    params: &Params,
    toolchain_dir: Option<String>,
    rootfs_dir: Option<String>,
    rootfs_filename: Option<String>,
) -> (r: Preparation)
    ensures
        r.plan@ == prepare_steps(
            params.rootfs_path@,
            text::opt_view(toolchain_dir),
            text::opt_view(rootfs_dir),
            text::opt_view(rootfs_filename),
        ),
        r.files_view() == prepared_files(
            text::opt_view(toolchain_dir),
            text::opt_view(rootfs_dir),
            text::opt_view(rootfs_filename),
        ),
{
    let mut plan = Plan::new();
    let toolchain_dir = match toolchain_dir {
        Some(toolchain_dir) => toolchain_dir,
        None => {
            give_up(&mut plan, "shrinkwrap_dir has no parent");
            return Preparation { plan, files: None };
        },
    };
    let rootfs = params.rootfs_path.as_str();
    let mut found = Actions::new();
    found.require(rootfs, String::from_str("rootfs.ext2 not found at ").concat(rootfs));
    plan.always(found);
    // Get the directory containing rootfs.ext2 for docker mounting
    let rootfs_dir = match rootfs_dir {
        Some(rootfs_dir) => rootfs_dir,
        None => {
            give_up(&mut plan, "rootfs.ext2 has no parent directory");
            return Preparation { plan, files: None };
        },
    };
    let rootfs_filename = match rootfs_filename {
        Some(rootfs_filename) => rootfs_filename,
        None => {
            give_up(&mut plan, "Invalid rootfs path");
            return Preparation { plan, files: None };
        },
    };
    let files = find_rootfs_files(
        toolchain_dir.as_str(),
        rootfs_dir.as_str(),
        rootfs_filename.as_str(),
    );
    push_preparation(&mut plan, &files);
    Preparation { plan, files: Some(files) }
}

/// The first part of the job.
pub fn process_request(params: &Params) -> (r: Preparation)
    ensures
        r.plan@ == prepare_steps(
            params.rootfs_path@,
            path::path_parent(params.shrinkwrap_dir@),
            path::path_parent(params.rootfs_path@),
            path::path_file_name(params.rootfs_path@),
        ),
        r.files_view() == prepared_files(
            path::path_parent(params.shrinkwrap_dir@),
            path::path_parent(params.rootfs_path@),
            path::path_file_name(params.rootfs_path@),
        ),
{
    let rootfs = params.rootfs_path.as_str();
    plan_preparation(
        params,
        path::parent(params.shrinkwrap_dir.as_str()),
        path::parent(rootfs),
        path::file_name(rootfs),
    )
}

/// Which of the files exist.
#[derive(Clone, Copy, Debug, PartialEq, Eq, Structural)]
pub struct FilesThere {
    pub simple_tmk: bool,
    pub tmk_vmm: bool,
    pub guest_disk: bool,
    pub kvmtool_efi: bool,
    pub image_ohcl: bool,
    pub lkvm: bool,
}

/// The lines that copy the files.
pub open spec fn copy_lines(files: RootfsFilesView, there: FilesThere) -> Seq<char> {
    rootfs::copy_or_warn_line(files.simple_tmk, there.simple_tmk) + rootfs::copy_or_warn_line(
        files.tmk_vmm,
        there.tmk_vmm,
    ) + rootfs::copy_if_there_line(files.guest_disk, there.guest_disk) + rootfs::copy_if_there_line(
        files.kvmtool_efi,
        there.kvmtool_efi,
    ) + rootfs::copy_if_there_line(files.image_ohcl, there.image_ohcl) + rootfs::copy_if_there_line(
        files.lkvm,
        there.lkvm,
    )
}

/// Puts the files into rootfs.ext2.
pub open spec fn injection(files: RootfsFilesView, there: FilesThere) -> ActionView {
    ActionView::RunChecked {
        command: CommandView::program("sudo"@).arg("bash"@).arg("-c"@).arg(
            rootfs::mount_script(files.rootfs_filename, copy_lines(files, there)),
        ).current_dir(files.rootfs_dir),
        failed: "Failed to mount/inject files: exit status "@,
        not_started: "Failed to execute mount script: "@,
    }
}

/// The second part of the job, once the kernel image has been copied.
pub fn plan_injection(files: &RootfsFiles, there: FilesThere) -> (plan: Plan)
    ensures
        plan@ == seq![StepView::always(seq![injection(files@, there)])],
{
    let copies = copy_or_warn_line_text(files.simple_tmk.as_str(), there.simple_tmk).concat(
        copy_or_warn_line_text(files.tmk_vmm.as_str(), there.tmk_vmm).as_str(),
    ).concat(copy_if_there_line_text(files.guest_disk.as_str(), there.guest_disk).as_str()).concat(
        copy_if_there_line_text(files.kvmtool_efi.as_str(), there.kvmtool_efi).as_str(),
    ).concat(copy_if_there_line_text(files.image_ohcl.as_str(), there.image_ohcl).as_str()).concat(
        copy_if_there_line_text(files.lkvm.as_str(), there.lkvm).as_str(),
    );
    let script = mount_script_text(files.rootfs_filename.as_str(), copies.as_str());
    let command = Command::new("sudo").arg("bash").arg("-c").arg(script.as_str()).current_dir(
        files.rootfs_dir.as_str(),
    );
    let mut actions = Actions::new();
    actions.push(
        Action::RunChecked {
            command,
            failed: String::from_str("Failed to mount/inject files: exit status "),
            not_started: String::from_str("Failed to execute mount script: "),
        },
    );
    let mut plan = Plan::new();
    plan.always(actions);
    plan
}

/// The platform YAML as Shrinkwrap is told of it, given the name of the file:
/// of an absolute path just the name, where there is one.
pub open spec fn platform_yaml_argument(
    platform_yaml: Seq<char>,
    file_name: Option<Seq<char>>,
) -> Seq<char> {
    match file_name {
        Some(file_name) if path::is_absolute_path(platform_yaml) => file_name,
        _ => platform_yaml,
    }
}

impl ParamsView {
    /// The run, given the name of the platform YAML and the canonical path of
    /// rootfs.ext2.
    pub open spec fn command(
        self,
        platform_name: Option<Seq<char>>,
        rootfs_canonical: Seq<char>,
        search_path: Option<Seq<char>>,
    ) -> CommandView {
        venv::in_venv(
            CommandView::program(venv::shrinkwrap_exe(self.shrinkwrap_dir)).arg("run"@).arg(
                platform_yaml_argument(self.platform_yaml, platform_name),
            ).arg("--rtvar"@).arg("ROOTFS="@ + rootfs_canonical).options(
                "--rtvar"@,
                self.rtvars,
            ).args(self.extra_args),
            path::joined(self.shrinkwrap_dir, "venv"@),
            search_path,
        ).current_dir(self.out_dir).timeout(self.timeout_sec)
    }

    /// What the run takes.
    pub open spec fn run_steps(
        self,
        platform_name: Option<Seq<char>>,
        rootfs_canonical: Seq<char>,
        search_path: Option<Seq<char>>,
    ) -> Seq<StepView> {
        let exe = venv::shrinkwrap_exe(self.shrinkwrap_dir);
        seq![
            StepView::always(
                Seq::empty().push(
                    ActionView::Require {
                        path: exe,
                        error: "shrinkwrap executable not found at "@ + exe,
                    },
                ).push(
                    ActionView::RunChecked {
                        command: self.command(platform_name, rootfs_canonical, search_path),
                        failed: "Shrinkwrap run failed with exit status: "@,
                        not_started: "Failed to execute shrinkwrap run: "@,
                    },
                ),
            ),
        ]
    }
}

/// The third part of the job, given the name of the platform YAML and the
/// canonical path of rootfs.ext2.
pub fn plan_run_as(
    params: &Params,
    platform_name: Option<String>,
    rootfs_canonical: &str,
    search_path: &Option<String>,
) -> (plan: Plan)
    ensures
        plan@ == params@.run_steps(
            text::opt_view(platform_name),
            rootfs_canonical@,
            text::opt_view(*search_path),
        ),
{
    let exe = shrinkwrap_exe_path(params.shrinkwrap_dir.as_str());
    let venv_dir = join(params.shrinkwrap_dir.as_str(), "venv");
    // If platform_yaml is absolute, try to use just the filename
    let platform_yaml = match &platform_name {
        Some(name) if is_absolute(params.platform_yaml.as_str()) => name.as_str(),
        _ => params.platform_yaml.as_str(),
    };
    // Add the ROOTFS rtvar pointing to the modified rootfs.ext2
    let rootfs = String::from_str("ROOTFS=").concat(rootfs_canonical);
    let command = Command::new(exe.as_str()).arg("run").arg(platform_yaml).arg("--rtvar").arg(
        rootfs.as_str(),
    ).options("--rtvar", &params.rtvars).args(&params.extra_args);
    // Run from out_dir where build artifacts are
    let command = run_in_venv(command, venv_dir.as_str(), search_path).current_dir(
        params.out_dir.as_str(),
    ).timeout(params.timeout_sec);
    let mut actions = Actions::new();
    actions.require(
        exe.as_str(),
        String::from_str("shrinkwrap executable not found at ").concat(exe.as_str()),
    );
    actions.push(
        Action::RunChecked {
            command,
            failed: String::from_str("Shrinkwrap run failed with exit status: "),
            not_started: String::from_str("Failed to execute shrinkwrap run: "),
        },
    );
    let mut plan = Plan::new();
    plan.always(actions);
    plan
}

/// The third part of the job, given the canonical path of rootfs.ext2.
pub fn plan_run(params: &Params, rootfs_canonical: &str, search_path: &Option<String>) -> (plan:
    Plan)
    ensures
        plan@ == params@.run_steps(
            path::path_file_name(params.platform_yaml@),
            rootfs_canonical@,
            text::opt_view(*search_path),
        ),
{
    plan_run_as(
        params,
        path::file_name(params.platform_yaml.as_str()),
        rootfs_canonical,
        search_path,
    )
}

/// The simple TMK is looked for where the installation has built it.
proof fn lemma_simple_tmk(repo: Seq<char>)
    ensures
        path::joined(repo, "target/aarch64-minimal_rt-none/debug/simple_tmk"@)
            == install_shrinkwrap::tmk_binary(repo, "aarch64-minimal_rt-none"@, "simple_tmk"@),
{
    reveal_strlit("/");
    reveal_strlit("target");
    reveal_strlit("aarch64-minimal_rt-none");
    reveal_strlit("debug");
    reveal_strlit("simple_tmk");
    reveal_strlit("target/aarch64-minimal_rt-none/debug/simple_tmk");
    path::lemma_joined_four(repo, "target"@, "aarch64-minimal_rt-none"@, "debug"@, "simple_tmk"@);
    assert("target/aarch64-minimal_rt-none/debug/simple_tmk"@ =~= "target"@ + "/"@
        + "aarch64-minimal_rt-none"@ + "/"@ + "debug"@ + "/"@ + "simple_tmk"@);
}

/// The monitor is looked for where the installation has built it.
proof fn lemma_tmk_vmm(repo: Seq<char>)
    ensures
        path::joined(repo, "target/aarch64-unknown-linux-gnu/debug/tmk_vmm"@)
            == install_shrinkwrap::tmk_binary(repo, "aarch64-unknown-linux-gnu"@, "tmk_vmm"@),
{
    reveal_strlit("/");
    reveal_strlit("target");
    reveal_strlit("aarch64-unknown-linux-gnu");
    reveal_strlit("debug");
    reveal_strlit("tmk_vmm");
    reveal_strlit("target/aarch64-unknown-linux-gnu/debug/tmk_vmm");
    path::lemma_joined_four(repo, "target"@, "aarch64-unknown-linux-gnu"@, "debug"@, "tmk_vmm"@);
    assert("target/aarch64-unknown-linux-gnu/debug/tmk_vmm"@ =~= "target"@ + "/"@
        + "aarch64-unknown-linux-gnu"@ + "/"@ + "debug"@ + "/"@ + "tmk_vmm"@);
}

/// What runs in the guest is what the installation has built: the binaries and
/// the kernel image are looked for where it has put them.
pub proof fn run_takes_what_install_built(
    toolchain_dir: Seq<char>,
    rootfs_dir: Seq<char>,
    rootfs_filename: Seq<char>,
)
    ensures
        ({
            let files = rootfs_files(toolchain_dir, rootfs_dir, rootfs_filename);
            let repo = path::joined(toolchain_dir, "OpenVMM-TMK"@);
            &&& files.simple_tmk == install_shrinkwrap::tmk_binary(
                repo,
                "aarch64-minimal_rt-none"@,
                "simple_tmk"@,
            )
            &&& files.tmk_vmm == install_shrinkwrap::tmk_binary(
                repo,
                "aarch64-unknown-linux-gnu"@,
                "tmk_vmm"@,
            )
            &&& files.kernel_image == install_shrinkwrap::kernel_image(
                path::joined(toolchain_dir, "OHCL-Linux-Kernel"@),
            )
        }),
{
    let repo = path::joined(toolchain_dir, "OpenVMM-TMK"@);
    lemma_simple_tmk(repo);
    lemma_tmk_vmm(repo);
    install_shrinkwrap::lemma_kernel_image(path::joined(toolchain_dir, "OHCL-Linux-Kernel"@));
}

} // verus!
