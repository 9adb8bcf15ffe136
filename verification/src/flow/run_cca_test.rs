//! Run OpenVMM CCA tests. They run on the emulator.

use super::install_cca_emu;
use super::install_shrinkwrap;
use super::path;
use super::path::join;
use super::plan;
use super::plan::{Action, ActionView, Actions, Command, CommandView, Plan, StepView};
use super::rootfs;
use super::rootfs::{copy_line_text, mount_script_text};
use super::venv;
use super::venv::run_in_venv;
use crate::text;
use vstd::prelude::*;
use vstd::string::StringExecFns;

verus! {

/// Where the emulation environment is.
#[derive(Debug)]
pub struct Params {
    pub test_root: String,
}

/// What is known of the host.
#[derive(Debug)]
pub struct Host {
    /// The home directory of the user.
    pub home: String,
    /// The search path, where the environment has one.
    pub search_path: Option<String>,
}

/// What building the monitor gives.
#[derive(Debug)]
pub enum TmkVmmOutput {
    /// A program for Linux.
    LinuxBin { bin: String },
    /// A program for Windows.
    WindowsBin { exe: String },
}

/// The kernel of plane 0.
pub open spec fn plane0_linux_image(test_root: Seq<char>) -> Seq<char> {
    path::joined(test_root, "plane0-linux/arch/arm64/boot/Image"@)
}

/// The directory of the firmwares.
pub open spec fn firmware_dir(home: Seq<char>) -> Seq<char> {
    path::joined(home, ".shrinkwrap/package/cca-3world"@)
}

/// The root file system of the guest.
pub open spec fn rootfs_file(home: Seq<char>) -> Seq<char> {
    path::joined(firmware_dir(home), "rootfs.ext2"@)
}

/// The program that checks file systems.
pub open spec fn e2fsck_bin(home: Seq<char>) -> Seq<char> {
    path::joined(home, ".shrinkwrap/build/build/cca-3world/buildroot/host/sbin/e2fsck"@)
}

/// The program that resizes file systems.
pub open spec fn resize2fs_bin(home: Seq<char>) -> Seq<char> {
    path::joined(home, ".shrinkwrap/build/build/cca-3world/buildroot/host/sbin/resize2fs"@)
}

/// A path without which the tests cannot run.
pub open spec fn needs(path: Seq<char>, what: Seq<char>) -> ActionView {
    ActionView::Require {
        path,
        error: what + path + ", try --install-emu or --update-emu --rebuild"@,
    }
}

/// What has to be there before the tests are built.
pub open spec fn check_steps(test_root: Seq<char>, home: Seq<char>) -> Seq<StepView> {
    let shrinkwrap_dir = path::joined(test_root, "shrinkwrap"@);
    seq![
        StepView::always(
            Seq::empty().push(
                ActionView::Require {
                    path: path::joined(shrinkwrap_dir, "shrinkwrap/shrinkwrap"@),
                    error: "shrinkwrap installation is missing or broken, try --install-emu or --update-emu --rebuild"@,
                },
            ).push(
                ActionView::Require {
                    path: path::joined(shrinkwrap_dir, "venv"@),
                    error: "can't find shrinkwrap venv, try --install-emu or --update-emu --rebuild"@,
                },
            ).push(
                needs(plane0_linux_image(test_root), "can't find plane0 linux image at "@),
            ).push(needs(rootfs_file(home), "can't find cca emulation rootfs at "@)).push(
                needs(e2fsck_bin(home), "can't find host e2fsck binary at "@),
            ).push(needs(resize2fs_bin(home), "can't find host resize2fs binary at "@)),
        ),
    ]
}

fn push_need(actions: &mut Actions, path: &str, what: &str)
    ensures
        final(actions)@ == old(actions)@.push(needs(path@, what@)),
{
    let error = String::from_str(what).concat(path).concat(
        ", try --install-emu or --update-emu --rebuild",
    );
    actions.require(path, error);
}

/// What has to be there before the tests are built.
pub fn process_request(params: &Params, host: &Host) -> (plan: Plan)
    ensures
        plan@ == check_steps(params.test_root@, host.home@),
{
    let home = host.home.as_str();
    let shrinkwrap_dir = join(params.test_root.as_str(), "shrinkwrap");
    let exe = join(shrinkwrap_dir.as_str(), "shrinkwrap/shrinkwrap");
    let venv_dir = join(shrinkwrap_dir.as_str(), "venv");
    let image = join(params.test_root.as_str(), "plane0-linux/arch/arm64/boot/Image");
    let firmware = join(home, ".shrinkwrap/package/cca-3world");
    let rootfs = join(firmware.as_str(), "rootfs.ext2");
    let e2fsck = join(home, ".shrinkwrap/build/build/cca-3world/buildroot/host/sbin/e2fsck");
    let resize2fs = join(home, ".shrinkwrap/build/build/cca-3world/buildroot/host/sbin/resize2fs");
    let mut checks = Actions::new();
    checks.require(
        exe.as_str(),
        String::from_str(
            "shrinkwrap installation is missing or broken, try --install-emu or --update-emu --rebuild",
        ),
    );
    checks.require(
        venv_dir.as_str(),
        String::from_str(
            "can't find shrinkwrap venv, try --install-emu or --update-emu --rebuild",
        ),
    );
    push_need(&mut checks, image.as_str(), "can't find plane0 linux image at ");
    push_need(&mut checks, rootfs.as_str(), "can't find cca emulation rootfs at ");
    push_need(&mut checks, e2fsck.as_str(), "can't find host e2fsck binary at ");
    push_need(&mut checks, resize2fs.as_str(), "can't find host resize2fs binary at ");
    let mut plan = Plan::new();
    plan.always(checks);
    plan
}

/// The check of the root file system, as a script. That errors were found and
/// corrected is no failure: it is common where the emulator was stopped by
/// force.
pub open spec fn fsck_script(home: Seq<char>) -> Seq<char> {
    "\n                    "@ + e2fsck_bin(home) + " -fp "@ + rootfs_file(home)
        + " || rc=$?\n                    [ \"${rc:-0}\" -le 1 ] || exit \"$rc\"\n                    "@
}

/// The lines that copy the files of the tests.
pub open spec fn copy_lines(
    test_root: Seq<char>,
    home: Seq<char>,
    simple_tmk: Seq<char>,
    tmk_vmm: Seq<char>,
) -> Seq<char> {
    rootfs::copy_line(simple_tmk) + rootfs::copy_line(tmk_vmm) + rootfs::copy_line(
        path::joined(firmware_dir(home), "guest-disk.img"@),
    ) + rootfs::copy_line(plane0_linux_image(test_root)) + rootfs::copy_line(
        path::joined(firmware_dir(home), "KVMTOOL_EFI.fd"@),
    ) + rootfs::copy_line(path::joined(firmware_dir(home), "lkvm"@))
}

/// What running the tests takes, once they are built.
pub open spec fn run_steps(
    test_root: Seq<char>,
    home: Seq<char>,
    search_path: Option<Seq<char>>,
    simple_tmk: Seq<char>,
    tmk_vmm: Seq<char>,
) -> Seq<StepView> {
    let shrinkwrap_dir = path::joined(test_root, "shrinkwrap"@);
    seq![
        StepView::always(
            Seq::empty().push(
                plan::run(CommandView::program("bash"@).arg("-c"@).arg(fsck_script(home))),
            ).push(
                plan::run(
                    CommandView::program(resize2fs_bin(home)).arg(rootfs_file(home)).arg("1024M"@),
                ),
            ).push(
                ActionView::RunChecked {
                    command: CommandView::program("sudo"@).arg("bash"@).arg("-c"@).arg(
                        rootfs::mount_script(
                            rootfs_file(home),
                            copy_lines(test_root, home, simple_tmk, tmk_vmm),
                        ),
                    ),
                    failed: "failed to mount or inject files into guest rootfs: exit status "@,
                    not_started: "failed to execute mount script: "@,
                },
            ).push(
                plan::run_or(
                    venv::in_venv(
                        CommandView::program(
                            path::joined(shrinkwrap_dir, "shrinkwrap/shrinkwrap"@),
                        ).arg("run"@).arg("cca-3world.yaml"@).arg("--rtvar"@).arg(
                            "ROOTFS="@ + rootfs_file(home),
                        ),
                        path::joined(shrinkwrap_dir, "venv"@),
                        search_path,
                    ),
                    "failed to launch guest using shrinkwrap}"@,
                ),
            ),
        ),
    ]
}

/// What running the tests takes, once they are built.
pub fn plan_run(
    params: &Params,
    host: &Host,
    simple_tmk_bin: &str,
    tmk_vmm_output: &TmkVmmOutput,
) -> (plan: Plan)
    ensures
        plan@ == (match tmk_vmm_output {
            TmkVmmOutput::LinuxBin { bin } => run_steps(
                params.test_root@,
                host.home@,
                text::opt_view(host.search_path),
                simple_tmk_bin@,
                bin@,
            ),
            TmkVmmOutput::WindowsBin { .. } => seq![
                StepView::always(seq![ActionView::Fail("expect Linux tmk_vmm only"@)]),
            ],
        }),
{
    let mut plan = Plan::new();
    let mut actions = Actions::new();
    let tmk_vmm_bin = match tmk_vmm_output {
        TmkVmmOutput::LinuxBin { bin } => bin.as_str(),
        TmkVmmOutput::WindowsBin { .. } => {
            actions.push(Action::Fail(String::from_str("expect Linux tmk_vmm only")));
            plan.always(actions);
            return plan;
        },
    };
    let home = host.home.as_str();
    let firmware = join(home, ".shrinkwrap/package/cca-3world");
    let rootfs = join(firmware.as_str(), "rootfs.ext2");
    let e2fsck = join(home, ".shrinkwrap/build/build/cca-3world/buildroot/host/sbin/e2fsck");
    let resize2fs = join(home, ".shrinkwrap/build/build/cca-3world/buildroot/host/sbin/resize2fs");
    let fsck = String::from_str("\n                    ").concat(e2fsck.as_str()).concat(" -fp ").concat(rootfs.as_str()).concat(
        " || rc=$?\n                    [ \"${rc:-0}\" -le 1 ] || exit \"$rc\"\n                    ",
    );
    actions.run(Command::new("bash").arg("-c").arg(fsck.as_str()));
    actions.run(Command::new(resize2fs.as_str()).arg(rootfs.as_str()).arg("1024M"));
    let guest_disk = join(firmware.as_str(), "guest-disk.img");
    let kvmtool_efi = join(firmware.as_str(), "KVMTOOL_EFI.fd");
    let lkvm = join(firmware.as_str(), "lkvm");
    let image = join(params.test_root.as_str(), "plane0-linux/arch/arm64/boot/Image");
    // Build the mount/inject script
    let copies = copy_line_text(simple_tmk_bin).concat(
        copy_line_text(tmk_vmm_bin).as_str(),
    ).concat(copy_line_text(guest_disk.as_str()).as_str()).concat(
        copy_line_text(image.as_str()).as_str(),
    ).concat(copy_line_text(kvmtool_efi.as_str()).as_str()).concat(
        copy_line_text(lkvm.as_str()).as_str(),
    );
    let script = mount_script_text(rootfs.as_str(), copies.as_str());
    actions.push(
        Action::RunChecked {
            command: Command::new("sudo").arg("bash").arg("-c").arg(script.as_str()),
            failed: String::from_str(
                "failed to mount or inject files into guest rootfs: exit status ",
            ),
            not_started: String::from_str("failed to execute mount script: "),
        },
    );
    let shrinkwrap_dir = join(params.test_root.as_str(), "shrinkwrap");
    let exe = join(shrinkwrap_dir.as_str(), "shrinkwrap/shrinkwrap");
    let venv_dir = join(shrinkwrap_dir.as_str(), "venv");
    let rootfs_var = String::from_str("ROOTFS=").concat(rootfs.as_str());
    let command = Command::new(exe.as_str()).arg("run").arg("cca-3world.yaml").arg("--rtvar").arg(
        rootfs_var.as_str(),
    );
    actions.run_with_context(
        run_in_venv(command, venv_dir.as_str(), &host.search_path),
        String::from_str("failed to launch guest using shrinkwrap}"),
    );
    plan.always(actions);
    plan
}

/// The tests run on what the installation has made: the kernel and the root
/// file system that they need are where it has put them.
pub proof fn tests_take_what_install_made(test_root: Seq<char>, home: Seq<char>)
    ensures
        plane0_linux_image(test_root) == install_shrinkwrap::kernel_image(
            path::joined(test_root, "plane0-linux"@),
        ),
        rootfs_file(home) == install_cca_emu::rootfs_file(home),
{
    reveal_strlit("/");
    reveal_strlit("plane0-linux");
    reveal_strlit("arch/arm64/boot/Image");
    reveal_strlit("plane0-linux/arch/arm64/boot/Image");
    reveal_strlit(".shrinkwrap/package/cca-3world");
    reveal_strlit("rootfs.ext2");
    reveal_strlit(".shrinkwrap/package/cca-3world/rootfs.ext2");
    install_shrinkwrap::lemma_kernel_image(path::joined(test_root, "plane0-linux"@));
    path::joining_is_associative(test_root, "plane0-linux"@, "arch/arm64/boot/Image"@);
    assert("plane0-linux/arch/arm64/boot/Image"@ =~= "plane0-linux"@ + "/"@
        + "arch/arm64/boot/Image"@);
    path::joining_is_associative(home, ".shrinkwrap/package/cca-3world"@, "rootfs.ext2"@);
    assert(".shrinkwrap/package/cca-3world/rootfs.ext2"@ =~= ".shrinkwrap/package/cca-3world"@
        + "/"@ + "rootfs.ext2"@);
}

} // verus!
