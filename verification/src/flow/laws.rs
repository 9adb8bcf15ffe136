//! What the plans are for: what each of them is sure to do, whatever else it does.

use super::path;
use super::plan::{ActionView, CommandView};
use super::rootfs;
use super::run_cca_test;
use super::shrinkwrap_build;
use super::shrinkwrap_run;
use super::venv;
use vstd::prelude::*;

verus! {

/// Whether a script consists of some lines, one that mounts `rootfs` at `mnt`,
/// more lines, one that copies `file` to `mnt/cca/`, more lines, and one that
/// unmounts `mnt`, and the rest.
pub open spec fn is_copying_script(
    script: Seq<char>,
    rootfs: Seq<char>,
    file: Seq<char>,
    head: Seq<char>,
    before: Seq<char>,
    behind: Seq<char>,
    tail: Seq<char>,
) -> bool {
    script == head + "\n                    mount "@ + rootfs + " mnt\n"@ + before
        + "\n                    cp "@ + file + " mnt/cca/\n"@ + behind
        + "\n                    umount mnt "@ + tail
}

/// Whether a script copies a file to `mnt/cca/` while `rootfs` is mounted.
pub open spec fn copies_while_mounted(
    script: Seq<char>,
    rootfs: Seq<char>,
    file: Seq<char>,
) -> bool {
    exists|head: Seq<char>, before: Seq<char>, behind: Seq<char>, tail: Seq<char>|
        #[trigger] is_copying_script(script, rootfs, file, head, before, behind, tail)
}

/// A script that mounts, runs lines and unmounts copies a file that one of the
/// lines copies.
pub proof fn mounted_lines_copy(
    rootfs: Seq<char>,
    first: Seq<char>,
    file: Seq<char>,
    last: Seq<char>,
)
    requires
        first.len() > 0 ==> first.last() == '\n',
    ensures
        copies_while_mounted(
            rootfs::mount_script(rootfs, first + rootfs::copy_line(file) + last),
            rootfs,
            file,
        ),
{
    reveal_strlit("\n                    set -e\n                    mkdir -p mnt\n                    mount ");
    reveal_strlit("\n                    set -e\n                    mkdir -p mnt");
    reveal_strlit("\n                    mount ");
    reveal_strlit(" mnt\n                    mkdir -p mnt/cca\n");
    reveal_strlit(" mnt\n");
    reveal_strlit("                    mkdir -p mnt/cca\n");
    reveal_strlit("                    cp ");
    reveal_strlit("\n                    cp ");
    reveal_strlit(" mnt/cca/\n");
    reveal_strlit("\n                    umount mnt ");
    reveal_strlit("                    sync\n                    umount mnt || umount -l mnt || true\n                    sync\n                    sleep 1\n                    # Try multiple times to remove the directory\n                    for i in 1 2 3 4 5; do\n                        if [ -d mnt ]; then\n                            rmdir mnt 2>/dev/null && break || sleep 0.5\n                        else\n                            break\n                        fi\n                    done\n                    # If still exists, force remove\n                    [ -d mnt ] && rm -rf mnt || true\n                    ");
    let end = "                    sync\n                    umount mnt || umount -l mnt || true\n                    sync\n                    sleep 1\n                    # Try multiple times to remove the directory\n                    for i in 1 2 3 4 5; do\n                        if [ -d mnt ]; then\n                            rmdir mnt 2>/dev/null && break || sleep 0.5\n                        else\n                            break\n                        fi\n                    done\n                    # If still exists, force remove\n                    [ -d mnt ] && rm -rf mnt || true\n                    "@;
    let script = rootfs::mount_script(rootfs, first + rootfs::copy_line(file) + last);
    let head = "\n                    set -e\n                    mkdir -p mnt"@;
    let lines = "                    mkdir -p mnt/cca\n"@ + first;
    let before = lines.drop_last();
    let sync = end.take(24);
    let behind = last + sync;
    let unmount = "\n                    umount mnt "@;
    let tail = end.skip((24 + unmount.len()) as int);
    assert("\n                    set -e\n                    mkdir -p mnt\n                    mount "@
        =~= head + "\n                    mount "@);
    assert(" mnt\n                    mkdir -p mnt/cca\n"@ =~= " mnt\n"@
        + "                    mkdir -p mnt/cca\n"@);
    assert(lines.last() == '\n');
    assert(before + "\n                    cp "@ =~= lines + "                    cp "@);
    assert(end =~= sync + unmount + tail);
    let left = head + "\n                    mount "@ + rootfs + " mnt\n"@;
    assert(script =~= left + lines + "                    cp "@ + file + " mnt/cca/\n"@ + last + end);
    assert(script =~= left + (before + "\n                    cp "@) + file + " mnt/cca/\n"@ + last
        + (sync + unmount + tail));
    assert(script =~= left + before + "\n                    cp "@ + file + " mnt/cca/\n"@ + behind
        + unmount + tail);
    assert(is_copying_script(script, rootfs, file, head, before, behind, tail));
}

proof fn lemma_regrouped(a: Seq<char>, b: Seq<char>, c: Seq<char>)
    ensures
        a + b + c == a + (b + c),
{
    assert(a + b + c =~= a + (b + c));
}

/// Whether a text ends a line.
pub open spec fn ends_line(text: Seq<char>) -> bool {
    text.len() > 0 && text.last() == '\n'
}

/// Of six lines that run while the root file system is mounted, each that copies a
/// file does so.
pub proof fn mounted_lines_all_run(
    rootfs: Seq<char>,
    a: Seq<char>,
    b: Seq<char>,
    c: Seq<char>,
    d: Seq<char>,
    e: Seq<char>,
    f: Seq<char>,
    file: Seq<char>,
)
    requires
        ends_line(a) && ends_line(b) && ends_line(c) && ends_line(d) && ends_line(e),
        ({
            let line = rootfs::copy_line(file);
            a == line || b == line || c == line || d == line || e == line || f == line
        }),
    ensures
        copies_while_mounted(
            rootfs::mount_script(rootfs, a + b + c + d + e + f),
            rootfs,
            file,
        ),
{
    let line = rootfs::copy_line(file);
    let none = Seq::<char>::empty();
    let ab = a + b;
    let abc = ab + c;
    let abcd = abc + d;
    let abcde = abcd + e;
    assert(ends_line(ab) && ends_line(abc) && ends_line(abcd) && ends_line(abcde));
    if f == line {
        assert(abcde + f + none =~= abcde + f);
        mounted_lines_copy(rootfs, abcde, file, none);
    } else if e == line {
        mounted_lines_copy(rootfs, abcd, file, f);
    } else if d == line {
        lemma_regrouped(abcd, e, f);
        mounted_lines_copy(rootfs, abc, file, e + f);
    } else if c == line {
        lemma_regrouped(abc, d, e);
        lemma_regrouped(abc, d + e, f);
        mounted_lines_copy(rootfs, ab, file, d + e + f);
    } else if b == line {
        lemma_regrouped(ab, c, d);
        lemma_regrouped(ab, c + d, e);
        lemma_regrouped(ab, c + d + e, f);
        mounted_lines_copy(rootfs, a, file, c + d + e + f);
    } else {
        lemma_regrouped(a, b, c);
        lemma_regrouped(a, b + c, d);
        lemma_regrouped(a, b + c + d, e);
        lemma_regrouped(a, b + c + d + e, f);
        assert(none + a =~= a);
        mounted_lines_copy(rootfs, none, file, b + c + d + e + f);
    }
}

/// A line that copies a file ends a line.
proof fn lemma_copy_line(file: Seq<char>)
    ensures
        ends_line(rootfs::copy_line(file)),
{
    reveal_strlit(" mnt/cca/\n");
}

/// Whether an action runs a script as root, and the job fails where the script
/// does.
pub open spec fn runs_script_as_root(action: ActionView, script: Seq<char>) -> bool {
    &&& action matches ActionView::RunChecked { command, .. }
    &&& command.argv.len() == 4
    &&& command.argv[0] == "sudo"@
    &&& command.argv[1] == "bash"@
    &&& command.argv[2] == "-c"@
    &&& command.argv[3] == script
    &&& command.timeout_sec is None
}

/// Whether a file is one of those that the tests need in the guest: the test
/// microkernel, the monitor, the disk of the guest, the kernel of plane 0, the
/// firmware and the monitor of the realm.
pub open spec fn is_needed_in_guest(
    file: Seq<char>,
    test_root: Seq<char>,
    home: Seq<char>,
    simple_tmk: Seq<char>,
    tmk_vmm: Seq<char>,
) -> bool {
    let package = path::joined(home, ".shrinkwrap/package/cca-3world"@);
    ||| file == simple_tmk
    ||| file == tmk_vmm
    ||| file == path::joined(package, "guest-disk.img"@)
    ||| file == path::joined(test_root, "plane0-linux/arch/arm64/boot/Image"@)
    ||| file == path::joined(package, "KVMTOOL_EFI.fd"@)
    ||| file == path::joined(package, "lkvm"@)
}

/// Each file that the tests need is copied into the guest's root file system
/// while that is mounted, after the file system was checked and has grown, and
/// before the guest is started with it.
pub proof fn needed_files_are_copied_into_the_guest(
    test_root: Seq<char>,
    home: Seq<char>,
    search_path: Option<Seq<char>>,
    simple_tmk: Seq<char>,
    tmk_vmm: Seq<char>,
    file: Seq<char>,
)
    requires
        is_needed_in_guest(file, test_root, home, simple_tmk, tmk_vmm),
    ensures
        ({
            let steps = run_cca_test::run_steps(test_root, home, search_path, simple_tmk, tmk_vmm);
            let actions = steps[0].present;
            let rootfs = path::joined(
                path::joined(home, ".shrinkwrap/package/cca-3world"@),
                "rootfs.ext2"@,
            );
            let sbin = path::joined(
                home,
                ".shrinkwrap/build/build/cca-3world/buildroot/host/sbin/resize2fs"@,
            );
            &&& steps.len() == 1
            &&& steps[0].path is None
            &&& actions.len() == 4
            &&& actions[1] matches ActionView::Run { command, .. }
            &&& command.argv =~= seq![sbin, rootfs, "1024M"@]
            &&& actions[2] matches ActionView::RunChecked { command, .. }
            &&& runs_script_as_root(actions[2], command.argv[3])
            &&& copies_while_mounted(command.argv[3], rootfs, file)
            &&& actions[3] matches ActionView::Run { command, .. }
            &&& command.argv =~= seq![
                path::joined(path::joined(test_root, "shrinkwrap"@), "shrinkwrap/shrinkwrap"@),
                "run"@,
                "cca-3world.yaml"@,
                "--rtvar"@,
                "ROOTFS="@ + rootfs,
            ]
        }),
{
    let package = path::joined(home, ".shrinkwrap/package/cca-3world"@);
    let rootfs = path::joined(package, "rootfs.ext2"@);
    let all = run_cca_test::copy_lines(test_root, home, simple_tmk, tmk_vmm);
    let a = rootfs::copy_line(simple_tmk);
    let b = rootfs::copy_line(tmk_vmm);
    let c = rootfs::copy_line(path::joined(package, "guest-disk.img"@));
    let d = rootfs::copy_line(path::joined(test_root, "plane0-linux/arch/arm64/boot/Image"@));
    let e = rootfs::copy_line(path::joined(package, "KVMTOOL_EFI.fd"@));
    let f = rootfs::copy_line(path::joined(package, "lkvm"@));
    lemma_copy_line(simple_tmk);
    lemma_copy_line(tmk_vmm);
    lemma_copy_line(path::joined(package, "guest-disk.img"@));
    lemma_copy_line(path::joined(test_root, "plane0-linux/arch/arm64/boot/Image"@));
    lemma_copy_line(path::joined(package, "KVMTOOL_EFI.fd"@));
    assert(all == a + b + c + d + e + f);
    mounted_lines_all_run(rootfs, a, b, c, d, e, f, file);
}

/// Whether a text is some text, a part and the rest.
pub open spec fn is_split(text: Seq<char>, before: Seq<char>, part: Seq<char>, behind: Seq<char>) -> bool {
    text == before + part + behind
}

/// Whether a part occurs in a text.
pub open spec fn occurs(text: Seq<char>, part: Seq<char>) -> bool {
    exists|before: Seq<char>, behind: Seq<char>| #[trigger] is_split(text, before, part, behind)
}

/// Whether a text starts with a part.
pub open spec fn starts(text: Seq<char>, part: Seq<char>) -> bool {
    part.len() <= text.len() && text.take(part.len() as int) == part
}

/// Whether a text ends with a part.
pub open spec fn ends(text: Seq<char>, part: Seq<char>) -> bool {
    part.len() <= text.len() && text.skip(text.len() - part.len()) == part
}

/// What occurs in a part of a text occurs in the text.
pub proof fn lemma_occurs_inside(left: Seq<char>, middle: Seq<char>, right: Seq<char>, part: Seq<char>)
    requires
        occurs(middle, part),
    ensures
        occurs(left + middle + right, part),
{
    let (before, behind) = choose|before: Seq<char>, behind: Seq<char>|
        #[trigger] is_split(middle, before, part, behind);
    assert(left + middle + right =~= (left + before) + part + (behind + right));
    assert(is_split(left + middle + right, left + before, part, behind + right));
}

/// Whether a command is one that has to succeed, with these words.
pub open spec fn is_run_of(action: ActionView, argv: Seq<Seq<char>>) -> bool {
    &&& action matches ActionView::Run { command, .. }
    &&& command.argv =~= argv
}

/// The words of an option that stands before each of some values.
pub open spec fn repeated(option: Seq<char>, values: Seq<Seq<char>>) -> Seq<Seq<char>> {
    Seq::new(
        2 * values.len(),
        |k: int|
            if k % 2 == 0 {
                option
            } else {
                values[k / 2]
            },
    )
}

/// An option that is given for each of some values stands before each of them, in
/// their order.
pub proof fn options_stand_before_their_values(
    command: CommandView,
    option: Seq<char>,
    values: Seq<Seq<char>>,
)
    ensures
        command.options(option, values) == (CommandView {
            argv: command.argv + repeated(option, values),
            ..command
        }),
    decreases values.len(),
{
    if values.len() == 0 {
        assert(command.argv + repeated(option, values) =~= command.argv);
    } else {
        let rest = values.drop_last();
        options_stand_before_their_values(command, option, rest);
        let all = repeated(option, values);
        assert forall|k: int| 0 <= k < 2 * rest.len() implies all[k] == repeated(option, rest)[k] by {}
        assert(all =~= repeated(option, rest).push(option).push(values.last()));
        assert(command.argv + all =~= (command.argv + repeated(option, rest)).push(option).push(
            values.last(),
        ));
    }
}

/// What a command that runs in a virtual environment has in its own environment:
/// the directory, and a search path that starts with the programs there and goes
/// on with the one of the host.
pub open spec fn is_in_venv(
    command: CommandView,
    venv_dir: Seq<char>,
    search_path: Option<Seq<char>>,
) -> bool {
    let rest = match search_path {
        Some(search_path) => search_path,
        None => Seq::empty(),
    };
    command.env =~= seq![
        ("VIRTUAL_ENV"@, venv_dir),
        ("PATH"@, path::joined(venv_dir, "bin"@) + ":"@ + rest),
    ]
}

/// The build runs Shrinkwrap's program in the output directory and in its virtual
/// environment, with the platform, then each overlay behind `--overlay`, then each
/// variable behind `--btvar`, and then the extra arguments; and what it prints goes
/// to a log in the output directory.
pub proof fn build_passes_everything_on(
    params: shrinkwrap_build::ParamsView,
    search_path: Option<Seq<char>>,
)
    ensures
        ({
            let steps = params.steps(search_path);
            let actions = steps[0].present;
            let log_dir = path::joined(params.out_dir, "logs"@);
            &&& steps.len() == 1
            &&& steps[0].path is None
            &&& actions.len() == 3
            &&& actions[0] == ActionView::CreateDirAll(params.out_dir)
            &&& actions[1] == ActionView::CreateDirAll(log_dir)
            &&& actions[2] matches ActionView::RunLogged { command, log, .. }
            &&& log == path::joined(log_dir, "shrinkwrap-build.log"@)
            &&& command.argv =~= seq![
                path::joined(path::joined(params.shrinkwrap_dir, "shrinkwrap"@), "shrinkwrap"@),
                "build"@,
                params.platform_yaml,
            ] + repeated("--overlay"@, params.overlays) + repeated("--btvar"@, params.btvars)
                + params.extra_args
            &&& command.current_dir == Some(params.out_dir)
            &&& command.env_remove.len() == 0
            &&& command.timeout_sec is None
            &&& is_in_venv(command, path::joined(params.shrinkwrap_dir, "venv"@), search_path)
        }),
{
    reveal_strlit("");
    let start = venv::in_venv(
        CommandView::program(venv::shrinkwrap_exe(params.shrinkwrap_dir)).current_dir(
            params.out_dir,
        ),
        path::joined(params.shrinkwrap_dir, "venv"@),
        search_path,
    ).arg("build"@).arg(params.platform_yaml);
    options_stand_before_their_values(start, "--overlay"@, params.overlays);
    let overlaid = start.options("--overlay"@, params.overlays);
    options_stand_before_their_values(overlaid, "--btvar"@, params.btvars);
    assert(""@ =~= Seq::<char>::empty());
    assert(start.argv =~= seq![
        path::joined(path::joined(params.shrinkwrap_dir, "shrinkwrap"@), "shrinkwrap"@),
        "build"@,
        params.platform_yaml,
    ]);
}

/// The run starts Shrinkwrap's program, once that is there, in the output directory
/// and in its virtual environment, and stops it after the seconds that were asked
/// for. It is told the platform, of an absolute path by the name of the file; then
/// the root file system, then each variable behind `--rtvar`, and then the extra
/// arguments.
pub proof fn run_passes_everything_on(
    params: shrinkwrap_run::ParamsView,
    platform_name: Option<Seq<char>>,
    rootfs: Seq<char>,
    search_path: Option<Seq<char>>,
)
    ensures
        ({
            let steps = params.run_steps(platform_name, rootfs, search_path);
            let actions = steps[0].present;
            let exe = path::joined(
                path::joined(params.shrinkwrap_dir, "shrinkwrap"@),
                "shrinkwrap"@,
            );
            let absolute = params.platform_yaml.len() > 0 && params.platform_yaml[0] == '/';
            &&& steps.len() == 1
            &&& steps[0].path is None
            &&& actions.len() == 2
            &&& actions[0] matches ActionView::Require { path, .. }
            &&& path == exe
            &&& actions[1] matches ActionView::RunChecked { command, .. }
            &&& command.argv =~= seq![
                exe,
                "run"@,
                if absolute && platform_name is Some {
                    platform_name->0
                } else {
                    params.platform_yaml
                },
                "--rtvar"@,
                "ROOTFS="@ + rootfs,
            ] + repeated("--rtvar"@, params.rtvars) + params.extra_args
            &&& command.current_dir == Some(params.out_dir)
            &&& command.timeout_sec == Some(params.timeout_sec)
            &&& is_in_venv(command, path::joined(params.shrinkwrap_dir, "venv"@), search_path)
        }),
{
    reveal_strlit("");
    assert(""@ =~= Seq::<char>::empty());
    let start = CommandView::program(venv::shrinkwrap_exe(params.shrinkwrap_dir)).arg(
        "run"@,
    ).arg(shrinkwrap_run::platform_yaml_argument(params.platform_yaml, platform_name)).arg(
        "--rtvar"@,
    ).arg("ROOTFS="@ + rootfs);
    options_stand_before_their_values(start, "--rtvar"@, params.rtvars);
}

/// Each file that is there is copied into rootfs.ext2 while that is mounted, in the
/// directory of rootfs.ext2.
pub proof fn files_that_are_there_are_injected(
    files: shrinkwrap_run::RootfsFilesView,
    there: shrinkwrap_run::FilesThere,
    file: Seq<char>,
)
    requires
        ({
            ||| there.simple_tmk && file == files.simple_tmk
            ||| there.tmk_vmm && file == files.tmk_vmm
            ||| there.guest_disk && file == files.guest_disk
            ||| there.kvmtool_efi && file == files.kvmtool_efi
            ||| there.image_ohcl && file == files.image_ohcl
            ||| there.lkvm && file == files.lkvm
        }),
    ensures
        ({
            let action = shrinkwrap_run::injection(files, there);
            &&& action matches ActionView::RunChecked { command, .. }
            &&& runs_script_as_root(action, command.argv[3])
            &&& command.current_dir == Some(files.rootfs_dir)
            &&& copies_while_mounted(command.argv[3], files.rootfs_filename, file)
        }),
{
    let all = shrinkwrap_run::copy_lines(files, there);
    let a = rootfs::copy_or_warn_line(files.simple_tmk, there.simple_tmk);
    let b = rootfs::copy_or_warn_line(files.tmk_vmm, there.tmk_vmm);
    let c = rootfs::copy_if_there_line(files.guest_disk, there.guest_disk);
    let d = rootfs::copy_if_there_line(files.kvmtool_efi, there.kvmtool_efi);
    let e = rootfs::copy_if_there_line(files.image_ohcl, there.image_ohcl);
    let f = rootfs::copy_if_there_line(files.lkvm, there.lkvm);
    lemma_conditional_lines(files.simple_tmk, there.simple_tmk);
    lemma_conditional_lines(files.tmk_vmm, there.tmk_vmm);
    lemma_conditional_lines(files.guest_disk, there.guest_disk);
    lemma_conditional_lines(files.kvmtool_efi, there.kvmtool_efi);
    lemma_conditional_lines(files.image_ohcl, there.image_ohcl);
    assert(all == a + b + c + d + e + f);
    mounted_lines_all_run(files.rootfs_filename, a, b, c, d, e, f, file);
}

/// A line for a file ends a line, whether the file is there or not.
proof fn lemma_conditional_lines(file: Seq<char>, is_there: bool)
    ensures
        ends_line(rootfs::copy_or_warn_line(file, is_there)),
        ends_line(rootfs::copy_if_there_line(file, is_there)),
{
    lemma_copy_line(file);
    reveal_strlit(" not found'\n");
    reveal_strlit("                    \n");
}

} // verus!
