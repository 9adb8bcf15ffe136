//! Jobs and pipelines.

use cca_vmm::flow::cca_fvp::{resolve_config_path, CcaFvpCli};
use cca_vmm::flow::cca_tests::{CcaTestsCli, CcaTestsUpdateEmuSubCmds};
use cca_vmm::flow::install_cca_emu;
use cca_vmm::flow::install_shrinkwrap;
use cca_vmm::flow::path::{is_absolute, join};
use cca_vmm::flow::pipeline::{JobDep, Pipeline, Request};
use cca_vmm::flow::plan::{Action, Command, Plan};
use cca_vmm::flow::prereq::{
    check_docker_group, check_membership, check_packages, required_packages, PrereqError,
};
use cca_vmm::flow::repo::{get_openvmm_tmk_repo, Candidate, Surroundings};
use cca_vmm::flow::run_cca_test;
use cca_vmm::flow::run_cca_test::TmkVmmOutput;
use cca_vmm::flow::shrinkwrap_build;
use cca_vmm::flow::shrinkwrap_run;
use cca_vmm::flow::shrinkwrap_run::FilesThere;
use cca_vmm::flow::update_cca_emu;
use cca_vmm::flow::update_cca_emu::SubCmds;
use cca_vmm::text::{
    any_line_starts_with, contains_char, contains_word, decimal_text, starts_with,
    trim_end_matches, trim_start_matches,
};

/// What is done, given which paths exist, as lines.
fn lines(plan: &Plan, is_there: &dyn Fn(&str) -> bool) -> Vec<String> {
    let mut out = Vec::new();
    for step in &plan.steps {
        let actions = match &step.path {
            Some(path) if !is_there(path) => &step.missing,
            _ => &step.present,
        };
        for action in &actions.actions {
            out.push(match action {
                Action::Run { command, context } => match context {
                    Some(context) => format!("{} ({})", command.argv.join(" "), context),
                    None => command.argv.join(" "),
                },
                Action::RunUnlessExists { path, command } => {
                    format!("{} unless {}", command.argv.join(" "), path)
                }
                Action::TryRun(command) => format!("try {}", command.argv.join(" ")),
                Action::RunLeniently { command, failure } => {
                    format!("leniently {} ({})", command.argv.join(" "), failure)
                }
                Action::RunChecked { command, .. } => command.argv.join(" "),
                Action::RunLogged { command, log, .. } => {
                    format!("{} > {}", command.argv.join(" "), log)
                }
                Action::CreateDirAll(path) => format!("mkdir {}", path),
                Action::Copy { from, to, .. } => format!("cp {} {}", from, to),
                Action::ChangeDir(path) => format!("cd {}", path),
                Action::Require { path, error } => format!("require {} or {}", path, error),
                Action::Tell(line) => format!("tell {}", line),
                Action::Fail(error) => format!("fail {}", error),
            });
        }
    }
    out
}

fn text(s: &str) -> String {
    s.to_string()
}

#[test]
fn paths_are_joined() {
    assert_eq!(join("/a", "b/c"), "/a/b/c");
    assert_eq!(join("/a/", "b"), "/a/b");
    assert_eq!(join("", "b"), "b");
    assert_eq!(join("/a", "/b"), "/b");
    assert_eq!(join("/a", ""), "/a/");
    assert!(is_absolute("/a") && !is_absolute("a") && !is_absolute(""));
}

#[test]
fn texts_are_searched() {
    assert_eq!(decimal_text(0), "0");
    assert_eq!(decimal_text(1_203), "1203");
    assert_eq!(decimal_text(u64::MAX), "18446744073709551615");
    assert!(starts_with("abc", "ab") && !starts_with("abc", "bc"));
    assert!(contains_char("a/b", '/') && !contains_char("ab", '/'));
    assert_eq!(trim_start_matches("././a./", "./"), "a./");
    assert_eq!(trim_end_matches("/a//", '/'), "/a");
    assert_eq!(trim_end_matches("//", '/'), "");
    assert!(any_line_starts_with("root:x\ndocker:y\n", "docker:"));
    assert!(!any_line_starts_with("xdocker:y", "docker:"));
    assert!(contains_word("adm docker\n", "docker"));
    assert!(!contains_word("adm dockers", "docker"));
}

fn host() -> install_shrinkwrap::Host {
    install_shrinkwrap::Host {
        user: None,
        parallelism: Some(12),
    }
}

fn install_params(do_installs: bool, update_repo: bool) -> install_shrinkwrap::Params {
    install_shrinkwrap::Params {
        shrinkwrap_dir: text("/w/shrinkwrap"),
        do_installs,
        update_repo,
    }
}

#[test]
fn fresh_install_of_shrinkwrap() {
    let plan = install_shrinkwrap::process_request(&install_params(true, false), &host());
    let lines = lines(&plan, &|_| false);
    let toolchain = "/w/arm-gnu-toolchain-14.3.rel1-x86_64-aarch64-none-elf";
    let make = format!("make ARCH=arm64 CROSS_COMPILE={toolchain}/bin/aarch64-none-elf-");
    let image = "/w/OHCL-Linux-Kernel/arch/arm64/boot/Image";
    assert_eq!(
        lines,
        [
            text("mkdir /w"),
            text("sudo apt-get update"),
            text("sudo apt-get install -y build-essential flex bison libssl-dev libelf-dev bc git netcat-openbsd python3 python3-pip python3-venv telnet docker.io unzip"),
            text("try sudo groupadd docker"),
            text("sudo usermod -aG docker vscode"),
            text("tell Docker group membership updated. You may need to log out and log back in for docker permissions to take effect."),
            text("tell Alternatively, run: newgrp docker"),
            format!("wget -O {toolchain}.tar.xz https://developer.arm.com/-/media/Files/downloads/gnu/14.3.rel1/binrel/arm-gnu-toolchain-14.3.rel1-x86_64-aarch64-none-elf.tar.xz"),
            text("cd /w"),
            format!("tar -xvf {toolchain}.tar.xz"),
            text("git clone --branch with-arm-rebased-planes https://github.com/weiding-msft/OHCL-Linux-Kernel.git /w/OHCL-Linux-Kernel"),
            text("cd /w/OHCL-Linux-Kernel"),
            format!("{make} defconfig (Failed to run make defconfig)"),
            text("./scripts/config --file .config --enable CONFIG_VIRT_DRIVERS --enable CONFIG_ARM_CCA_GUEST  (Failed to enable CCA kernel configs)"),
            text("./scripts/config --file .config --enable CONFIG_NET_9P --enable CONFIG_NET_9P_FD --enable CONFIG_NET_9P_VIRTIO --enable CONFIG_NET_9P_FS  (Failed to enable 9P kernel configs)"),
            text("./scripts/config --file .config --enable CONFIG_HYPERV --enable CONFIG_HYPERV_MSHV --enable CONFIG_MSHV --enable CONFIG_MSHV_VTL --enable CONFIG_HYPERV_VTL_MODE  (Failed to enable Hyper-V kernel configs)"),
            format!("{make} olddefconfig (Failed to run make olddefconfig)"),
            format!("{make} Image -j12 (Failed to build kernel Image)"),
            format!("require {image} or Kernel compilation appeared to succeed but Image file was not created at {image}"),
            text("git clone --branch cca-enablement https://github.com/Flgodd67/openvmm.git /w/OpenVMM-TMK"),
            text("rustup target add aarch64-unknown-linux-gnu"),
            text("rustup target add aarch64-unknown-none"),
            text("cd /w/OpenVMM-TMK"),
            text("cargo build -p simple_tmk --config openhcl/minimal_rt/aarch64-config.toml (Failed to build simple_tmk)"),
            text("cargo build -p tmk_vmm --target aarch64-unknown-linux-gnu (Failed to build tmk_vmm)"),
            text("cd /w"),
            text("git clone https://git.gitlab.arm.com/tooling/shrinkwrap.git /w/shrinkwrap"),
            text("git clone https://github.com/weiding-msft/cca_config /w/cca_config"),
            text("mkdir /w/shrinkwrap/config"),
            text("tell planes.yaml not found in cca_config repo at /w/cca_config/planes.yaml"),
            text("python3 -m venv /w/shrinkwrap/venv"),
            text("/w/shrinkwrap/venv/bin/pip install --upgrade pip"),
            text("/w/shrinkwrap/venv/bin/pip install pyyaml termcolor tuxmake"),
            text("require /w/shrinkwrap/shrinkwrap or expected shrinkwrap directory at /w/shrinkwrap/shrinkwrap, but it does not exist"),
            text("tell === Setup Complete ==="),
            text("tell "),
            text("tell Shrinkwrap repo ready at: /w/shrinkwrap"),
            text("tell Virtual environment at: /w/shrinkwrap/venv"),
            text("tell OHCL Linux Kernel ready at: /w/OHCL-Linux-Kernel"),
            text("tell "),
            text("tell To use shrinkwrap in your shell:"),
            text("tell   source /w/shrinkwrap/venv/bin/activate"),
            text("tell   export PATH=/w/shrinkwrap/shrinkwrap:$PATH"),
            text("tell "),
            text("tell For kernel compilation, set these environment variables:"),
            text("tell   export ARCH=arm64"),
            format!("tell   export CROSS_COMPILE={toolchain}/bin/aarch64-none-elf-"),
            text("tell "),
            text("tell For TMK builds, Rust targets are installed (aarch64-unknown-linux-gnu, aarch64-unknown-none)"),
            text("tell Or the pipeline will invoke it directly using the venv Python."),
        ]
    );
}

#[test]
fn without_installs_repositories_are_cloned_and_nothing_else_runs() {
    let plan = install_shrinkwrap::process_request(&install_params(false, false), &host());
    let lines = lines(&plan, &|_| false);
    assert_eq!(
        lines[..10],
        [
            "mkdir /w",
            "git clone --branch with-arm-rebased-planes https://github.com/weiding-msft/OHCL-Linux-Kernel.git /w/OHCL-Linux-Kernel",
            "git clone --branch cca-enablement https://github.com/Flgodd67/openvmm.git /w/OpenVMM-TMK",
            "tell Skipping TMK builds (do_installs=false). Run with --install-missing-deps to build.",
            "git clone https://git.gitlab.arm.com/tooling/shrinkwrap.git /w/shrinkwrap",
            "git clone https://github.com/weiding-msft/cca_config /w/cca_config",
            "mkdir /w/shrinkwrap/config",
            "tell planes.yaml not found in cca_config repo at /w/cca_config/planes.yaml",
            "require /w/shrinkwrap/shrinkwrap or expected shrinkwrap directory at /w/shrinkwrap/shrinkwrap, but it does not exist",
            "tell === Setup Complete ===",
        ]
    );
    assert!(lines[10..].iter().all(|line| line.starts_with("tell ")));
}

#[test]
fn build_of_a_binary_has_a_clean_environment() {
    let plan = install_shrinkwrap::process_request(&install_params(true, false), &host());
    let command = plan
        .steps
        .iter()
        .flat_map(|step| &step.missing.actions)
        .find_map(|action| match action {
            Action::Run { command, .. } if command.argv[0] == "cargo" => Some(command),
            _ => None,
        })
        .unwrap();
    assert_eq!(command.env, [(text("RUSTC_BOOTSTRAP"), text("1"))]);
    assert_eq!(command.env_remove, ["ARCH", "CROSS_COMPILE"]);
}

#[test]
fn finished_install_runs_nothing() {
    let plan = install_shrinkwrap::process_request(&install_params(false, false), &host());
    let lines = lines(&plan, &|_| true);
    assert_eq!(
        lines[..5],
        [
            "mkdir /w",
            "tell Skipping TMK builds (do_installs=false). Run with --install-missing-deps to build.",
            "mkdir /w/shrinkwrap/config",
            "cp /w/cca_config/planes.yaml /w/shrinkwrap/config/planes.yaml",
            "require /w/shrinkwrap/shrinkwrap or expected shrinkwrap directory at /w/shrinkwrap/shrinkwrap, but it does not exist",
        ]
    );
    assert!(lines[5..].iter().all(|line| line.starts_with("tell ")));
    assert_eq!(
        lines[9..14],
        [
            "tell ARM GNU toolchain ready at: /w/arm-gnu-toolchain-14.3.rel1-x86_64-aarch64-none-elf",
            "tell OHCL Linux Kernel ready at: /w/OHCL-Linux-Kernel",
            "tell Kernel Image at: /w/OHCL-Linux-Kernel/arch/arm64/boot/Image",
            "tell simple_tmk binary at: /w/OpenVMM-TMK/target/aarch64-minimal_rt-none/debug/simple_tmk",
            "tell tmk_vmm binary at: /w/OpenVMM-TMK/target/aarch64-unknown-linux-gnu/debug/tmk_vmm",
        ]
    );
}

#[test]
fn existing_repositories_are_updated() {
    let plan = install_shrinkwrap::process_request(&install_params(false, true), &host());
    let pulls = lines(&plan, &|_| true)
        .into_iter()
        .filter(|line| line == "git pull --ff-only")
        .count();
    assert_eq!(pulls, 4);
}

#[test]
fn install_without_a_parent_gives_up() {
    let params = install_shrinkwrap::Params {
        shrinkwrap_dir: text("/"),
        do_installs: false,
        update_repo: false,
    };
    let plan = install_shrinkwrap::process_request(&params, &host());
    assert_eq!(
        lines(&plan, &|_| false),
        ["fail shrinkwrap_dir has no parent"]
    );
}

#[test]
fn shrinkwrap_build_command() {
    let params = shrinkwrap_build::Params {
        out_dir: text("/w"),
        shrinkwrap_dir: text("/w/shrinkwrap"),
        platform_yaml: text("p.yaml"),
        overlays: vec![text("a.yaml"), text("b.yaml")],
        btvars: vec![text("X=1")],
        extra_args: vec![text("--dry-run")],
    };
    let plan = shrinkwrap_build::process_request(&params, &Some(text("/bin")));
    assert_eq!(
        lines(&plan, &|_| true),
        [
            "mkdir /w",
            "mkdir /w/logs",
            "/w/shrinkwrap/shrinkwrap/shrinkwrap build p.yaml --overlay a.yaml --overlay b.yaml --btvar X=1 --dry-run > /w/logs/shrinkwrap-build.log",
        ]
    );
    let Action::RunLogged { command, failure, .. } = &plan.steps[0].present.actions[2] else {
        panic!("no build");
    };
    assert_eq!(
        command.env,
        [
            (text("VIRTUAL_ENV"), text("/w/shrinkwrap/venv")),
            (text("PATH"), text("/w/shrinkwrap/venv/bin:/bin")),
        ]
    );
    assert_eq!(command.current_dir, Some(text("/w")));
    assert_eq!(
        failure,
        "shrinkwrap build failed (see /w/logs/shrinkwrap-build.log)"
    );
}

fn run_params() -> shrinkwrap_run::Params {
    shrinkwrap_run::Params {
        out_dir: text("/w"),
        shrinkwrap_dir: text("/w/shrinkwrap"),
        platform_yaml: text("/w/shrinkwrap/config/p.yaml"),
        rootfs_path: text("/r/rootfs.ext2"),
        rtvars: vec![text("A=b")],
        extra_args: vec![text("--verbose")],
        timeout_sec: 600,
    }
}

#[test]
fn rootfs_is_checked_resized_and_filled() {
    let preparation = shrinkwrap_run::process_request(&run_params());
    let docker = "docker run --rm -v /r:/r -w /r ubuntu:24.04 bash -lc apt-get update && apt-get install -y e2fsprogs && e2fsck -fp rootfs.ext2";
    assert_eq!(
        lines(&preparation.plan, &|_| true),
        [
            text("require /r/rootfs.ext2 or rootfs.ext2 not found at /r/rootfs.ext2"),
            format!("leniently {docker} (Failed to run e2fsck)"),
            format!("leniently {docker} && resize2fs rootfs.ext2 1024M (Failed to run resize2fs)"),
            text("cp /w/OHCL-Linux-Kernel/arch/arm64/boot/Image /r/Image_ohcl"),
        ]
    );
    let files = preparation.files.unwrap();
    let there = FilesThere {
        simple_tmk: true,
        tmk_vmm: false,
        guest_disk: true,
        kvmtool_efi: false,
        image_ohcl: true,
        lkvm: false,
    };
    let plan = shrinkwrap_run::plan_injection(&files, there);
    let Action::RunChecked { command, failed, not_started } = &plan.steps[0].present.actions[0]
    else {
        panic!("no injection");
    };
    assert_eq!(command.current_dir, Some(text("/r")));
    assert_eq!(&command.argv[..3], ["sudo", "bash", "-c"]);
    let script = &command.argv[3];
    assert!(script.starts_with("\n                    set -e\n                    mkdir -p mnt\n                    mount rootfs.ext2 mnt\n                    mkdir -p mnt/cca\n                    cp /w/OpenVMM-TMK/target/aarch64-minimal_rt-none/debug/simple_tmk mnt/cca/\n"));
    let unindented: Vec<&str> = script.lines().map(|line| line.trim()).collect();
    assert_eq!(
        unindented[6..13],
        [
            "echo 'Warning: /w/OpenVMM-TMK/target/aarch64-unknown-linux-gnu/debug/tmk_vmm not found'",
            "cp /r/guest-disk.img mnt/cca/",
            "",
            "cp /r/Image_ohcl mnt/cca/",
            "",
            "sync",
            "umount mnt || umount -l mnt || true",
        ]
    );
    assert!(script.ends_with("|| true\n                    "));
    assert_eq!(failed, "Failed to mount/inject files: exit status ");
    assert_eq!(not_started, "Failed to execute mount script: ");
}

#[test]
fn shrinkwrap_run_command() {
    let plan = shrinkwrap_run::plan_run(&run_params(), "/real/rootfs.ext2", &None);
    assert_eq!(
        lines(&plan, &|_| true),
        [
            "require /w/shrinkwrap/shrinkwrap/shrinkwrap or shrinkwrap executable not found at /w/shrinkwrap/shrinkwrap/shrinkwrap",
            "/w/shrinkwrap/shrinkwrap/shrinkwrap run p.yaml --rtvar ROOTFS=/real/rootfs.ext2 --rtvar A=b --verbose",
        ]
    );
    let Action::RunChecked { command, .. } = &plan.steps[0].present.actions[1] else {
        panic!("no run");
    };
    assert_eq!(command.timeout_sec, Some(600));
    assert_eq!(command.env[1].1, "/w/shrinkwrap/venv/bin:");
}

#[test]
fn rootfs_without_a_place_gives_up() {
    let mut params = run_params();
    params.rootfs_path = text("/");
    let preparation = shrinkwrap_run::process_request(&params);
    assert!(preparation.files.is_none());
    assert_eq!(
        lines(&preparation.plan, &|_| true),
        [
            "require / or rootfs.ext2 not found at /",
            "fail rootfs.ext2 has no parent directory",
        ]
    );
    let mut params = run_params();
    params.rootfs_path = text("/r/..");
    let preparation = shrinkwrap_run::process_request(&params);
    assert_eq!(
        lines(&preparation.plan, &|_| true)[1],
        "fail Invalid rootfs path"
    );
    let mut params = run_params();
    params.shrinkwrap_dir = text("/");
    let preparation = shrinkwrap_run::process_request(&params);
    assert_eq!(
        lines(&preparation.plan, &|_| true),
        ["fail shrinkwrap_dir has no parent"]
    );
}

fn emu_host() -> install_cca_emu::Host {
    install_cca_emu::Host {
        home: text("/home/u"),
        search_path: Some(text("/bin")),
        parallelism: None,
    }
}

const ROOTFS_BUILD: &str = "bash -c /t/shrinkwrap/shrinkwrap/shrinkwrap build cca-3world.yaml --overlay buildroot.yaml --overlay cca_planes.yaml --btvar GUEST_ROOTFS=${artifact:BUILDROOT} --btvar TFA_REVISION=8dae0862c502e08568a61a1050091fa9357f1240 2>&1 | tee /t/logs/shrinkwrap.build.log (failed to do shrinkwrap build)";

#[test]
fn install_of_the_emulation_environment() {
    let params = install_cca_emu::Params {
        test_root: text("/t"),
    };
    let plan = install_cca_emu::process_request(&params, "/repo", &emu_host());
    let lines = lines(&plan, &|_| false);
    assert_eq!(lines[0], "mkdir /t");
    assert_eq!(
        lines[1],
        "git clone --branch with-arm-rebased-planes https://github.com/weiding-msft/OHCL-Linux-Kernel.git /t/plane0-linux unless /t/plane0-linux"
    );
    assert_eq!(lines[2], "cd /t/plane0-linux");
    assert_eq!(
        lines[3],
        "make ARCH=arm64 CROSS_COMPILE=aarch64-linux-gnu- defconfig -j1 (Failed to run `make defconfig`)"
    );
    assert_eq!(
        lines[4],
        "./scripts/config --file .config --enable CONFIG_VIRT_DRIVERS (Failed to enable CCA kernel config CONFIG_VIRT_DRIVERS)"
    );
    assert_eq!(
        lines[14],
        "./scripts/config --file .config --enable CONFIG_HYPERV_VTL_MODE (Failed to enable Hyper-V kernel config CONFIG_HYPERV_VTL_MODE)"
    );
    assert_eq!(
        lines[16],
        "make ARCH=arm64 CROSS_COMPILE=aarch64-linux-gnu- Image -j1 (Failed to run `make Image`)"
    );
    assert_eq!(
        lines[18..],
        [
            text("git clone https://git.gitlab.arm.com/tooling/shrinkwrap.git /t/shrinkwrap unless /t/shrinkwrap"),
            text("mkdir /t/shrinkwrap/config"),
            text("cp /repo/vmm_tests/vmm_tests/test_data/cca_planes.yaml /t/shrinkwrap/config/cca_planes.yaml"),
            text("python3 -m venv /t/shrinkwrap/venv unless /t/shrinkwrap/venv"),
            text("/t/shrinkwrap/venv/bin/pip install --upgrade pip"),
            text("/t/shrinkwrap/venv/bin/pip install pyyaml termcolor tuxmake"),
            text("mkdir /t/logs"),
            text(ROOTFS_BUILD),
        ]
    );
}

#[test]
fn finished_emulation_environment_runs_nothing() {
    let params = install_cca_emu::Params {
        test_root: text("/t"),
    };
    let plan = install_cca_emu::process_request(&params, "/repo", &emu_host());
    assert_eq!(lines(&plan, &|_| true), ["mkdir /t"]);
}

#[test]
fn update_rebuilds_what_is_asked_for() {
    let host = update_cca_emu::Host {
        search_path: None,
        parallelism: Some(4),
    };
    let mut params = update_cca_emu::Params {
        test_root: text("/t"),
        sub_cmds: SubCmds::default(),
    };
    assert!(lines(&update_cca_emu::process_request(&params, &host), &|_| true).is_empty());
    params.sub_cmds.rebuild_rootfs = true;
    assert_eq!(
        lines(&update_cca_emu::process_request(&params, &host), &|_| true),
        ["mkdir /t/logs", ROOTFS_BUILD]
    );
    params.sub_cmds.rebuild_plane0_linux = true;
    let plan = update_cca_emu::process_request(&params, &host);
    assert_eq!(
        lines(&plan, &|_| true)[0],
        "require /t/plane0-linux or plane0 Linux source tree is missing at /t/plane0-linux, try --install-emu first"
    );
    assert_eq!(lines(&plan, &|_| true)[1], "cd /t/plane0-linux");
}

#[test]
fn update_goes_to_the_revisions_that_are_given() {
    let host = update_cca_emu::Host {
        search_path: None,
        parallelism: Some(4),
    };
    let mut params = update_cca_emu::Params {
        test_root: text("/t"),
        sub_cmds: SubCmds::default(),
    };
    params.sub_cmds.tfa_rev = Some(text("abc"));
    let build = ROOTFS_BUILD
        .replace("bash -c ", "bash -c set -o pipefail; ")
        .replace("8dae0862c502e08568a61a1050091fa9357f1240", "abc");
    assert!(build.contains(" --btvar TFA_REVISION=abc 2>&1 "));
    assert_eq!(
        lines(&update_cca_emu::process_request(&params, &host), &|_| true),
        [text("mkdir /t/logs"), build.clone()]
    );

    params.sub_cmds.plane0_linux_rev = Some(text("v6"));
    let all = lines(&update_cca_emu::process_request(&params, &host), &|_| true);
    assert_eq!(
        all[1..5],
        [
            "cd /t/plane0-linux",
            "git fetch (Failed to fetch plane0 Linux)",
            "git checkout v6 (Failed to check out plane0 Linux revision v6)",
            "cd /t/plane0-linux",
        ]
    );
    assert!(all[5].contains(" defconfig "));
    assert_eq!(all[all.len() - 1], build);

    // A rebuild of everything comes to the same.
    params.sub_cmds.rebuild_plane0_linux = true;
    params.sub_cmds.rebuild_rootfs = true;
    assert_eq!(lines(&update_cca_emu::process_request(&params, &host), &|_| true), all);

    // A revision of TF-RMM is built beside the rest.
    params.sub_cmds.tfrmm_rev = Some(text("r1"));
    let both = lines(&update_cca_emu::process_request(&params, &host), &|_| true);
    assert_eq!(both[..both.len() - 1], all[..all.len() - 1]);
    assert_eq!(
        both[both.len() - 1],
        build.replace(" 2>&1 ", " --btvar TFRMM_REVISION=r1 2>&1 ")
    );

    params.sub_cmds = SubCmds::default();
    params.sub_cmds.tfrmm_rev = Some(text("r1"));
    assert_eq!(
        lines(&update_cca_emu::process_request(&params, &host), &|_| true),
        [
            text("mkdir /t/logs"),
            ROOTFS_BUILD
                .replace("bash -c ", "bash -c set -o pipefail; ")
                .replace(" 2>&1 ", " --btvar TFRMM_REVISION=r1 2>&1 "),
        ]
    );
}

#[test]
fn run_of_the_tests() {
    let params = run_cca_test::Params {
        test_root: text("/t"),
    };
    let host = run_cca_test::Host {
        home: text("/home/u"),
        search_path: Some(text("/bin")),
    };
    let checks = lines(&run_cca_test::process_request(&params, &host), &|_| true);
    assert_eq!(checks.len(), 6);
    assert_eq!(
        checks[0],
        "require /t/shrinkwrap/shrinkwrap/shrinkwrap or shrinkwrap installation is missing or broken, try --install-emu or --update-emu --rebuild"
    );
    assert_eq!(
        checks[2],
        "require /t/plane0-linux/arch/arm64/boot/Image or can't find plane0 linux image at /t/plane0-linux/arch/arm64/boot/Image, try --install-emu or --update-emu --rebuild"
    );
    assert_eq!(
        checks[3],
        "require /home/u/.shrinkwrap/package/cca-3world/rootfs.ext2 or can't find cca emulation rootfs at /home/u/.shrinkwrap/package/cca-3world/rootfs.ext2, try --install-emu or --update-emu --rebuild"
    );
    let output = TmkVmmOutput::LinuxBin { bin: text("/b/tmk_vmm") };
    let plan = run_cca_test::plan_run(&params, &host, "/b/simple_tmk", &output);
    let steps = lines(&plan, &|_| true);
    let rootfs = "/home/u/.shrinkwrap/package/cca-3world/rootfs.ext2";
    let sbin = "/home/u/.shrinkwrap/build/build/cca-3world/buildroot/host/sbin";
    assert_eq!(
        steps[0],
        format!("bash -c \n                    {sbin}/e2fsck -fp {rootfs} || rc=$?\n                    [ \"${{rc:-0}}\" -le 1 ] || exit \"$rc\"\n                    ")
    );
    assert_eq!(steps[1], format!("{sbin}/resize2fs {rootfs} 1024M"));
    let copies: Vec<&str> = steps[2].lines().skip(5).take(4).map(|line| line.trim()).collect();
    assert_eq!(
        copies,
        [
            "cp /b/simple_tmk mnt/cca/",
            "cp /b/tmk_vmm mnt/cca/",
            "cp /home/u/.shrinkwrap/package/cca-3world/guest-disk.img mnt/cca/",
            "cp /t/plane0-linux/arch/arm64/boot/Image mnt/cca/",
        ]
    );
    assert_eq!(
        steps[3],
        format!("/t/shrinkwrap/shrinkwrap/shrinkwrap run cca-3world.yaml --rtvar ROOTFS={rootfs} (failed to launch guest using shrinkwrap}})")
    );
    let output = TmkVmmOutput::WindowsBin { exe: text("tmk_vmm.exe") };
    let plan = run_cca_test::plan_run(&params, &host, "/b/simple_tmk", &output);
    assert_eq!(lines(&plan, &|_| true), ["fail expect Linux tmk_vmm only"]);
}

fn fvp_cli(dir: &str, platform: &str, overlay: &[&str]) -> CcaFvpCli {
    CcaFvpCli {
        dir: text(dir),
        platform: text(platform),
        overlay: overlay.iter().map(|s| text(s)).collect(),
        btvar: vec![text("B=1")],
        rootfs: text("/r/rootfs.ext2"),
        rtvar: vec![text("R=1")],
        build_arg: vec![text("--ba")],
        run_arg: vec![text("--ra")],
        timeout_sec: 30,
        install_missing_deps: true,
        update_shrinkwrap_repo: false,
        verbose: true,
    }
}

#[test]
fn config_paths_are_resolved() {
    let resolve = |p: &str| resolve_config_path(p, "--platform", "./out/x", "/abs/out/x");
    assert_eq!(resolve("/a/p.yaml").unwrap(), "/a/p.yaml");
    assert_eq!(
        resolve("p.yaml").unwrap(),
        "/abs/out/x/shrinkwrap/config/p.yaml"
    );
    assert_eq!(resolve("out/x/c/p.yaml").unwrap(), "/abs/out/x/c/p.yaml");
    assert_eq!(resolve("./out/x//p.yaml").unwrap(), "/abs/out/x/p.yaml");
    assert_eq!(
        resolve("other/p.yaml").unwrap_err(),
        "Relative path for --platform must start with the --dir value (./out/x). Got: other/p.yaml. Either use an absolute path, a simple filename, or a relative path starting with './out/x/'."
    );
}

fn names(pipeline: &Pipeline) -> Vec<&str> {
    pipeline.jobs.iter().map(|job| job.name.as_str()).collect()
}

#[test]
fn fvp_pipeline_installs_builds_and_runs() {
    let cli = fvp_cli("out", "p.yaml", &["a.yaml", "out/b.yaml"]);
    let pipeline = cli.into_pipeline("/repo", None).unwrap();
    assert_eq!(
        names(&pipeline),
        [
            "cca-fvp: install shrinkwrap",
            "cca-fvp: shrinkwrap build",
            "cca-fvp: shrinkwrap run",
        ]
    );
    assert_eq!(
        pipeline.deps,
        [JobDep { job: 1, on: 0 }, JobDep { job: 2, on: 1 }]
    );
    let Request::Common(common) = &pipeline.jobs[0].requests[2] else {
        panic!("no settings");
    };
    assert!(common.auto_install && common.verbose && common.interactive);
    assert!(!common.locked);
    let Request::InstallShrinkwrap(install) = &pipeline.jobs[0].requests[3] else {
        panic!("no installation");
    };
    assert_eq!(install.shrinkwrap_dir, "/repo/out/shrinkwrap");
    assert!(install.do_installs && !install.update_repo);
    let Request::ShrinkwrapBuild(build) = &pipeline.jobs[1].requests[3] else {
        panic!("no build");
    };
    assert_eq!(build.out_dir, "/repo/out");
    assert_eq!(build.platform_yaml, "/repo/out/shrinkwrap/config/p.yaml");
    assert_eq!(
        build.overlays,
        ["/repo/out/shrinkwrap/config/a.yaml", "/repo/out/b.yaml"]
    );
    assert_eq!(build.btvars, ["B=1"]);
    assert_eq!(build.extra_args, ["--ba"]);
    let Request::ShrinkwrapRun(run) = &pipeline.jobs[2].requests[3] else {
        panic!("no run");
    };
    assert_eq!(run.rootfs_path, "/r/rootfs.ext2");
    assert_eq!(run.rtvars, ["R=1"]);
    assert_eq!(run.extra_args, ["--ra"]);
    assert_eq!(run.timeout_sec, 30);
}

#[test]
fn fvp_pipeline_uses_the_canonical_directory() {
    let cli = fvp_cli("out", "p.yaml", &[]);
    let pipeline = cli.into_pipeline("/repo", Some(text("/real"))).unwrap();
    let Request::InstallShrinkwrap(install) = &pipeline.jobs[0].requests[3] else {
        panic!("no installation");
    };
    assert_eq!(install.shrinkwrap_dir, "/real/shrinkwrap");
}

#[test]
fn fvp_pipeline_refuses_foreign_paths() {
    let cli = fvp_cli("out", "p.yaml", &["a.yaml", "x/b.yaml", "y/c.yaml"]);
    let error = cli.into_pipeline("/repo", None).unwrap_err();
    assert!(error.starts_with("Relative path for --overlay must start"));
    assert!(error.contains("Got: x/b.yaml."));
}

#[test]
fn fvp_pipeline_refuses_paths_that_only_look_alike() {
    let error = fvp_cli("out", "out2/cca.yaml", &[])
        .into_pipeline("/repo", None)
        .unwrap_err();
    assert_eq!(
        error,
        "Relative path for --platform must start with the --dir value (out). Got: out2/cca.yaml. Either use an absolute path, a simple filename, or a relative path starting with 'out/'."
    );
    let overlay = fvp_cli("out", "p.yaml", &["./out2/a.yaml"]);
    assert!(overlay.into_pipeline("/repo", None).is_err());

    let resolve = |p: &str, dir: &str| resolve_config_path(p, "--platform", dir, "/abs");
    assert_eq!(resolve("out/a.yaml", "out").unwrap(), "/abs/a.yaml");
    assert_eq!(resolve("./out//b/a.yaml", "out").unwrap(), "/abs/b/a.yaml");
    assert_eq!(resolve("out/a.yaml", "./out/").unwrap(), "/abs/a.yaml");
    assert!(resolve("out2/a.yaml", "out/").is_err());
    assert_eq!(resolve("x/a.yaml", "./").unwrap(), "/abs/x/a.yaml");
    assert_eq!(resolve("./x/a.yaml", ".").unwrap(), "/abs/x/a.yaml");
}

fn tests_cli(install_emu: bool, update_emu: bool) -> CcaTestsCli {
    CcaTestsCli {
        test_root: text("target/cca-test"),
        install_emu,
        update_emu,
        verbose: false,
        update_emu_subcmds: CcaTestsUpdateEmuSubCmds {
            rebuild: true,
            tfa_rev: Some(text("r")),
            tfrmm_rev: None,
            plane0_linux_rev: None,
        },
    }
}

#[test]
fn tests_pipeline_installs_and_nothing_else() {
    let pipeline = tests_cli(true, true).into_pipeline("/repo");
    assert_eq!(
        names(&pipeline),
        [
            "cca-tests: check existence of emulation envionrment needed tools",
            "cca-tests: install emulation environment",
        ]
    );
    assert_eq!(pipeline.deps, [JobDep { job: 1, on: 0 }]);
    let Request::InstallCcaEmu(params) = &pipeline.jobs[1].requests[3] else {
        panic!("no installation");
    };
    assert_eq!(params.test_root, "/repo/target/cca-test");
}

#[test]
fn tests_pipeline_updates_before_it_tests() {
    let pipeline = tests_cli(false, true).into_pipeline("/repo");
    assert_eq!(
        names(&pipeline),
        [
            "cca-tests: update emulation environment",
            "cca-tests: run cca tests",
        ]
    );
    assert_eq!(pipeline.deps, [JobDep { job: 1, on: 0 }]);
    let Request::UpdateCcaEmu(params) = &pipeline.jobs[0].requests[0] else {
        panic!("no update");
    };
    assert!(params.sub_cmds.rebuild_plane0_linux && params.sub_cmds.rebuild_rootfs);
    assert_eq!(params.sub_cmds.tfa_rev, Some(text("r")));
    let pipeline = tests_cli(false, false).into_pipeline("/repo");
    assert_eq!(names(&pipeline), ["cca-tests: run cca tests"]);
    assert!(pipeline.deps.is_empty());
}

#[test]
fn missing_packages_are_reported() {
    let packages = required_packages();
    assert_eq!(packages.len(), 11);
    let mut installed = [true; 11];
    assert!(check_packages(&installed).is_ok());
    installed[1] = false;
    installed[6] = false;
    let error = check_packages(&installed).unwrap_err();
    assert_eq!(
        error.message(),
        "Stopped emulator installation due to missing packages"
    );
    let PrereqError::MissingPackages { report } = error else {
        panic!("no report");
    };
    assert_eq!(
        report,
        "The following required packages are NOT installed:\n\n  - python3\n  - flex\n\nPlease install them using:\n  sudo apt update && sudo apt install -y python3 flex\n\n"
    );
}

#[test]
fn docker_group_is_checked() {
    assert!(check_docker_group("root:x:0:\ndocker:x:999:u\n").is_ok());
    assert_eq!(
        check_docker_group("root:x:0:\nnodocker:x:1:\n").unwrap_err().message(),
        "Group 'docker' does not exist, please add it using 'sudo groupadd docker'"
    );
    assert!(check_membership("u adm docker\n").is_ok());
    assert_eq!(
        check_membership("u adm\n").unwrap_err().message(),
        "Current user does NOT belong to the 'docker' group, please add it using 'sudo usermod -aG docker $USER', and restart the shell!"
    );
}

fn candidate(path: &str, is_root: bool) -> Candidate {
    Candidate {
        path: text(path),
        has_manifest: true,
        has_flowey: is_root,
        has_openhcl: true,
        has_openvmm: true,
    }
}

#[test]
fn repository_is_looked_for_in_order() {
    let mut surroundings = Surroundings {
        override_path: Some(text("/o")),
        in_container: true,
        has_container_path: false,
        current_dir: vec![candidate("/a/b", false), candidate("/a", true)],
        manifest_dir: vec![candidate("/m", true)],
    };
    assert_eq!(get_openvmm_tmk_repo(&surroundings).unwrap(), "/o");
    surroundings.override_path = None;
    assert_eq!(
        get_openvmm_tmk_repo(&surroundings).unwrap(),
        "/workspaces/openvmm"
    );
    surroundings.in_container = false;
    assert_eq!(get_openvmm_tmk_repo(&surroundings).unwrap(), "/a");
    surroundings.current_dir.clear();
    assert_eq!(get_openvmm_tmk_repo(&surroundings).unwrap(), "/m");
    surroundings.manifest_dir.clear();
    assert_eq!(
        get_openvmm_tmk_repo(&surroundings).unwrap_err(),
        "unable to determine OpenVMM repo path; set OPENVMM_TMK_REPO_PATH explicitly"
    );
}

#[test]
fn commands_are_built_up() {
    let command = Command::new("a")
        .arg("b")
        .args(&vec![text("c"), text("d")])
        .options("--o", &vec![text("1"), text("2")])
        .env("K", "V")
        .env_remove("X")
        .current_dir("/d")
        .timeout(5);
    assert_eq!(command.argv, ["a", "b", "c", "d", "--o", "1", "--o", "2"]);
    assert_eq!(command.env, [(text("K"), text("V"))]);
    assert_eq!(command.env_remove, ["X"]);
    assert_eq!(command.current_dir, Some(text("/d")));
    assert_eq!(command.timeout_sec, Some(5));
}
