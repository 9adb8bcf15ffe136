//! How the Linux kernel for a plane is configured and built.

use super::plan;
use super::plan::{Command, CommandView};
use crate::text;
use vstd::prelude::*;
use vstd::string::StringExecFns;

verus! {

/// The configuration for guests of a realm.
pub open spec fn cca_config_names() -> Seq<Seq<char>> {
    seq!["CONFIG_VIRT_DRIVERS"@, "CONFIG_ARM_CCA_GUEST"@]
}

/// The configuration for file systems that are shared with the host.
pub open spec fn ninep_config_names() -> Seq<Seq<char>> {
    seq![
        "CONFIG_NET_9P"@,
        "CONFIG_NET_9P_FD"@,
        "CONFIG_NET_9P_VIRTIO"@,
        "CONFIG_NET_9P_FS"@,
    ]
}

/// The configuration for the paravisor.
pub open spec fn hyperv_config_names() -> Seq<Seq<char>> {
    seq![
        "CONFIG_HYPERV"@,
        "CONFIG_HYPERV_MSHV"@,
        "CONFIG_MSHV"@,
        "CONFIG_MSHV_VTL"@,
        "CONFIG_HYPERV_VTL_MODE"@,
    ]
}

/// The views of texts.
pub open spec fn str_views(texts: Seq<&'static str>) -> Seq<Seq<char>> {
    Seq::new(texts.len(), |i: int| texts[i]@)
}

pub fn cca_configs() -> (names: Vec<&'static str>)
    ensures
        str_views(names@) == cca_config_names(),
{
    let names: Vec<&'static str> = vec!["CONFIG_VIRT_DRIVERS", "CONFIG_ARM_CCA_GUEST"];
    proof {
        assert(str_views(names@) =~= cca_config_names());
    }
    names
}

pub fn ninep_configs() -> (names: Vec<&'static str>)
    ensures
        str_views(names@) == ninep_config_names(),
{
    let names: Vec<&'static str> = vec![
        "CONFIG_NET_9P",
        "CONFIG_NET_9P_FD",
        "CONFIG_NET_9P_VIRTIO",
        "CONFIG_NET_9P_FS",
    ];
    proof {
        assert(str_views(names@) =~= ninep_config_names());
    }
    names
}

pub fn hyperv_configs() -> (names: Vec<&'static str>)
    ensures
        str_views(names@) == hyperv_config_names(),
{
    let names: Vec<&'static str> = vec![
        "CONFIG_HYPERV",
        "CONFIG_HYPERV_MSHV",
        "CONFIG_MSHV",
        "CONFIG_MSHV_VTL",
        "CONFIG_HYPERV_VTL_MODE",
    ];
    proof {
        assert(str_views(names@) =~= hyperv_config_names());
    }
    names
}

/// How many jobs the host can run at once, as text: one, where that is not
/// known.
pub fn job_count(parallelism: Option<usize>) -> (jobs: String)
    ensures
        jobs@ == job_count_text(parallelism),
{
    match parallelism {
        Some(n) => text::decimal_text(n as u64),
        None => String::from_str("1"),
    }
}

/// How many jobs the host can run at once, as text.
pub open spec fn job_count_text(parallelism: Option<usize>) -> Seq<char> {
    match parallelism {
        Some(n) => text::decimal(n as nat),
        None => "1"@,
    }
}

/// A run of `make` for a target of the Arm kernel.
pub open spec fn make_kernel(cross_compile: Seq<char>, target: Seq<char>) -> CommandView {
    CommandView::program("make"@).arg("ARCH=arm64"@).arg("CROSS_COMPILE="@ + cross_compile).arg(
        target,
    )
}

pub fn make_kernel_command(cross_compile: &str, target: &str) -> (command: Command)
    ensures
        command@ == make_kernel(cross_compile@, target@),
{
    let variable = String::from_str("CROSS_COMPILE=").concat(cross_compile);
    Command::new("make").arg("ARCH=arm64").arg(variable.as_str()).arg(target)
}

/// A run of the kernel's configuration script.
pub open spec fn config_script() -> CommandView {
    CommandView::program("./scripts/config"@).arg("--file"@).arg(".config"@)
}

pub fn config_script_command() -> (command: Command)
    ensures
        command@ == config_script(),
{
    Command::new("./scripts/config").arg("--file").arg(".config")
}

} // verus!
