//! To install CCA emulation environment, we need a few tools. This job checks
//! their existence.

use super::kernel;
use crate::text;
use crate::text::{any_line_starts_with, contains_word};
use vstd::prelude::*;
use vstd::string::StringExecFns;

verus! {

/// The packages that the emulation environment needs.
pub open spec fn required_package_names() -> Seq<Seq<char>> {
    seq![
        "netcat-openbsd"@,
        "python3"@,
        "python3-pip"@,
        "telnet"@,
        "docker.io"@,
        "gcc-aarch64-linux-gnu"@,
        "flex"@,
        "bison"@,
        "libssl-dev"@,
        "python3-venv"@,
        "python3-pip"@,
    ]
}

/// The packages that the emulation environment needs.
pub fn required_packages() -> (packages: Vec<&'static str>)
    ensures
        kernel::str_views(packages@) == required_package_names(),
{
    let packages: Vec<&'static str> = vec![
        "netcat-openbsd",
        "python3",
        "python3-pip",
        "telnet",
        "docker.io",
        "gcc-aarch64-linux-gnu",
        // flex and bison are needed when building linux kernel kconfig parser
        "flex",
        "bison",
        "libssl-dev",
        "python3-venv",
        "python3-pip",
    ];
    proof {
        assert(kernel::str_views(packages@) =~= required_package_names());
    }
    packages
}

/// Why the emulation environment cannot be installed.
#[derive(Debug)]
pub enum PrereqError {
    /// Some packages are missing. The text names them, and says how to install
    /// them.
    MissingPackages { report: String },
    /// There is no docker group.
    NoDockerGroup,
    /// The current user does not belong to the docker group.
    NotInDockerGroup,
}

impl PrereqError {
    /// The error, as text.
    pub open spec fn text(&self) -> Seq<char> {
        match self {
            PrereqError::MissingPackages {
                ..
            } => "Stopped emulator installation due to missing packages"@,
            PrereqError::NoDockerGroup => "Group 'docker' does not exist, please add it using 'sudo groupadd docker'"@,
            PrereqError::NotInDockerGroup => "Current user does NOT belong to the 'docker' group, please add it using 'sudo usermod -aG docker $USER', and restart the shell!"@,
        }
    }

    pub fn message(&self) -> (message: String)
        ensures
            message@ == self.text(),
    {
        match self {
            PrereqError::MissingPackages { .. } => String::from_str(
                "Stopped emulator installation due to missing packages",
            ),
            PrereqError::NoDockerGroup => String::from_str(
                "Group 'docker' does not exist, please add it using 'sudo groupadd docker'",
            ),
            PrereqError::NotInDockerGroup => String::from_str(
                "Current user does NOT belong to the 'docker' group, please add it using 'sudo usermod -aG docker $USER', and restart the shell!",
            ),
        }
    }
}

/// The packages that are not installed, in their order.
pub open spec fn missing_packages(packages: Seq<Seq<char>>, installed: Seq<bool>) -> Seq<Seq<char>>
    decreases packages.len(),
{
    if packages.len() == 0 || installed.len() != packages.len() {
        Seq::empty()
    } else {
        let before = missing_packages(packages.drop_last(), installed.drop_last());
        if installed.last() {
            before
        } else {
            before.push(packages.last())
        }
    }
}

/// Packages, one to a line.
pub open spec fn package_lines(packages: Seq<Seq<char>>) -> Seq<char>
    decreases packages.len(),
{
    if packages.len() == 0 {
        Seq::empty()
    } else {
        package_lines(packages.drop_last()) + "  - "@ + packages.last() + "\n"@
    }
}

/// Packages, with spaces between them.
pub open spec fn package_words(packages: Seq<Seq<char>>) -> Seq<char>
    decreases packages.len(),
{
    if packages.len() == 0 {
        Seq::empty()
    } else if packages.len() == 1 {
        packages[0]
    } else {
        package_words(packages.drop_last()) + " "@ + packages.last()
    }
}

/// What to print where packages are missing.
pub open spec fn missing_report(missing: Seq<Seq<char>>) -> Seq<char> {
    "The following required packages are NOT installed:\n\n"@ + package_lines(missing)
        + "\nPlease install them using:\n  sudo apt update && sudo apt install -y "@
        + package_words(missing) + "\n\n"@
}

/// Checks that the required packages are installed, given which of them are.
pub fn check_packages(installed: &[bool]) -> (r: Result<(), PrereqError>)
    requires
        installed@.len() == required_package_names().len(),
    ensures
        ({
            let missing = missing_packages(required_package_names(), installed@);
            match r {
                Ok(_) => missing.len() == 0,
                Err(error) => {
                    &&& missing.len() > 0
                    &&& error matches PrereqError::MissingPackages { report }
                    &&& report@ == missing_report(missing)
                },
            }
        }),
{
    let packages = required_packages();
    let ghost names = required_package_names();
    let ghost mut missing: Seq<Seq<char>> = Seq::empty();
    let mut count: usize = 0;
    let mut lines = String::new();
    let mut words = String::new();
    let mut i: usize = 0;
    proof {
        assert(packages@.len() == kernel::str_views(packages@).len());
        assert(names.take(0) =~= Seq::empty());
        assert(lines@ =~= package_lines(missing));
        assert(words@ =~= package_words(missing));
    }
    while i < packages.len()
        invariant
            i <= packages@.len() == installed@.len(),
            names == kernel::str_views(packages@),
            missing == missing_packages(names.take(i as int), installed@.take(i as int)),
            count == missing.len(),
            count <= i,
            lines@ == package_lines(missing),
            words@ == package_words(missing),
        decreases packages@.len() - i,
    {
        let package = packages[i];
        proof {
            assert(names.take(i + 1).drop_last() =~= names.take(i as int));
            assert(installed@.take(i + 1).drop_last() =~= installed@.take(i as int));
        }
        if !installed[i] {
            lines.append("  - ");
            lines.append(package);
            lines.append("\n");
            if count > 0 {
                words.append(" ");
            }
            words.append(package);
            proof {
                let more = missing.push(package@);
                assert(more.drop_last() =~= missing);
                if count == 0 {
                    assert(words@ =~= package@);
                }
                missing = more;
            }
            count = count + 1;
        }
        i = i + 1;
    }
    proof {
        assert(names.take(i as int) =~= names);
        assert(installed@.take(i as int) =~= installed@);
    }
    if count == 0 {
        return Ok(());
    }
    let report = String::from_str("The following required packages are NOT installed:\n\n").concat(
        lines.as_str(),
    ).concat("\nPlease install them using:\n  sudo apt update && sudo apt install -y ").concat(
        words.as_str(),
    ).concat("\n\n");
    Err(PrereqError::MissingPackages { report })
}

/// Checks that there is a docker group, given the file that lists the groups.
pub fn check_docker_group(group_file: &str) -> (r: Result<(), PrereqError>)
    ensures
        match r {
            Ok(_) => text::has_line_with(group_file@, "docker:"@),
            Err(error) => {
                &&& error == PrereqError::NoDockerGroup
                &&& !text::has_line_with(group_file@, "docker:"@)
            },
        },
{
    if any_line_starts_with(group_file, "docker:") {
        Ok(())
    } else {
        Err(PrereqError::NoDockerGroup)
    }
}

/// Checks that the current user belongs to the docker group, given the names of
/// the user's groups.
pub fn check_membership(groups: &str) -> (r: Result<(), PrereqError>)
    ensures
        match r {
            Ok(_) => text::has_word(groups@, "docker"@),
            Err(error) => {
                &&& error == PrereqError::NotInDockerGroup
                &&& !text::has_word(groups@, "docker"@)
            },
        },
{
    proof {
        reveal_strlit("docker");
    }
    if contains_word(groups, "docker") {
        Ok(())
    } else {
        Err(PrereqError::NotInDockerGroup)
    }
}

} // verus!
