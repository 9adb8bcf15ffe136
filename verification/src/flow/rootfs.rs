//! The script that puts files into the root file system of the guest. Its lines
//! are indented.

use vstd::prelude::*;
use vstd::string::StringExecFns;

verus! {

/// A line that copies a file to the mounted root file system.
pub open spec fn copy_line(path: Seq<char>) -> Seq<char> {
    "                    cp "@ + path + " mnt/cca/\n"@
}

pub fn copy_line_text(path: &str) -> (line: String)
    ensures
        line@ == copy_line(path@),
{
    String::from_str("                    cp ").concat(path).concat(" mnt/cca/\n")
}

/// A line that copies a file if it is there, and warns if it is not.
pub open spec fn copy_or_warn_line(path: Seq<char>, is_there: bool) -> Seq<char> {
    if is_there {
        copy_line(path)
    } else {
        "                    echo 'Warning: "@ + path + " not found'\n"@
    }
}

pub fn copy_or_warn_line_text(path: &str, is_there: bool) -> (line: String)
    ensures
        line@ == copy_or_warn_line(path@, is_there),
{
    if is_there {
        copy_line_text(path)
    } else {
        String::from_str("                    echo 'Warning: ").concat(path).concat(" not found'\n")
    }
}

/// A line that copies a file if it is there.
pub open spec fn copy_if_there_line(path: Seq<char>, is_there: bool) -> Seq<char> {
    if is_there {
        copy_line(path)
    } else {
        "                    \n"@
    }
}

pub fn copy_if_there_line_text(path: &str, is_there: bool) -> (line: String)
    ensures
        line@ == copy_if_there_line(path@, is_there),
{
    if is_there {
        copy_line_text(path)
    } else {
        String::from_str("                    \n")
    }
}

/// The script that mounts the root file system, runs the lines that copy files
/// there, and unmounts it again.
pub open spec fn mount_script(rootfs: Seq<char>, copies: Seq<char>) -> Seq<char> {
    "\n                    set -e\n                    mkdir -p mnt\n                    mount "@ + rootfs + " mnt\n                    mkdir -p mnt/cca\n"@ + copies
        + "                    sync\n                    umount mnt || umount -l mnt || true\n                    sync\n                    sleep 1\n                    # Try multiple times to remove the directory\n                    for i in 1 2 3 4 5; do\n                        if [ -d mnt ]; then\n                            rmdir mnt 2>/dev/null && break || sleep 0.5\n                        else\n                            break\n                        fi\n                    done\n                    # If still exists, force remove\n                    [ -d mnt ] && rm -rf mnt || true\n                    "@
}

pub fn mount_script_text(rootfs: &str, copies: &str) -> (script: String)
    ensures
        script@ == mount_script(rootfs@, copies@),
{
    String::from_str("\n                    set -e\n                    mkdir -p mnt\n                    mount ").concat(rootfs).concat(
        " mnt\n                    mkdir -p mnt/cca\n",
    ).concat(copies).concat(
        "                    sync\n                    umount mnt || umount -l mnt || true\n                    sync\n                    sleep 1\n                    # Try multiple times to remove the directory\n                    for i in 1 2 3 4 5; do\n                        if [ -d mnt ]; then\n                            rmdir mnt 2>/dev/null && break || sleep 0.5\n                        else\n                            break\n                        fi\n                    done\n                    # If still exists, force remove\n                    [ -d mnt ] && rm -rf mnt || true\n                    ",
    )
}

} // verus!
