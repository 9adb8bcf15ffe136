//! Where the OpenVMM repository is.

use crate::text;
use vstd::prelude::*;
use vstd::string::StringExecFns;

verus! {

/// A directory that may be the root of the repository, and what is in it.
#[derive(Debug)]
pub struct Candidate {
    pub path: String,
    /// Whether `Cargo.toml` is a file there.
    pub has_manifest: bool,
    /// Whether `flowey` is a directory there.
    pub has_flowey: bool,
    /// Whether `openhcl` is a directory there.
    pub has_openhcl: bool,
    /// Whether `openvmm` is a directory there.
    pub has_openvmm: bool,
}

impl Candidate {
    /// Whether the directory is the root of the repository.
    pub open spec fn is_root(&self) -> bool {
        self.has_manifest && self.has_flowey && self.has_openhcl && self.has_openvmm
    }

    pub fn is_openvmm_repo_root(&self) -> (r: bool)
        ensures
            r == self.is_root(),
    {
        self.has_manifest && self.has_flowey && self.has_openhcl && self.has_openvmm
    }
}

/// The first of the candidates that is the root of the repository.
pub open spec fn first_root(candidates: Seq<Candidate>) -> Option<Seq<char>>
    decreases candidates.len(),
{
    if candidates.len() == 0 {
        None
    } else if candidates[0].is_root() {
        Some(candidates[0].path@)
    } else {
        first_root(candidates.skip(1))
    }
}

fn find_root(candidates: &[Candidate]) -> (root: Option<String>)
    ensures
        text::opt_view(root) == first_root(candidates@),
{
    let mut i: usize = 0;
    proof {
        assert(candidates@.skip(0) =~= candidates@);
    }
    while i < candidates.len()
        invariant
            i <= candidates@.len(),
            first_root(candidates@) == first_root(candidates@.skip(i as int)),
        decreases candidates@.len() - i,
    {
        if candidates[i].is_openvmm_repo_root() {
            return Some(candidates[i].path.clone());
        }
        proof {
            assert(candidates@.skip(i as int).skip(1) =~= candidates@.skip(i + 1));
        }
        i = i + 1;
    }
    None
}

/// What is known of the place that the program runs in.
#[derive(Debug)]
pub struct Surroundings {
    /// The path that the environment gives, if it gives one.
    pub override_path: Option<String>,
    /// Whether this is a container.
    pub in_container: bool,
    /// Whether the checkout path of the containers exists.
    pub has_container_path: bool,
    /// The current directory and those above it, where it is known.
    pub current_dir: Vec<Candidate>,
    /// The directory that the program was compiled in and those above it.
    pub manifest_dir: Vec<Candidate>,
}

impl Surroundings {
    /// Where the repository is, as far as that can be told.
    pub open spec fn repo(&self) -> Option<Seq<char>> {
        match self.override_path {
            Some(path) => Some(path@),
            None => if self.in_container || self.has_container_path {
                Some("/workspaces/openvmm"@)
            } else {
                match first_root(self.current_dir@) {
                    Some(path) => Some(path),
                    None => first_root(self.manifest_dir@),
                }
            },
        }
    }
}

/// Where the repository is: use container directory as default when running in a
/// container, otherwise look for repo root in parent directories, or fall back
/// to compile-time source tree path. The error is a text.
pub fn get_openvmm_tmk_repo(surroundings: &Surroundings) -> (r: Result<String, String>)
    ensures
        match r {
            Ok(path) => surroundings.repo() == Some(path@),
            Err(error) => {
                &&& surroundings.repo() is None
                &&& error@
                    == "unable to determine OpenVMM repo path; set OPENVMM_TMK_REPO_PATH explicitly"@
            },
        },
{
    // Allow an explicit override
    if let Some(path) = &surroundings.override_path {
        return Ok(path.clone());
    }
    // Prefer the standard dev-container checkout path
    if surroundings.in_container || surroundings.has_container_path {
        return Ok(String::from_str("/workspaces/openvmm"));
    }
    // Outside containers, walk up from the current directory to locate repo root
    if let Some(root) = find_root(surroundings.current_dir.as_slice()) {
        return Ok(root);
    }
    // Fallback to the source-tree location where this crate was compiled
    if let Some(root) = find_root(surroundings.manifest_dir.as_slice()) {
        return Ok(root);
    }
    Err(
        String::from_str(
            "unable to determine OpenVMM repo path; set OPENVMM_TMK_REPO_PATH explicitly",
        ),
    )
}

} // verus!
