//! Install Shrinkwrap, Build + run CCA FVP via Shrinkwrap (local)

use super::path;
use super::path::{is_absolute, join};
use super::pipeline::{Job, JobView, Pipeline, PipelineView, Request, RequestView};
use super::{install_shrinkwrap, shrinkwrap_build, shrinkwrap_run};
use crate::text;
use crate::text::{
    clone_strings, contains_char, rest_from, starts_with, trim_end_matches, trim_start_matches,
};
use vstd::prelude::*;
use vstd::string::{StrSliceExecFns, StringExecFns};

verus! {

/// Install Shrinkwrap, Build + run CCA FVP via Shrinkwrap (local)
#[derive(Debug)]
pub struct CcaFvpCli {
    /// Directory for output artifacts/logs (pipeline working dir)
    pub dir: String,
    /// Platform YAML (e.g. cca-3world.yaml)
    pub platform: String,
    /// Overlay YAMLs (repeatable), e.g. --overlay buildroot.yaml --overlay planes.yaml
    pub overlay: Vec<String>,
    /// Build-time variables (repeatable), e.g. --btvar 'GUEST_ROOTFS=${artifact:BUILDROOT}'
    pub btvar: Vec<String>,
    /// Rootfs path to pass at runtime, e.g.
    /// --rootfs /abs/path/.shrinkwrap/package/cca-3world/rootfs.ext2
    pub rootfs: String,
    /// Additional runtime variables (repeatable), besides ROOTFS, e.g. --rtvar FOO=bar
    pub rtvar: Vec<String>,
    /// Extra args appended to `shrinkwrap build` (escape hatch)
    pub build_arg: Vec<String>,
    /// Extra args appended to `shrinkwrap run` (escape hatch)
    pub run_arg: Vec<String>,
    /// Timeout in seconds for `shrinkwrap run`
    pub timeout_sec: u64,
    /// Automatically install missing deps (requires sudo on Ubuntu)
    pub install_missing_deps: bool,
    /// If repo already exists, attempt `git pull --ff-only`
    pub update_shrinkwrap_repo: bool,
    /// Verbose pipeline output
    pub verbose: bool,
}

/// The working directory, as an absolute path: its canonical form, where it
/// exists; otherwise relative paths are resolved from the repository root.
pub open spec fn working_dir(
    dir: Seq<char>,
    canonical: Option<Seq<char>>,
    repo_root: Seq<char>,
) -> Seq<char> {
    match canonical {
        Some(canonical) => canonical,
        None => if path::is_absolute_path(dir) {
            dir
        } else {
            path::joined(repo_root, dir)
        },
    }
}

/// What to say of a relative path that does not lie under the working directory.
pub open spec fn outside_error(
    arg_name: Seq<char>,
    original_dir: Seq<char>,
    p: Seq<char>,
) -> Seq<char> {
    "Relative path for "@ + arg_name + " must start with the --dir value ("@ + original_dir
        + "). Got: "@ + p
        + ". Either use an absolute path, a simple filename, or a relative path starting with '"@
        + original_dir + "/'."@
}

/// What a relative path under the working directory starts with: the directory as
/// it was given, but for any leading `./`, and a single `/`; or nothing, where
/// that leaves no directory.
pub open spec fn dir_prefix(original_dir: Seq<char>) -> Seq<char> {
    let prefix = text::trimmed(original_dir, "./"@);
    if prefix.len() == 0 {
        prefix
    } else {
        text::trimmed_end(prefix, '/') + "/"@
    }
}

/// The path of a platform or overlay YAML:
/// - Absolute paths: use as-is
/// - Simple filenames (no '/'): resolve to <dir>/shrinkwrap/config/
/// - Relative paths with '/': must start with --dir prefix, up to a '/'
pub open spec fn resolved(
    p: Seq<char>,
    arg_name: Seq<char>,
    original_dir: Seq<char>,
    dir: Seq<char>,
) -> Result<Seq<char>, Seq<char>> {
    let prefix = dir_prefix(original_dir);
    let alt_prefix = "./"@ + prefix;
    if path::is_absolute_path(p) {
        Ok(p)
    } else if !p.contains('/') {
        Ok(
            path::joined(
                path::joined(path::joined(dir, "shrinkwrap"@), "config"@),
                p,
            ),
        )
    } else if text::has_at(p, prefix, 0) {
        Ok(path::joined(dir, text::trimmed(p.skip(prefix.len() as int), "/"@)))
    } else if text::has_at(p, alt_prefix, 0) {
        Ok(path::joined(dir, text::trimmed(p.skip(alt_prefix.len() as int), "/"@)))
    } else {
        Err(outside_error(arg_name, original_dir, p))
    }
}

/// The view of a result.
pub open spec fn result_view(r: Result<String, String>) -> Result<Seq<char>, Seq<char>> {
    match r {
        Ok(value) => Ok(value@),
        Err(error) => Err(error@),
    }
}

fn dir_prefix_text(original_dir: &str) -> (prefix: String)
    ensures
        prefix@ == dir_prefix(original_dir@),
{
    proof {
        reveal_strlit("./");
    }
    let prefix = trim_start_matches(original_dir, "./");
    if prefix.as_str().unicode_len() == 0 {
        prefix
    } else {
        trim_end_matches(prefix.as_str(), '/').concat("/")
    }
}

/// Helper to resolve platform/overlay paths.
pub fn resolve_config_path(p: &str, arg_name: &str, original_dir: &str, dir: &str) -> (r: Result<
    String,
    String,
>)
    ensures
        result_view(r) == resolved(p@, arg_name@, original_dir@, dir@),
{
    proof {
        reveal_strlit("./");
        reveal_strlit("/");
    }
    if is_absolute(p) {
        return Ok(String::from_str(p));
    }
    // Check if it's a simple filename (no directory separators)
    if !contains_char(p, '/') {
        let shrinkwrap_dir = join(dir, "shrinkwrap");
        let config_dir = join(shrinkwrap_dir.as_str(), "config");
        return Ok(join(config_dir.as_str(), p));
    }
    // It's a relative path with directories - validate it starts with --dir
    let prefix = dir_prefix_text(original_dir);
    if starts_with(p, prefix.as_str()) {
        // Strip the prefix and reconstruct using the canonical dir
        let rest = rest_from(p, prefix.as_str().unicode_len());
        let stripped = trim_start_matches(rest.as_str(), "/");
        return Ok(join(dir, stripped.as_str()));
    }
    let alt_prefix = String::from_str("./").concat(prefix.as_str());
    if starts_with(p, alt_prefix.as_str()) {
        let rest = rest_from(p, alt_prefix.as_str().unicode_len());
        let stripped = trim_start_matches(rest.as_str(), "/");
        return Ok(join(dir, stripped.as_str()));
    }
    // Invalid: relative path doesn't start with --dir
    let error = String::from_str("Relative path for ").concat(arg_name).concat(
        " must start with the --dir value (",
    ).concat(original_dir).concat("). Got: ").concat(p).concat(
        ". Either use an absolute path, a simple filename, or a relative path starting with '",
    ).concat(original_dir).concat("/'.");
    Err(error)
}

/// The paths of overlays, or the error of the first that has one.
pub open spec fn resolved_overlays(
    overlays: Seq<Seq<char>>,
    original_dir: Seq<char>,
    dir: Seq<char>,
) -> Result<Seq<Seq<char>>, Seq<char>>
    decreases overlays.len(),
{
    if overlays.len() == 0 {
        Ok(Seq::empty())
    } else {
        match resolved_overlays(overlays.drop_last(), original_dir, dir) {
            Err(error) => Err(error),
            Ok(before) => match resolved(overlays.last(), "--overlay"@, original_dir, dir) {
                Err(error) => Err(error),
                Ok(last) => Ok(before.push(last)),
            },
        }
    }
}

/// An error among the first overlays is the error of all.
proof fn lemma_overlay_error(
    overlays: Seq<Seq<char>>,
    n: int,
    original_dir: Seq<char>,
    dir: Seq<char>,
)
    requires
        0 <= n <= overlays.len(),
        resolved_overlays(overlays.take(n), original_dir, dir) is Err,
    ensures
        resolved_overlays(overlays, original_dir, dir) == resolved_overlays(
            overlays.take(n),
            original_dir,
            dir,
        ),
    decreases overlays.len() - n,
{
    if n == overlays.len() {
        assert(overlays.take(n) =~= overlays);
    } else {
        assert(overlays.take(n + 1).drop_last() =~= overlays.take(n));
        lemma_overlay_error(overlays, n + 1, original_dir, dir);
    }
}

fn resolve_overlays(overlays: &Vec<String>, original_dir: &str, dir: &str) -> (r: Result<
    Vec<String>,
    String,
>)
    ensures
        match r {
            Ok(paths) => resolved_overlays(text::views(overlays@), original_dir@, dir@) == Ok::<
                Seq<Seq<char>>,
                Seq<char>,
            >(text::views(paths@)),
            Err(error) => resolved_overlays(text::views(overlays@), original_dir@, dir@) == Err::<
                Seq<Seq<char>>,
                Seq<char>,
            >(error@),
        },
{
    let ghost all = text::views(overlays@);
    let mut paths: Vec<String> = Vec::new();
    let mut i: usize = 0;
    proof {
        assert(text::views(paths@) =~= Seq::empty());
    }
    while i < overlays.len()
        invariant
            i <= overlays@.len(),
            all == text::views(overlays@),
            resolved_overlays(all.take(i as int), original_dir@, dir@) == Ok::<
                Seq<Seq<char>>,
                Seq<char>,
            >(text::views(paths@)),
        decreases overlays@.len() - i,
    {
        proof {
            assert(all.take(i + 1).drop_last() =~= all.take(i as int));
        }
        match resolve_config_path(overlays[i].as_str(), "--overlay", original_dir, dir) {
            Ok(path) => {
                let ghost before = text::views(paths@);
                paths.push(path);
                proof {
                    assert(text::views(paths@) =~= before.push(path@));
                }
            },
            Err(error) => {
                proof {
                    lemma_overlay_error(all, i + 1, original_dir@, dir@);
                }
                return Err(error);
            },
        }
        i = i + 1;
    }
    proof {
        assert(all.take(i as int) =~= all);
    }
    Ok(paths)
}

impl CcaFvpCli {
    /// The pipeline, once the paths are resolved.
    pub open spec fn jobs(
        self,
        repo_root: Seq<char>,
        dir: Seq<char>,
        platform: Seq<char>,
        overlays: Seq<Seq<char>>,
    ) -> PipelineView {
        let shrinkwrap_dir = path::joined(dir, "shrinkwrap"@);
        PipelineView::empty().new_job(
            JobView::named("cca-fvp: install shrinkwrap"@).local(
                repo_root,
                self.install_missing_deps,
                self.verbose,
            ).dep_on(
                RequestView::InstallShrinkwrap(
                    install_shrinkwrap::ParamsView {
                        shrinkwrap_dir,
                        do_installs: self.install_missing_deps,
                        update_repo: self.update_shrinkwrap_repo,
                    },
                ),
            ),
        ).new_job(
            JobView::named("cca-fvp: shrinkwrap build"@).local(
                repo_root,
                self.install_missing_deps,
                self.verbose,
            ).dep_on(
                RequestView::ShrinkwrapBuild(
                    shrinkwrap_build::ParamsView {
                        out_dir: dir,
                        shrinkwrap_dir,
                        platform_yaml: platform,
                        overlays,
                        btvars: text::views(self.btvar@),
                        extra_args: text::views(self.build_arg@),
                    },
                ),
            ),
        ).new_job(
            JobView::named("cca-fvp: shrinkwrap run"@).local(
                repo_root,
                self.install_missing_deps,
                self.verbose,
            ).dep_on(
                RequestView::ShrinkwrapRun(
                    shrinkwrap_run::ParamsView {
                        out_dir: dir,
                        shrinkwrap_dir,
                        platform_yaml: platform,
                        rootfs_path: self.rootfs@,
                        rtvars: text::views(self.rtvar@),
                        extra_args: text::views(self.run_arg@),
                        timeout_sec: self.timeout_sec,
                    },
                ),
            ),
        ).non_artifact_dep(1, 0).non_artifact_dep(2, 1)
    }

    /// The pipeline, or an error where a path cannot be resolved.
    pub open spec fn pipeline(
        self,
        repo_root: Seq<char>,
        canonical: Option<Seq<char>>,
    ) -> Result<PipelineView, Seq<char>> {
        let dir = working_dir(self.dir@, canonical, repo_root);
        match resolved(self.platform@, "--platform"@, self.dir@, dir) {
            Err(error) => Err(error),
            Ok(platform) => match resolved_overlays(
                text::views(self.overlay@),
                self.dir@,
                dir,
            ) {
                Err(error) => Err(error),
                Ok(overlays) => Ok(self.jobs(repo_root, dir, platform, overlays)),
            },
        }
    }

    /// The pipeline, given the root of the repository and the canonical form of
    /// the working directory, where it exists. The error is a text.
    pub fn into_pipeline(self, repo_root: &str, canonical: Option<String>) -> (r: Result<
        Pipeline,
        String,
    >)
        ensures
            match r {
                Ok(pipeline) => self.pipeline(repo_root@, text::opt_view(canonical)) == Ok::<
                    PipelineView,
                    Seq<char>,
                >(pipeline@),
                Err(error) => self.pipeline(repo_root@, text::opt_view(canonical)) == Err::<
                    PipelineView,
                    Seq<char>,
                >(error@),
            },
    {
        // Convert dir to absolute path to ensure consistency across jobs
        // Relative paths are resolved from the repository root
        let dir = match canonical {
            Some(canonical) => canonical,
            None => if is_absolute(self.dir.as_str()) {
                self.dir.clone()
            } else {
                join(repo_root, self.dir.as_str())
            },
        };
        // Put Shrinkwrap repo under the pipeline working dir, so it's self-contained.
        let shrinkwrap_dir = join(dir.as_str(), "shrinkwrap");
        // Resolve platform YAML path
        let platform = match resolve_config_path(
            self.platform.as_str(),
            "--platform",
            self.dir.as_str(),
            dir.as_str(),
        ) {
            Ok(platform) => platform,
            Err(error) => return Err(error),
        };
        // Resolve overlay YAML paths
        let overlays = match resolve_overlays(&self.overlay, self.dir.as_str(), dir.as_str()) {
            Ok(overlays) => overlays,
            Err(error) => return Err(error),
        };
        let mut pipeline = Pipeline::new();
        // Create separate jobs to ensure proper ordering
        let install_job: usize = pipeline.new_job(
            Job::new("cca-fvp: install shrinkwrap").local(
                repo_root,
                self.install_missing_deps,
                self.verbose,
            ).dep_on(
                Request::InstallShrinkwrap(
                    install_shrinkwrap::Params {
                        shrinkwrap_dir: shrinkwrap_dir.clone(),
                        do_installs: self.install_missing_deps,
                        update_repo: self.update_shrinkwrap_repo,
                    },
                ),
            ),
        );
        let build_job: usize = pipeline.new_job(
            Job::new("cca-fvp: shrinkwrap build").local(
                repo_root,
                self.install_missing_deps,
                self.verbose,
            ).dep_on(
                Request::ShrinkwrapBuild(
                    shrinkwrap_build::Params {
                        out_dir: dir.clone(),
                        shrinkwrap_dir: shrinkwrap_dir.clone(),
                        platform_yaml: platform.clone(),
                        overlays,
                        btvars: clone_strings(&self.btvar),
                        extra_args: clone_strings(&self.build_arg),
                    },
                ),
            ),
        );
        let run_job: usize = pipeline.new_job(
            Job::new("cca-fvp: shrinkwrap run").local(
                repo_root,
                self.install_missing_deps,
                self.verbose,
            ).dep_on(
                Request::ShrinkwrapRun(
                    shrinkwrap_run::Params {
                        out_dir: dir,
                        shrinkwrap_dir,
                        platform_yaml: platform,
                        rootfs_path: self.rootfs.clone(),
                        rtvars: clone_strings(&self.rtvar),
                        extra_args: clone_strings(&self.run_arg),
                        timeout_sec: self.timeout_sec,
                    },
                ),
            ),
        );
        // Explicitly declare job dependencies
        pipeline.non_artifact_dep(build_job, install_job);
        pipeline.non_artifact_dep(run_job, build_job);
        Ok(pipeline)
    }
}

/// The jobs can run in their order: first the installation, then the build,
/// then the run.
pub proof fn jobs_are_in_order(cli: CcaFvpCli, repo_root: Seq<char>, canonical: Option<Seq<char>>)
    requires
        cli.pipeline(repo_root, canonical) is Ok,
    ensures
        cli.pipeline(repo_root, canonical)->Ok_0.in_order(),
{
}

/// Every path that is resolved is absolute, if the root of the repository and
/// the canonical form of the working directory are.
pub proof fn resolved_paths_are_absolute(
    p: Seq<char>,
    arg_name: Seq<char>,
    original_dir: Seq<char>,
    canonical: Option<Seq<char>>,
    repo_root: Seq<char>,
)
    requires
        path::is_absolute_path(repo_root),
        canonical matches Some(canonical) ==> path::is_absolute_path(canonical),
    ensures
        ({
            let dir = working_dir(original_dir, canonical, repo_root);
            resolved(p, arg_name, original_dir, dir) matches Ok(path) ==> path::is_absolute_path(
                path,
            )
        }),
{
    let dir = working_dir(original_dir, canonical, repo_root);
    let prefix = dir_prefix(original_dir);
    let alt_prefix = "./"@ + prefix;
    path::joined_to_absolute_is_absolute(repo_root, original_dir);
    path::joined_to_absolute_is_absolute(dir, "shrinkwrap"@);
    let shrinkwrap_dir = path::joined(dir, "shrinkwrap"@);
    path::joined_to_absolute_is_absolute(shrinkwrap_dir, "config"@);
    path::joined_to_absolute_is_absolute(path::joined(shrinkwrap_dir, "config"@), p);
    path::joined_to_absolute_is_absolute(
        dir,
        text::trimmed(p.skip(prefix.len() as int), "/"@),
    );
    path::joined_to_absolute_is_absolute(
        dir,
        text::trimmed(p.skip(alt_prefix.len() as int), "/"@),
    );
}

} // verus!
