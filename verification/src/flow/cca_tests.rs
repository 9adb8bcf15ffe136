//! CCA test flows, including installing, updating CCA emulation environment and run OpenVMM tests

use super::path;
use super::path::{is_absolute, join};
use super::pipeline::{Job, JobView, Pipeline, PipelineView, Request, RequestView};
use super::{install_cca_emu, run_cca_test, update_cca_emu};
use crate::text;
use vstd::prelude::*;
use vstd::string::StringExecFns;

verus! {

/// CCA test flows, including installing, updating CCA emulation environment and run OpenVMM tests
#[derive(Debug)]
pub struct CcaTestsCli {
    /// Root directory for holding all CCA test related stuff
    pub test_root: String,
    /// Install CCA emulation environment, including downloading emulator and building all needed firmware
    pub install_emu: bool,
    /// Update CCA emulation environment by rebuilding firmwares, support a few sub-commands
    pub update_emu: bool,
    /// Verbose pipeline output
    pub verbose: bool,
    pub update_emu_subcmds: CcaTestsUpdateEmuSubCmds,
}

/// What to update.
#[derive(Debug)]
pub struct CcaTestsUpdateEmuSubCmds {
    /// Rebuild everything. The user can do local modifications, then use this to rebuild the env.
    pub rebuild: bool,
    /// Update TF-A to specified revision and rebuild.
    pub tfa_rev: Option<String>,
    /// Update TF-RMM to specified revision and rebuild.
    pub tfrmm_rev: Option<String>,
    /// Update plane0 Linux to specified revision and rebuild.
    pub plane0_linux_rev: Option<String>,
}

impl CcaTestsUpdateEmuSubCmds {
    /// What the job that updates is told.
    pub open spec fn sub_cmds(self) -> update_cca_emu::SubCmdsView {
        update_cca_emu::SubCmdsView {
            rebuild_plane0_linux: self.rebuild,
            rebuild_rootfs: self.rebuild,
            tfa_rev: text::opt_view(self.tfa_rev),
            tfrmm_rev: text::opt_view(self.tfrmm_rev),
            plane0_linux_rev: text::opt_view(self.plane0_linux_rev),
        }
    }
}

/// The test root, as an absolute path: relative paths are resolved from repo
/// root.
pub open spec fn absolute_root(test_root: Seq<char>, repo_root: Seq<char>) -> Seq<char> {
    if path::is_absolute_path(test_root) {
        test_root
    } else {
        path::joined(repo_root, test_root)
    }
}

impl CcaTestsCli {
    /// The pipeline that installs the emulation environment.
    pub open spec fn install_pipeline(self, repo_root: Seq<char>) -> PipelineView {
        PipelineView::empty().new_job(
            JobView::named(
                "cca-tests: check existence of emulation envionrment needed tools"@,
            ).dep_on(RequestView::CheckCcaEmuPrereq),
        ).new_job(
            JobView::named("cca-tests: install emulation environment"@).local(
                repo_root,
                true,
                self.verbose,
            ).dep_on(
                RequestView::InstallCcaEmu { test_root: absolute_root(self.test_root@, repo_root) },
            ),
        ).non_artifact_dep(1, 0)
    }

    /// The job that runs the tests.
    pub open spec fn test_job(self, repo_root: Seq<char>) -> JobView {
        JobView::named("cca-tests: run cca tests"@).local(repo_root, true, self.verbose).dep_on(
            RequestView::RunCcaTest { test_root: absolute_root(self.test_root@, repo_root) },
        )
    }

    /// The pipeline: installing the emulation environment, or running the tests,
    /// with an update before them where one is asked for.
    pub open spec fn pipeline(self, repo_root: Seq<char>) -> PipelineView {
        if self.install_emu {
            self.install_pipeline(repo_root)
        } else if self.update_emu {
            PipelineView::empty().new_job(
                JobView::named("cca-tests: update emulation environment"@).dep_on(
                    RequestView::UpdateCcaEmu {
                        test_root: absolute_root(self.test_root@, repo_root),
                        sub_cmds: self.update_emu_subcmds.sub_cmds(),
                    },
                ),
            ).new_job(self.test_job(repo_root)).non_artifact_dep(1, 0)
        } else {
            PipelineView::empty().new_job(self.test_job(repo_root))
        }
    }

    /// The pipeline, given the root of the repository.
    pub fn into_pipeline(self, repo_root: &str) -> (pipeline: Pipeline)
        ensures
            pipeline@ == self.pipeline(repo_root@),
    {
        // Absolute path is expected across cca_tests infrastructure. Relative
        // paths are resolved from repo root.
        let test_root = if is_absolute(self.test_root.as_str()) {
            self.test_root.clone()
        } else {
            join(repo_root, self.test_root.as_str())
        };
        let mut pipeline = Pipeline::new();
        if self.install_emu {
            let check_job: usize = pipeline.new_job(
                Job::new(
                    "cca-tests: check existence of emulation envionrment needed tools",
                ).dep_on(Request::CheckCcaEmuPrereq),
            );
            let install_job: usize = pipeline.new_job(
                Job::new("cca-tests: install emulation environment").local(
                    repo_root,
                    true,
                    self.verbose,
                ).dep_on(Request::InstallCcaEmu(install_cca_emu::Params { test_root })),
            );
            pipeline.non_artifact_dep(install_job, check_job);
            return pipeline;
        }
        let update_job: Option<usize> = if self.update_emu {
            let sub_cmds = update_cca_emu::SubCmds {
                rebuild_plane0_linux: self.update_emu_subcmds.rebuild,
                rebuild_rootfs: self.update_emu_subcmds.rebuild,
                tfa_rev: self.update_emu_subcmds.tfa_rev,
                tfrmm_rev: self.update_emu_subcmds.tfrmm_rev,
                plane0_linux_rev: self.update_emu_subcmds.plane0_linux_rev,
            };
            Some(
                pipeline.new_job(
                    Job::new("cca-tests: update emulation environment").dep_on(
                        Request::UpdateCcaEmu(
                            update_cca_emu::Params { test_root: test_root.clone(), sub_cmds },
                        ),
                    ),
                ),
            )
        } else {
            None
        };
        let test_job: usize = pipeline.new_job(
            Job::new("cca-tests: run cca tests").local(repo_root, true, self.verbose).dep_on(
                Request::RunCcaTest(run_cca_test::Params { test_root }),
            ),
        );
        // Only add dependency if update_job exists
        if let Some(update_job) = update_job {
            pipeline.non_artifact_dep(test_job, update_job);
        }
        pipeline
    }
}

/// The jobs can run in their order.
pub proof fn jobs_are_in_order(cli: CcaTestsCli, repo_root: Seq<char>)
    ensures
        cli.pipeline(repo_root).in_order(),
{
}

/// The test root is absolute, if the root of the repository is.
pub proof fn test_root_is_absolute(test_root: Seq<char>, repo_root: Seq<char>)
    requires
        path::is_absolute_path(repo_root),
    ensures
        path::is_absolute_path(absolute_root(test_root, repo_root)),
{
}

} // verus!
