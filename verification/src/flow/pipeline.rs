//! Pipelines: jobs, what each of them is asked to do, and which of them wait for
//! which.

use super::{
    install_cca_emu, install_shrinkwrap, run_cca_test, shrinkwrap_build, shrinkwrap_run,
    update_cca_emu,
};
use vstd::prelude::*;
use vstd::string::StringExecFns;

verus! {

/// Settings that every job of a local run shares.
#[derive(Clone, Copy, Debug, PartialEq, Eq, Structural)]
pub struct CommonParams {
    pub interactive: bool,
    pub auto_install: bool,
    pub force_nuget_mono: bool,
    pub external_nuget_auth: bool,
    pub ignore_rust_version: bool,
    pub verbose: bool,
    pub locked: bool,
    pub deny_warnings: bool,
    pub no_incremental: bool,
}

/// The settings of an interactive local run.
pub open spec fn local_params(auto_install: bool, verbose: bool) -> CommonParams {
    CommonParams {
        interactive: true,
        auto_install,
        force_nuget_mono: false,
        external_nuget_auth: false,
        ignore_rust_version: true,
        verbose,
        locked: false,
        deny_warnings: false,
        no_incremental: false,
    }
}

/// What a job is asked to do.
#[derive(Debug)]
pub enum Request {
    /// Set up the versions of the tools.
    InitVersions,
    /// Take the repository from a clone that exists.
    RepoSource { clone: String },
    /// Take over the settings.
    Common(CommonParams),
    InstallShrinkwrap(install_shrinkwrap::Params),
    ShrinkwrapBuild(shrinkwrap_build::Params),
    ShrinkwrapRun(shrinkwrap_run::Params),
    /// Check that the tools of the emulation environment are there.
    CheckCcaEmuPrereq,
    InstallCcaEmu(install_cca_emu::Params),
    UpdateCcaEmu(update_cca_emu::Params),
    RunCcaTest(run_cca_test::Params),
}

/// What a job is asked to do.
#[verifier::ext_equal]
pub enum RequestView {
    InitVersions,
    RepoSource { clone: Seq<char> },
    Common(CommonParams),
    InstallShrinkwrap(install_shrinkwrap::ParamsView),
    ShrinkwrapBuild(shrinkwrap_build::ParamsView),
    ShrinkwrapRun(shrinkwrap_run::ParamsView),
    CheckCcaEmuPrereq,
    InstallCcaEmu { test_root: Seq<char> },
    UpdateCcaEmu { test_root: Seq<char>, sub_cmds: update_cca_emu::SubCmdsView },
    RunCcaTest { test_root: Seq<char> },
}

impl View for Request {
    type V = RequestView;

    open spec fn view(&self) -> RequestView {
        match self {
            Request::InitVersions => RequestView::InitVersions,
            Request::RepoSource { clone } => RequestView::RepoSource { clone: clone@ },
            Request::Common(params) => RequestView::Common(*params),
            Request::InstallShrinkwrap(params) => RequestView::InstallShrinkwrap(params@),
            Request::ShrinkwrapBuild(params) => RequestView::ShrinkwrapBuild(params@),
            Request::ShrinkwrapRun(params) => RequestView::ShrinkwrapRun(params@),
            Request::CheckCcaEmuPrereq => RequestView::CheckCcaEmuPrereq,
            Request::InstallCcaEmu(params) => RequestView::InstallCcaEmu {
                test_root: params.test_root@,
            },
            Request::UpdateCcaEmu(params) => RequestView::UpdateCcaEmu {
                test_root: params.test_root@,
                sub_cmds: params.sub_cmds@,
            },
            Request::RunCcaTest(params) => RequestView::RunCcaTest {
                test_root: params.test_root@,
            },
        }
    }
}

/// A job that runs on the host.
#[derive(Debug)]
pub struct Job {
    pub name: String,
    pub requests: Vec<Request>,
}

/// A job that runs on the host.
#[verifier::ext_equal]
pub struct JobView {
    pub name: Seq<char>,
    pub requests: Seq<RequestView>,
}

impl View for Job {
    type V = JobView;

    open spec fn view(&self) -> JobView {
        JobView {
            name: self.name@,
            requests: Seq::new(self.requests@.len(), |i: int| self.requests@[i]@),
        }
    }
}

impl JobView {
    /// A job that is asked to do nothing.
    pub open spec fn named(name: Seq<char>) -> JobView {
        JobView { name, requests: Seq::empty() }
    }

    /// With one more request.
    pub open spec fn dep_on(self, request: RequestView) -> JobView {
        JobView { requests: self.requests.push(request), ..self }
    }

    /// With the requests that set up a local run.
    pub open spec fn local(
        self,
        repo_root: Seq<char>,
        auto_install: bool,
        verbose: bool,
    ) -> JobView {
        self.dep_on(RequestView::InitVersions).dep_on(
            RequestView::RepoSource { clone: repo_root },
        ).dep_on(RequestView::Common(local_params(auto_install, verbose)))
    }
}

impl Job {
    /// A job that is asked to do nothing.
    pub fn new(name: &str) -> (job: Job)
        ensures
            job@ == JobView::named(name@),
    {
        let job = Job { name: String::from_str(name), requests: Vec::new() };
        proof {
            assert(job@ =~= JobView::named(name@));
        }
        job
    }

    /// With one more request.
    pub fn dep_on(self, request: Request) -> (job: Job)
        ensures
            job@ == self@.dep_on(request@),
    {
        let mut job = self;
        job.requests.push(request);
        proof {
            assert(job@ =~= self@.dep_on(request@));
        }
        job
    }

    /// With the requests that set up a local run.
    pub fn local(self, repo_root: &str, auto_install: bool, verbose: bool) -> (job: Job)
        ensures
            job@ == self@.local(repo_root@, auto_install, verbose),
    {
        let params = CommonParams {
            interactive: true,
            auto_install,
            force_nuget_mono: false,
            external_nuget_auth: false,
            ignore_rust_version: true,
            verbose,
            locked: false,
            deny_warnings: false,
            no_incremental: false,
        };
        self.dep_on(Request::InitVersions).dep_on(
            Request::RepoSource { clone: String::from_str(repo_root) },
        ).dep_on(Request::Common(params))
    }
}

/// That a job waits for another.
#[derive(Clone, Copy, Debug, PartialEq, Eq, Structural)]
pub struct JobDep {
    /// The job that waits.
    pub job: usize,
    /// The job that it waits for.
    pub on: usize,
}

/// Jobs, and which of them wait for which.
#[derive(Debug)]
pub struct Pipeline {
    pub jobs: Vec<Job>,
    pub deps: Vec<JobDep>,
}

/// Jobs, and which of them wait for which.
#[verifier::ext_equal]
pub struct PipelineView {
    pub jobs: Seq<JobView>,
    pub deps: Seq<JobDep>,
}

impl View for Pipeline {
    type V = PipelineView;

    open spec fn view(&self) -> PipelineView {
        PipelineView {
            jobs: Seq::new(self.jobs@.len(), |i: int| self.jobs@[i]@),
            deps: self.deps@,
        }
    }
}

impl PipelineView {
    pub open spec fn empty() -> PipelineView {
        PipelineView { jobs: Seq::empty(), deps: Seq::empty() }
    }

    /// With one more job.
    pub open spec fn new_job(self, job: JobView) -> PipelineView {
        PipelineView { jobs: self.jobs.push(job), ..self }
    }

    /// With one job waiting for another.
    pub open spec fn non_artifact_dep(self, job: usize, on: usize) -> PipelineView {
        PipelineView { deps: self.deps.push(JobDep { job, on }), ..self }
    }

    /// That every job waits for earlier jobs only: the jobs can run in their
    /// order.
    pub open spec fn in_order(self) -> bool {
        forall|i: int|
            0 <= i < self.deps.len() ==> (#[trigger] self.deps[i]).on < self.deps[i].job
                && self.deps[i].job < self.jobs.len()
    }
}

impl Pipeline {
    pub fn new() -> (pipeline: Pipeline)
        ensures
            pipeline@ == PipelineView::empty(),
    {
        let pipeline = Pipeline { jobs: Vec::new(), deps: Vec::new() };
        proof {
            assert(pipeline@ =~= PipelineView::empty());
        }
        pipeline
    }

    /// Adds a job, and returns its number.
    pub fn new_job(&mut self, job: Job) -> (number: usize)
        ensures
            final(self)@ == old(self)@.new_job(job@),
            number == old(self)@.jobs.len(),
    {
        let ghost before = self@;
        let number: usize = self.jobs.len();
        self.jobs.push(job);
        proof {
            assert(self@ =~= before.new_job(job@));
        }
        number
    }

    /// Lets one job wait for another.
    pub fn non_artifact_dep(&mut self, job: usize, on: usize)
        ensures
            final(self)@ == old(self)@.non_artifact_dep(job, on),
    {
        let ghost before = self@;
        self.deps.push(JobDep { job, on });
        proof {
            assert(self@ =~= before.non_artifact_dep(job, on));
        }
    }
}

} // verus!
