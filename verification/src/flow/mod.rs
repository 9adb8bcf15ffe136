//! The jobs that set up an emulated CCA machine and run tests on it: what each
//! has to do, for the host to carry out.

pub mod cca_fvp;
pub mod cca_tests;
pub mod install_cca_emu;
pub mod install_laws;
pub mod install_shrinkwrap;
pub mod kernel;
pub mod laws;
pub mod path;
pub mod pipeline;
pub mod plan;
pub mod prereq;
pub mod repo;
pub mod request_laws;
pub mod rootfs;
pub mod run_cca_test;
pub mod shrinkwrap_build;
pub mod shrinkwrap_run;
pub mod update_cca_emu;
pub mod venv;
