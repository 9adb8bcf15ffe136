//! Test microkernels: small guests that exercise a virtual machine monitor, and
//! the monitor's side of running them.

pub mod guest;
pub mod host_laws;
pub mod image;
pub mod image_laws;
pub mod laws;
pub mod load;
pub mod paravisor;
pub mod protocol;
pub mod ram;
pub mod run;
pub mod scope;
