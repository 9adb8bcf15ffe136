//! A software GICv3, the Arm CCA plane support that drives it, and the tooling
//! around the test microkernel that exercises both.
//!
//! Everything here is verified: each function carries a contract over the
//! mathematical model of its type.

pub mod bits;
pub mod bytes;
pub mod cca;
pub mod flow;
pub mod gic;
pub mod memory_range;
pub mod rsi;
pub mod sysreg;
pub mod text;
pub mod tmk;
pub mod topology;
