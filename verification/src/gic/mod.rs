//! A software implementation of the parts of a GICv3 interrupt controller that
//! a guest without nested interrupt hardware needs.

pub mod delivery;
pub mod distributor;
pub mod interrupt;
pub mod laws;
pub mod model;
pub mod redistributor;
pub mod registers;
pub mod signals;
pub mod software_device;
pub mod state;
