//! Checks that a library builds without the standard runtime library: an
//! argument-list editor, the plan of a filtered compiler sysroot, and the
//! decisions of the driver and wrapper phases that swap a placeholder target
//! for the real one.

pub mod text;
pub mod args;
pub mod sysroot;
pub mod toolchain;
pub mod protocol;
pub mod wrapper;
pub mod driver;

