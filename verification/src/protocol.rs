//! What the driver and the wrapper agree on: the names of flags and of
//! environment variables, the placeholder target, and the role that a process
//! takes.

use vstd::prelude::*;

verus! {

/// The flag that names the target of a compilation.
pub const TARGET_FLAG: &'static str = "--target";

/// The flag that names the sysroot of a compilation.
pub const SYSROOT_FLAG: &'static str = "--sysroot";

/// The target that stands in for the real one between the driver and the
/// wrapper. The wrapper puts the real target back before the compiler runs.
pub const PLACEHOLDER_TARGET: &'static str = "no_std-fake-target";

/// The environment variable whose presence makes a process a wrapper. It
/// holds the path of the synthetic sysroot.
pub const SYSROOT_VARIABLE: &'static str = "CARGO_NOSTD_CHECK";

/// The environment variable that holds the real target.
pub const TARGET_VARIABLE: &'static str = "CARGO_NOSTD_TARGET";

/// The environment variable by which the build orchestrator is told to run
/// this program in place of the compiler.
pub const WRAPPER_VARIABLE: &'static str = "RUSTC_WRAPPER";

/// The environment variable that may hold the path of the compiler to run.
pub const COMPILER_VARIABLE: &'static str = "RUSTC";

/// The environment variable that may hold the path of the build orchestrator
/// to run.
pub const ORCHESTRATOR_VARIABLE: &'static str = "CARGO";

/// The role of a process, fixed once at its start.
#[derive(Clone, Debug, PartialEq, Eq)]
pub enum Role {
    /// Prepares the synthetic sysroot and starts the build orchestrator.
    Driver,
    /// Stands in for the compiler, with the synthetic sysroot at `sysroot`.
    Wrapper { sysroot: String },
}

/// The role of a process, from what the environment holds under
/// [`SYSROOT_VARIABLE`]: a wrapper where the variable is there, with its
/// value as the sysroot, and the driver where it is not.
pub fn select_role(sentinel: Option<String>) -> (role: Role)
    ensures
        role == match sentinel {
            Some(sysroot) => Role::Wrapper { sysroot },
            None => Role::Driver,
        },
{
    match sentinel {
        Some(sysroot) => Role::Wrapper { sysroot },
        None => Role::Driver,
    }
}

} // verus!
