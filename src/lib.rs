//! A launcher that runs a program inside a temporary memory cgroup.
//!
//! The library holds the decisions of the launch: reading a size token,
//! the bytes written to the cgroup's control files, the steps of the child
//! before it becomes the target program, the supervisor's reading of a wait
//! status and the bounded retry of the cgroup's removal. The program around
//! it performs the system calls.

use vstd::prelude::*;

pub mod decimal;
pub mod size;
pub mod cgroup;
pub mod launch;

verus! {

} // verus!
