//! The temporary memory cgroup: the bytes written to its control files and
//! the bounded retry of its removal.

use vstd::prelude::*;
use crate::decimal::{decimal, decimal_line, NEWLINE};

verus! {

/// Where the legacy memory controller is mounted.
pub const MEMORY_MOUNT: &'static str = "/sys/fs/cgroup/memory";

/// The start of each temporary cgroup's name; the rest is chosen at random.
pub const CGROUP_PREFIX: &'static str = "firefox.";

/// The control file that bounds the group's memory.
pub const LIMIT_FILE: &'static str = "memory.limit_in_bytes";

/// The control file that bounds the group's memory and swap together.
pub const MEMSW_LIMIT_FILE: &'static str = "memory.memsw.limit_in_bytes";

/// The control file that a process is moved into the group through.
pub const PROCS_FILE: &'static str = "cgroup.procs";

/// How many times removal of the group is tried.
pub const REMOVE_ATTEMPTS: u32 = 5;

/// One write into a control file of the group.
pub struct ControlWrite {
    /// The file's name inside the group's directory.
    pub file: &'static str,
    /// What is written to it.
    pub bytes: Vec<u8>,
}

/// The writes that install a memory limit of `mem` bytes, in order: the
/// memory bound, then the memory-and-swap bound, each the decimal count and
/// a newline.
pub fn limit_writes(mem: u64) -> (r: Vec<ControlWrite>)
    ensures
        r@.len() == 2,
        r@[0].file == LIMIT_FILE,
        r@[0].bytes@ == decimal(mem as nat).push(NEWLINE),
        r@[1].file == MEMSW_LIMIT_FILE,
        r@[1].bytes@ == decimal(mem as nat).push(NEWLINE),
{
    let mut r: Vec<ControlWrite> = Vec::new();
    r.push(ControlWrite { file: LIMIT_FILE, bytes: decimal_line(mem) });
    r.push(ControlWrite { file: MEMSW_LIMIT_FILE, bytes: decimal_line(mem) });
    r
}

/// The write that moves the process `pid` into the group: its id and a
/// newline, into the process list.
pub fn enter_write(pid: u64) -> (r: ControlWrite)
    ensures
        r.file == PROCS_FILE,
        r.bytes@ == decimal(pid as nat).push(NEWLINE),
{
    ControlWrite { file: PROCS_FILE, bytes: decimal_line(pid) }
}

/// What the remover does next.
#[derive(Clone, Copy, Debug, PartialEq, Eq, Structural)]
pub enum TeardownStep {
    /// Try to remove the directory now.
    Remove,
    /// Wait a second, then try to remove the directory.
    PauseThenRemove,
    /// Stop: the directory is gone, or every attempt has been spent.
    Finished,
}

/// What is reported after an attempt.
#[derive(Clone, Copy, Debug, PartialEq, Eq, Structural)]
pub enum TeardownNote {
    /// The directory was removed.
    Removed,
    /// Attempt `attempt` of `of` failed.
    Failed { attempt: u32, of: u32 },
}

/// The state of the group's removal: how many attempts were made, and
/// whether one succeeded.
pub struct Teardown {
    pub attempts: u32,
    pub removed: bool,
}

impl Teardown {
    /// No more than the allowed attempts, and none after a success.
    pub open spec fn wf(self) -> bool {
        &&& self.attempts <= REMOVE_ATTEMPTS
        &&& self.removed ==> self.attempts >= 1
    }

    pub open spec fn step_spec(self) -> TeardownStep {
        if self.removed || self.attempts >= REMOVE_ATTEMPTS {
            TeardownStep::Finished
        } else if self.attempts == 0 {
            TeardownStep::Remove
        } else {
            TeardownStep::PauseThenRemove
        }
    }

    /// Before the first attempt.
    pub fn new() -> (r: Teardown)
        ensures
            r.wf(),
            r.attempts == 0,
            !r.removed,
    {
        Teardown { attempts: 0, removed: false }
    }

    /// The first attempt comes at once, each later one after a pause; after
    /// a success, or after the last allowed attempt, nothing more is done.
    pub fn next_step(&self) -> (r: TeardownStep)
        ensures
            r == self.step_spec(),
    {
        if self.removed || self.attempts >= REMOVE_ATTEMPTS {
            TeardownStep::Finished
        } else if self.attempts == 0 {
            TeardownStep::Remove
        } else {
            TeardownStep::PauseThenRemove
        }
    }

    /// Records the result of the attempt that `next_step` asked for, and says
    /// what to report.
    pub fn record(&mut self, removed: bool) -> (note: TeardownNote)
        requires
            old(self).wf(),
            old(self).step_spec() != TeardownStep::Finished,
        ensures
            final(self).wf(),
            final(self).attempts == old(self).attempts + 1,
            final(self).removed == removed,
            removed ==> note == TeardownNote::Removed,
            !removed ==> note == (TeardownNote::Failed {
                attempt: final(self).attempts,
                of: REMOVE_ATTEMPTS,
            }),
    {
        self.attempts = self.attempts + 1;
        self.removed = removed;
        if removed {
            TeardownNote::Removed
        } else {
            TeardownNote::Failed { attempt: self.attempts, of: REMOVE_ATTEMPTS }
        }
    }
}

} // verus!
