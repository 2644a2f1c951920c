//! Identifiers, states and errors of the process table.

use vstd::prelude::*;

verus! {

/// The slot of thread-specific data that refers to the running thread's process.
pub const CUR_PROC_SLOT: usize = 1;

/// The slot of thread-specific data that holds the running thread's process id.
pub const CUR_PID_SLOT: usize = 2;

/// What a thread keeps in one of its slots.
#[derive(Clone, Copy, Debug, PartialEq, Eq, Structural)]
pub enum SlotValue {
    /// A reference to the thread itself.
    Thread(u64),
    /// A reference to its process, which does not keep the process alive.
    Proc(ProcId),
    /// The id of its process.
    Pid(ProcId),
}

/// A process id.
#[derive(Clone, Copy, Debug, PartialEq, Eq, Structural, Hash)]
pub struct ProcId(pub u32);

/// The number of the idle process, the first one that is made.
pub const IDLE_PID: u32 = 0;

/// The number of the init process, which takes over orphaned processes.
pub const INIT_PID: u32 = 1;

/// Whether a process still runs or waits to be collected by its parent.
#[derive(Clone, Copy, Debug, PartialEq, Eq, Structural)]
pub enum ProcState {
    RUNNING,
    DEAD,
}

/// The exit status of a process.
pub type ProcStatus = isize;

/// The child processes that a call of `waitpid` is about.
#[derive(Clone, Copy, Debug, PartialEq, Eq, Structural)]
pub enum WaitProcId {
    Any,
    Pid(ProcId),
}

/// The options of `waitpid`; only 0 is supported.
pub type WaitOps = u32;

/// The errors of waiting for a child.
#[derive(Clone, Copy, Debug, PartialEq, Eq, Structural)]
pub enum Errno {
    /// There is no child to wait for.
    ECHILD,
    /// The sleep on the wait queue was interrupted. The search for a child can end with
    /// this; `waitpid` itself never does.
    ECANCELED,
}

/// What a pass of `waitpid` comes to.
#[derive(Clone, Copy, Debug, PartialEq, Eq)]
pub enum WaitStep {
    /// Nothing to collect yet: sleep on the process's wait queue.
    Sleep,
    /// The call is over, with this result.
    Done(Result<(ProcId, ProcStatus), Errno>),
}

impl WaitStep {
    /// The id of the child that was collected, and with that destroyed; it goes back to
    /// the source of process ids.
    pub fn released(&self) -> (id: Option<ProcId>)
        ensures
            id == match *self {
                WaitStep::Done(Ok((c, _))) => Some(c),
                _ => None,
            },
    {
        match self {
            WaitStep::Done(Ok((c, _))) => Some(*c),
            _ => None,
        }
    }
}

/// How a sleep on a wait queue ended.
#[derive(Clone, Copy, Debug, PartialEq, Eq, Structural)]
pub enum Wakeup {
    /// The queue was signaled.
    Signaled,
    /// The sleep was interrupted.
    Interrupted,
}

/// Memory, or a process id, could not be had.
#[derive(Clone, Copy, Debug, PartialEq, Eq, Structural)]
pub struct AllocError;

/// A value, or the failure to allocate it.
pub type Allocation<T> = Result<T, AllocError>;

/// What the process table knows of a thread's scheduling state.
#[derive(Clone, Copy, Debug, PartialEq, Eq, Structural)]
pub enum ThreadState {
    /// The thread may still run.
    ACTIVE,
    /// The thread has exited.
    EXITED,
}

/// A thread, as its process sees it.
#[derive(Clone, Copy, Debug, PartialEq, Eq, Structural)]
pub struct KThread {
    pub state: ThreadState,
}

/// The context that is running: its process and its thread.
#[derive(Clone, Copy, Debug, PartialEq, Eq, Structural)]
pub struct Current {
    pub pid: ProcId,
    pub thread: u64,
}

/// An order to a thread to exit with the given value.
#[derive(Clone, Copy, Debug, PartialEq, Eq, Structural)]
pub struct ThreadExit {
    pub pid: ProcId,
    pub thread: u64,
    pub value: usize,
}

} // verus!
