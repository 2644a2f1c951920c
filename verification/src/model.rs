//! Mathematical model of a process and of the process table, and what each
//! operation does to it.

use vstd::prelude::*;
use crate::types::{Current, Errno, KThread, ProcId, ProcState, ProcStatus, ThreadExit, ThreadState, WaitOps, WaitProcId, WaitStep, IDLE_PID, INIT_PID};

verus! {

/// A process.
pub struct ProcView<D> {
    pub pid: ProcId,
    pub command: Seq<char>,
    pub threads: Map<u64, KThread>,
    pub children: Set<ProcId>,
    pub status: ProcStatus,
    pub state: ProcState,
    pub parent: Option<ProcId>,
    pub pagedir: D,
}

/// The process table.
pub struct TableView<D> {
    /// The processes that exist.
    pub procs: Map<ProcId, ProcView<D>>,
    /// The processes that can be looked up by their id.
    pub list: Set<ProcId>,
    /// The idle process, once it was made.
    pub idle: Option<ProcId>,
    /// The init process, from its making until it is collected.
    pub init: Option<ProcId>,
    /// Whether the start of the idle process was begun.
    pub idle_started: bool,
}

/// Whether `v` lists the elements of `s`, each once.
pub open spec fn lists<K>(v: Seq<K>, s: Set<K>) -> bool {
    &&& v.no_duplicates()
    &&& forall|k: K| #[trigger] v.contains(k) <==> s.contains(k)
}

/// A process as it is just after its making: no threads, no children, no parent.
pub open spec fn created<D>(pid: ProcId, command: Seq<char>, pagedir: D) -> ProcView<D> {
    ProcView {
        pid,
        command,
        threads: Map::empty(),
        children: Set::empty(),
        status: 0,
        state: ProcState::RUNNING,
        parent: None,
        pagedir,
    }
}

/// Whether every thread of `p` but `current_thread` has exited.
pub open spec fn threads_dead<D>(p: ProcView<D>, current_thread: u64) -> bool {
    forall|t: u64| #[trigger]
        p.threads.contains_key(t) && t != current_thread ==> p.threads[t].state
            == ThreadState::EXITED
}

/// Whether `e` is one of the orders by which `p` is killed with the exit value
/// `value`: every thread of `p` but the running one has to exit, and the running
/// thread too if `p` is the running process.
pub open spec fn is_kill_order<D>(
    p: ProcView<D>,
    current: Current,
    value: usize,
    e: ThreadExit,
) -> bool {
    &&& e.pid == p.pid
    &&& e.value == value
    &&& if e.thread == current.thread {
        p.pid == current.pid
    } else {
        p.threads.contains_key(e.thread)
    }
}

/// Whether `e` is one of the orders by which the process `current` kills all
/// processes with the exit value `value`. The idle and the init process are spared,
/// unless it is the running one.
pub open spec fn is_kill_all_order<D>(
    t: TableView<D>,
    current: Current,
    value: usize,
    e: ThreadExit,
) -> bool {
    &&& t.live(e.pid)
    &&& e.pid == current.pid || (e.pid != ProcId(IDLE_PID) && e.pid != ProcId(INIT_PID))
    &&& is_kill_order(t.procs[e.pid], current, value, e)
}

/// The exit value that stands for the exit status `status`.
pub open spec fn exit_value(status: ProcStatus) -> usize {
    status as usize
}

/// The exit status that stands for the exit value `value`.
pub open spec fn exit_status(value: usize) -> ProcStatus {
    value as isize
}

impl<D> TableView<D> {
    /// The table of a kernel in which no process was made yet.
    pub open spec fn empty() -> TableView<D> {
        TableView {
            procs: Map::empty(),
            list: Set::empty(),
            idle: None,
            init: None,
            idle_started: false,
        }
    }

    /// Whether the process `pid` exists.
    pub open spec fn live(self, pid: ProcId) -> bool {
        self.procs.contains_key(pid)
    }

    /// Well-formedness: processes are kept under their own ids, those and no others
    /// can be looked up, the links between parents and children agree, and only the
    /// idle process has no parent.
    pub open spec fn wf(self) -> bool {
        &&& forall|p: ProcId| #[trigger] self.live(p) ==> self.procs[p].pid == p
        &&& self.list == self.procs.dom()
        &&& forall|p: ProcId, c: ProcId|
            #![trigger self.procs[p].children.contains(c)]
            self.live(p) && self.procs[p].children.contains(c) ==> self.live(c)
                && self.procs[c].parent == Some(p)
        &&& forall|c: ProcId| #[trigger]
            self.live(c) ==> match self.procs[c].parent {
                Some(p) => self.live(p) && self.procs[p].children.contains(c),
                None => self.idle == Some(c),
            }
        &&& match self.idle {
            Some(p) => p == ProcId(IDLE_PID) && self.live(p) && self.procs[p].parent is None,
            None => self.procs.dom() == Set::<ProcId>::empty(),
        }
        &&& self.init matches Some(p) ==> self.live(p) && self.idle != Some(p)
        &&& self.live(ProcId(INIT_PID)) ==> self.init is Some
    }

    /// The table after the state of a thread has changed.
    pub open spec fn with_thread_state(
        self,
        pid: ProcId,
        thread: u64,
        state: ThreadState,
    ) -> TableView<D> {
        if self.live(pid) && self.procs[pid].threads.contains_key(thread) {
            let p = self.procs[pid];
            TableView {
                procs: self.procs.insert(
                    pid,
                    ProcView { threads: p.threads.insert(thread, KThread { state }), ..p },
                ),
                ..self
            }
        } else {
            self
        }
    }

    /// Whether `c` is a child of `p` that has exited.
    pub open spec fn dead_child(self, p: ProcId, c: ProcId) -> bool {
        self.procs[p].children.contains(c) && self.procs[c].state == ProcState::DEAD
    }

    /// The table after the process `p`, with the first thread `thread`, was made by
    /// the process `current`. The first process ever is the idle process, and the
    /// first one while there is no init process is the init process.
    pub open spec fn spawned(
        self,
        p: ProcView<D>,
        thread: u64,
        current: Option<ProcId>,
    ) -> TableView<D> {
        let is_idle = self.idle is None;
        let is_init = !is_idle && self.init is None;
        let parent = if is_idle {
            None
        } else {
            current
        };
        let made = ProcView {
            threads: p.threads.insert(thread, KThread { state: ThreadState::ACTIVE }),
            parent,
            ..p
        };
        let procs = match parent {
            Some(q) => self.procs.insert(
                q,
                ProcView { children: self.procs[q].children.insert(p.pid), ..self.procs[q] },
            ),
            None => self.procs,
        };
        TableView {
            procs: procs.insert(p.pid, made),
            list: self.list.insert(p.pid),
            idle: if is_idle {
                Some(p.pid)
            } else {
                self.idle
            },
            init: if is_init {
                Some(p.pid)
            } else {
                self.init
            },
            ..self
        }
    }

    /// The children that `pid` hands over to the init process when it exits: all of
    /// them, unless its parent is the idle process.
    pub open spec fn handed_over(self, pid: ProcId) -> Set<ProcId> {
        if self.procs[pid].parent == Some(ProcId(IDLE_PID)) {
            Set::empty()
        } else {
            self.procs[pid].children
        }
    }

    /// The process `k` after the process `pid` has exited with `status`.
    pub open spec fn after_exit(self, pid: ProcId, status: ProcStatus, k: ProcId) -> ProcView<D> {
        let p = self.procs[k];
        let moved = self.handed_over(pid);
        ProcView {
            status: if k == pid {
                status
            } else {
                p.status
            },
            state: if k == pid {
                ProcState::DEAD
            } else {
                p.state
            },
            parent: if moved.contains(k) {
                self.init
            } else {
                p.parent
            },
            children: if k == pid {
                p.children.difference(moved)
            } else if self.init == Some(k) {
                p.children.union(moved)
            } else {
                p.children
            },
            ..p
        }
    }

    /// The table after the process `pid` has exited with `status`.
    pub open spec fn exited(self, pid: ProcId, status: ProcStatus) -> TableView<D> {
        TableView {
            procs: Map::new(
                |k: ProcId| self.procs.contains_key(k),
                |k: ProcId| self.after_exit(pid, status, k),
            ),
            ..self
        }
    }

    /// Whether the process `pid` can exit: it is not the idle process, its parent is
    /// another process, and there is an init process for its children to go to. A
    /// child of the idle process has nowhere to send its children, and must have
    /// none; nor can init take over its own children.
    pub open spec fn can_exit(self, pid: ProcId) -> bool {
        &&& self.live(pid)
        &&& pid != ProcId(IDLE_PID)
        &&& self.procs[pid].parent is Some
        &&& self.procs[pid].parent != Some(pid)
        &&& if self.procs[pid].parent == Some(ProcId(IDLE_PID)) {
            self.procs[pid].children == Set::<ProcId>::empty()
        } else {
            &&& self.init is Some
            &&& self.init == Some(pid) ==> self.procs[pid].children == Set::<ProcId>::empty()
        }
    }

    /// The table after the process `p` has collected its child `c`.
    pub open spec fn reaped(self, p: ProcId, c: ProcId) -> TableView<D> {
        TableView {
            procs: self.procs.insert(
                p,
                ProcView { children: self.procs[p].children.remove(c), ..self.procs[p] },
            ).remove(c),
            list: self.list.remove(c),
            init: if c == ProcId(INIT_PID) {
                None
            } else {
                self.init
            },
            ..self
        }
    }

    /// Whether the table holds the only reference to the child `c` of `p` once it was
    /// taken from `p`'s children and from the list: it is not `p` itself, no child
    /// points back to it, and it is not kept as the init process under another id.
    pub open spec fn unshared(self, p: ProcId, c: ProcId) -> bool {
        &&& c != p
        &&& self.procs[c].children == Set::<ProcId>::empty()
        &&& self.init == Some(c) ==> c == ProcId(INIT_PID)
    }

    /// Whether whatever child `p` may collect by waiting for `who` can be destroyed.
    pub open spec fn can_reap(self, p: ProcId, who: WaitProcId) -> bool {
        match who {
            WaitProcId::Any => forall|c: ProcId| #[trigger]
                self.dead_child(p, c) ==> self.unshared(p, c),
            WaitProcId::Pid(c) => self.dead_child(p, c) ==> self.unshared(p, c),
        }
    }

    /// Whether `p` has no child that a wait for `who` could be about.
    pub open spec fn no_child(self, p: ProcId, who: WaitProcId) -> bool {
        match who {
            WaitProcId::Any => self.procs[p].children == Set::<ProcId>::empty(),
            WaitProcId::Pid(c) => !self.procs[p].children.contains(c),
        }
    }

    /// Whether a wait of `p` for `who` can be answered with `c`.
    pub open spec fn answers(self, p: ProcId, who: WaitProcId, c: ProcId) -> bool {
        self.dead_child(p, c) && (who matches WaitProcId::Pid(q) ==> q == c)
    }

    /// What one pass of a wait of `p` for `who` comes to, and the table after it. With
    /// unsupported options, or without a child to wait for, it fails. If there is a
    /// child that has exited, one such child is collected and its id and exit status
    /// are returned. Otherwise the process has to sleep.
    pub open spec fn wait_pass(
        self,
        p: ProcId,
        who: WaitProcId,
        options: WaitOps,
        step: WaitStep,
        after: TableView<D>,
    ) -> bool {
        match step {
            WaitStep::Done(Ok((c, status))) => {
                &&& options == 0
                &&& self.answers(p, who, c)
                &&& status == self.procs[c].status
                &&& after == self.reaped(p, c)
            },
            WaitStep::Done(Err(e)) => {
                &&& e == Errno::ECHILD
                &&& options != 0 || self.no_child(p, who)
                &&& after == self
            },
            WaitStep::Sleep => {
                &&& options == 0
                &&& !self.no_child(p, who)
                &&& forall|c: ProcId| !self.answers(p, who, c)
                &&& after == self
            },
        }
    }

    /// Whether no dead process has children, init aside, to which orphans go even when it
    /// is dead.
    pub open spec fn settled(self) -> bool {
        forall|p: ProcId| #[trigger]
            self.live(p) && self.procs[p].state == ProcState::DEAD && self.init != Some(p)
                ==> self.procs[p].children == Set::<ProcId>::empty()
    }

    /// Whether the init process, if there is one, has the id that is meant for it and is
    /// a child of the idle process.
    pub open spec fn init_placed(self) -> bool {
        self.init matches Some(p) ==> p == ProcId(INIT_PID) && self.procs[p].parent == Some(
            ProcId(IDLE_PID),
        )
    }

    /// Whether `rank` grows from every parent to its children.
    pub open spec fn ranked(self, rank: spec_fn(ProcId) -> nat) -> bool {
        forall|c: ProcId| #[trigger]
            self.live(c) ==> (self.procs[c].parent matches Some(p) ==> rank(p) < rank(c))
    }

    /// Whether no process is its own ancestor.
    pub open spec fn acyclic(self) -> bool {
        exists|rank: spec_fn(ProcId) -> nat| #[trigger] self.ranked(rank)
    }

    /// The ancestor of `p` that is `n` generations older.
    pub open spec fn ancestor(self, p: ProcId, n: nat) -> Option<ProcId>
        decreases n,
    {
        if n == 0 {
            Some(p)
        } else {
            match self.ancestor(p, (n - 1) as nat) {
                Some(q) => self.procs[q].parent,
                None => None,
            }
        }
    }
}

} // verus!
