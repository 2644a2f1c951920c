//! A single process.

use std::collections::{HashMap, HashSet};
use vstd::prelude::*;
use crate::collect::{ids_of, keys_of, lemma_push, lemma_step};
use crate::model::{created, exit_value, is_kill_order, lists, threads_dead, ProcView};
use crate::types::{Allocation, AllocError, Current, KThread, ProcId, ProcState, ProcStatus, ThreadExit, ThreadState};

verus! {

/// A process whose address space is described by a page directory of type `D`.
pub struct KProc<D> {
    pid: ProcId,
    command: String,
    threads: HashMap<u64, KThread>,
    children: HashSet<u32>,
    status: ProcStatus,
    state: ProcState,
    parent: Option<ProcId>,
    pagedir: D,
}

impl<D> View for KProc<D> {
    type V = ProcView<D>;

    closed spec fn view(&self) -> ProcView<D> {
        ProcView {
            pid: self.pid,
            command: self.command@,
            threads: self.threads@,
            children: Set::new(|p: ProcId| self.children@.contains(p.0)),
            status: self.status,
            state: self.state,
            parent: self.parent,
            pagedir: self.pagedir,
        }
    }
}

/// Two processes are equal if they have the same id.
impl<D> PartialEq for KProc<D> {
    fn eq(&self, other: &KProc<D>) -> (equal: bool) {
        self.pid == other.pid
    }
}

impl<D> vstd::std_specs::cmp::PartialEqSpecImpl for KProc<D> {
    open spec fn obeys_eq_spec() -> bool {
        true
    }

    open spec fn eq_spec(&self, other: &KProc<D>) -> bool {
        self@.pid == other@.pid
    }
}

impl<D> KProc<D> {
    /// The base creation function for a process. This should not generally be used.
    ///
    /// `pid` is what the source of process ids gave out. `room` is the new page
    /// directory, if there was memory for it, for the maps of threads and children and
    /// for the wait queue. If there was a process id but no room, the id is lost.
    pub fn create(pid: Option<ProcId>, name: String, room: Allocation<D>) -> (made: Allocation<
        KProc<D>,
    >)
        ensures
            match (pid, room) {
                (Some(p), Ok(pagedir)) => made is Ok && made->Ok_0@ == created(p, name@, pagedir),
                _ => made == Err::<KProc<D>, AllocError>(AllocError),
            },
    {
        let pid = match pid {
            Some(p) => p,
            None => {
                return Err(AllocError);
            },
        };
        let pagedir = match room {
            Ok(d) => d,
            Err(_) => {
                return Err(AllocError);
            },
        };
        let made = KProc {
            pid,
            command: name,
            threads: HashMap::new(),
            children: HashSet::new(),
            status: 0,
            state: ProcState::RUNNING,
            parent: None,
            pagedir,
        };
        assert(made@.children =~= Set::empty());
        Ok(made)
    }

    /// The id of this process.
    pub fn get_pid(&self) -> (pid: ProcId)
        ensures
            pid == self@.pid,
    {
        self.pid
    }

    /// The page directory of this process.
    pub fn get_pagedir(&self) -> (pagedir: &D)
        ensures
            *pagedir == self@.pagedir,
    {
        &self.pagedir
    }

    /// The name of this process.
    pub fn get_command(&self) -> (command: &String)
        ensures
            command@ == self@.command,
    {
        &self.command
    }

    /// Checks if this process is the one that is running.
    pub fn is_current_process(&self, current: ProcId) -> (is_current: bool)
        ensures
            is_current == (current == self@.pid),
    {
        current == self.pid
    }

    /// Destroys this process. What is left of it is its id, which goes back to the
    /// source of process ids.
    pub fn release(self) -> (pid: ProcId)
        ensures
            pid == self@.pid,
    {
        self.pid
    }

    /// Whether every thread but `current_thread` has exited.
    pub fn all_threads_dead(&self, current_thread: u64) -> (dead: bool)
        ensures
            dead == threads_dead(self@, current_thread),
    {
        for (t, thread) in it: self.threads.iter()
            invariant
                forall|i: int|
                    0 <= i < it.index() && *(#[trigger] it.seq()[i]).0 != current_thread
                        ==> it.seq()[i].1.state == ThreadState::EXITED,
        {
            if *t != current_thread && thread.state != ThreadState::EXITED {
                assert(self@.threads.contains_key(*t));
                return false;
            }
        }
        true
    }

    /// The orders by which all threads of this process are made to exit with `status`.
    /// The running thread, if it belongs to this process, comes last: it does not
    /// return from its exit.
    ///
    /// This has nothing to do with signals and kill(1).
    pub fn kill(&self, current: Current, status: ProcStatus) -> (orders: Vec<ThreadExit>)
        ensures
            forall|e: ThreadExit| #[trigger]
                orders@.contains(e) <==> is_kill_order(self@, current, exit_value(status), e),
            forall|t: u64| #[trigger]
                self@.threads.contains_key(t) && t != current.thread ==> orders@.contains(
                    ThreadExit { pid: self@.pid, thread: t, value: status as usize },
                ),
            forall|e: ThreadExit| #[trigger]
                orders@.contains(e) ==> {
                    &&& e.pid == self@.pid
                    &&& e.value == status as usize
                    &&& e.thread == current.thread ==> self@.pid == current.pid
                    &&& e.thread != current.thread ==> self@.threads.contains_key(e.thread)
                },
            orders@.no_duplicates(),
            self@.pid == current.pid ==> orders@.len() > 0 && orders@.last().thread
                == current.thread,
    {
        let value: usize = #[verifier::truncate] (status as usize);
        let threads: Vec<u64> = keys_of(&self.threads);
        let mut orders: Vec<ThreadExit> = Vec::new();
        for i in 0..threads.len()
            invariant
                lists(threads@, self.threads@.dom()),
                forall|e: ThreadExit| #[trigger]
                    orders@.contains(e) <==> e.thread != current.thread && e == (ThreadExit {
                        pid: self.pid,
                        thread: e.thread,
                        value,
                    }) && threads@.take(i as int).contains(e.thread),
                orders@.no_duplicates(),
        {
            proof {
                lemma_step(threads@, i as int);
                lemma_push(orders@, ThreadExit { pid: self.pid, thread: threads@[i as int], value });
            }
            if threads[i] != current.thread {
                orders.push(ThreadExit { pid: self.pid, thread: threads[i], value });
            }
        }
        proof {
            threads@.lemma_take_len();
            lemma_push(orders@, ThreadExit { pid: self.pid, thread: current.thread, value });
        }
        if self.is_current_process(current.pid) {
            orders.push(ThreadExit { pid: self.pid, thread: current.thread, value });
        }
        orders
    }

    /// Whether this process runs or is dead.
    pub fn get_state(&self) -> (state: ProcState)
        ensures
            state == self@.state,
    {
        self.state
    }

    /// The exit status of this process.
    pub fn get_status(&self) -> (status: ProcStatus)
        ensures
            status == self@.status,
    {
        self.status
    }

    /// The parent of this process.
    pub fn get_parent(&self) -> (parent: Option<ProcId>)
        ensures
            parent == self@.parent,
    {
        self.parent
    }

    /// Whether this process has no children.
    pub fn is_childless(&self) -> (childless: bool)
        ensures
            childless == (self@.children == Set::<ProcId>::empty()),
    {
        proof {
            if self.children@ =~= Set::empty() {
                assert(self@.children =~= Set::empty());
            } else {
                let c = choose|c: u32| self.children@.contains(c);
                assert(self@.children.contains(ProcId(c)));
            }
        }
        self.children.is_empty()
    }

    /// Whether `c` is a child of this process.
    pub fn has_child(&self, c: ProcId) -> (has: bool)
        ensures
            has == self@.children.contains(c),
    {
        self.children.contains(&c.0)
    }

    /// Whether `t` is a thread of this process.
    pub fn has_thread(&self, t: u64) -> (has: bool)
        ensures
            has == self@.threads.contains_key(t),
    {
        self.threads.contains_key(&t)
    }

    /// The children of this process, in no particular order.
    pub fn list_children(&self) -> (ids: Vec<ProcId>)
        ensures
            lists(ids@, self@.children),
    {
        ids_of(&self.children)
    }

    pub(crate) fn set_parent(&mut self, parent: Option<ProcId>)
        ensures
            final(self)@ == (ProcView { parent, ..old(self)@ }),
    {
        self.parent = parent;
        assert(self@.children =~= old(self)@.children);
    }

    pub(crate) fn set_dead(&mut self, status: ProcStatus)
        ensures
            final(self)@ == (ProcView { status, state: ProcState::DEAD, ..old(self)@ }),
    {
        self.status = status;
        self.state = ProcState::DEAD;
        assert(self@.children =~= old(self)@.children);
    }

    pub(crate) fn add_child(&mut self, c: ProcId)
        ensures
            final(self)@ == (ProcView { children: old(self)@.children.insert(c), ..old(self)@ }),
    {
        self.children.insert(c.0);
        assert(self@.children =~= old(self)@.children.insert(c));
    }

    pub(crate) fn remove_child(&mut self, c: ProcId)
        ensures
            final(self)@ == (ProcView { children: old(self)@.children.remove(c), ..old(self)@ }),
    {
        self.children.remove(&c.0);
        assert(self@.children =~= old(self)@.children.remove(c));
    }

    pub(crate) fn clear_children(&mut self)
        ensures
            final(self)@ == (ProcView { children: Set::empty(), ..old(self)@ }),
    {
        self.children.clear();
        assert(self@.children =~= Set::empty());
    }

    pub(crate) fn clear_threads(&mut self)
        ensures
            final(self)@ == (ProcView { threads: Map::empty(), ..old(self)@ }),
    {
        self.threads.clear();
        assert(self@.children =~= old(self)@.children);
    }

    pub(crate) fn add_thread(&mut self, t: u64, thread: KThread)
        ensures
            final(self)@ == (ProcView { threads: old(self)@.threads.insert(t, thread), ..old(self)@ }),
    {
        self.threads.insert(t, thread);
        assert(self@.children =~= old(self)@.children);
    }
}

} // verus!
