//! The end of processes.

use vstd::prelude::*;
use crate::collect::{lemma_concat, lemma_step};
use crate::kproc::KProc;
use crate::laws::law_exit_keeps_wf;
use crate::model::{exit_status, exit_value, is_kill_all_order, lists, threads_dead, ProcView, TableView};
use crate::table::ProcTable;
use crate::types::{Current, ProcId, ProcStatus, ThreadExit, IDLE_PID, INIT_PID};

verus! {

/// The process `k` when, in the course of the exit of `pid` with `status`, the
/// children in `moved` have been handed over to the init process.
spec fn mid_exit<D>(
    t: TableView<D>,
    pid: ProcId,
    status: ProcStatus,
    moved: Seq<ProcId>,
    k: ProcId,
) -> ProcView<D> {
    let p = t.after_exit(pid, status, k);
    ProcView {
        parent: if moved.contains(k) {
            t.init
        } else {
            t.procs[k].parent
        },
        children: if k == pid {
            p.children
        } else if t.init == Some(k) {
            t.procs[k].children.union(moved.to_set())
        } else {
            t.procs[k].children
        },
        ..p
    }
}

impl<D> KProc<D> {
    /// This is a callback by the running thread when it exits with the value `exit`. If it
    /// was the last thread of its process, what can be cleaned up is cleaned up, and the
    /// process whose wait queue is to be signaled is returned. If another thread still
    /// lives, nothing happens.
    pub fn thread_exited(
        table: &mut ProcTable<D>,
        this: ProcId,
        current: Current,
        exit: usize,
    ) -> (parent: Option<ProcId>)
        requires
            old(table)@.wf(),
            old(table)@.live(this),
            old(table)@.procs[this].threads.contains_key(current.thread),
            threads_dead(old(table)@.procs[this], current.thread) ==> this == current.pid && old(
                table,
            )@.can_exit(this),
        ensures
            final(table)@.wf(),
            if threads_dead(old(table)@.procs[this], current.thread) {
                &&& parent is Some
                &&& parent == old(table)@.procs[this].parent
                &&& final(table)@ == old(table)@.exited(this, exit_status(exit))
            } else {
                &&& parent is None
                &&& final(table)@ == old(table)@
            },
    {
        if table.find(this).unwrap().all_threads_dead(current.thread) {
            let status: isize = #[verifier::truncate] (exit as isize);
            Some(KProc::cleanup(table, this, current.pid, status))
        } else {
            None
        }
    }

    /// This cleans up any parts of the process we can before being waited for: it is dead
    /// from now on, and its children become children of the init process. Returns the
    /// parent, whose wait queue is to be signaled.
    pub fn cleanup(
        table: &mut ProcTable<D>,
        this: ProcId,
        current: ProcId,
        status: ProcStatus,
    ) -> (parent: ProcId)
        requires
            old(table)@.wf(),
            old(table)@.can_exit(this),
            this == current,
        ensures
            final(table)@.wf(),
            final(table)@ == old(table)@.exited(this, status),
            old(table)@.procs[this].parent == Some(parent),
    {
        let ghost t = table@;
        let mut p = table.take(this);
        let parent = p.get_parent().unwrap();
        p.set_dead(status);
        if parent == ProcId(IDLE_PID) {
            table.put(this, p);
            proof {
                assert(table@.procs =~= t.exited(this, status).procs) by {
                    assert forall|k: ProcId| t.live(k) implies #[trigger] table@.procs[k]
                        == t.after_exit(this, status, k) by {
                        let q = t.procs[k];
                        assert(q.children.difference(Set::empty()) =~= q.children);
                        assert(q.children.union(Set::empty()) =~= q.children);
                    }
                }
                law_exit_keeps_wf(t, this, status);
            }
            return parent;
        }
        let children: Vec<ProcId> = p.list_children();
        p.clear_children();
        table.put(this, p);
        let init = table.init().unwrap();
        proof {
            assert forall|k: ProcId| t.live(k) implies #[trigger] table@.procs[k] == mid_exit(
                t,
                this,
                status,
                children@.take(0),
                k,
            ) by {
                let q = t.procs[k];
                assert(q.children.difference(q.children) =~= Set::empty());
                assert(q.children.union(children@.take(0).to_set()) =~= q.children);
            }
        }
        for i in 0..children.len()
            invariant
                t.wf(),
                t.can_exit(this),
                t.procs[this].parent != Some(ProcId(IDLE_PID)),
                t.init == Some(init),
                lists(children@, t.procs[this].children),
                table@ == (TableView { procs: table@.procs, ..t }),
                forall|k: ProcId| t.live(k) <==> #[trigger] table@.procs.contains_key(k),
                forall|k: ProcId|
                    t.live(k) ==> #[trigger] table@.procs[k] == mid_exit(
                        t,
                        this,
                        status,
                        children@.take(i as int),
                        k,
                    ),
        {
            let ghost before = table@;
            proof {
                lemma_step(children@, i as int);
                assert(t.procs[this].children.contains(children@[i as int]));
            }
            let mut child = table.take(children[i]);
            child.set_parent(Some(init));
            table.put(children[i], child);
            let mut new_parent = table.take(init);
            new_parent.add_child(children[i]);
            table.put(init, new_parent);
            proof {
                assert forall|k: ProcId| t.live(k) implies #[trigger] table@.procs[k] == mid_exit(
                    t,
                    this,
                    status,
                    children@.take(i + 1),
                    k,
                ) by {
                    let q = t.procs[k];
                    assert(q.children.union(children@.take(i + 1).to_set()) =~= q.children.union(
                        children@.take(i as int).to_set(),
                    ).insert(children@[i as int]));
                }
            }
        }
        proof {
            children@.lemma_take_len();
            assert(children@.to_set() =~= t.handed_over(this));
            assert(table@.procs =~= t.exited(this, status).procs) by {
                assert forall|k: ProcId| t.live(k) implies #[trigger] table@.procs[k]
                    == t.after_exit(this, status, k) by {
                    assert(table@.procs[k] == mid_exit(t, this, status, children@, k));
                }
            }
            law_exit_keeps_wf(t, this, status);
        }
        parent
    }

    /// Whether the running thread belongs to the process `this` and, if it is the last one,
    /// the process can exit.
    pub fn check_thread_exited(table: &ProcTable<D>, this: ProcId, current: Current) -> (allowed:
        bool)
        ensures
            allowed == {
                &&& table@.live(this)
                &&& table@.procs[this].threads.contains_key(current.thread)
                &&& threads_dead(table@.procs[this], current.thread) ==> this == current.pid
                    && table@.can_exit(this)
            },
    {
        let p = match table.find(this) {
            Some(p) => p,
            None => {
                return false;
            },
        };
        if !p.has_thread(current.thread) {
            return false;
        }
        if !p.all_threads_dead(current.thread) {
            return true;
        }
        let parent = match p.get_parent() {
            Some(parent) => parent,
            None => {
                return false;
            },
        };
        let takeover = if parent == ProcId(IDLE_PID) {
            p.is_childless()
        } else {
            match table.init() {
                Some(init) => init != this || p.is_childless(),
                None => false,
            }
        };
        this != ProcId(IDLE_PID) && parent != this && takeover && this == current.pid
    }

    /// The orders by which the running process kills all processes with the exit status
    /// `canceled`, the one that stands for a canceled operation. The idle and the init
    /// process are spared, and the running process comes last, with the running thread
    /// last of all.
    pub fn kill_all(table: &ProcTable<D>, current: Current, canceled: ProcStatus) -> (orders: Vec<
        ThreadExit,
    >)
        requires
            table@.wf(),
            table@.live(current.pid),
        ensures
            forall|e: ThreadExit| #[trigger]
                orders@.contains(e) <==> is_kill_all_order(
                    table@,
                    current,
                    exit_value(canceled),
                    e,
                ),
            forall|p: ProcId, t: u64|
                #![trigger table@.procs[p].threads.contains_key(t)]
                table@.procs.contains_key(p) && table@.procs[p].threads.contains_key(t) && t
                    != current.thread && (p == current.pid || (p != ProcId(0) && p != ProcId(1)))
                    ==> orders@.contains(
                    ThreadExit { pid: p, thread: t, value: canceled as usize },
                ),
            forall|e: ThreadExit| #[trigger]
                orders@.contains(e) ==> {
                    &&& e.pid == current.pid || (e.pid != ProcId(0) && e.pid != ProcId(1))
                    &&& e.value == canceled as usize
                    &&& e.thread == current.thread ==> e.pid == current.pid
                    &&& e.thread != current.thread ==> table@.procs[e.pid].threads.contains_key(
                        e.thread,
                    )
                },
            orders@.no_duplicates(),
            forall|i: int, j: int|
                0 <= i < j < orders@.len() && (#[trigger] orders@[i]).pid == current.pid
                    ==> (#[trigger] orders@[j]).pid == current.pid,
            orders@.len() > 0,
            orders@.last().thread == current.thread,
    {
        let ghost value = exit_value(canceled);
        let ids: Vec<ProcId> = table.list_procs();
        let mut orders: Vec<ThreadExit> = Vec::new();
        for i in 0..ids.len()
            invariant
                table@.wf(),
                value == exit_value(canceled),
                lists(ids@, table@.list),
                forall|e: ThreadExit| #[trigger]
                    orders@.contains(e) <==> {
                        &&& e.pid != current.pid
                        &&& ids@.take(i as int).contains(e.pid)
                        &&& is_kill_all_order(table@, current, value, e)
                    },
                orders@.no_duplicates(),
        {
            proof {
                lemma_step(ids@, i as int);
            }
            let candidate = table.find(ids[i]).unwrap();
            let pid = candidate.get_pid();
            if !candidate.is_current_process(current.pid) && pid != ProcId(IDLE_PID) && pid
                != ProcId(INIT_PID) {
                let mut more: Vec<ThreadExit> = candidate.kill(current, canceled);
                proof {
                    lemma_concat(orders@, more@);
                }
                orders.append(&mut more);
            }
        }
        let mut own: Vec<ThreadExit> = table.find(current.pid).unwrap().kill(current, canceled);
        proof {
            ids@.lemma_take_len();
            lemma_concat(orders@, own@);
            assert forall|i: int| 0 <= i < orders@.len() implies (#[trigger] orders@[i]).pid
                != current.pid by {
                assert(orders@.contains(orders@[i]));
            }
            assert forall|i: int| 0 <= i < own@.len() implies (#[trigger] own@[i]).pid
                == current.pid by {
                assert(own@.contains(own@[i]));
            }
        }
        orders.append(&mut own);
        assert(forall|p: ProcId| #[trigger]
            table@.procs.contains_key(p) ==> table@.live(p) && table@.procs[p].pid == p);
        orders
    }
}

} // verus!
