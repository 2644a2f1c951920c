//! What holds of the process table as a whole.

use vstd::prelude::*;
use crate::model::{created, exit_status, exit_value, is_kill_order, ProcView, TableView};
use crate::spawn::{Answer, NewAnswers};
use crate::types::{Current, Errno, KThread, ProcId, ProcState, ProcStatus, ThreadExit, ThreadState, WaitOps, WaitProcId, WaitStep, IDLE_PID};

verus! {

/// The making of a process keeps the table well-formed.
pub proof fn law_spawn_keeps_wf<D>(
    t: TableView<D>,
    p: ProcView<D>,
    thread: u64,
    current: Option<ProcId>,
)
    requires
        t.wf(),
        !t.live(p.pid),
        p.children == Set::<ProcId>::empty(),
        t.idle is None ==> p.pid == ProcId(IDLE_PID),
        t.idle is Some ==> current is Some && t.live(current->0),
    ensures
        t.spawned(p, thread, current).wf(),
{
    let u = t.spawned(p, thread, current);
    assert(u.list =~= u.procs.dom());
    assert forall|c: ProcId| #[trigger] u.live(c) implies match u.procs[c].parent {
        Some(q) => u.live(q) && u.procs[q].children.contains(c),
        None => u.idle == Some(c),
    } by {
        if c != p.pid {
            assert(t.live(c));
        }
    }
    assert forall|q: ProcId, c: ProcId|
        #![trigger u.procs[q].children.contains(c)]
        u.live(q) && u.procs[q].children.contains(c) implies u.live(c) && u.procs[c].parent == Some(
        q,
    ) by {
        if q != p.pid && c != p.pid {
            assert(t.live(q));
            assert(t.procs[q].children.contains(c));
        }
        if q != p.pid && c == p.pid && t.idle is Some && q != current->0 {
            assert(t.procs[q].children.contains(c));
        }
    }
    assert forall|q: ProcId| #[trigger] u.live(q) implies u.procs[q].pid == q by {
        if q != p.pid {
            assert(t.live(q));
        }
    }
}

/// The collection of a dead child keeps the table well-formed.
pub proof fn law_reap_keeps_wf<D>(t: TableView<D>, p: ProcId, c: ProcId)
    requires
        t.wf(),
        t.live(p),
        t.dead_child(p, c),
        t.unshared(p, c),
    ensures
        t.reaped(p, c).wf(),
{
    let u = t.reaped(p, c);
    assert(u.list =~= u.procs.dom());
    assert forall|k: ProcId| #[trigger] u.live(k) implies u.procs[k].pid == k by {
        assert(t.live(k));
    }
    assert forall|k: ProcId| #[trigger] u.live(k) implies match u.procs[k].parent {
        Some(q) => u.live(q) && u.procs[q].children.contains(k),
        None => u.idle == Some(k),
    } by {
        assert(t.live(k));
        if t.procs[k].parent == Some(c) {
            assert(t.procs[c].children.contains(k));
        }
    }
    assert forall|q: ProcId, k: ProcId|
        #![trigger u.procs[q].children.contains(k)]
        u.live(q) && u.procs[q].children.contains(k) implies u.live(k) && u.procs[k].parent == Some(
        q,
    ) by {
        assert(t.live(q));
        assert(t.procs[q].children.contains(k));
        assert(t.procs[p].children.contains(c));
    }
    assert(t.procs[p].children.contains(c));
    assert(t.procs[c].parent == Some(p));
}

/// The exit of a process keeps the table well-formed.
pub proof fn law_exit_keeps_wf<D>(t: TableView<D>, pid: ProcId, status: ProcStatus)
    requires
        t.wf(),
        t.can_exit(pid),
    ensures
        t.exited(pid, status).wf(),
{
    let u = t.exited(pid, status);
    let moved = t.handed_over(pid);
    assert(u.procs.dom() =~= t.procs.dom());
    assert forall|k: ProcId| #[trigger] u.live(k) implies u.procs[k].pid == k by {
        assert(t.live(k));
    }
    assert forall|k: ProcId| #[trigger] u.live(k) implies match u.procs[k].parent {
        Some(q) => u.live(q) && u.procs[q].children.contains(k),
        None => u.idle == Some(k),
    } by {
        assert(t.live(k));
        if moved.contains(k) {
            assert(t.procs[pid].children.contains(k));
        }
    }
    assert forall|q: ProcId, k: ProcId|
        #![trigger u.procs[q].children.contains(k)]
        u.live(q) && u.procs[q].children.contains(k) implies u.live(k) && u.procs[k].parent == Some(
        q,
    ) by {
        assert(t.live(q));
        assert(t.procs[q].children.contains(k) || moved.contains(k));
        if moved.contains(k) {
            assert(t.procs[pid].children.contains(k));
        }
    }
    assert(forall|p: ProcId| t.live(p) == u.live(p));
    if let Some(p) = t.idle {
        if moved.contains(p) {
            assert(t.procs[pid].children.contains(p));
        }
    }
}

/// A change in the state of a thread keeps the table well-formed.
pub proof fn law_thread_state_keeps_wf<D>(
    t: TableView<D>,
    pid: ProcId,
    thread: u64,
    state: ThreadState,
)
    requires
        t.wf(),
    ensures
        t.with_thread_state(pid, thread, state).wf(),
{
    let u = t.with_thread_state(pid, thread, state);
    assert(u.procs.dom() =~= t.procs.dom());
    assert(forall|k: ProcId| u.live(k) == t.live(k));
    assert forall|q: ProcId, k: ProcId|
        #![trigger u.procs[q].children.contains(k)]
        u.live(q) && u.procs[q].children.contains(k) implies u.live(k) && u.procs[k].parent == Some(
        q,
    ) by {
        assert(t.procs[q].children.contains(k));
    }
}

/// The making of a process by a running process leaves no dead process with children,
/// init aside.
pub proof fn law_spawn_keeps_settled<D>(
    t: TableView<D>,
    p: ProcView<D>,
    thread: u64,
    current: Option<ProcId>,
)
    requires
        t.settled(),
        p.children == Set::<ProcId>::empty(),
        t.idle is Some ==> current is Some && t.live(current->0) && t.procs[current->0].state
            == ProcState::RUNNING,
    ensures
        t.spawned(p, thread, current).settled(),
{
    let u = t.spawned(p, thread, current);
    assert forall|q: ProcId| #[trigger]
        u.live(q) && u.procs[q].state == ProcState::DEAD && u.init != Some(
            q,
        ) implies u.procs[q].children == Set::<ProcId>::empty() by {
        if q != p.pid {
            assert(t.live(q));
        }
    }
}

/// The exit of a process leaves no dead process with children, init aside.
pub proof fn law_exit_keeps_settled<D>(t: TableView<D>, pid: ProcId, status: ProcStatus)
    requires
        t.wf(),
        t.settled(),
        t.can_exit(pid),
    ensures
        t.exited(pid, status).settled(),
{
    let u = t.exited(pid, status);
    assert forall|q: ProcId| #[trigger]
        u.live(q) && u.procs[q].state == ProcState::DEAD && u.init != Some(
            q,
        ) implies u.procs[q].children == Set::<ProcId>::empty() by {
        assert(t.live(q));
        if q == pid {
            assert(u.procs[q].children =~= Set::empty());
        }
    }
}

/// The collection of a child leaves no dead process with children, init aside, provided
/// that init has its own id.
pub proof fn law_reap_keeps_settled<D>(t: TableView<D>, p: ProcId, c: ProcId)
    requires
        t.settled(),
        t.init_placed(),
        t.live(p),
    ensures
        t.reaped(p, c).settled(),
{
    let u = t.reaped(p, c);
    assert forall|q: ProcId| #[trigger]
        u.live(q) && u.procs[q].state == ProcState::DEAD && u.init != Some(
            q,
        ) implies u.procs[q].children == Set::<ProcId>::empty() by {
        assert(t.live(q));
        assert(u.procs[q].children =~= Set::empty());
    }
}

/// Every running process other than idle can wait for any of its children: a child that
/// was collected is referred to by nobody. So can idle, unless the wait may be answered
/// with init and init has children.
pub proof fn law_waiting_is_safe<D>(t: TableView<D>, p: ProcId, who: WaitProcId)
    requires
        t.wf(),
        t.settled(),
        t.init_placed(),
        t.live(p),
        t.procs[p].state == ProcState::RUNNING,
        p == ProcId(IDLE_PID) ==> (t.init matches Some(q) ==> t.answers(p, who, q)
            ==> t.procs[q].children == Set::<ProcId>::empty()),
    ensures
        t.can_reap(p, who),
{
    assert forall|c: ProcId| #[trigger] t.dead_child(p, c) && t.answers(
        p,
        who,
        c,
    ) implies t.unshared(p, c) by {
        assert(t.procs[p].children.contains(c));
        assert(t.live(c));
    }
    if who == WaitProcId::Any {
        assert forall|c: ProcId| #[trigger] t.dead_child(p, c) implies t.unshared(p, c) by {
            assert(t.answers(p, who, c));
        }
    }
}

/// The first thread of a process is made with the page directory of the process, and is
/// its only thread: `pagedir` is what the request for the thread hands over.
pub proof fn law_thread_has_own_pagedir<D>(
    t: TableView<D>,
    name: Seq<char>,
    current: Option<ProcId>,
    answers: NewAnswers<D>,
    pagedir: D,
)
    requires
        answers.granted(),
        answers.room == Answer::Granted(pagedir),
    ensures
        ({
            let pid = answers.pid->Granted_0;
            let thread = answers.thread->Granted_0;
            let p = t.spawned(
                created(pid, name, answers.room->Granted_0),
                thread,
                current,
            ).procs[pid];
            &&& p.pagedir == pagedir
            &&& p.threads == map![thread => KThread { state: ThreadState::ACTIVE }]
        }),
{
    let pid = answers.pid->Granted_0;
    let thread = answers.thread->Granted_0;
    let u = t.spawned(created(pid, name, answers.room->Granted_0), thread, current);
    assert(u.procs[pid].threads =~= map![thread => KThread { state: ThreadState::ACTIVE }]);
}

/// The making of a process does not make any process its own ancestor.
pub proof fn law_spawn_keeps_acyclic<D>(
    t: TableView<D>,
    p: ProcView<D>,
    thread: u64,
    current: Option<ProcId>,
)
    requires
        t.wf(),
        t.acyclic(),
        !t.live(p.pid),
        t.idle is Some ==> current is Some && t.live(current->0),
    ensures
        t.spawned(p, thread, current).acyclic(),
{
    let u = t.spawned(p, thread, current);
    let rank = choose|rank: spec_fn(ProcId) -> nat| #[trigger] t.ranked(rank);
    let above: nat = if current is Some {
        rank(current->0) + 1
    } else {
        0
    };
    let next = |k: ProcId|
        if k == p.pid {
            above
        } else {
            rank(k)
        };
    assert forall|c: ProcId| #[trigger] u.live(c) implies (u.procs[c].parent matches Some(q)
        ==> next(q) < next(c)) by {
        if c != p.pid {
            assert(t.live(c));
        }
    }
    assert(u.ranked(next));
}

/// The exit of a process does not make any process its own ancestor, provided that init
/// is a child of the idle process.
pub proof fn law_exit_keeps_acyclic<D>(t: TableView<D>, pid: ProcId, status: ProcStatus)
    requires
        t.wf(),
        t.acyclic(),
        t.init_placed(),
        t.can_exit(pid),
    ensures
        t.exited(pid, status).acyclic(),
{
    let u = t.exited(pid, status);
    let rank = choose|rank: spec_fn(ProcId) -> nat| #[trigger] t.ranked(rank);
    let next = |k: ProcId|
        if t.idle == Some(k) {
            0nat
        } else if t.init == Some(k) {
            1nat
        } else {
            rank(k) + 2
        };
    assert forall|c: ProcId| #[trigger] u.live(c) implies (u.procs[c].parent matches Some(q)
        ==> next(q) < next(c)) by {
        assert(t.live(c));
        if t.handed_over(pid).contains(c) {
            assert(t.procs[pid].children.contains(c));
        }
    }
    assert(u.ranked(next));
}

/// The collection of a child does not make any process its own ancestor.
pub proof fn law_reap_keeps_acyclic<D>(t: TableView<D>, p: ProcId, c: ProcId)
    requires
        t.acyclic(),
        t.live(p),
    ensures
        t.reaped(p, c).acyclic(),
{
    let u = t.reaped(p, c);
    let rank = choose|rank: spec_fn(ProcId) -> nat| #[trigger] t.ranked(rank);
    assert forall|k: ProcId| #[trigger] u.live(k) implies (u.procs[k].parent matches Some(q)
        ==> rank(q) < rank(k)) by {
        assert(t.live(k));
    }
    assert(u.ranked(rank));
}

/// Where no process is its own ancestor, every process descends from the idle process.
pub proof fn law_all_descend_from_idle<D>(t: TableView<D>, p: ProcId)
    requires
        t.wf(),
        t.acyclic(),
        t.live(p),
    ensures
        exists|n: nat| #[trigger] t.ancestor(p, n) == Some(ProcId(IDLE_PID)),
{
    let rank = choose|rank: spec_fn(ProcId) -> nat| #[trigger] t.ranked(rank);
    lemma_descends(t, rank, p, p, 0);
}

proof fn lemma_descends<D>(
    t: TableView<D>,
    rank: spec_fn(ProcId) -> nat,
    p: ProcId,
    q: ProcId,
    n: nat,
)
    requires
        t.wf(),
        t.ranked(rank),
        t.live(q),
        t.ancestor(p, n) == Some(q),
    ensures
        exists|m: nat| #[trigger] t.ancestor(p, m) == Some(ProcId(IDLE_PID)),
    decreases rank(q),
{
    match t.procs[q].parent {
        Some(r) => {
            assert(t.ancestor(p, n + 1) == Some(r));
            lemma_descends(t, rank, p, r, n + 1);
        },
        None => {},
    }
}

/// A parent that waits for its child gets the status with which the child has exited.
pub proof fn law_wait_returns_exit_status<D>(
    t: TableView<D>,
    p: ProcId,
    c: ProcId,
    status: ProcStatus,
    step: WaitStep,
    after: TableView<D>,
)
    requires
        t.wf(),
        t.can_exit(c),
        t.procs[c].parent == Some(p),
        t.exited(c, status).wait_pass(p, WaitProcId::Pid(c), 0, step, after),
    ensures
        step == WaitStep::Done(Ok::<(ProcId, ProcStatus), Errno>((c, status))),
        after == t.exited(c, status).reaped(p, c),
{
    let u = t.exited(c, status);
    assert(t.live(c));
    assert(!t.handed_over(c).contains(p) || t.procs[p].parent == Some(c)) by {
        if t.handed_over(c).contains(p) {
            assert(t.procs[c].children.contains(p));
        }
    }
    assert(u.dead_child(p, c));
    assert(u.answers(p, WaitProcId::Pid(c), c));
}

/// Once a child has exited, a wait of its parent for any child does not sleep, and
/// collects a child that has exited.
pub proof fn law_exit_ends_wait<D>(
    t: TableView<D>,
    p: ProcId,
    c: ProcId,
    status: ProcStatus,
    step: WaitStep,
    after: TableView<D>,
)
    requires
        t.wf(),
        t.can_exit(c),
        t.procs[c].parent == Some(p),
        t.exited(c, status).wait_pass(p, WaitProcId::Any, 0, step, after),
    ensures
        step matches WaitStep::Done(Ok((k, s))) && t.exited(c, status).dead_child(p, k) && s
            == t.exited(c, status).procs[k].status,
{
    let u = t.exited(c, status);
    assert(t.live(c));
    assert(u.dead_child(p, c));
    assert(u.answers(p, WaitProcId::Any, c));
}

/// An exit value stands for the exit status that it was made from.
pub proof fn law_exit_value_round_trip(status: ProcStatus)
    ensures
        exit_status(exit_value(status)) == status,
{
    assert((status as usize) as isize == status) by (bit_vector);
}

/// A parent that waits for a child that obeyed an order to be killed gets the status
/// that the kill was about.
pub proof fn law_wait_returns_kill_status<D>(
    t: TableView<D>,
    p: ProcId,
    c: ProcId,
    current: Current,
    status: ProcStatus,
    e: ThreadExit,
    step: WaitStep,
    after: TableView<D>,
)
    requires
        t.wf(),
        t.can_exit(c),
        t.procs[c].parent == Some(p),
        is_kill_order(t.procs[c], current, exit_value(status), e),
        t.exited(c, exit_status(e.value)).wait_pass(p, WaitProcId::Pid(c), 0, step, after),
    ensures
        step == WaitStep::Done(Ok::<(ProcId, ProcStatus), Errno>((c, status))),
{
    law_exit_value_round_trip(status);
    law_wait_returns_exit_status(t, p, c, status, step, after);
}

/// A process that was collected is gone: it does not exist, it cannot be looked up, it
/// is not the init process, and no process has it as a parent or as a child.
pub proof fn law_collected_is_gone<D>(t: TableView<D>, p: ProcId, c: ProcId)
    requires
        t.wf(),
        t.live(p),
        t.dead_child(p, c),
        t.unshared(p, c),
    ensures
        !t.reaped(p, c).live(c),
        !t.reaped(p, c).list.contains(c),
        t.reaped(p, c).idle != Some(c),
        t.reaped(p, c).init != Some(c),
        forall|k: ProcId| #[trigger]
            t.reaped(p, c).live(k) ==> t.reaped(p, c).procs[k].parent != Some(c)
                && !t.reaped(p, c).procs[k].children.contains(c),
{
    let u = t.reaped(p, c);
    law_reap_keeps_wf(t, p, c);
    assert(t.procs[p].children.contains(c));
    assert forall|k: ProcId| #[trigger] u.live(k) implies u.procs[k].parent != Some(c)
        && !u.procs[k].children.contains(c) by {
        if u.procs[k].children.contains(c) {
            assert(u.live(c));
        }
    }
}

/// The collection of a process touches no other process but its parent, of which it
/// changes the children only.
pub proof fn law_reap_changes_nothing_else<D>(t: TableView<D>, p: ProcId, c: ProcId, k: ProcId)
    requires
        t.live(p),
        t.live(k),
        c != p,
        k != c,
    ensures
        t.reaped(p, c).live(k),
        k != p ==> t.reaped(p, c).procs[k] == t.procs[k],
        t.reaped(p, c).procs[p] == (ProcView {
            children: t.procs[p].children.remove(c),
            ..t.procs[p]
        }),
{
}

/// A child can be collected only once: a second wait for it fails.
pub proof fn law_wait_once<D>(
    t: TableView<D>,
    p: ProcId,
    c: ProcId,
    step: WaitStep,
    after: TableView<D>,
)
    requires
        t.wf(),
        t.live(p),
        t.dead_child(p, c),
        t.unshared(p, c),
        t.reaped(p, c).wait_pass(p, WaitProcId::Pid(c), 0, step, after),
    ensures
        step == WaitStep::Done(Err::<(ProcId, ProcStatus), Errno>(Errno::ECHILD)),
        after == t.reaped(p, c),
{
    assert(!t.reaped(p, c).procs[p].children.contains(c));
}

/// A process that was just made is a running child of the process that made it; it can
/// be looked up, and a wait for it sleeps.
pub proof fn law_wait_for_new_child_sleeps<D>(
    t: TableView<D>,
    p: ProcView<D>,
    thread: u64,
    q: ProcId,
    step: WaitStep,
    after: TableView<D>,
)
    requires
        t.wf(),
        t.idle is Some,
        t.live(q),
        !t.live(p.pid),
        p.state == ProcState::RUNNING,
        t.spawned(p, thread, Some(q)).wait_pass(q, WaitProcId::Pid(p.pid), 0, step, after),
    ensures
        t.spawned(p, thread, Some(q)).live(p.pid),
        t.spawned(p, thread, Some(q)).list.contains(p.pid),
        t.spawned(p, thread, Some(q)).procs[p.pid].parent == Some(q),
        step == WaitStep::Sleep,
        after == t.spawned(p, thread, Some(q)),
{
    let u = t.spawned(p, thread, Some(q));
    assert(u.procs[q].children.contains(p.pid));
    assert(!u.dead_child(q, p.pid));
}

/// What a wait for one process comes to is determined by the table.
pub proof fn law_wait_for_one_is_determined<D>(
    t: TableView<D>,
    p: ProcId,
    c: ProcId,
    options: WaitOps,
    step1: WaitStep,
    after1: TableView<D>,
    step2: WaitStep,
    after2: TableView<D>,
)
    requires
        t.wait_pass(p, WaitProcId::Pid(c), options, step1, after1),
        t.wait_pass(p, WaitProcId::Pid(c), options, step2, after2),
    ensures
        step1 == step2,
        after1 == after2,
{
    assert(t.answers(p, WaitProcId::Pid(c), c) == t.dead_child(p, c));
}

/// The idle process is never collected.
pub proof fn law_idle_is_never_collected<D>(
    t: TableView<D>,
    p: ProcId,
    who: WaitProcId,
    options: WaitOps,
    step: WaitStep,
    after: TableView<D>,
)
    requires
        t.wf(),
        t.live(p),
        t.wait_pass(p, who, options, step, after),
    ensures
        step matches WaitStep::Done(Ok((c, _))) ==> c != ProcId(IDLE_PID),
{
    if let WaitStep::Done(Ok((c, _))) = step {
        assert(t.procs[p].children.contains(c));
        assert(t.procs[c].parent == Some(p));
    }
}

/// No process is lost or gained when a process exits, and the children of one whose
/// parent is not the idle process all become children of init, which keeps its own.
pub proof fn law_orphans_go_to_init<D>(t: TableView<D>, pid: ProcId, status: ProcStatus)
    requires
        t.wf(),
        t.can_exit(pid),
    ensures
        t.exited(pid, status).procs.dom() == t.procs.dom(),
        t.exited(pid, status).procs[pid].children == Set::<ProcId>::empty(),
        t.procs[pid].parent != Some(ProcId(IDLE_PID)) && t.init != Some(pid) ==> {
            &&& t.exited(pid, status).procs[t.init->0].children == t.procs[t.init->0].children.union(
                t.procs[pid].children,
            )
            &&& forall|c: ProcId| #[trigger]
                t.procs[pid].children.contains(c) ==> t.exited(pid, status).procs[c].parent
                    == t.init
        },
{
    let u = t.exited(pid, status);
    assert(u.procs.dom() =~= t.procs.dom());
    assert(t.live(pid));
    assert(u.procs[pid].children =~= Set::empty());
    if t.procs[pid].parent != Some(ProcId(IDLE_PID)) && t.init != Some(pid) {
        assert(t.live(t.init->0));
    }
}

/// The first process is the idle process, and the first one that is made while there is
/// no init process is the init process.
pub proof fn law_first_processes<D>(
    t: TableView<D>,
    p: ProcView<D>,
    thread: u64,
    current: Option<ProcId>,
)
    ensures
        t.idle is None ==> t.spawned(p, thread, current).idle == Some(p.pid) && t.spawned(
            p,
            thread,
            current,
        ).init == t.init,
        t.idle is Some && t.init is None ==> t.spawned(p, thread, current).init == Some(p.pid)
            && t.spawned(p, thread, current).idle == t.idle,
        t.idle is Some && t.init is Some ==> t.spawned(p, thread, current).init == t.init
            && t.spawned(p, thread, current).idle == t.idle,
{
}

/// A wait cannot be canceled: with a child to wait for, no pass of it fails.
pub proof fn law_wait_cannot_be_canceled<D>(
    t: TableView<D>,
    p: ProcId,
    who: WaitProcId,
    step: WaitStep,
    after: TableView<D>,
)
    requires
        !t.no_child(p, who),
        t.wait_pass(p, who, 0, step, after),
    ensures
        step == WaitStep::Sleep || step matches WaitStep::Done(Ok(_)),
{
}

} // verus!
