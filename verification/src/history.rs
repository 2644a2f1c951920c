//! What holds of every table that a kernel can come to.

use vstd::prelude::*;
use crate::laws::{law_exit_keeps_acyclic, law_exit_keeps_settled, law_exit_keeps_wf, law_reap_keeps_acyclic, law_reap_keeps_settled, law_reap_keeps_wf, law_spawn_keeps_acyclic, law_spawn_keeps_settled, law_spawn_keeps_wf, law_thread_state_keeps_wf, law_waiting_is_safe};
use crate::model::{ProcView, TableView};
use crate::types::{Errno, ProcId, ProcState, ProcStatus, ThreadState, WaitProcId, WaitStep, IDLE_PID, INIT_PID};

verus! {

/// What can happen to a process table.
pub enum Event<D> {
    /// The start of the idle process is begun.
    Start,
    /// The process `proc`, with the thread `thread`, is made by `current`.
    Spawn { proc: ProcView<D>, thread: u64, current: Option<ProcId> },
    /// The process `pid` exits.
    Exit { pid: ProcId, status: ProcStatus },
    /// The process `parent` collects its child `child`.
    Reap { parent: ProcId, child: ProcId },
    /// The state of a thread changes.
    Thread { pid: ProcId, thread: u64, state: ThreadState },
}

impl<D> TableView<D> {
    /// The table after `event`.
    pub open spec fn after(self, event: Event<D>) -> TableView<D> {
        match event {
            Event::Start => TableView { idle_started: true, ..self },
            Event::Spawn { proc, thread, current } => self.spawned(proc, thread, current),
            Event::Exit { pid, status } => self.exited(pid, status),
            Event::Reap { parent, child } => self.reaped(parent, child),
            Event::Thread { pid, thread, state } => self.with_thread_state(pid, thread, state),
        }
    }

    /// Whether `event` can happen in a kernel in which only running processes act, init
    /// gets its own id and is made by the idle process, and init is not collected while it
    /// has children.
    pub open spec fn may(self, event: Event<D>) -> bool {
        match event {
            Event::Start => true,
            Event::Spawn { proc, thread, current } => {
                &&& !self.live(proc.pid)
                &&& proc.children == Set::<ProcId>::empty()
                &&& self.idle is None ==> proc.pid == ProcId(IDLE_PID)
                &&& self.idle is Some ==> current is Some && self.live(current->0)
                    && self.procs[current->0].state == ProcState::RUNNING
                &&& self.idle is Some && self.init is None ==> proc.pid == ProcId(INIT_PID)
                    && current == self.idle
            },
            Event::Exit { pid, status } => {
                &&& self.can_exit(pid)
                &&& self.procs[pid].state == ProcState::RUNNING
            },
            Event::Reap { parent, child } => {
                &&& self.live(parent)
                &&& self.procs[parent].state == ProcState::RUNNING
                &&& self.dead_child(parent, child)
                &&& self.init == Some(child) ==> self.procs[child].children == Set::<
                    ProcId,
                >::empty()
            },
            Event::Thread { .. } => true,
        }
    }

    /// What holds between any two events.
    pub open spec fn sound(self) -> bool {
        &&& self.wf()
        &&& self.settled()
        &&& self.init_placed()
        &&& self.acyclic()
    }
}

/// The table after the first `n` of `events`, starting without any process.
pub open spec fn table_after<D>(events: Seq<Event<D>>, n: nat) -> TableView<D>
    decreases n,
{
    if n == 0 {
        TableView::empty()
    } else {
        table_after(events, (n - 1) as nat).after(events[n - 1])
    }
}

/// Every event keeps the invariant.
pub proof fn law_events_keep_invariant<D>(t: TableView<D>, event: Event<D>)
    requires
        t.sound(),
        t.may(event),
    ensures
        t.after(event).sound(),
{
    match event {
        Event::Start => {
            let u = t.after(event);
            let rank = choose|rank: spec_fn(ProcId) -> nat| #[trigger] t.ranked(rank);
            assert(forall|p: ProcId| u.live(p) == t.live(p));
            assert(u.ranked(rank));
        },
        Event::Spawn { proc, thread, current } => {
            law_spawn_keeps_wf(t, proc, thread, current);
            law_spawn_keeps_settled(t, proc, thread, current);
            law_spawn_keeps_acyclic(t, proc, thread, current);
        },
        Event::Exit { pid, status } => {
            law_exit_keeps_wf(t, pid, status);
            law_exit_keeps_settled(t, pid, status);
            law_exit_keeps_acyclic(t, pid, status);
            if let Some(p) = t.init {
                if t.handed_over(pid).contains(p) {
                    assert(t.procs[pid].children.contains(p));
                }
            }
        },
        Event::Reap { parent, child } => {
            law_waiting_is_safe(t, parent, WaitProcId::Pid(child));
            law_reap_keeps_wf(t, parent, child);
            law_reap_keeps_settled(t, parent, child);
            law_reap_keeps_acyclic(t, parent, child);
        },
        Event::Thread { pid, thread, state } => {
            let u = t.after(event);
            law_thread_state_keeps_wf(t, pid, thread, state);
            let rank = choose|rank: spec_fn(ProcId) -> nat| #[trigger] t.ranked(rank);
            assert(forall|p: ProcId| u.live(p) == t.live(p));
            assert(u.ranked(rank));
            assert(u.settled());
        },
    }
}

/// The invariant holds in every table that a kernel can come to.
pub proof fn law_invariant_always_holds<D>(events: Seq<Event<D>>, n: nat)
    requires
        n <= events.len(),
        forall|i: nat| i < n ==> #[trigger] table_after(events, i).may(events[i as int]),
    ensures
        table_after(events, n).sound(),
    decreases n,
{
    if n == 0 {
        let t = TableView::<D>::empty();
        assert(t.procs.dom() =~= Set::empty());
        assert(t.list =~= t.procs.dom());
        assert(t.ranked(|p: ProcId| 0nat));
    } else {
        let m = (n - 1) as nat;
        law_invariant_always_holds(events, m);
        assert(table_after(events, m).may(events[m as int]));
        law_events_keep_invariant(table_after(events, m), events[m as int]);
    }
}

/// A dead process stays as it is, with its exit status, until it is collected; if its
/// parent exits before that, it becomes a child of init.
pub proof fn law_dead_process_waits<D>(t: TableView<D>, event: Event<D>, p: ProcId)
    requires
        t.sound(),
        t.may(event),
        t.live(p),
        t.procs[p].state == ProcState::DEAD,
        !(event matches Event::Reap { child, .. } && child == p),
    ensures
        t.after(event).live(p),
        t.after(event).procs[p].state == ProcState::DEAD,
        t.after(event).procs[p].status == t.procs[p].status,
        t.after(event).procs[p].parent == t.procs[p].parent || t.after(event).procs[p].parent
            == t.init,
{
    if let Event::Reap { parent, child } = event {
        law_waiting_is_safe(t, parent, WaitProcId::Pid(child));
    }
}

/// Whether the process `p` is collected by one of the events from `i` up to `j`.
pub open spec fn collected_between<D>(events: Seq<Event<D>>, i: nat, j: nat, p: ProcId) -> bool {
    exists|k: int|
        i <= k < j && (#[trigger] events[k] matches Event::Reap { child, .. } && child == p)
}

/// However many events come after the exit of a process, as long as it is not collected
/// it stays dead, with the status with which it exited.
pub proof fn law_status_is_kept<D>(events: Seq<Event<D>>, i: nat, j: nat, p: ProcId)
    requires
        i <= j <= events.len(),
        forall|k: nat| k < j ==> #[trigger] table_after(events, k).may(events[k as int]),
        table_after(events, i).live(p),
        table_after(events, i).procs[p].state == ProcState::DEAD,
        !collected_between(events, i, j, p),
    ensures
        table_after(events, j).live(p),
        table_after(events, j).procs[p].state == ProcState::DEAD,
        table_after(events, j).procs[p].status == table_after(events, i).procs[p].status,
    decreases j,
{
    if i < j {
        let k = (j - 1) as nat;
        assert(!collected_between(events, i, k, p)) by {
            if collected_between(events, i, k, p) {
                let m = choose|m: int|
                    i <= m < k && (#[trigger] events[m] matches Event::Reap { child, .. } && child
                        == p);
                assert(i <= m < j && events[m] is Reap);
            }
        }
        law_status_is_kept(events, i, k, p);
        law_invariant_always_holds(events, k);
        assert(table_after(events, k).may(events[k as int]));
        assert(!(events[k as int] matches Event::Reap { child, .. } && child == p));
        law_dead_process_waits(table_after(events, k), events[k as int], p);
    }
}

/// A process that has exited is collected, however much later, with the status of its
/// exit, by the process that is its parent then.
pub proof fn law_exit_status_reaches_waiter<D>(
    events: Seq<Event<D>>,
    i: nat,
    j: nat,
    c: ProcId,
    status: ProcStatus,
    p: ProcId,
    step: WaitStep,
    after: TableView<D>,
)
    requires
        i < j <= events.len(),
        forall|k: nat| k < j ==> #[trigger] table_after(events, k).may(events[k as int]),
        events[i as int] == (Event::<D>::Exit { pid: c, status }),
        !collected_between(events, i + 1, j, c),
        table_after(events, j).procs[c].parent == Some(p),
        table_after(events, j).wait_pass(p, WaitProcId::Pid(c), 0, step, after),
    ensures
        step == WaitStep::Done(Ok::<(ProcId, ProcStatus), Errno>((c, status))),
{
    let t = table_after(events, i);
    assert(t.may(events[i as int]));
    assert(table_after(events, i + 1) == t.exited(c, status));
    law_status_is_kept(events, i + 1, j, c);
    law_invariant_always_holds(events, j);
    let u = table_after(events, j);
    assert(u.live(c));
    assert(u.dead_child(p, c));
    assert(u.answers(p, WaitProcId::Pid(c), c));
}

/// Whether the process `p` exits by one of the events from `i` up to `j`.
pub open spec fn exits_between<D>(events: Seq<Event<D>>, i: nat, j: nat, p: ProcId) -> bool {
    exists|k: int| i <= k < j && (#[trigger] events[k] matches Event::Exit { pid, .. } && pid == p)
}

/// A child stays a child of its parent until the parent exits or the child is collected.
pub proof fn law_child_stays<D>(t: TableView<D>, event: Event<D>, p: ProcId, c: ProcId)
    requires
        t.sound(),
        t.may(event),
        t.live(p),
        t.procs[p].children.contains(c),
        !(event matches Event::Exit { pid, .. } && pid == p),
        !(event matches Event::Reap { child, .. } && child == c),
    ensures
        t.after(event).live(p),
        t.after(event).procs[p].children.contains(c),
{
    match event {
        Event::Reap { parent, child } => {
            assert(t.procs[parent].children.contains(child));
            if child == p {
                assert(t.procs[p].children == Set::<ProcId>::empty());
            }
        },
        _ => {},
    }
}

/// However many events come after, as long as the parent does not exit and the child is
/// not collected, the child stays a child of its parent.
pub proof fn law_child_is_kept<D>(events: Seq<Event<D>>, i: nat, j: nat, p: ProcId, c: ProcId)
    requires
        i <= j <= events.len(),
        forall|k: nat| k < j ==> #[trigger] table_after(events, k).may(events[k as int]),
        table_after(events, i).live(p),
        table_after(events, i).procs[p].children.contains(c),
        !exits_between(events, i, j, p),
        !collected_between(events, i, j, c),
    ensures
        table_after(events, j).live(p),
        table_after(events, j).procs[p].children.contains(c),
    decreases j,
{
    if i < j {
        let k = (j - 1) as nat;
        assert(!exits_between(events, i, k, p)) by {
            if exits_between(events, i, k, p) {
                let m = choose|m: int|
                    i <= m < k && (#[trigger] events[m] matches Event::Exit { pid, .. } && pid == p);
                assert(i <= m < j && events[m] is Exit);
            }
        }
        assert(!collected_between(events, i, k, c)) by {
            if collected_between(events, i, k, c) {
                let m = choose|m: int|
                    i <= m < k && (#[trigger] events[m] matches Event::Reap { child, .. } && child
                        == c);
                assert(i <= m < j && events[m] is Reap);
            }
        }
        law_child_is_kept(events, i, k, p, c);
        law_invariant_always_holds(events, k);
        assert(table_after(events, k).may(events[k as int]));
        assert(!(events[k as int] matches Event::Exit { pid, .. } && pid == p));
        assert(!(events[k as int] matches Event::Reap { child, .. } && child == c));
        law_child_stays(table_after(events, k), events[k as int], p, c);
    }
}

/// A wait for a child that was found once does not fail after a sleep: as long as the
/// parent does not exit and the child is not collected, each further pass collects the
/// child or sleeps again.
pub proof fn law_resumed_wait_finds_child<D>(
    events: Seq<Event<D>>,
    i: nat,
    j: nat,
    p: ProcId,
    c: ProcId,
    step: WaitStep,
    after: TableView<D>,
)
    requires
        i <= j <= events.len(),
        forall|k: nat| k < j ==> #[trigger] table_after(events, k).may(events[k as int]),
        table_after(events, i).live(p),
        table_after(events, i).procs[p].children.contains(c),
        !exits_between(events, i, j, p),
        !collected_between(events, i, j, c),
        table_after(events, j).wait_pass(p, WaitProcId::Pid(c), 0, step, after),
    ensures
        step == WaitStep::Sleep || step == WaitStep::Done(
            Ok::<(ProcId, ProcStatus), Errno>((c, table_after(events, j).procs[c].status)),
        ),
{
    law_child_is_kept(events, i, j, p, c);
}

} // verus!
