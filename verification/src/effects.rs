//! What each operation does, field by field: which processes it touches, which of their
//! fields it changes, and when it succeeds. The statements speak of the fields of the
//! table and of processes directly.

use vstd::prelude::*;
use vstd::std_specs::cmp::PartialEqSpec;
use crate::kproc::KProc;
use crate::model::{created, exit_status, exit_value, is_kill_all_order, is_kill_order, lists, threads_dead, ProcView, TableView};
use crate::spawn::{Answer, NewAnswers};
use crate::types::{Current, Errno, ProcId, ProcState, ProcStatus, ThreadExit, ThreadState, WaitOps, WaitProcId, WaitStep};

verus! {

/// A process that was created has the id, the name and the page directory that were asked
/// for, the status 0, and neither threads nor children nor a parent; it runs.
pub proof fn law_created_fields<D>(pid: ProcId, name: Seq<char>, pagedir: D)
    ensures
        created(pid, name, pagedir).pid == pid,
        created(pid, name, pagedir).command == name,
        created(pid, name, pagedir).pagedir == pagedir,
        created(pid, name, pagedir).status == 0,
        created(pid, name, pagedir).state == ProcState::RUNNING,
        created(pid, name, pagedir).parent is None,
        forall|t: u64| !created(pid, name, pagedir).threads.contains_key(t),
        forall|c: ProcId| !created(pid, name, pagedir).children.contains(c),
{
}

/// Whoever makes it, a process that was made has the id, the name and the page directory
/// that were asked for, runs with the status 0, and has one active thread and no children.
/// The process that made it is its parent, except for the first process, which has none.
pub proof fn law_spawn_makes_what_was_asked<D>(
    t: TableView<D>,
    pid: ProcId,
    name: Seq<char>,
    pagedir: D,
    thread: u64,
    current: Option<ProcId>,
)
    ensures
        ({
            let p = t.spawned(created(pid, name, pagedir), thread, current).procs[pid];
            &&& p.pid == pid
            &&& p.command == name
            &&& p.pagedir == pagedir
            &&& p.status == 0
            &&& p.state == ProcState::RUNNING
            &&& forall|c: ProcId| !p.children.contains(c)
            &&& forall|x: u64| p.threads.contains_key(x) <==> x == thread
            &&& p.threads[thread].state == ThreadState::ACTIVE
            &&& t.idle is None ==> p.parent is None
            &&& t.idle is Some ==> p.parent == current
        }),
{
}

/// The making of a process adds that process, and it can be looked up. Of the processes
/// that existed it changes only the children of the one that made it, which the new
/// process joins.
pub proof fn law_spawn_touches_only_the_maker<D>(
    t: TableView<D>,
    pid: ProcId,
    name: Seq<char>,
    pagedir: D,
    thread: u64,
    current: Option<ProcId>,
    k: ProcId,
)
    requires
        !t.procs.contains_key(pid),
        t.idle is Some ==> current is Some && t.procs.contains_key(current->0),
    ensures
        ({
            let u = t.spawned(created(pid, name, pagedir), thread, current);
            &&& u.procs.contains_key(k) <==> t.procs.contains_key(k) || k == pid
            &&& u.list.contains(k) <==> t.list.contains(k) || k == pid
            &&& t.procs.contains_key(k) ==> {
                &&& u.procs[k].pid == t.procs[k].pid
                &&& u.procs[k].command == t.procs[k].command
                &&& u.procs[k].threads == t.procs[k].threads
                &&& u.procs[k].status == t.procs[k].status
                &&& u.procs[k].state == t.procs[k].state
                &&& u.procs[k].parent == t.procs[k].parent
                &&& u.procs[k].pagedir == t.procs[k].pagedir
            }
            &&& t.procs.contains_key(k) ==> forall|c: ProcId| #[trigger]
                u.procs[k].children.contains(c) <==> t.procs[k].children.contains(c) || (c == pid
                    && t.idle is Some && current == Some(k))
            &&& u.idle_started == t.idle_started
        }),
{
    let u = t.spawned(created(pid, name, pagedir), thread, current);
    assert(u.procs.contains_key(k) <==> t.procs.contains_key(k) || k == pid);
}

/// The first process is remembered as the idle process, the first one made while there is
/// an idle process but no init process as the init process; otherwise neither changes.
pub proof fn law_spawn_names_idle_and_init<D>(
    t: TableView<D>,
    pid: ProcId,
    name: Seq<char>,
    pagedir: D,
    thread: u64,
    current: Option<ProcId>,
)
    ensures
        ({
            let u = t.spawned(created(pid, name, pagedir), thread, current);
            &&& t.idle is None ==> u.idle == Some(pid) && u.init == t.init
            &&& t.idle is Some ==> u.idle == t.idle
            &&& t.idle is Some && t.init is None ==> u.init == Some(pid)
            &&& t.idle is Some && t.init is Some ==> u.init == t.init
        }),
{
}

/// A process is made exactly when each of the six requests was granted; it has been built
/// as soon as the first two were. The requests stop at the first one that was denied.
pub proof fn law_making_needs_every_grant<D>(a: NewAnswers<D>)
    ensures
        a.granted() <==> a.pid is Granted && a.room is Granted && a.cell is Granted
            && a.thread is Granted && a.slots is Granted && a.entry is Granted,
        a.prepared() <==> a.pid is Granted && a.room is Granted && a.cell is Granted
            && a.thread is Granted && a.slots is Granted,
        a.built() <==> a.pid is Granted && a.room is Granted,
        a.denied() <==> match (a.pid, a.room, a.cell, a.thread, a.slots, a.entry) {
            (Answer::Denied, _, _, _, _, _) => true,
            (Answer::Pending, _, _, _, _, _) => false,
            (_, Answer::Denied, _, _, _, _) => true,
            (_, Answer::Pending, _, _, _, _) => false,
            (_, _, Answer::Denied, _, _, _) => true,
            (_, _, Answer::Pending, _, _, _) => false,
            (_, _, _, Answer::Denied, _, _) => true,
            (_, _, _, Answer::Pending, _, _) => false,
            (_, _, _, _, Answer::Denied, _) => true,
            (_, _, _, _, Answer::Pending, _) => false,
            (_, _, _, _, _, answer) => answer is Denied,
        },
{
}

/// What the making of a process asks of the table: the id is not in use; and, if it comes
/// as far as an entry for the thread, the first process gets the id 0 and any other one is
/// made by a process that exists.
pub proof fn law_making_needs_of_the_table<D>(
    t: TableView<D>,
    current: Option<ProcId>,
    a: NewAnswers<D>,
)
    ensures
        t.can_spawn(current, a) <==> {
            &&& forall|p: ProcId| a.pid == Answer::Granted(p) ==> !#[trigger] t.procs.contains_key(p)
            &&& a.pid is Granted && a.room is Granted && a.cell is Granted && a.thread is Granted
                && a.slots is Granted ==> {
                &&& t.idle is None ==> a.pid == Answer::Granted(ProcId(0))
                &&& t.idle is Some ==> current is Some && t.procs.contains_key(current->0)
            }
        },
{
    if let Answer::Granted(p) = a.pid {
        assert(t.live(p) == t.procs.contains_key(p));
    }
}

/// Only the process that exits dies: it is dead with the given status, and the state and
/// the status of every other process are what they were. No process changes its id, its
/// name, its threads or its page directory.
pub proof fn law_exit_kills_only_itself<D>(
    t: TableView<D>,
    pid: ProcId,
    status: ProcStatus,
    k: ProcId,
)
    requires
        t.procs.contains_key(k),
    ensures
        t.exited(pid, status).procs.contains_key(k),
        k == pid ==> t.exited(pid, status).procs[k].state == ProcState::DEAD,
        k == pid ==> t.exited(pid, status).procs[k].status == status,
        k != pid ==> t.exited(pid, status).procs[k].state == t.procs[k].state,
        k != pid ==> t.exited(pid, status).procs[k].status == t.procs[k].status,
        t.exited(pid, status).procs[k].pid == t.procs[k].pid,
        t.exited(pid, status).procs[k].command == t.procs[k].command,
        t.exited(pid, status).procs[k].threads == t.procs[k].threads,
        t.exited(pid, status).procs[k].pagedir == t.procs[k].pagedir,
{
}

/// An exit changes links as follows and not otherwise. If the parent of the process is the
/// process 0, none. If not, exactly the children of the process get init as their parent,
/// init gets them as its children beside its own, and the process keeps none.
pub proof fn law_exit_moves_only_its_children<D>(
    t: TableView<D>,
    pid: ProcId,
    status: ProcStatus,
    k: ProcId,
)
    requires
        t.procs.contains_key(k),
    ensures
        ({
            let u = t.exited(pid, status);
            let under_idle = t.procs[pid].parent == Some(ProcId(0));
            &&& under_idle ==> u.procs[k].parent == t.procs[k].parent && forall|c: ProcId| #[trigger]
                u.procs[k].children.contains(c) <==> t.procs[k].children.contains(c)
            &&& !under_idle && t.procs[pid].children.contains(k) ==> u.procs[k].parent == t.init
            &&& !t.procs[pid].children.contains(k) ==> u.procs[k].parent == t.procs[k].parent
            &&& !under_idle && k == pid ==> forall|c: ProcId| !u.procs[k].children.contains(c)
            &&& !under_idle && k != pid && t.init == Some(k) ==> forall|c: ProcId| #[trigger]
                u.procs[k].children.contains(c) <==> t.procs[k].children.contains(c)
                    || t.procs[pid].children.contains(c)
            &&& k != pid && t.init != Some(k) ==> forall|c: ProcId| #[trigger]
                u.procs[k].children.contains(c) <==> t.procs[k].children.contains(c)
        }),
{
}

/// An exit neither makes nor destroys a process, nor does it change who can be looked up or
/// who is idle or init.
pub proof fn law_exit_keeps_the_rest<D>(
    t: TableView<D>,
    pid: ProcId,
    status: ProcStatus,
    k: ProcId,
)
    ensures
        t.exited(pid, status).procs.contains_key(k) <==> t.procs.contains_key(k),
        t.exited(pid, status).list == t.list,
        t.exited(pid, status).idle == t.idle,
        t.exited(pid, status).init == t.init,
        t.exited(pid, status).idle_started == t.idle_started,
{
}

/// What an exit asks of the table: the process exists and is not the process 0, its parent
/// is another process, and its children have somewhere to go.
pub proof fn law_exit_needs_of_the_table<D>(t: TableView<D>, pid: ProcId)
    ensures
        t.can_exit(pid) <==> {
            &&& t.procs.contains_key(pid)
            &&& pid != ProcId(0)
            &&& t.procs[pid].parent is Some
            &&& t.procs[pid].parent != Some(pid)
            &&& t.procs[pid].parent == Some(ProcId(0)) ==> forall|c: ProcId|
                !t.procs[pid].children.contains(c)
            &&& t.procs[pid].parent != Some(ProcId(0)) ==> t.init is Some
            &&& t.procs[pid].parent != Some(ProcId(0)) && t.init == Some(pid) ==> forall|c: ProcId|
                !t.procs[pid].children.contains(c)
        },
{
    if forall|c: ProcId| !t.procs[pid].children.contains(c) {
        assert(t.procs[pid].children =~= Set::empty());
    }
}

/// A child that runs when its parent exits goes on running: init, to which it then belongs,
/// sleeps when it waits for it.
pub proof fn law_running_orphan_is_waited_for<D>(
    t: TableView<D>,
    pid: ProcId,
    status: ProcStatus,
    c: ProcId,
    init: ProcId,
    step: WaitStep,
    after: TableView<D>,
)
    requires
        t.procs.contains_key(init),
        t.procs.contains_key(c),
        t.procs[pid].parent != Some(ProcId(0)),
        t.init == Some(init),
        init != pid,
        c != pid,
        t.procs[pid].children.contains(c),
        t.procs[c].state == ProcState::RUNNING,
        t.exited(pid, status).wait_pass(init, WaitProcId::Pid(c), 0, step, after),
    ensures
        step == WaitStep::Sleep,
        after == t.exited(pid, status),
{
    let u = t.exited(pid, status);
    law_exit_moves_only_its_children(t, pid, status, init);
    law_exit_kills_only_itself(t, pid, status, c);
    assert(u.procs[init].children.contains(c));
    law_wait_for_one_in_words(u, init, c, 0, step, after);
}

/// A wait for any child: with children that all run it sleeps; with no children it fails
/// with `ECHILD`, and only then; and with a child that has died it returns such a child and
/// the status of that child.
pub proof fn law_wait_for_any_in_words<D>(
    t: TableView<D>,
    p: ProcId,
    options: WaitOps,
    step: WaitStep,
    after: TableView<D>,
)
    requires
        t.wait_pass(p, WaitProcId::Any, options, step, after),
    ensures
        options != 0 ==> step == WaitStep::Done(Err::<(ProcId, ProcStatus), Errno>(Errno::ECHILD)),
        options == 0 && (forall|c: ProcId| !t.procs[p].children.contains(c)) ==> step
            == WaitStep::Done(Err::<(ProcId, ProcStatus), Errno>(Errno::ECHILD)),
        options == 0 && (exists|c: ProcId| t.procs[p].children.contains(c)) && (forall|c: ProcId|
            t.procs[p].children.contains(c) ==> #[trigger] t.procs[c].state == ProcState::RUNNING)
            ==> step == WaitStep::Sleep,
        options == 0 && (exists|c: ProcId| #[trigger]
            t.procs[p].children.contains(c) && t.procs[c].state == ProcState::DEAD) ==> step
            matches WaitStep::Done(Ok(_)),
        step matches WaitStep::Done(Ok((c, s))) ==> t.procs[p].children.contains(c)
            && t.procs[c].state == ProcState::DEAD && s == t.procs[c].status,
        step matches WaitStep::Done(Err(e)) ==> e == Errno::ECHILD && (options != 0 || forall|
            c: ProcId,
        | !t.procs[p].children.contains(c)),
        !(step matches WaitStep::Done(Ok(_))) ==> after == t,
{
    let children = t.procs[p].children;
    if forall|c: ProcId| !children.contains(c) {
        assert(children =~= Set::empty());
        assert forall|c: ProcId| !t.answers(p, WaitProcId::Any, c) by {
            assert(!children.contains(c));
        }
    }
    if exists|c: ProcId| #[trigger]
        children.contains(c) && t.procs[c].state == ProcState::DEAD {
        let c = choose|c: ProcId| #[trigger]
            children.contains(c) && t.procs[c].state == ProcState::DEAD;
        assert(t.dead_child(p, c));
        assert(t.answers(p, WaitProcId::Any, c));
        assert(children.contains(c));
    }
    if exists|c: ProcId| children.contains(c) {
        let c = choose|c: ProcId| children.contains(c);
        assert(children != Set::<ProcId>::empty());
        assert(t.procs[c].state is RUNNING || t.procs[c].state is DEAD);
    }
    if let WaitStep::Done(Ok((c, s))) = step {
        assert(t.procs[c].state == ProcState::DEAD);
    }
}

/// A wait for one process: if it is not a child, and only then, it fails with `ECHILD`; if
/// it is a child that runs, the wait sleeps; if it is a child that has died, it returns the
/// child and its status.
pub proof fn law_wait_for_one_in_words<D>(
    t: TableView<D>,
    p: ProcId,
    c: ProcId,
    options: WaitOps,
    step: WaitStep,
    after: TableView<D>,
)
    requires
        t.wait_pass(p, WaitProcId::Pid(c), options, step, after),
    ensures
        options != 0 || !t.procs[p].children.contains(c) ==> step == WaitStep::Done(
            Err::<(ProcId, ProcStatus), Errno>(Errno::ECHILD),
        ),
        options == 0 && t.procs[p].children.contains(c) && t.procs[c].state == ProcState::RUNNING
            ==> step == WaitStep::Sleep,
        options == 0 && t.procs[p].children.contains(c) && t.procs[c].state == ProcState::DEAD
            ==> step == WaitStep::Done(
            Ok::<(ProcId, ProcStatus), Errno>((c, t.procs[c].status)),
        ),
        !(step matches WaitStep::Done(Ok(_))) ==> after == t,
{
    if t.procs[p].children.contains(c) && t.procs[c].state == ProcState::DEAD {
        assert(t.answers(p, WaitProcId::Pid(c), c));
    }
}

/// A wait that returns a child destroys that child and nothing else: every other process
/// stays as it is, but that the one that waited loses the child.
pub proof fn law_wait_destroys_only_what_it_returns<D>(
    t: TableView<D>,
    p: ProcId,
    who: WaitProcId,
    options: WaitOps,
    c: ProcId,
    status: ProcStatus,
    after: TableView<D>,
    k: ProcId,
)
    requires
        t.wait_pass(p, who, options, WaitStep::Done(Ok((c, status))), after),
        t.procs.contains_key(p),
        c != p,
    ensures
        after.procs.contains_key(k) <==> t.procs.contains_key(k) && k != c,
        after.list.contains(k) <==> t.list.contains(k) && k != c,
        k != c && k != p && t.procs.contains_key(k) ==> after.procs[k] == t.procs[k],
        after.procs[p].pid == t.procs[p].pid,
        after.procs[p].command == t.procs[p].command,
        after.procs[p].threads == t.procs[p].threads,
        after.procs[p].status == t.procs[p].status,
        after.procs[p].state == t.procs[p].state,
        after.procs[p].parent == t.procs[p].parent,
        after.procs[p].pagedir == t.procs[p].pagedir,
        after.procs[p].children.contains(k) <==> t.procs[p].children.contains(k) && k != c,
        after.idle == t.idle,
        c == ProcId(1) ==> after.init is None,
        c != ProcId(1) ==> after.init == t.init,
        after.idle_started == t.idle_started,
{
}

/// What the collection of children asks of the table: a dead child that may be returned is
/// not the process that waits, has no children, and is not init under an id other than 1.
pub proof fn law_wait_needs_of_the_table<D>(t: TableView<D>, p: ProcId, who: WaitProcId)
    ensures
        t.can_reap(p, who) <==> forall|c: ProcId| #[trigger]
            t.procs[p].children.contains(c) && t.procs[c].state == ProcState::DEAD && (who
                == WaitProcId::Any || who == WaitProcId::Pid(c)) ==> {
                &&& c != p
                &&& forall|g: ProcId| !t.procs[c].children.contains(g)
                &&& t.init == Some(c) ==> c == ProcId(1)
            },
{
    let fine = |c: ProcId|
        {
            &&& c != p
            &&& forall|g: ProcId| !t.procs[c].children.contains(g)
            &&& t.init == Some(c) ==> c == ProcId(1)
        };
    assert forall|c: ProcId| #[trigger] t.unshared(p, c) <==> fine(c) by {
        if forall|g: ProcId| !t.procs[c].children.contains(g) {
            assert(t.procs[c].children =~= Set::empty());
        }
    }
    assert(forall|c: ProcId| #[trigger]
        t.dead_child(p, c) <==> t.procs[p].children.contains(c) && t.procs[c].state
            == ProcState::DEAD);
    if forall|c: ProcId| #[trigger]
        t.procs[p].children.contains(c) && t.procs[c].state == ProcState::DEAD && (who
            == WaitProcId::Any || who == WaitProcId::Pid(c)) ==> fine(c) {
        assert forall|c: ProcId| #[trigger] t.dead_child(p, c) && (who == WaitProcId::Any || who
            == WaitProcId::Pid(c)) implies t.unshared(p, c) by {
            assert(t.procs[p].children.contains(c));
            assert(fine(c));
        }
    }
    if t.can_reap(p, who) {
        assert forall|c: ProcId| #[trigger]
            t.procs[p].children.contains(c) && t.procs[c].state == ProcState::DEAD && (who
                == WaitProcId::Any || who == WaitProcId::Pid(c)) implies fine(c) by {
            assert(t.dead_child(p, c));
            assert(t.unshared(p, c));
        }
    }
}

/// The predicates by which waits are described, in terms of children and states.
pub proof fn law_wait_predicates<D>(t: TableView<D>, p: ProcId, c: ProcId)
    ensures
        t.dead_child(p, c) <==> t.procs[p].children.contains(c) && t.procs[c].state
            == ProcState::DEAD,
        t.no_child(p, WaitProcId::Any) <==> forall|k: ProcId| !t.procs[p].children.contains(k),
        t.no_child(p, WaitProcId::Pid(c)) <==> !t.procs[p].children.contains(c),
        t.live(p) <==> t.procs.contains_key(p),
{
    if forall|k: ProcId| !t.procs[p].children.contains(k) {
        assert(t.procs[p].children =~= Set::empty());
    }
}

/// Whether a process is ordered to let a thread exit, in terms of its threads: threads
/// other than the running one are, if they are threads of the process; the running one is,
/// if the process is the running one.
pub proof fn law_kill_order_in_words<D>(
    p: ProcView<D>,
    current: Current,
    status: ProcStatus,
    x: u64,
    e: ThreadExit,
)
    ensures
        x != current.thread ==> (is_kill_order(
            p,
            current,
            exit_value(status),
            ThreadExit { pid: p.pid, thread: x, value: status as usize },
        ) <==> p.threads.contains_key(x)),
        is_kill_order(
            p,
            current,
            exit_value(status),
            ThreadExit { pid: p.pid, thread: current.thread, value: status as usize },
        ) <==> p.pid == current.pid,
        is_kill_order(p, current, exit_value(status), e) ==> e.pid == p.pid && e.value
            == status as usize,
{
}

/// A kill names every thread of the process but the running one, whatever else is true of
/// the process; it names the running thread exactly if the process is the running one; and
/// it names nothing else.
pub proof fn law_kill_names_every_thread<D>(
    p: ProcView<D>,
    current: Current,
    status: ProcStatus,
    orders: Seq<ThreadExit>,
)
    requires
        forall|e: ThreadExit| #[trigger]
            orders.contains(e) <==> is_kill_order(p, current, exit_value(status), e),
    ensures
        forall|t: u64| #[trigger]
            p.threads.contains_key(t) && t != current.thread ==> orders.contains(
                ThreadExit { pid: p.pid, thread: t, value: status as usize },
            ),
        p.pid == current.pid ==> orders.contains(
            ThreadExit { pid: p.pid, thread: current.thread, value: status as usize },
        ),
        forall|e: ThreadExit| #[trigger]
            orders.contains(e) ==> {
                &&& e.pid == p.pid
                &&& e.value == status as usize
                &&& e.thread == current.thread ==> p.pid == current.pid
                &&& e.thread != current.thread ==> p.threads.contains_key(e.thread)
            },
{
}

/// A kill of all processes names neither the process 0 nor the process 1, unless it is the
/// running one; it names every thread of every other process that exists, and the running
/// thread.
pub proof fn law_kill_all_names_all_but_idle_and_init<D>(
    t: TableView<D>,
    current: Current,
    status: ProcStatus,
    orders: Seq<ThreadExit>,
)
    requires
        t.procs.contains_key(current.pid),
        forall|p: ProcId| #[trigger] t.procs.contains_key(p) ==> t.procs[p].pid == p,
        forall|e: ThreadExit| #[trigger]
            orders.contains(e) <==> is_kill_all_order(t, current, exit_value(status), e),
    ensures
        forall|e: ThreadExit| #[trigger]
            orders.contains(e) && e.pid != current.pid ==> e.pid != ProcId(0) && e.pid != ProcId(1),
        forall|p: ProcId, x: u64|
            #![trigger t.procs[p].threads.contains_key(x)]
            t.procs.contains_key(p) && t.procs[p].threads.contains_key(x) && x != current.thread
                && (p == current.pid || (p != ProcId(0) && p != ProcId(1))) ==> orders.contains(
                ThreadExit { pid: p, thread: x, value: status as usize },
            ),
        orders.contains(
            ThreadExit { pid: current.pid, thread: current.thread, value: status as usize },
        ),
        forall|e: ThreadExit| #[trigger]
            orders.contains(e) ==> {
                &&& t.procs.contains_key(e.pid)
                &&& e.value == status as usize
                &&& e.thread == current.thread ==> e.pid == current.pid
                &&& e.thread != current.thread ==> t.procs[e.pid].threads.contains_key(e.thread)
            },
{
}

/// Exit statuses and exit values are the same number, but that a negative status stands for
/// the value that is larger by the number of values there are.
pub proof fn law_exit_value_in_numbers(status: ProcStatus, value: usize)
    ensures
        exit_value(status) == if status >= 0 {
            status as int
        } else {
            status + usize::MAX + 1
        },
        exit_status(value) == if value <= isize::MAX {
            value as int
        } else {
            value - usize::MAX - 1
        },
{
    assert(usize::BITS == 32 ==> status < 0 ==> (status as usize) == status + 0x1_0000_0000)
        by (bit_vector);
    assert(usize::BITS == 64 ==> status < 0 ==> (status as usize) == status
        + 0x1_0000_0000_0000_0000) by (bit_vector);
    assert(usize::BITS == 32 ==> value > 0x7fff_ffff ==> (value as isize) == value
        - 0x1_0000_0000) by (bit_vector);
    assert(usize::BITS == 64 ==> value > 0x7fff_ffff_ffff_ffff ==> (value as isize) == value
        - 0x1_0000_0000_0000_0000) by (bit_vector);
}

/// Whether all threads of a process are dead is a matter of the states of all its threads
/// but the running one.
pub proof fn law_threads_dead_in_words<D>(p: ProcView<D>, current_thread: u64)
    ensures
        (exists|x: u64| #[trigger]
            p.threads.contains_key(x) && x != current_thread && p.threads[x].state
                == ThreadState::ACTIVE) ==> !threads_dead(p, current_thread),
        (forall|x: u64| #[trigger]
            p.threads.contains_key(x) && x != current_thread ==> p.threads[x].state
                == ThreadState::EXITED) ==> threads_dead(p, current_thread),
{
}

/// A change in the state of a thread changes that thread and nothing else, and makes no
/// thread.
pub proof fn law_thread_state_changes_one_thread<D>(
    t: TableView<D>,
    pid: ProcId,
    thread: u64,
    state: ThreadState,
    k: ProcId,
    x: u64,
)
    ensures
        ({
            let u = t.with_thread_state(pid, thread, state);
            &&& u.procs.contains_key(k) <==> t.procs.contains_key(k)
            &&& t.procs.contains_key(k) ==> {
                let a = u.procs[k];
                let b = t.procs[k];
                &&& a.pid == b.pid && a.command == b.command && a.children == b.children
                &&& a.status == b.status && a.state == b.state && a.parent == b.parent
                &&& a.pagedir == b.pagedir
                &&& a.threads.contains_key(x) <==> b.threads.contains_key(x)
                &&& b.threads.contains_key(x) && k == pid && x == thread ==> a.threads[x].state
                    == state
                &&& b.threads.contains_key(x) && !(k == pid && x == thread) ==> a.threads[x]
                    == b.threads[x]
            }
            &&& u.list == t.list
            &&& u.idle == t.idle
            &&& u.init == t.init
            &&& u.idle_started == t.idle_started
        }),
{
}

/// A kernel starts without any process.
pub proof fn law_start_is_empty<D>(p: ProcId)
    ensures
        !TableView::<D>::empty().procs.contains_key(p),
        !TableView::<D>::empty().list.contains(p),
        TableView::<D>::empty().idle is None,
        TableView::<D>::empty().init is None,
        !TableView::<D>::empty().idle_started,
{
}

/// A list of a set names each of its elements, at one place, and nothing else.
pub proof fn law_lists_in_words<K>(v: Seq<K>, s: Set<K>)
    requires
        lists(v, s),
    ensures
        forall|k: K| #[trigger] s.contains(k) ==> exists|i: int| 0 <= i < v.len() && v[i] == k,
        forall|i: int| 0 <= i < v.len() ==> s.contains(#[trigger] v[i]),
        forall|i: int, j: int| 0 <= i < j < v.len() ==> v[i] != v[j],
{
    assert forall|k: K| #[trigger] s.contains(k) implies exists|i: int|
        0 <= i < v.len() && v[i] == k by {
        assert(v.contains(k));
    }
    assert forall|i: int| 0 <= i < v.len() implies s.contains(#[trigger] v[i]) by {
        assert(v.contains(v[i]));
    }
}

/// Two processes are equal exactly if they have the same id.
pub proof fn law_equal_by_id<D>(a: KProc<D>, b: KProc<D>)
    ensures
        <KProc<D> as PartialEqSpec<KProc<D>>>::obeys_eq_spec(),
        a.eq_spec(&b) <==> a@.pid.0 == b@.pid.0,
{
}

/// What a well-formed table is, in terms of its fields.
pub proof fn law_wf_in_words<D>(t: TableView<D>)
    ensures
        t.wf() <==> {
            &&& forall|p: ProcId| #[trigger] t.procs.contains_key(p) ==> t.procs[p].pid == p
            &&& forall|p: ProcId| #[trigger] t.list.contains(p) <==> t.procs.contains_key(p)
            &&& forall|p: ProcId, c: ProcId|
                #![trigger t.procs[p].children.contains(c)]
                t.procs.contains_key(p) && t.procs[p].children.contains(c) ==> t.procs.contains_key(
                    c,
                ) && t.procs[c].parent == Some(p)
            &&& forall|c: ProcId| #[trigger]
                t.procs.contains_key(c) ==> match t.procs[c].parent {
                    Some(p) => t.procs.contains_key(p) && t.procs[p].children.contains(c),
                    None => t.idle == Some(c),
                }
            &&& t.idle is Some ==> t.idle == Some(ProcId(0)) && t.procs.contains_key(ProcId(0))
                && t.procs[ProcId(0)].parent is None
            &&& t.idle is None ==> forall|p: ProcId| !t.procs.contains_key(p)
            &&& t.init is Some ==> t.procs.contains_key(t.init->0) && t.idle != t.init
            &&& t.procs.contains_key(ProcId(1)) ==> t.init is Some
        },
{
    if forall|p: ProcId| #[trigger] t.list.contains(p) <==> t.procs.contains_key(p) {
        assert(t.list =~= t.procs.dom());
    }
    if forall|p: ProcId| !t.procs.contains_key(p) {
        assert(t.procs.dom() =~= Set::empty());
    }
    if t.wf() {
        assert forall|p: ProcId| #[trigger] t.procs.contains_key(p) implies t.procs[p].pid == p by {
            assert(t.live(p));
        }
        assert forall|c: ProcId| #[trigger] t.procs.contains_key(c) implies match t.procs[c].parent {
            Some(p) => t.procs.contains_key(p) && t.procs[p].children.contains(c),
            None => t.idle == Some(c),
        } by {
            assert(t.live(c));
        }
        if t.idle is None {
            assert forall|p: ProcId| !t.procs.contains_key(p) by {
                assert(!t.procs.dom().contains(p));
            }
        }
    }
}

} // verus!
