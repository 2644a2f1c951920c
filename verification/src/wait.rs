//! Waiting for children.

use vstd::prelude::*;
use crate::kproc::KProc;
use crate::laws::law_reap_keeps_wf;
use crate::model::lists;
use crate::table::ProcTable;
use crate::types::{Errno, ProcId, ProcState, ProcStatus, WaitOps, WaitProcId, WaitStep, Wakeup, INIT_PID};

verus! {

impl<D> KProc<D> {
    /// Performs the waitpid call for the running process: waits for one of its children
    /// to exit, and returns the id and the exit status of the child that was collected.
    /// Where it says to sleep, the caller sleeps on the wait queue of the running
    /// process, and goes on with `waitpid_resume`.
    pub fn waitpid(
        table: &mut ProcTable<D>,
        current: ProcId,
        pid: WaitProcId,
        options: WaitOps,
    ) -> (step: WaitStep)
        requires
            old(table)@.wf(),
            old(table)@.live(current),
            options == 0 ==> old(table)@.can_reap(current, pid),
        ensures
            final(table)@.wf(),
            old(table)@.wait_pass(current, pid, options, step, final(table)@),
    {
        KProc::do_waitpid(table, current, current, pid, options, None)
    }

    /// Goes on with a wait of the running process after its sleep. However the sleep ended,
    /// the children are looked at again.
    pub fn waitpid_resume(
        table: &mut ProcTable<D>,
        current: ProcId,
        pid: WaitProcId,
        wakeup: Wakeup,
    ) -> (step: WaitStep)
        requires
            old(table)@.wf(),
            old(table)@.live(current),
            old(table)@.can_reap(current, pid),
        ensures
            final(table)@.wf(),
            old(table)@.wait_pass(current, pid, 0, step, final(table)@),
    {
        KProc::do_waitpid(table, current, current, pid, 0, Some(wakeup))
    }

    /// One pass of a wait of the process `this`.
    ///
    /// If `pid` is `Any`, one of the children that have exited is collected; if there is
    /// none yet, the process has to sleep.
    ///
    /// If `pid` is `Pid(x)`, the child `x` is collected if it has exited; if it has not,
    /// the process has to sleep.
    ///
    /// If there are no children, or the given process is not one of them, the result is
    /// `ECHILD`. It is so with any options other than 0 too, which are not supported.
    ///
    /// This operation cannot be canceled: after a sleep, which ended as `slept` says, it
    /// looks at the children again, even if the sleep was interrupted.
    pub fn do_waitpid(
        table: &mut ProcTable<D>,
        this: ProcId,
        current: ProcId,
        pid: WaitProcId,
        options: WaitOps,
        slept: Option<Wakeup>,
    ) -> (step: WaitStep)
        requires
            old(table)@.wf(),
            old(table)@.live(this),
            options == 0 ==> this == current && old(table)@.can_reap(this, pid),
        ensures
            final(table)@.wf(),
            old(table)@.wait_pass(this, pid, options, step, final(table)@),
    {
        if options != 0 {
            return WaitStep::Done(Err(Errno::ECHILD));
        }
        let mut found = KProc::wait_process(table, this, pid, options, slept);
        if let Err(Errno::ECANCELED) = found {
            found = KProc::wait_process(table, this, pid, options, None);
        }
        let final_pid = match found {
            Ok(Some(c)) => c,
            Ok(None) => {
                return WaitStep::Sleep;
            },
            Err(e) => {
                return WaitStep::Done(Err(e));
            },
        };
        proof {
            law_reap_keeps_wf(table@, this, final_pid);
        }
        let status = KProc::reap(table, this, final_pid);
        WaitStep::Done(Ok((final_pid, status)))
    }

    /// A child of `this` that a wait for `pid` can be answered with. `None` says that there
    /// is a child to wait for, but no such child has exited. Where the last sleep was
    /// interrupted, the children are not looked at.
    fn wait_process(
        table: &ProcTable<D>,
        this: ProcId,
        pid: WaitProcId,
        options: WaitOps,
        slept: Option<Wakeup>,
    ) -> (found: Result<Option<ProcId>, Errno>)
        requires
            table@.wf(),
            table@.live(this),
            options == 0,
        ensures
            slept == Some(Wakeup::Interrupted) ==> found == Err::<Option<ProcId>, Errno>(
                Errno::ECANCELED,
            ),
            slept != Some(Wakeup::Interrupted) ==> match found {
                Ok(Some(c)) => table@.answers(this, pid, c),
                Ok(None) => !table@.no_child(this, pid) && forall|c: ProcId|
                    !table@.answers(this, pid, c),
                Err(e) => e == Errno::ECHILD && table@.no_child(this, pid),
            },
    {
        match pid {
            WaitProcId::Any => KProc::wait_any_process(table, this, options, slept),
            WaitProcId::Pid(p) => KProc::wait_specific_process(table, this, p, options, slept),
        }
    }

    /// Any child of `this` that has exited. `None` says that there are children, but
    /// none of them has exited. Where the last sleep was interrupted, the children are not
    /// looked at.
    pub fn wait_any_process(
        table: &ProcTable<D>,
        this: ProcId,
        options: WaitOps,
        slept: Option<Wakeup>,
    ) -> (found: Result<Option<ProcId>, Errno>)
        requires
            table@.wf(),
            table@.live(this),
            options == 0,
        ensures
            slept == Some(Wakeup::Interrupted) ==> found == Err::<Option<ProcId>, Errno>(
                Errno::ECANCELED,
            ),
            slept != Some(Wakeup::Interrupted) ==> match found {
                Ok(Some(c)) => table@.dead_child(this, c),
                Ok(None) => !table@.no_child(this, WaitProcId::Any) && forall|c: ProcId|
                    !#[trigger] table@.dead_child(this, c),
                Err(e) => e == Errno::ECHILD && table@.no_child(this, WaitProcId::Any),
            },
    {
        if let Some(Wakeup::Interrupted) = slept {
            return Err(Errno::ECANCELED);
        }
        let p = table.find(this).unwrap();
        if p.is_childless() {
            return Err(Errno::ECHILD);
        }
        let children: Vec<ProcId> = p.list_children();
        for i in 0..children.len()
            invariant
                slept != Some(Wakeup::Interrupted),
                table@.wf(),
                table@.live(this),
                lists(children@, table@.procs[this].children),
                forall|j: int|
                    0 <= j < i ==> !table@.dead_child(this, #[trigger] children@[j]),
        {
            assert(children@.contains(children@[i as int]));
            let child = table.find(children[i]).unwrap();
            if child.get_state() == ProcState::DEAD {
                return Ok(Some(children[i]));
            }
        }
        assert forall|c: ProcId| !#[trigger] table@.dead_child(this, c) by {
            if table@.procs[this].children.contains(c) {
                assert(children@.contains(c));
            }
        }
        Ok(None)
    }

    /// The child `pid` of `this`, if it has exited. `None` says that it has not. Where the
    /// last sleep was interrupted, the child is not looked at.
    pub fn wait_specific_process(
        table: &ProcTable<D>,
        this: ProcId,
        pid: ProcId,
        options: WaitOps,
        slept: Option<Wakeup>,
    ) -> (found: Result<Option<ProcId>, Errno>)
        requires
            table@.wf(),
            table@.live(this),
            options == 0,
        ensures
            slept == Some(Wakeup::Interrupted) ==> found == Err::<Option<ProcId>, Errno>(
                Errno::ECANCELED,
            ),
            slept != Some(Wakeup::Interrupted) ==> match found {
                Ok(Some(c)) => c == pid && table@.dead_child(this, pid),
                Ok(None) => table@.procs[this].children.contains(pid) && !table@.dead_child(
                    this,
                    pid,
                ),
                Err(e) => e == Errno::ECHILD && !table@.procs[this].children.contains(pid),
            },
    {
        if let Some(Wakeup::Interrupted) = slept {
            return Err(Errno::ECANCELED);
        }
        let p = table.find(this).unwrap();
        if !p.has_child(pid) {
            return Err(Errno::ECHILD);
        }
        let child = table.find(pid).unwrap();
        if child.get_state() == ProcState::DEAD {
            Ok(Some(pid))
        } else {
            Ok(None)
        }
    }

    /// Collects the dead child `c` of `this`: takes it from the children and from the
    /// processes that can be looked up, forgets the init process if it is that one, and
    /// destroys it. Returns its exit status; its id goes back to the source of process
    /// ids.
    fn reap(table: &mut ProcTable<D>, this: ProcId, c: ProcId) -> (status: ProcStatus)
        requires
            old(table)@.wf(),
            old(table)@.live(this),
            old(table)@.dead_child(this, c),
            old(table)@.unshared(this, c),
        ensures
            status == old(table)@.procs[c].status,
            final(table)@ == old(table)@.reaped(this, c),
    {
        assert(table@.live(c)) by {
            assert(table@.procs[this].children.contains(c));
        }
        let mut to_kill = table.take(c);
        let status = to_kill.get_status();
        let mut p = table.take(this);
        p.remove_child(c);
        table.put(this, p);
        to_kill.clear_threads();
        KProc::remove_proc(table, &c);
        if c == ProcId(INIT_PID) {
            table.set_init(None);
        }
        to_kill.release();
        proof {
            assert(table@.procs =~= old(table)@.reaped(this, c).procs);
        }
        status
    }

    /// Whether whatever child `this` may collect by waiting for `pid` can be destroyed.
    pub fn check_reap(table: &ProcTable<D>, this: ProcId, pid: WaitProcId) -> (allowed: bool)
        requires
            table@.wf(),
            table@.live(this),
        ensures
            allowed == table@.can_reap(this, pid),
    {
        match pid {
            WaitProcId::Pid(c) => KProc::check_reap_child(table, this, c),
            WaitProcId::Any => {
                let children: Vec<ProcId> = table.find(this).unwrap().list_children();
                for i in 0..children.len()
                    invariant
                        pid == WaitProcId::Any,
                        table@.wf(),
                        table@.live(this),
                        lists(children@, table@.procs[this].children),
                        forall|j: int|
                            0 <= j < i && table@.dead_child(this, #[trigger] children@[j])
                                ==> table@.unshared(this, children@[j]),
                {
                    if !KProc::check_reap_child(table, this, children[i]) {
                        return false;
                    }
                }
                assert forall|c: ProcId| #[trigger] table@.dead_child(this, c) implies table@.unshared(
                    this,
                    c,
                ) by {
                    assert(children@.contains(c));
                }
                true
            },
        }
    }

    /// Whether the process `c`, if it is a dead child of `this`, can be destroyed.
    fn check_reap_child(table: &ProcTable<D>, this: ProcId, c: ProcId) -> (allowed: bool)
        requires
            table@.wf(),
            table@.live(this),
        ensures
            allowed == (table@.dead_child(this, c) ==> table@.unshared(this, c)),
    {
        match KProc::wait_specific_process(table, this, c, 0, None) {
            Ok(Some(_)) => {
                assert(table@.procs[this].children.contains(c));
                c != this && table.find(c).unwrap().is_childless() && (table.init() != Some(c)
                    || c == ProcId(INIT_PID))
            },
            _ => true,
        }
    }
}

} // verus!
