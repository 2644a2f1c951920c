//! The making of processes.

use vstd::prelude::*;
use crate::kproc::KProc;
use crate::laws::law_spawn_keeps_wf;
use crate::model::{created, TableView};
use crate::table::ProcTable;
use crate::types::{AllocError, KThread, ProcId, SlotValue, ThreadState, CUR_PID_SLOT, CUR_PROC_SLOT, IDLE_PID};

verus! {

/// The answer to a request to the rest of the kernel.
pub enum Answer<T> {
    /// The request was not made yet.
    Pending,
    /// The request was denied.
    Denied,
    /// The request was granted.
    Granted(T),
}

/// What is asked for, in this order, when a process is made, and what is handed over
/// with the request. `S` says where a thread starts, and with what arguments.
pub enum Request<'a, D, S> {
    /// An id from the source of process ids.
    Pid,
    /// Memory for the process `pid` itself, that is, for the maps of threads and children
    /// and for the wait queue; and a page directory.
    Room { pid: ProcId },
    /// Memory for the cell by which the process is shared.
    Cell,
    /// The first thread, in the address space of `pagedir`.
    Thread { pagedir: &'a D, start: &'a S },
    /// The slots of the thread `thread` of the process `pid`; `slots` says what they hold.
    Slots { thread: u64, pid: ProcId },
    /// An entry for the thread in the map of threads.
    Entry,
}

/// What the rest of the kernel has answered so far to the requests that are made for
/// a new process.
pub struct NewAnswers<D> {
    pub pid: Answer<ProcId>,
    pub room: Answer<D>,
    pub cell: Answer<()>,
    pub thread: Answer<u64>,
    pub slots: Answer<()>,
    pub entry: Answer<()>,
}

/// What the making of a process came to.
pub struct NewOutcome {
    /// The id of the new process.
    pub result: Result<ProcId, AllocError>,
    /// The id of a process that was destroyed again, which goes back to the source of
    /// process ids.
    pub released: Option<ProcId>,
    /// The first thread of the new process, which is to be made runnable.
    pub runnable: Option<u64>,
}

/// What the slots of the thread `thread` of the process `pid` hold: the thread itself,
/// in the slot `thread_slot`, its process, and its process id.
pub fn slots(thread_slot: usize, thread: u64, pid: ProcId) -> (s: Vec<(usize, SlotValue)>)
    ensures
        s@ == seq![
            (thread_slot, SlotValue::Thread(thread)),
            (CUR_PROC_SLOT, SlotValue::Proc(pid)),
            (CUR_PID_SLOT, SlotValue::Pid(pid)),
        ],
{
    let mut s: Vec<(usize, SlotValue)> = Vec::new();
    s.push((thread_slot, SlotValue::Thread(thread)));
    s.push((CUR_PROC_SLOT, SlotValue::Proc(pid)));
    s.push((CUR_PID_SLOT, SlotValue::Pid(pid)));
    s
}

impl<T> Answer<T> {
    /// What was granted.
    pub fn ok(self) -> (granted: Option<T>)
        ensures
            granted == match self {
                Answer::Granted(x) => Some(x),
                _ => None,
            },
    {
        match self {
            Answer::Granted(x) => Some(x),
            _ => None,
        }
    }

    /// Whether the request was granted.
    pub fn is_granted(&self) -> (granted: bool)
        ensures
            granted == (*self is Granted),
    {
        match self {
            Answer::Granted(_) => true,
            _ => false,
        }
    }

    /// Whether the request was not made yet.
    pub fn is_pending(&self) -> (pending: bool)
        ensures
            pending == (*self is Pending),
    {
        match self {
            Answer::Pending => true,
            _ => false,
        }
    }
}

impl<D> NewAnswers<D> {
    /// Whether the process itself could be made.
    pub open spec fn built(self) -> bool {
        self.pid is Granted && self.room is Granted
    }

    /// Whether the process, its first thread and the thread's slots could be made.
    pub open spec fn prepared(self) -> bool {
        self.built() && self.cell is Granted && self.thread is Granted && self.slots is Granted
    }

    /// Whether every request was granted.
    pub open spec fn granted(self) -> bool {
        self.prepared() && self.entry is Granted
    }

    /// Whether a request was denied to which all requests before it led.
    pub open spec fn denied(self) -> bool {
        ||| self.pid is Denied
        ||| self.pid is Granted && self.room is Denied
        ||| self.built() && self.cell is Denied
        ||| self.built() && self.cell is Granted && self.thread is Denied
        ||| self.built() && self.cell is Granted && self.thread is Granted && self.slots is Denied
        ||| self.prepared() && self.entry is Denied
    }

    /// The answers before anything was asked for.
    pub fn none() -> (answers: NewAnswers<D>)
        ensures
            answers == (NewAnswers::<D> {
                pid: Answer::Pending,
                room: Answer::Pending,
                cell: Answer::Pending,
                thread: Answer::Pending,
                slots: Answer::Pending,
                entry: Answer::Pending,
            }),
    {
        NewAnswers {
            pid: Answer::Pending,
            room: Answer::Pending,
            cell: Answer::Pending,
            thread: Answer::Pending,
            slots: Answer::Pending,
            entry: Answer::Pending,
        }
    }

    /// The request that is to be made next, for a process whose first thread starts as
    /// `start` says: the first one that was not made yet. The thread is made with the page
    /// directory of the process. After a request that was denied there is none.
    pub fn next_request<'a, S>(&'a self, start: &'a S) -> (next: Option<Request<'a, D, S>>)
        ensures
            match next {
                Some(Request::Pid) => self.pid is Pending,
                Some(Request::Room { pid }) => self.pid == Answer::Granted(pid)
                    && self.room is Pending,
                Some(Request::Cell) => self.built() && self.cell is Pending,
                Some(Request::Thread { pagedir, start: s }) => {
                    &&& self.built()
                    &&& self.cell is Granted
                    &&& self.thread is Pending
                    &&& self.room == Answer::Granted(*pagedir)
                    &&& s == start
                },
                Some(Request::Slots { thread, pid }) => {
                    &&& self.built()
                    &&& self.cell is Granted
                    &&& self.slots is Pending
                    &&& self.thread == Answer::Granted(thread)
                    &&& self.pid == Answer::Granted(pid)
                },
                Some(Request::Entry) => self.prepared() && self.entry is Pending,
                None => self.granted() || self.denied(),
            },
    {
        let pid = match self.pid {
            Answer::Pending => {
                return Some(Request::Pid);
            },
            Answer::Denied => {
                return None;
            },
            Answer::Granted(pid) => pid,
        };
        let pagedir = match &self.room {
            Answer::Pending => {
                return Some(Request::Room { pid });
            },
            Answer::Denied => {
                return None;
            },
            Answer::Granted(pagedir) => pagedir,
        };
        if self.cell.is_pending() {
            return Some(Request::Cell);
        }
        if !self.cell.is_granted() {
            return None;
        }
        let thread = match self.thread {
            Answer::Pending => {
                return Some(Request::Thread { pagedir, start });
            },
            Answer::Denied => {
                return None;
            },
            Answer::Granted(thread) => thread,
        };
        if self.slots.is_pending() {
            return Some(Request::Slots { thread, pid });
        }
        if !self.slots.is_granted() {
            return None;
        }
        if self.entry.is_pending() {
            return Some(Request::Entry);
        }
        None
    }
}

impl<D> TableView<D> {
    /// Whether the process `current` can make a process out of `answers`: the id is
    /// not in use, the first process gets the id of the idle process, and any other
    /// process is made by one that exists.
    pub open spec fn can_spawn(self, current: Option<ProcId>, answers: NewAnswers<D>) -> bool {
        &&& answers.pid matches Answer::Granted(p) ==> !self.live(p)
        &&& answers.prepared() ==> if self.idle is None {
            answers.pid == Answer::Granted(ProcId(IDLE_PID))
        } else {
            current is Some && self.live(current->0)
        }
    }
}

impl<D> KProc<D> {
    /// Makes a process called `name` as a child of the process `current`, out of what
    /// the rest of the kernel has answered. The first process ever is the idle
    /// process, which has no parent; the first one while there is no init process is
    /// the init process.
    ///
    /// The first thread is to be made runnable once the process can be looked up.
    ///
    /// If a request was not granted, nothing is made. A process that had been built by
    /// then is destroyed, and gives back its id.
    pub fn new(
        table: &mut ProcTable<D>,
        name: String,
        current: Option<ProcId>,
        answers: NewAnswers<D>,
    ) -> (outcome: NewOutcome)
        requires
            old(table)@.wf(),
            old(table)@.can_spawn(current, answers),
        ensures
            final(table)@.wf(),
            answers.granted() ==> {
                &&& outcome.result == Ok::<ProcId, AllocError>(answers.pid->Granted_0)
                &&& outcome.released is None
                &&& outcome.runnable == Some(answers.thread->Granted_0)
                &&& final(table)@ == old(table)@.spawned(
                    created(answers.pid->Granted_0, name@, answers.room->Granted_0),
                    answers.thread->Granted_0,
                    current,
                )
            },
            !answers.granted() ==> {
                &&& outcome.result == Err::<ProcId, AllocError>(AllocError)
                &&& outcome.released == if answers.built() {
                    Some(answers.pid->Granted_0)
                } else {
                    None
                }
                &&& outcome.runnable is None
                &&& final(table)@ == old(table)@
            },
    {
        let is_idle = table.idle().is_none();
        let is_init = !is_idle && table.init().is_none();

        let room = match answers.room.ok() {
            Some(pagedir) => Ok(pagedir),
            None => Err(AllocError),
        };
        let mut p = match KProc::create(answers.pid.ok(), name, room) {
            Ok(p) => p,
            Err(e) => {
                return NewOutcome { result: Err(e), released: None, runnable: None };
            },
        };
        if !answers.cell.is_granted() {
            return NewOutcome { result: Err(AllocError), released: Some(p.release()), runnable: None };
        }
        let thread = match answers.thread.ok() {
            Some(thread) => thread,
            None => {
                return NewOutcome { result: Err(AllocError), released: Some(p.release()), runnable: None };
            },
        };
        let pid = p.get_pid();
        if !answers.slots.is_granted() {
            return NewOutcome { result: Err(AllocError), released: Some(p.release()), runnable: None };
        }
        if !is_idle {
            let parent = KProc::get_proc(table, &current.unwrap()).unwrap().get_pid();
            p.set_parent(Some(parent));
        }
        if !answers.entry.is_granted() {
            return NewOutcome { result: Err(AllocError), released: Some(p.release()), runnable: None };
        }
        p.add_thread(thread, KThread { state: ThreadState::ACTIVE });

        KProc::add_proc(table, pid);
        if !is_idle {
            let mut parent = table.take(current.unwrap());
            parent.add_child(pid);
            table.put(current.unwrap(), parent);
        }
        table.put(pid, p);
        if is_idle {
            table.set_idle(Some(pid));
        } else if is_init {
            table.set_init(Some(pid));
        }
        proof {
            let made = created(answers.pid->Granted_0, name@, answers.room->Granted_0);
            let t = old(table)@.spawned(made, thread, current);
            assert(table@.procs =~= t.procs);
            law_spawn_keeps_wf(old(table)@, made, thread, current);
        }
        NewOutcome { result: Ok(pid), released: None, runnable: Some(thread) }
    }
}

impl<D> KProc<D> {
    /// Whether the process `current` can make a process out of `answers`.
    pub fn check_new(
        table: &ProcTable<D>,
        current: Option<ProcId>,
        answers: &NewAnswers<D>,
    ) -> (allowed: bool)
        ensures
            allowed == table@.can_spawn(current, *answers),
    {
        if let Answer::Granted(p) = answers.pid {
            if table.find(p).is_some() {
                return false;
            }
        }
        let prepared = answers.pid.is_granted() && answers.room.is_granted()
            && answers.cell.is_granted() && answers.thread.is_granted()
            && answers.slots.is_granted();
        if !prepared {
            return true;
        }
        if table.idle().is_none() {
            match answers.pid {
                Answer::Granted(p) => p == ProcId(IDLE_PID),
                _ => false,
            }
        } else {
            match current {
                Some(q) => table.find(q).is_some(),
                None => false,
            }
        }
    }
}

/// Starts the idle process. This is done once, before any process runs: all that it
/// asks for has to be granted, and it gets the first id. Returns the id and the first
/// thread, which is to be made runnable.
pub fn start_idle_proc<D>(table: &mut ProcTable<D>, answers: NewAnswers<D>) -> (made: (ProcId, u64))
    requires
        old(table)@.wf(),
        !old(table)@.idle_started,
        answers.granted(),
        answers.pid == Answer::Granted(ProcId(IDLE_PID)),
        !old(table)@.live(ProcId(IDLE_PID)),
    ensures
        final(table)@.wf(),
        made == (ProcId(IDLE_PID), answers.thread->Granted_0),
        final(table)@ == (TableView { idle_started: true, ..old(table)@ }).spawned(
            created(ProcId(IDLE_PID), "IDLE PROCESS"@, answers.room->Granted_0),
            answers.thread->Granted_0,
            None,
        ),
{
    table.set_idle_started();
    let outcome = KProc::new(table, "IDLE PROCESS".to_string(), None, answers);
    (outcome.result.unwrap(), outcome.runnable.unwrap())
}

} // verus!
