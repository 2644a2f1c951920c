//! The process table.

use std::collections::{HashMap, HashSet};
use vstd::prelude::*;
use crate::collect::ids_of;
use crate::kproc::KProc;
use crate::laws::law_thread_state_keeps_wf;
use crate::model::{lists, TableView};
use crate::types::{KThread, ProcId, ThreadState};

verus! {

/// All processes of the kernel.
pub struct ProcTable<D> {
    procs: HashMap<u32, KProc<D>>,
    list: HashSet<u32>,
    idle: Option<ProcId>,
    init: Option<ProcId>,
    idle_started: bool,
}

impl<D> View for ProcTable<D> {
    type V = TableView<D>;

    closed spec fn view(&self) -> TableView<D> {
        TableView {
            procs: Map::new(
                |p: ProcId| self.procs@.contains_key(p.0),
                |p: ProcId| self.procs@[p.0]@,
            ),
            list: Set::new(|p: ProcId| self.list@.contains(p.0)),
            idle: self.idle,
            init: self.init,
            idle_started: self.idle_started,
        }
    }
}

/// A request for memory from which objects of one size are handed out.
pub struct SlabRequest {
    pub name: String,
    pub size: u32,
}

/// The request for the memory of the shared cells of processes, each of which takes
/// `cell_size` bytes and some more.
pub fn init_stage1(cell_size: usize) -> (request: SlabRequest)
    requires
        (cell_size as u32) + 16 <= u32::MAX,
    ensures
        request.name@ == "ProcRefCell<KProc> allocator"@,
        request.size == (cell_size as u32) + 16,
{
    SlabRequest {
        name: "ProcRefCell<KProc> allocator".to_string(),
        size: #[verifier::truncate] (cell_size as u32) + 16,
    }
}

/// The process table before the first process is made.
pub fn init_stage2<D>() -> (table: ProcTable<D>)
    ensures
        table@ == TableView::<D>::empty(),
        table@.wf(),
{
    let table = ProcTable {
        procs: HashMap::new(),
        list: HashSet::new(),
        idle: None,
        init: None,
        idle_started: false,
    };
    assert(table@.procs =~= Map::empty());
    assert(table@.list =~= Set::empty());
    assert(table@.procs.dom() =~= Set::empty());
    table
}

impl<D> ProcTable<D> {
    /// The process `pid`, if it exists.
    pub fn find(&self, pid: ProcId) -> (found: Option<&KProc<D>>)
        ensures
            match found {
                Some(p) => self@.live(pid) && p@ == self@.procs[pid],
                None => !self@.live(pid),
            },
    {
        self.procs.get(&pid.0)
    }

    /// The processes that can be looked up, in no particular order.
    pub fn list_procs(&self) -> (ids: Vec<ProcId>)
        ensures
            lists(ids@, self@.list),
    {
        ids_of(&self.list)
    }

    /// The idle process, once it was made.
    pub fn idle(&self) -> (idle: Option<ProcId>)
        ensures
            idle == self@.idle,
    {
        self.idle
    }

    /// The init process, from its making until it is collected.
    pub fn init(&self) -> (init: Option<ProcId>)
        ensures
            init == self@.init,
    {
        self.init
    }

    /// Whether the start of the idle process was begun.
    pub fn is_idle_started(&self) -> (started: bool)
        ensures
            started == self@.idle_started,
    {
        self.idle_started
    }

    pub(crate) fn set_idle(&mut self, idle: Option<ProcId>)
        ensures
            final(self)@ == (TableView { idle, ..old(self)@ }),
    {
        self.idle = idle;
        assert(self@.procs =~= old(self)@.procs);
        assert(self@.list =~= old(self)@.list);
    }

    pub(crate) fn set_init(&mut self, init: Option<ProcId>)
        ensures
            final(self)@ == (TableView { init, ..old(self)@ }),
    {
        self.init = init;
        assert(self@.procs =~= old(self)@.procs);
        assert(self@.list =~= old(self)@.list);
    }

    pub(crate) fn set_idle_started(&mut self)
        ensures
            final(self)@ == (TableView { idle_started: true, ..old(self)@ }),
    {
        self.idle_started = true;
        assert(self@.procs =~= old(self)@.procs);
        assert(self@.list =~= old(self)@.list);
    }

    /// Takes the process `pid` out of the table.
    pub(crate) fn take(&mut self, pid: ProcId) -> (p: KProc<D>)
        requires
            old(self)@.live(pid),
        ensures
            p@ == old(self)@.procs[pid],
            final(self)@ == (TableView { procs: old(self)@.procs.remove(pid), ..old(self)@ }),
    {
        let p = self.procs.remove(&pid.0);
        proof {
            assert(self@.procs =~= old(self)@.procs.remove(pid));
            assert(self@.list =~= old(self)@.list);
        }
        p.unwrap()
    }

    /// Puts the process `p` into the table under the id `pid`.
    pub(crate) fn put(&mut self, pid: ProcId, p: KProc<D>)
        ensures
            final(self)@ == (TableView { procs: old(self)@.procs.insert(pid, p@), ..old(self)@ }),
    {
        self.procs.insert(pid.0, p);
        assert(self@.procs =~= old(self)@.procs.insert(pid, p@));
        assert(self@.list =~= old(self)@.list);
    }
}

impl<D> ProcTable<D> {
    /// Records the state of the thread `thread` of the process `pid`; nothing happens if
    /// there is no such thread.
    pub fn set_thread_state(&mut self, pid: ProcId, thread: u64, state: ThreadState)
        requires
            old(self)@.wf(),
        ensures
            final(self)@.wf(),
            final(self)@ == old(self)@.with_thread_state(pid, thread, state),
    {
        proof {
            law_thread_state_keeps_wf(old(self)@, pid, thread, state);
        }
        let known = match self.find(pid) {
            Some(p) => p.has_thread(thread),
            None => false,
        };
        if known {
            let mut p = self.take(pid);
            p.add_thread(thread, KThread { state });
            self.put(pid, p);
            assert(self@.procs =~= old(self)@.with_thread_state(pid, thread, state).procs);
        }
    }
}

impl<D> KProc<D> {
    /// The process `pid`, if it can be looked up. An entry of the list whose process
    /// does not exist any more is removed.
    pub fn get_proc<'a>(table: &'a mut ProcTable<D>, pid: &ProcId) -> (found: Option<&'a KProc<D>>)
        ensures
            match found {
                Some(p) => old(table)@.list.contains(*pid) && old(table)@.live(*pid) && p@ == old(
                    table,
                )@.procs[*pid],
                None => !old(table)@.list.contains(*pid) || !old(table)@.live(*pid),
            },
            final(table)@ == if old(table)@.live(*pid) {
                old(table)@
            } else {
                TableView { list: old(table)@.list.remove(*pid), ..old(table)@ }
            },
            old(table)@.wf() ==> final(table)@ == old(table)@ && (found is Some <==> old(
                table,
            )@.live(*pid)),
    {
        assert(table@.wf() && !table@.live(*pid) ==> table@.list.remove(*pid) =~= table@.list);
        if !table.list.contains(&pid.0) {
            assert(table@.list.remove(*pid) =~= table@.list);
            return None;
        }
        if !table.procs.contains_key(&pid.0) {
            KProc::remove_proc(table, pid);
            return None;
        }
        table.procs.get(&pid.0)
    }

    /// Makes the process `pid` one that can be looked up.
    pub(crate) fn add_proc(table: &mut ProcTable<D>, pid: ProcId)
        ensures
            final(table)@ == (TableView { list: old(table)@.list.insert(pid), ..old(table)@ }),
    {
        table.list.insert(pid.0);
        assert(table@.list =~= old(table)@.list.insert(pid));
        assert(table@.procs =~= old(table)@.procs);
    }

    /// Takes the process `pid` from those that can be looked up.
    pub(crate) fn remove_proc(table: &mut ProcTable<D>, pid: &ProcId)
        ensures
            final(table)@ == (TableView { list: old(table)@.list.remove(*pid), ..old(table)@ }),
    {
        table.list.remove(&pid.0);
        assert(table@.list =~= old(table)@.list.remove(*pid));
        assert(table@.procs =~= old(table)@.procs);
    }
}

} // verus!
