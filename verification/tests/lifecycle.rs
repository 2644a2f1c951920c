use procs::kproc::KProc;
use procs::spawn::{slots, start_idle_proc, Answer, NewAnswers, NewOutcome, Request};
use procs::table::{init_stage1, init_stage2, ProcTable};
use procs::types::{
    AllocError, Current, Errno, ProcId, ProcState, SlotValue, ThreadState, WaitProcId, WaitStep, Wakeup,
    CUR_PID_SLOT, CUR_PROC_SLOT,
};

fn granted(pid: u32, pagedir: u8, thread: u64) -> NewAnswers<u8> {
    NewAnswers {
        pid: Answer::Granted(ProcId(pid)),
        room: Answer::Granted(pagedir),
        cell: Answer::Granted(()),
        thread: Answer::Granted(thread),
        slots: Answer::Granted(()),
        entry: Answer::Granted(()),
    }
}

fn booted() -> ProcTable<u8> {
    let mut table: ProcTable<u8> = init_stage2();
    assert_eq!(start_idle_proc(&mut table, granted(0, 10, 100)), (ProcId(0), 100));
    table
}

fn spawn(table: &mut ProcTable<u8>, parent: u32, pid: u32) {
    let current = Some(ProcId(parent));
    let answers = granted(pid, 10 + pid as u8, 100 + pid as u64);
    assert!(KProc::check_new(table, current, &answers));
    let outcome = KProc::new(table, format!("proc {}", pid), current, answers);
    assert_eq!(outcome.result, Ok(ProcId(pid)));
    assert_eq!(outcome.released, None);
    assert_eq!(outcome.runnable, Some(100 + pid as u64));
}

fn exit(table: &mut ProcTable<u8>, pid: u32, value: usize) -> ProcId {
    let current = Current { pid: ProcId(pid), thread: 100 + pid as u64 };
    assert!(KProc::check_thread_exited(table, ProcId(pid), current));
    KProc::thread_exited(table, ProcId(pid), current, value).unwrap()
}

fn wait(table: &mut ProcTable<u8>, pid: u32, who: WaitProcId) -> WaitStep {
    assert!(KProc::check_reap(table, ProcId(pid), who));
    KProc::waitpid(table, ProcId(pid), who, 0)
}

fn sorted(mut ids: Vec<ProcId>) -> Vec<u32> {
    ids.sort_by_key(|p| p.0);
    ids.iter().map(|p| p.0).collect()
}

#[test]
fn slab_request_adds_sixteen_bytes() {
    let request = init_stage1(184);
    assert_eq!(request.name, "ProcRefCell<KProc> allocator");
    assert_eq!(request.size, 200);
}

#[test]
fn slots_are_distinct() {
    assert_eq!(CUR_PROC_SLOT, 1);
    assert_eq!(CUR_PID_SLOT, 2);
}

#[test]
fn table_starts_empty() {
    let table: ProcTable<u8> = init_stage2();
    assert!(table.list_procs().is_empty());
    assert_eq!(table.idle(), None);
    assert_eq!(table.init(), None);
    assert!(!table.is_idle_started());
    assert!(table.find(ProcId(0)).is_none());
}

#[test]
fn idle_is_first_and_has_no_parent() {
    let table = booted();
    assert!(table.is_idle_started());
    assert_eq!(table.idle(), Some(ProcId(0)));
    assert_eq!(table.init(), None);
    let idle = table.find(ProcId(0)).unwrap();
    assert_eq!(idle.get_command(), "IDLE PROCESS");
    assert_eq!(idle.get_parent(), None);
    assert_eq!(*idle.get_pagedir(), 10);
    assert_eq!(idle.get_state(), ProcState::RUNNING);
    assert!(idle.has_thread(100));
    assert!(idle.is_childless());
}

#[test]
fn second_process_is_init() {
    let mut table = booted();
    spawn(&mut table, 0, 1);
    assert_eq!(table.init(), Some(ProcId(1)));
    assert_eq!(table.idle(), Some(ProcId(0)));
    let init = table.find(ProcId(1)).unwrap();
    assert_eq!(init.get_parent(), Some(ProcId(0)));
    assert_eq!(init.get_command(), "proc 1");
    assert_eq!(*init.get_pagedir(), 11);
    assert_eq!(init.get_status(), 0);
    assert!(table.find(ProcId(0)).unwrap().has_child(ProcId(1)));
    spawn(&mut table, 1, 2);
    assert_eq!(table.init(), Some(ProcId(1)));
    assert_eq!(sorted(table.list_procs()), vec![0, 1, 2]);
}

#[test]
fn get_proc_finds_only_what_exists() {
    let mut table = booted();
    spawn(&mut table, 0, 1);
    assert_eq!(KProc::get_proc(&mut table, &ProcId(1)).unwrap().get_pid(), ProcId(1));
    assert!(KProc::get_proc(&mut table, &ProcId(7)).is_none());
    exit(&mut table, 1, 0);
    assert!(KProc::get_proc(&mut table, &ProcId(1)).is_some());
    wait(&mut table, 0, WaitProcId::Any);
    assert!(KProc::get_proc(&mut table, &ProcId(1)).is_none());
}

#[test]
fn create_makes_a_bare_process() {
    let made = KProc::create(Some(ProcId(5)), "sh".to_string(), Ok(3u8));
    let p = match made {
        Ok(p) => p,
        Err(_) => panic!("not created"),
    };
    assert_eq!(p.get_pid(), ProcId(5));
    assert_eq!(p.get_command(), "sh");
    assert_eq!(*p.get_pagedir(), 3);
    assert_eq!(p.get_state(), ProcState::RUNNING);
    assert_eq!(p.get_status(), 0);
    assert_eq!(p.get_parent(), None);
    assert!(p.is_childless());
    assert!(p.is_current_process(ProcId(5)));
    assert!(!p.is_current_process(ProcId(6)));
    assert_eq!(p.release(), ProcId(5));
}

#[test]
fn create_fails_without_id_or_room() {
    assert!(matches!(KProc::create(None, "sh".to_string(), Ok(3u8)), Err(AllocError)));
    let no_room: Result<u8, AllocError> = Err(AllocError);
    assert!(matches!(KProc::create(Some(ProcId(5)), "sh".to_string(), no_room), Err(AllocError)));
}

#[test]
fn processes_are_equal_by_id() {
    let make = |pid: u32, name: &str| match KProc::create(Some(ProcId(pid)), name.to_string(), Ok(1u8)) {
        Ok(p) => p,
        Err(_) => panic!("not created"),
    };
    assert!(make(4, "a") == make(4, "b"));
    assert!(make(4, "a") != make(5, "a"));
}

#[test]
fn requests_are_made_in_order() {
    let start = ("main", 4);
    let mut answers: NewAnswers<u8> = NewAnswers::none();
    let mut asked: Vec<&str> = Vec::new();
    while let Some(r) = answers.next_request(&start) {
        match r {
            Request::Pid => {
                asked.push("pid");
                answers.pid = Answer::Granted(ProcId(3));
            }
            Request::Room { pid } => {
                asked.push("room");
                assert_eq!(pid, ProcId(3));
                answers.room = Answer::Granted(17);
            }
            Request::Cell => {
                asked.push("cell");
                answers.cell = Answer::Granted(());
            }
            Request::Thread { pagedir, start: s } => {
                asked.push("thread");
                assert_eq!(*pagedir, 17);
                assert_eq!(*s, ("main", 4));
                answers.thread = Answer::Granted(9);
            }
            Request::Slots { thread, pid } => {
                asked.push("slots");
                assert_eq!((thread, pid), (9, ProcId(3)));
                answers.slots = Answer::Granted(());
            }
            Request::Entry => {
                asked.push("entry");
                answers.entry = Answer::Granted(());
            }
        }
    }
    assert_eq!(asked, vec!["pid", "room", "cell", "thread", "slots", "entry"]);
}

#[test]
fn nothing_is_asked_after_a_denial() {
    let mut answers: NewAnswers<u8> = NewAnswers::none();
    answers.pid = Answer::Granted(ProcId(3));
    answers.room = Answer::Denied;
    assert!(answers.next_request(&()).is_none());
    answers.room = Answer::Granted(1);
    answers.cell = Answer::Granted(());
    answers.thread = Answer::Denied;
    assert!(answers.next_request(&()).is_none());
}

#[test]
fn slots_hold_thread_process_and_id() {
    assert_eq!(
        slots(0, 55, ProcId(6)),
        vec![
            (0, SlotValue::Thread(55)),
            (CUR_PROC_SLOT, SlotValue::Proc(ProcId(6))),
            (CUR_PID_SLOT, SlotValue::Pid(ProcId(6))),
        ]
    );
}

#[test]
fn collected_id_is_released() {
    let mut table = booted();
    spawn(&mut table, 0, 1);
    assert_eq!(wait(&mut table, 0, WaitProcId::Any).released(), None);
    exit(&mut table, 1, 5);
    assert_eq!(wait(&mut table, 0, WaitProcId::Any).released(), Some(ProcId(1)));
    assert_eq!(wait(&mut table, 0, WaitProcId::Any).released(), None);
}

#[test]
fn dead_init_with_orphans_cannot_be_collected_but_others_can() {
    let mut table = booted();
    for (parent, pid) in [(0, 1), (0, 2), (2, 3), (3, 4)] {
        spawn(&mut table, parent, pid);
    }
    exit(&mut table, 1, 0);
    exit(&mut table, 3, 33);
    assert_eq!(table.find(ProcId(4)).unwrap().get_parent(), Some(ProcId(1)));
    assert!(!KProc::check_reap(&table, ProcId(0), WaitProcId::Any));
    assert!(!KProc::check_reap(&table, ProcId(0), WaitProcId::Pid(ProcId(1))));
    assert!(KProc::check_reap(&table, ProcId(0), WaitProcId::Pid(ProcId(2))));
    assert_eq!(wait(&mut table, 2, WaitProcId::Any), WaitStep::Done(Ok((ProcId(3), 33))));
}

#[test]
fn failed_new_leaves_the_table_and_gives_back_the_id() {
    let mut table = booted();
    spawn(&mut table, 0, 1);
    let deny: [(fn(&mut NewAnswers<u8>), Option<ProcId>); 6] = [
        (|a| a.pid = Answer::Denied, None),
        (|a| a.room = Answer::Denied, None),
        (|a| a.cell = Answer::Denied, Some(ProcId(2))),
        (|a| a.thread = Answer::Denied, Some(ProcId(2))),
        (|a| a.slots = Answer::Denied, Some(ProcId(2))),
        (|a| a.entry = Answer::Denied, Some(ProcId(2))),
    ];
    for (change, released) in deny {
        let mut answers = granted(2, 1, 102);
        change(&mut answers);
        assert!(KProc::check_new(&table, Some(ProcId(1)), &answers));
        let outcome: NewOutcome = KProc::new(&mut table, "x".to_string(), Some(ProcId(1)), answers);
        assert_eq!(outcome.result, Err(AllocError));
        assert_eq!(outcome.released, released);
        assert_eq!(outcome.runnable, None);
        assert_eq!(sorted(table.list_procs()), vec![0, 1]);
        assert!(table.find(ProcId(1)).unwrap().is_childless());
    }
    spawn(&mut table, 1, 2);
}

#[test]
fn check_new_refuses_what_cannot_be() {
    let mut table: ProcTable<u8> = init_stage2();
    assert!(!KProc::check_new(&table, None, &granted(3, 1, 103)));
    assert!(KProc::check_new(&table, None, &granted(0, 1, 100)));
    start_idle_proc(&mut table, granted(0, 10, 100));
    assert!(!KProc::check_new(&table, Some(ProcId(0)), &granted(0, 1, 100)));
    assert!(!KProc::check_new(&table, None, &granted(1, 1, 101)));
    assert!(!KProc::check_new(&table, Some(ProcId(4)), &granted(1, 1, 101)));
    assert!(KProc::check_new(&table, Some(ProcId(0)), &granted(1, 1, 101)));
}

#[test]
fn waiting_without_children_fails() {
    let mut table = booted();
    assert_eq!(wait(&mut table, 0, WaitProcId::Any), WaitStep::Done(Err(Errno::ECHILD)));
    assert_eq!(
        wait(&mut table, 0, WaitProcId::Pid(ProcId(3))),
        WaitStep::Done(Err(Errno::ECHILD))
    );
}

#[test]
fn waiting_with_options_fails() {
    let mut table = booted();
    spawn(&mut table, 0, 1);
    exit(&mut table, 1, 4);
    assert_eq!(
        KProc::waitpid(&mut table, ProcId(0), WaitProcId::Any, 1),
        WaitStep::Done(Err(Errno::ECHILD))
    );
    assert!(table.find(ProcId(1)).is_some());
}

#[test]
fn waiting_for_someone_elses_child_fails() {
    let mut table = booted();
    spawn(&mut table, 0, 1);
    spawn(&mut table, 1, 2);
    assert_eq!(
        wait(&mut table, 0, WaitProcId::Pid(ProcId(2))),
        WaitStep::Done(Err(Errno::ECHILD))
    );
    assert_eq!(wait(&mut table, 0, WaitProcId::Any), WaitStep::Sleep);
}

#[test]
fn new_child_is_waited_for_asleep() {
    let mut table = booted();
    spawn(&mut table, 0, 1);
    spawn(&mut table, 1, 2);
    assert_eq!(wait(&mut table, 1, WaitProcId::Pid(ProcId(2))), WaitStep::Sleep);
    assert_eq!(wait(&mut table, 1, WaitProcId::Any), WaitStep::Sleep);
    assert_eq!(sorted(table.list_procs()), vec![0, 1, 2]);
}

#[test]
fn wait_returns_the_exit_status() {
    let mut table = booted();
    spawn(&mut table, 0, 1);
    spawn(&mut table, 1, 2);
    assert_eq!(wait(&mut table, 1, WaitProcId::Pid(ProcId(2))), WaitStep::Sleep);
    assert_eq!(exit(&mut table, 2, 42), ProcId(1));
    assert_eq!(table.find(ProcId(2)).unwrap().get_state(), ProcState::DEAD);
    assert_eq!(
        KProc::waitpid_resume(&mut table, ProcId(1), WaitProcId::Pid(ProcId(2)), Wakeup::Signaled),
        WaitStep::Done(Ok((ProcId(2), 42)))
    );
    assert!(table.find(ProcId(2)).is_none());
    assert!(table.find(ProcId(1)).unwrap().is_childless());
}

#[test]
fn wait_any_collects_a_dead_child_only() {
    let mut table = booted();
    spawn(&mut table, 0, 1);
    for pid in 2..8 {
        spawn(&mut table, 1, pid);
    }
    exit(&mut table, 5, 55);
    assert_eq!(wait(&mut table, 1, WaitProcId::Any), WaitStep::Done(Ok((ProcId(5), 55))));
    assert_eq!(wait(&mut table, 1, WaitProcId::Any), WaitStep::Sleep);
    assert_eq!(sorted(table.find(ProcId(1)).unwrap().list_children()), vec![2, 3, 4, 6, 7]);
}

#[test]
fn child_is_collected_once() {
    let mut table = booted();
    spawn(&mut table, 0, 1);
    spawn(&mut table, 1, 2);
    exit(&mut table, 2, 1);
    assert_eq!(wait(&mut table, 1, WaitProcId::Pid(ProcId(2))), WaitStep::Done(Ok((ProcId(2), 1))));
    assert_eq!(
        wait(&mut table, 1, WaitProcId::Pid(ProcId(2))),
        WaitStep::Done(Err(Errno::ECHILD))
    );
}

#[test]
fn interrupted_wait_goes_on() {
    let mut table = booted();
    spawn(&mut table, 0, 1);
    for who in [WaitProcId::Any, WaitProcId::Pid(ProcId(1))] {
        assert_eq!(wait(&mut table, 0, who), WaitStep::Sleep);
        for wakeup in [Wakeup::Interrupted, Wakeup::Signaled] {
            assert_eq!(
                KProc::waitpid_resume(&mut table, ProcId(0), who, wakeup),
                WaitStep::Sleep
            );
        }
    }
    exit(&mut table, 1, 3);
    assert_eq!(
        KProc::waitpid_resume(&mut table, ProcId(0), WaitProcId::Any, Wakeup::Interrupted),
        WaitStep::Done(Ok((ProcId(1), 3)))
    );
}

#[test]
fn interrupted_pass_does_not_look() {
    let mut table = booted();
    spawn(&mut table, 0, 1);
    exit(&mut table, 1, 3);
    let interrupted = Some(Wakeup::Interrupted);
    assert_eq!(
        KProc::wait_any_process(&table, ProcId(0), 0, interrupted),
        Err(Errno::ECANCELED)
    );
    assert_eq!(
        KProc::wait_specific_process(&table, ProcId(0), ProcId(1), 0, interrupted),
        Err(Errno::ECANCELED)
    );
    assert_eq!(
        KProc::wait_any_process(&table, ProcId(0), 0, Some(Wakeup::Signaled)),
        Ok(Some(ProcId(1)))
    );
    assert_eq!(
        KProc::wait_specific_process(&table, ProcId(0), ProcId(1), 0, None),
        Ok(Some(ProcId(1)))
    );
}

#[test]
fn collecting_init_forgets_it() {
    let mut table = booted();
    spawn(&mut table, 0, 1);
    assert_eq!(exit(&mut table, 1, 6), ProcId(0));
    assert_eq!(table.init(), Some(ProcId(1)));
    assert_eq!(wait(&mut table, 0, WaitProcId::Any), WaitStep::Done(Ok((ProcId(1), 6))));
    assert_eq!(table.init(), None);
    assert_eq!(table.idle(), Some(ProcId(0)));
    spawn(&mut table, 0, 1);
    assert_eq!(table.init(), Some(ProcId(1)));
}

#[test]
fn orphans_go_to_init() {
    let mut table = booted();
    spawn(&mut table, 0, 1);
    spawn(&mut table, 1, 2);
    spawn(&mut table, 2, 3);
    spawn(&mut table, 2, 4);
    spawn(&mut table, 3, 5);
    exit(&mut table, 4, 44);
    assert_eq!(exit(&mut table, 2, 22), ProcId(1));
    assert!(table.find(ProcId(2)).unwrap().is_childless());
    assert_eq!(sorted(table.find(ProcId(1)).unwrap().list_children()), vec![2, 3, 4]);
    assert_eq!(table.find(ProcId(3)).unwrap().get_parent(), Some(ProcId(1)));
    assert_eq!(table.find(ProcId(4)).unwrap().get_parent(), Some(ProcId(1)));
    assert_eq!(table.find(ProcId(5)).unwrap().get_parent(), Some(ProcId(3)));
    assert_eq!(sorted(table.list_procs()), vec![0, 1, 2, 3, 4, 5]);
    assert_eq!(
        wait(&mut table, 1, WaitProcId::Pid(ProcId(4))),
        WaitStep::Done(Ok((ProcId(4), 44)))
    );
    assert_eq!(
        wait(&mut table, 1, WaitProcId::Pid(ProcId(2))),
        WaitStep::Done(Ok((ProcId(2), 22)))
    );
    assert_eq!(wait(&mut table, 1, WaitProcId::Any), WaitStep::Sleep);
}

#[test]
fn exits_that_cannot_be_are_refused() {
    let mut table = booted();
    spawn(&mut table, 0, 1);
    spawn(&mut table, 1, 2);
    let of = |pid: u32| Current { pid: ProcId(pid), thread: 100 + pid as u64 };
    // The idle process does not exit.
    assert!(!KProc::check_thread_exited(&table, ProcId(0), of(0)));
    // A child of the idle process must not leave children behind.
    assert!(!KProc::check_thread_exited(&table, ProcId(1), of(1)));
    // Only the running process exits, and only by one of its own threads.
    assert!(!KProc::check_thread_exited(&table, ProcId(2), of(1)));
    assert!(!KProc::check_thread_exited(&table, ProcId(2), Current { pid: ProcId(2), thread: 7 }));
    assert!(!KProc::check_thread_exited(&table, ProcId(9), of(9)));
    assert!(KProc::check_thread_exited(&table, ProcId(2), of(2)));
}

#[test]
fn orphans_without_init_cannot_be_left() {
    let mut table = booted();
    spawn(&mut table, 0, 1);
    spawn(&mut table, 0, 2);
    spawn(&mut table, 2, 3);
    exit(&mut table, 1, 0);
    wait(&mut table, 0, WaitProcId::Pid(ProcId(1)));
    assert_eq!(table.init(), None);
    let current = Current { pid: ProcId(3), thread: 103 };
    assert!(!KProc::check_thread_exited(&table, ProcId(3), current));
}

#[test]
fn init_under_another_id_cannot_be_collected() {
    let mut table = booted();
    spawn(&mut table, 0, 6);
    assert_eq!(table.init(), Some(ProcId(6)));
    exit(&mut table, 6, 0);
    assert!(!KProc::check_reap(&table, ProcId(0), WaitProcId::Any));
    assert!(!KProc::check_reap(&table, ProcId(0), WaitProcId::Pid(ProcId(6))));
}

#[test]
fn thread_states_decide_whether_all_are_dead() {
    let mut table = booted();
    let idle = table.find(ProcId(0)).unwrap();
    assert!(idle.all_threads_dead(100));
    assert!(!idle.all_threads_dead(5));
    table.set_thread_state(ProcId(0), 100, ThreadState::EXITED);
    assert!(table.find(ProcId(0)).unwrap().all_threads_dead(5));
    table.set_thread_state(ProcId(0), 7, ThreadState::ACTIVE);
    table.set_thread_state(ProcId(8), 7, ThreadState::ACTIVE);
    assert!(!table.find(ProcId(0)).unwrap().has_thread(7));
    assert!(table.find(ProcId(0)).unwrap().all_threads_dead(5));
}

#[test]
fn every_process_descends_from_idle() {
    let mut table = booted();
    for (parent, pid) in [(0, 1), (1, 2), (2, 3), (3, 4), (2, 5), (0, 6)] {
        spawn(&mut table, parent, pid);
    }
    exit(&mut table, 3, 0);
    exit(&mut table, 2, 0);
    for pid in table.list_procs() {
        let mut ancestor = pid;
        let mut steps = 0;
        while let Some(parent) = table.find(ancestor).unwrap().get_parent() {
            ancestor = parent;
            steps += 1;
            assert!(steps < 10);
        }
        assert_eq!(ancestor, ProcId(0));
    }
}

#[test]
fn status_is_kept_until_collected() {
    let mut table = booted();
    spawn(&mut table, 0, 1);
    spawn(&mut table, 1, 2);
    exit(&mut table, 2, 77);
    spawn(&mut table, 1, 3);
    spawn(&mut table, 3, 4);
    exit(&mut table, 4, 1);
    exit(&mut table, 3, 2);
    assert_eq!(wait(&mut table, 1, WaitProcId::Pid(ProcId(3))), WaitStep::Done(Ok((ProcId(3), 2))));
    assert_eq!(wait(&mut table, 1, WaitProcId::Pid(ProcId(4))), WaitStep::Done(Ok((ProcId(4), 1))));
    assert_eq!(wait(&mut table, 1, WaitProcId::Any), WaitStep::Done(Ok((ProcId(2), 77))));
    assert_eq!(wait(&mut table, 1, WaitProcId::Any), WaitStep::Done(Err(Errno::ECHILD)));
}
