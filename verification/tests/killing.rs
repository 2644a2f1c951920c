use procs::kproc::KProc;
use procs::spawn::{start_idle_proc, Answer, NewAnswers};
use procs::table::{init_stage2, ProcTable};
use procs::types::{Current, ProcId, ThreadExit, WaitProcId, WaitStep};

fn granted(pid: u32) -> NewAnswers<u8> {
    NewAnswers {
        pid: Answer::Granted(ProcId(pid)),
        room: Answer::Granted(0),
        cell: Answer::Granted(()),
        thread: Answer::Granted(100 + pid as u64),
        slots: Answer::Granted(()),
        entry: Answer::Granted(()),
    }
}

fn family() -> ProcTable<u8> {
    let mut table: ProcTable<u8> = init_stage2();
    start_idle_proc(&mut table, granted(0));
    for (parent, pid) in [(0, 1), (1, 2), (1, 3), (3, 4)] {
        let outcome = KProc::new(&mut table, "p".to_string(), Some(ProcId(parent)), granted(pid));
        assert_eq!(outcome.result, Ok(ProcId(pid)));
    }
    table
}

fn threads(orders: &[ThreadExit]) -> Vec<(u32, u64)> {
    let mut pairs: Vec<(u32, u64)> = orders.iter().map(|e| (e.pid.0, e.thread)).collect();
    pairs.sort();
    pairs
}

#[test]
fn killing_another_process_orders_its_threads_to_exit() {
    let table = family();
    let current = Current { pid: ProcId(2), thread: 102 };
    let orders = table.find(ProcId(3)).unwrap().kill(current, 9);
    assert_eq!(orders, vec![ThreadExit { pid: ProcId(3), thread: 103, value: 9 }]);
}

#[test]
fn killing_oneself_ends_with_the_running_thread() {
    let table = family();
    let current = Current { pid: ProcId(2), thread: 102 };
    let orders = table.find(ProcId(2)).unwrap().kill(current, -1);
    assert_eq!(orders, vec![ThreadExit { pid: ProcId(2), thread: 102, value: usize::MAX }]);
}

#[test]
fn kill_all_spares_idle_and_init() {
    let table = family();
    let current = Current { pid: ProcId(3), thread: 103 };
    let orders = KProc::kill_all(&table, current, 125);
    assert_eq!(threads(&orders), vec![(2, 102), (3, 103), (4, 104)]);
    assert_eq!(orders[2], ThreadExit { pid: ProcId(3), thread: 103, value: 125 });
    assert!(orders.iter().all(|e| e.value == 125));
}

#[test]
fn kill_all_by_init_kills_init_last() {
    let table = family();
    let current = Current { pid: ProcId(1), thread: 101 };
    let orders = KProc::kill_all(&table, current, 125);
    assert_eq!(threads(&orders), vec![(1, 101), (2, 102), (3, 103), (4, 104)]);
    assert_eq!(orders[3].pid, ProcId(1));
}

#[test]
fn wait_returns_the_kill_status() {
    for status in [0isize, 7, -7, isize::MAX, isize::MIN] {
        let mut table = family();
        let killer = Current { pid: ProcId(1), thread: 101 };
        let orders = table.find(ProcId(2)).unwrap().kill(killer, status);
        assert_eq!(orders.len(), 1);
        let current = Current { pid: ProcId(2), thread: orders[0].thread };
        KProc::thread_exited(&mut table, ProcId(2), current, orders[0].value);
        assert_eq!(
            KProc::waitpid(&mut table, ProcId(1), WaitProcId::Pid(ProcId(2)), 0),
            WaitStep::Done(Ok((ProcId(2), status)))
        );
    }
}
