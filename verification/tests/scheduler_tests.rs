use rustos_core::process::ProcessCreateParams;
use rustos_core::process::ProcessError;
use rustos_core::process::ProcessId;
use rustos_core::process::ProcessManager;
use rustos_core::process::ProcessState;
use rustos_core::process::ThreadCreateParams;
use rustos_core::process::ThreadId;
use rustos_core::process::ThreadState;

fn default_process_params() -> ProcessCreateParams {
    ProcessCreateParams {
        program_path: "/bin/init".to_string(),
        arguments: vec![],
        environment: vec![],
        capabilities: vec![],
        memory_limit: None,
        cpu_limit: None,
    }
}

fn default_thread_params() -> ThreadCreateParams {
    ThreadCreateParams { entry_point: 0x400000, stack_size: 0x1000, priority: 128 }
}

#[test]
fn create_process_spawns_ready_initial_thread() {
    let mut pm = ProcessManager::new();
    let pid = pm.create_process(default_process_params()).unwrap();
    assert_eq!(pid, ProcessId(1));
    let pcb = pm.get_process(pid).unwrap();
    assert_eq!(pcb.state, ProcessState::Ready);
    assert_eq!(pcb.threads, vec![ThreadId(1)]);
    let tcb = pm.get_thread(ThreadId(1)).unwrap();
    assert_eq!(tcb.state, ThreadState::Ready);
    assert_eq!(tcb.pid, pid);
}

#[test]
fn create_thread_on_unknown_pid_fails_without_mutation() {
    let mut pm = ProcessManager::new();
    let pid = pm.create_process(default_process_params()).unwrap();
    // One thread exists and is schedulable.
    assert_eq!(pm.schedule_next(), Some(ThreadId(1)));

    let r = pm.create_thread(ProcessId(99), default_thread_params());
    assert_eq!(r, Err(ProcessError::ProcessNotFound));
    // Process and ready-queue state are unchanged: no thread id was
    // consumed, no queue entry added, the rotation is exactly as before.
    assert!(pm.get_process(ProcessId(99)).is_none());
    assert!(pm.get_thread(ThreadId(2)).is_none());
    assert_eq!(pm.get_current_thread(), Some(ThreadId(1)));
    let t2 = pm.create_thread(pid, default_thread_params()).unwrap();
    assert_eq!(t2, ThreadId(2));
    // The rotation continues exactly where it stood: the running thread
    // first (it sits at the queue's front again), then the new one.
    assert_eq!(pm.schedule_next(), Some(ThreadId(1)));
    assert_eq!(pm.schedule_next(), Some(ThreadId(2)));
}

#[test]
fn three_threads_schedule_round_robin() {
    // Threads T1, T2, T3 created in that order; three successive calls
    // return them in order, and the fourth wraps around to T1.
    let mut pm = ProcessManager::new();
    let pid = pm.create_process(default_process_params()).unwrap();
    let t1 = ThreadId(1);
    let t2 = pm.create_thread(pid, default_thread_params()).unwrap();
    let t3 = pm.create_thread(pid, default_thread_params()).unwrap();
    assert_eq!(pm.schedule_next(), Some(t1));
    assert_eq!(pm.schedule_next(), Some(t2));
    assert_eq!(pm.schedule_next(), Some(t3));
    assert_eq!(pm.schedule_next(), Some(t1));
}

#[test]
fn each_thread_runs_once_before_any_runs_twice() {
    // Round-robin fairness with yields: three ready threads, each yielding
    // after its turn; the first is scheduled again only after every other
    // thread has had one turn.
    let mut pm = ProcessManager::new();
    let pid = pm.create_process(default_process_params()).unwrap();
    let _ = pm.create_thread(pid, default_thread_params()).unwrap();
    let _ = pm.create_thread(pid, default_thread_params()).unwrap();

    let first = pm.schedule_next().unwrap();
    let mut seen = vec![first];
    for _ in 0..2 {
        pm.yield_thread();
        let cur = pm.get_current_thread().unwrap();
        assert!(!seen.contains(&cur), "a thread was scheduled twice early");
        seen.push(cur);
    }
    pm.yield_thread();
    assert_eq!(pm.get_current_thread(), Some(first));
}

#[test]
fn scheduled_thread_is_recorded_running_and_others_ready() {
    let mut pm = ProcessManager::new();
    let pid = pm.create_process(default_process_params()).unwrap();
    let t2 = pm.create_thread(pid, default_thread_params()).unwrap();
    let t1 = ThreadId(1);

    let picked = pm.schedule_next().unwrap();
    assert_eq!(picked, t1);
    assert_eq!(pm.get_thread(t1).unwrap().state, ThreadState::Running);
    assert_eq!(pm.get_thread(t2).unwrap().state, ThreadState::Ready);
    // Scheduling away demotes the previous thread back to Ready.
    let picked2 = pm.schedule_next().unwrap();
    assert_eq!(picked2, t2);
    assert_eq!(pm.get_thread(t1).unwrap().state, ThreadState::Ready);
    assert_eq!(pm.get_thread(t2).unwrap().state, ThreadState::Running);
}

#[test]
fn schedule_next_on_empty_queue_returns_none() {
    let mut pm = ProcessManager::new();
    assert_eq!(pm.schedule_next(), None);
    assert_eq!(pm.get_current_thread(), None);
}

#[test]
fn terminated_thread_is_never_scheduled_again() {
    let mut pm = ProcessManager::new();
    let pid = pm.create_process(default_process_params()).unwrap();
    let t2 = pm.create_thread(pid, default_thread_params()).unwrap();
    let _t3 = pm.create_thread(pid, default_thread_params()).unwrap();

    assert_eq!(pm.terminate_thread(t2), Ok(()));
    assert_eq!(pm.get_thread(t2).unwrap().state, ThreadState::Terminated);
    for _ in 0..12 {
        let picked = pm.schedule_next();
        assert!(picked.is_some());
        assert_ne!(picked, Some(t2));
    }
}

#[test]
fn terminating_the_current_thread_hands_the_processor_on() {
    let mut pm = ProcessManager::new();
    let pid = pm.create_process(default_process_params()).unwrap();
    let t2 = pm.create_thread(pid, default_thread_params()).unwrap();
    let t1 = pm.schedule_next().unwrap();
    assert_eq!(pm.get_current_thread(), Some(t1));
    assert_eq!(pm.terminate_thread(t1), Ok(()));
    // The scheduler moved straight on to the other ready thread.
    assert_eq!(pm.get_current_thread(), Some(t2));
    assert_eq!(pm.get_thread(t2).unwrap().state, ThreadState::Running);
}

#[test]
fn terminate_unknown_thread_fails() {
    let mut pm = ProcessManager::new();
    assert_eq!(pm.terminate_thread(ThreadId(5)), Err(ProcessError::ThreadNotFound));
}

#[test]
fn terminate_process_terminates_every_owned_thread() {
    let mut pm = ProcessManager::new();
    let p1 = pm.create_process(default_process_params()).unwrap();
    let p2 = pm.create_process(default_process_params()).unwrap();
    let p1_t2 = pm.create_thread(p1, default_thread_params()).unwrap();
    let p2_main = pm.get_process(p2).unwrap().threads[0];

    assert_eq!(pm.terminate_process(p1), Ok(()));
    // No thread owned by p1 is Ready or Running.
    let p1_threads = pm.get_process(p1).unwrap().threads.clone();
    for tid in p1_threads {
        let st = pm.get_thread(tid).unwrap().state;
        assert_eq!(st, ThreadState::Terminated);
    }
    assert_eq!(pm.get_thread(p1_t2).unwrap().state, ThreadState::Terminated);
    assert_eq!(pm.get_process(p1).unwrap().state, ProcessState::Terminated);
    // The other process is untouched and still schedulable.
    assert_eq!(pm.get_process(p2).unwrap().state, ProcessState::Ready);
    assert_eq!(pm.schedule_next(), Some(p2_main));
    assert_eq!(pm.schedule_next(), Some(p2_main));
}

#[test]
fn terminate_process_with_running_thread_reschedules() {
    let mut pm = ProcessManager::new();
    let p1 = pm.create_process(default_process_params()).unwrap();
    let p2 = pm.create_process(default_process_params()).unwrap();
    let p1_main = pm.get_process(p1).unwrap().threads[0];
    let p2_main = pm.get_process(p2).unwrap().threads[0];
    assert_eq!(pm.schedule_next(), Some(p1_main));

    assert_eq!(pm.terminate_process(p1), Ok(()));
    assert_eq!(pm.get_current_thread(), Some(p2_main));
}

#[test]
fn terminate_unknown_process_fails() {
    let mut pm = ProcessManager::new();
    assert_eq!(pm.terminate_process(ProcessId(3)), Err(ProcessError::ProcessNotFound));
}

#[test]
fn blocked_thread_waits_until_unblocked() {
    let mut pm = ProcessManager::new();
    let pid = pm.create_process(default_process_params()).unwrap();
    let t1 = ThreadId(1);
    let t2 = pm.create_thread(pid, default_thread_params()).unwrap();

    assert_eq!(pm.schedule_next(), Some(t1));
    // The current thread blocks awaiting a capability response; the
    // scheduler moves on at once.
    assert_eq!(pm.block_thread(t1), Ok(()));
    assert_eq!(pm.get_thread(t1).unwrap().state, ThreadState::Blocked);
    assert_eq!(pm.get_current_thread(), Some(t2));
    // While blocked it never comes up in the rotation.
    for _ in 0..5 {
        assert_eq!(pm.schedule_next(), Some(t2));
    }
    // Its response arrives: it rejoins at the queue's tail, so it runs
    // after the thread ahead of it in the rotation.
    assert_eq!(pm.unblock_thread(t1), Ok(()));
    assert_eq!(pm.get_thread(t1).unwrap().state, ThreadState::Ready);
    assert_eq!(pm.schedule_next(), Some(t2));
    assert_eq!(pm.schedule_next(), Some(t1));
}

#[test]
fn blocking_a_terminated_thread_is_refused() {
    let mut pm = ProcessManager::new();
    let _pid = pm.create_process(default_process_params()).unwrap();
    let t1 = ThreadId(1);
    assert_eq!(pm.terminate_thread(t1), Ok(()));
    assert_eq!(pm.block_thread(t1), Err(ProcessError::InvalidParameters));
    assert_eq!(pm.block_thread(ThreadId(9)), Err(ProcessError::ThreadNotFound));
    // Waking a thread that is not blocked is a quiet no-op.
    assert_eq!(pm.unblock_thread(t1), Ok(()));
    assert_eq!(pm.get_thread(t1).unwrap().state, ThreadState::Terminated);
}
