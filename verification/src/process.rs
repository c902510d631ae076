//! Process and thread management: the control-block tables, the FIFO ready
//! queue, and the cooperative round-robin scheduler over them.
//!
//! Execution is single-threaded and cooperative: exactly one thread is
//! Running at any instant, and control transfers only at explicit yield,
//! block or terminate calls. Every scheduler operation's contract is stated
//! over the mathematical model in `crate::scheduling`, so the laws proved
//! there carry over to this executable manager.

use vstd::prelude::*;
use std::collections::VecDeque;
use crate::capability::Capability;
use crate::memory::MemoryRegion;
use crate::scheduling::Sched;
use crate::scheduling::queue_remove;
use crate::scheduling::sched_demote;
use crate::scheduling::sched_pick;
use crate::scheduling::sched_remove;
use crate::scheduling::sched_retire;
use crate::scheduling::sched_step;
use crate::scheduling::sched_wf;
use crate::scheduling::lemma_retire;
use crate::scheduling::lemma_step_preserves_wf;

verus! {

/// Process identifier.
#[derive(Debug, Clone, Copy, PartialEq, Eq, Hash, Structural)]
pub struct ProcessId(pub u32);

/// Thread identifier.
#[derive(Debug, Clone, Copy, PartialEq, Eq, Hash, Structural)]
pub struct ThreadId(pub u32);

/// Process state. Running is derived: a process runs exactly when one of its
/// threads is the scheduled thread; it is Terminated only once every owned
/// thread is.
#[derive(Debug, Clone, Copy, PartialEq, Eq, Structural)]
pub enum ProcessState {
    Created,
    Ready,
    Running,
    Blocked,
    Terminated,
}

/// Thread state.
#[derive(Debug, Clone, Copy, PartialEq, Eq, Structural)]
pub enum ThreadState {
    Created,
    Ready,
    Running,
    Blocked,
    Terminated,
}

/// Process control block.
#[derive(Debug, Clone)]
pub struct ProcessControlBlock {
    pub pid: ProcessId,
    pub parent_pid: Option<ProcessId>,
    pub state: ProcessState,
    pub capabilities: Vec<Capability>,
    pub memory_regions: Vec<MemoryRegion>,
    pub threads: Vec<ThreadId>,
    pub priority: u8,
    pub creation_time: u64,
    pub cpu_time: u64,
}

/// Thread control block.
#[derive(Debug, Clone, Copy, PartialEq, Eq, Structural)]
pub struct ThreadControlBlock {
    pub tid: ThreadId,
    pub pid: ProcessId,
    pub state: ThreadState,
    pub stack_pointer: usize,
    pub instruction_pointer: usize,
    pub priority: u8,
    pub cpu_time: u64,
}

/// Process creation parameters.
#[derive(Debug, Clone)]
pub struct ProcessCreateParams {
    pub program_path: String,
    pub arguments: Vec<String>,
    pub environment: Vec<(String, String)>,
    pub capabilities: Vec<crate::capability::CapabilityId>,
    pub memory_limit: Option<usize>,
    pub cpu_limit: Option<u64>,
}

/// Thread creation parameters.
#[derive(Debug, Clone, Copy, PartialEq, Eq, Structural)]
pub struct ThreadCreateParams {
    pub entry_point: usize,
    pub stack_size: usize,
    pub priority: u8,
}

/// Process manager errors.
#[derive(Debug, Clone, PartialEq, Eq)]
pub enum ProcessError {
    ProcessNotFound,
    ThreadNotFound,
    InsufficientPermissions,
    ResourceExhausted,
    InvalidParameters,
    SystemError(String),
}

/// Some thread in the table carries identifier `tid`.
pub open spec fn seq_has_tid(s: Seq<ThreadControlBlock>, tid: u32) -> bool {
    exists|i: int| 0 <= i < s.len() && s[i].tid.0 == tid
}

/// Index of the thread carrying `tid`; well-defined when identifiers are
/// unique.
pub open spec fn seq_tid_idx(s: Seq<ThreadControlBlock>, tid: u32) -> int {
    choose|i: int| 0 <= i < s.len() && s[i].tid.0 == tid
}

/// The control block of the thread carrying `tid`.
pub open spec fn seq_thread(s: Seq<ThreadControlBlock>, tid: u32) -> ThreadControlBlock {
    s[seq_tid_idx(s, tid)]
}

/// Thread identifiers are pairwise distinct.
pub open spec fn tcbs_unique(s: Seq<ThreadControlBlock>) -> bool {
    forall|i: int, j: int|
        #![trigger s[i], s[j]]
        0 <= i < s.len() && 0 <= j < s.len() && i != j ==> s[i].tid.0 != s[j].tid.0
}

/// The recorded state of each thread, as a map from identifier to state.
pub open spec fn states_of(s: Seq<ThreadControlBlock>) -> Map<u32, ThreadState> {
    Map::new(|t: u32| seq_has_tid(s, t), |t: u32| seq_thread(s, t).state)
}

/// Some process in the table carries identifier `pid`.
pub open spec fn seq_has_pid(s: Seq<ProcessControlBlock>, pid: u32) -> bool {
    exists|i: int| 0 <= i < s.len() && s[i].pid.0 == pid
}

/// Index of the process carrying `pid`; well-defined when identifiers are
/// unique.
pub open spec fn seq_pid_idx(s: Seq<ProcessControlBlock>, pid: u32) -> int {
    choose|i: int| 0 <= i < s.len() && s[i].pid.0 == pid
}

/// The control block of the process carrying `pid`.
pub open spec fn seq_process(s: Seq<ProcessControlBlock>, pid: u32) -> ProcessControlBlock {
    s[seq_pid_idx(s, pid)]
}

/// Process identifiers are pairwise distinct.
pub open spec fn pcbs_unique(s: Seq<ProcessControlBlock>) -> bool {
    forall|i: int, j: int|
        #![trigger s[i], s[j]]
        0 <= i < s.len() && 0 <= j < s.len() && i != j ==> s[i].pid.0 != s[j].pid.0
}

/// Updating one thread's state leaves the identifier map keyed the same and
/// changes exactly that thread's entry.
pub proof fn lemma_states_of_update(s: Seq<ThreadControlBlock>, i: int, tcb: ThreadControlBlock)
    requires
        tcbs_unique(s),
        0 <= i < s.len(),
        tcb.tid == s[i].tid,
        tcb.pid == s[i].pid,
    ensures
        tcbs_unique(s.update(i, tcb)),
        states_of(s.update(i, tcb)) =~= states_of(s).insert(s[i].tid.0, tcb.state),
        forall|t: u32| seq_has_tid(s.update(i, tcb), t) == seq_has_tid(s, t),
        forall|t: u32|
            seq_has_tid(s, t) ==> #[trigger] seq_thread(s.update(i, tcb), t).tid
                == seq_thread(s, t).tid && seq_thread(s.update(i, tcb), t).pid
                == seq_thread(s, t).pid,
{
    let s2 = s.update(i, tcb);
    assert(forall|j: int| 0 <= j < s.len() ==> #[trigger] s2[j].tid == s[j].tid && s2[j].pid == s[j].pid);
    assert forall|t: u32| seq_has_tid(s2, t) == seq_has_tid(s, t) by {
        if seq_has_tid(s2, t) {
            let j = choose|j: int| 0 <= j < s2.len() && s2[j].tid.0 == t;
            assert(s[j].tid.0 == t);
        }
        if seq_has_tid(s, t) {
            let j = choose|j: int| 0 <= j < s.len() && s[j].tid.0 == t;
            assert(s2[j].tid.0 == t);
        }
    }
    assert forall|t: u32| seq_has_tid(s, t) implies #[trigger] seq_thread(s2, t).tid
        == seq_thread(s, t).tid && seq_thread(s2, t).pid == seq_thread(s, t).pid && (t != s[i].tid.0
        ==> seq_thread(s2, t) == seq_thread(s, t)) && (t == s[i].tid.0 ==> seq_thread(s2, t)
        == tcb) by {
        let j = seq_tid_idx(s, t);
        assert(0 <= j < s.len() && s[j].tid.0 == t);
        let j2 = seq_tid_idx(s2, t);
        assert(0 <= j2 < s2.len() && s2[j2].tid.0 == t);
        assert(s[j2].tid.0 == t);
        assert(j == j2);
        if t == s[i].tid.0 {
            assert(j == i);
        } else {
            assert(j != i);
        }
    }
    assert(states_of(s2) =~= states_of(s).insert(s[i].tid.0, tcb.state));
}

/// Appending a thread with a fresh identifier extends the state map by
/// exactly its entry.
pub proof fn lemma_states_of_push(s: Seq<ThreadControlBlock>, tcb: ThreadControlBlock)
    requires
        tcbs_unique(s),
        !seq_has_tid(s, tcb.tid.0),
    ensures
        tcbs_unique(s.push(tcb)),
        states_of(s.push(tcb)) =~= states_of(s).insert(tcb.tid.0, tcb.state),
        forall|t: u32|
            seq_has_tid(s.push(tcb), t) == (seq_has_tid(s, t) || t == tcb.tid.0),
        forall|t: u32|
            seq_has_tid(s, t) ==> #[trigger] seq_thread(s.push(tcb), t) == seq_thread(s, t),
        seq_thread(s.push(tcb), tcb.tid.0) == tcb,
{
    let s2 = s.push(tcb);
    assert(forall|j: int| 0 <= j < s.len() ==> #[trigger] s2[j] == s[j]);
    assert(s2[s.len() as int] == tcb);
    assert forall|t: u32| seq_has_tid(s2, t) == (seq_has_tid(s, t) || t == tcb.tid.0) by {
        if seq_has_tid(s2, t) {
            let j = choose|j: int| 0 <= j < s2.len() && s2[j].tid.0 == t;
            if j < s.len() {
                assert(s[j].tid.0 == t);
            }
        }
        if seq_has_tid(s, t) {
            let j = choose|j: int| 0 <= j < s.len() && s[j].tid.0 == t;
            assert(s2[j].tid.0 == t);
        }
    }
    assert forall|t: u32| seq_has_tid(s, t) implies #[trigger] seq_thread(s2, t)
        == seq_thread(s, t) by {
        let j = seq_tid_idx(s, t);
        assert(0 <= j < s.len() && s[j].tid.0 == t);
        let j2 = seq_tid_idx(s2, t);
        assert(0 <= j2 < s2.len() && s2[j2].tid.0 == t);
        if j2 == s.len() as int {
            assert(tcb.tid.0 == t);
            assert(false);
        }
        assert(s[j2].tid.0 == t);
        assert(j == j2);
    }
    assert(seq_thread(s2, tcb.tid.0) == tcb) by {
        let j2 = seq_tid_idx(s2, tcb.tid.0);
        assert(s2[s.len() as int].tid.0 == tcb.tid.0);
        assert(seq_has_tid(s2, tcb.tid.0));
        assert(0 <= j2 < s2.len() && s2[j2].tid.0 == tcb.tid.0);
        if j2 < s.len() {
            assert(seq_has_tid(s, tcb.tid.0));
            assert(false);
        }
    }
    assert(states_of(s2) =~= states_of(s).insert(tcb.tid.0, tcb.state));
}

/// With unique identifiers, each table entry's state is exactly its entry in
/// the state map.
pub proof fn lemma_states_index(s: Seq<ThreadControlBlock>)
    requires
        tcbs_unique(s),
    ensures
        forall|i: int|
            0 <= i < s.len() ==> states_of(s).contains_key((#[trigger] s[i]).tid.0) && states_of(
                s,
            )[s[i].tid.0] == s[i].state,
{
    assert forall|i: int| 0 <= i < s.len() implies states_of(s).contains_key(
        (#[trigger] s[i]).tid.0,
    ) && states_of(s)[s[i].tid.0] == s[i].state by {
        assert(seq_has_tid(s, s[i].tid.0));
        let j = seq_tid_idx(s, s[i].tid.0);
        assert(0 <= j < s.len() && s[j].tid.0 == s[i].tid.0);
        assert(j == i);
    }
}

/// Process manager: owns the process and thread tables, the ready queue and
/// the current-thread pointer. Each table is mutated only through this
/// manager's operations.
pub struct ProcessManager {
    pub processes: Vec<ProcessControlBlock>,
    pub threads: Vec<ThreadControlBlock>,
    pub next_pid: u32,
    pub next_tid: u32,
    pub ready_queue: VecDeque<ThreadId>,
    pub current_thread: Option<ThreadId>,
}

impl ProcessManager {
    /// The ready queue as a sequence of raw identifiers.
    pub open spec fn queue_ids(self) -> Seq<u32> {
        self.ready_queue@.map(|i: int, t: ThreadId| t.0)
    }

    /// The scheduler model this manager implements.
    pub open spec fn sched(self) -> Sched {
        Sched {
            states: states_of(self.threads@),
            queue: self.queue_ids(),
            current: match self.current_thread {
                Some(t) => Some(t.0),
                None => None,
            },
        }
    }

    /// Some thread carries `tid`.
    pub open spec fn spec_has_thread(self, tid: u32) -> bool {
        seq_has_tid(self.threads@, tid)
    }

    /// The control block of the thread carrying `tid`.
    pub open spec fn spec_thread(self, tid: u32) -> ThreadControlBlock {
        seq_thread(self.threads@, tid)
    }

    /// Some process carries `pid`.
    pub open spec fn spec_has_process(self, pid: u32) -> bool {
        seq_has_pid(self.processes@, pid)
    }

    /// The control block of the process carrying `pid`.
    pub open spec fn spec_process(self, pid: u32) -> ProcessControlBlock {
        seq_process(self.processes@, pid)
    }

    /// Manager well-formedness: identifiers are unique and below their
    /// counters, every thread's owner exists, every identifier in a
    /// process's thread list names a thread it owns, and the scheduler model
    /// is well-formed.
    pub open spec fn wf(self) -> bool {
        &&& tcbs_unique(self.threads@)
        &&& pcbs_unique(self.processes@)
        &&& 1 <= self.next_pid
        &&& 1 <= self.next_tid
        &&& (forall|i: int|
            0 <= i < self.threads@.len() ==> (#[trigger] self.threads@[i]).tid.0 < self.next_tid)
        &&& (forall|i: int|
            0 <= i < self.processes@.len() ==> (#[trigger] self.processes@[i]).pid.0
                < self.next_pid)
        &&& (forall|i: int|
            0 <= i < self.threads@.len() ==> seq_has_pid(
                self.processes@,
                (#[trigger] self.threads@[i]).pid.0,
            ))
        &&& (forall|i: int, k: int|
            #![trigger self.processes@[i].threads@[k]]
            0 <= i < self.processes@.len() && 0 <= k < self.processes@[i].threads@.len()
                ==> seq_has_tid(self.threads@, self.processes@[i].threads@[k].0) && seq_thread(
                self.threads@,
                self.processes@[i].threads@[k].0,
            ).pid == self.processes@[i].pid)
        &&& sched_wf(self.sched())
    }

    /// Create a new process manager with empty tables.
    pub fn new() -> (r: Self)
        ensures
            r.wf(),
            r.processes@.len() == 0,
            r.threads@.len() == 0,
            r.next_pid == 1,
            r.next_tid == 1,
            r.ready_queue@.len() == 0,
            r.current_thread is None,
    {
        ProcessManager {
            processes: Vec::new(),
            threads: Vec::new(),
            next_pid: 1,
            next_tid: 1,
            ready_queue: VecDeque::new(),
            current_thread: None,
        }
    }

    /// Index of the thread carrying `tid` in the thread table, if any.
    fn find_thread_index(&self, tid: u32) -> (r: Option<usize>)
        ensures
            match r {
                Some(i) => i < self.threads@.len() && self.threads@[i as int].tid.0 == tid
                    && seq_has_tid(self.threads@, tid),
                None => !seq_has_tid(self.threads@, tid),
            },
    {
        let mut i: usize = 0;
        while i < self.threads.len()
            invariant
                i <= self.threads.len(),
                forall|j: int| 0 <= j < i ==> self.threads@[j].tid.0 != tid,
            decreases self.threads.len() - i,
        {
            if self.threads[i].tid.0 == tid {
                return Some(i);
            }
            i += 1;
        }
        None
    }

    /// Index of the process carrying `pid` in the process table, if any.
    fn find_process_index(&self, pid: u32) -> (r: Option<usize>)
        ensures
            match r {
                Some(i) => i < self.processes@.len() && self.processes@[i as int].pid.0 == pid
                    && seq_has_pid(self.processes@, pid),
                None => !seq_has_pid(self.processes@, pid),
            },
    {
        let mut i: usize = 0;
        while i < self.processes.len()
            invariant
                i <= self.processes.len(),
                forall|j: int| 0 <= j < i ==> self.processes@[j].pid.0 != pid,
            decreases self.processes.len() - i,
        {
            if self.processes[i].pid.0 == pid {
                return Some(i);
            }
            i += 1;
        }
        None
    }

    /// Get process by PID.
    pub fn get_process(&self, pid: ProcessId) -> (r: Option<&ProcessControlBlock>)
        requires
            self.wf(),
        ensures
            match r {
                Some(p) => self.spec_has_process(pid.0) && *p == self.spec_process(pid.0)
                    && p.pid == pid,
                None => !self.spec_has_process(pid.0),
            },
    {
        match self.find_process_index(pid.0) {
            Some(i) => {
                proof {
                    assert(seq_pid_idx(self.processes@, pid.0) == i as int);
                }
                Some(&self.processes[i])
            },
            None => None,
        }
    }

    /// Get thread by TID.
    pub fn get_thread(&self, tid: ThreadId) -> (r: Option<&ThreadControlBlock>)
        requires
            self.wf(),
        ensures
            match r {
                Some(t) => self.spec_has_thread(tid.0) && *t == self.spec_thread(tid.0)
                    && t.tid == tid,
                None => !self.spec_has_thread(tid.0),
            },
    {
        match self.find_thread_index(tid.0) {
            Some(i) => {
                proof {
                    assert(seq_tid_idx(self.threads@, tid.0) == i as int);
                }
                Some(&self.threads[i])
            },
            None => None,
        }
    }

    /// Get the currently running thread, if any.
    pub fn get_current_thread(&self) -> (r: Option<ThreadId>)
        ensures
            r == self.current_thread,
    {
        self.current_thread
    }

    /// Schedule the next thread to run, round-robin: pop the queue's front,
    /// set the previously running thread back to Ready, re-validate that the
    /// popped thread is still Ready, mark it current and Running, and
    /// re-append it to the queue's tail. From a well-formed manager this
    /// returns the queue's front whenever the queue is non-empty, and the
    /// returned thread was never Blocked, Terminated or merely Created at
    /// selection.
    pub fn schedule_next(&mut self) -> (r: Option<ThreadId>)
        requires
            old(self).wf(),
        ensures
            final(self).wf(),
            final(self).sched() == sched_step(old(self).sched()),
            final(self).processes@ == old(self).processes@,
            final(self).next_pid == old(self).next_pid,
            final(self).next_tid == old(self).next_tid,
            final(self).threads@.len() == old(self).threads@.len(),
            forall|i: int|
                0 <= i < old(self).threads@.len() ==> (#[trigger] final(self).threads@[i]).tid
                    == old(self).threads@[i].tid && final(self).threads@[i].pid
                    == old(self).threads@[i].pid && final(self).threads@[i].stack_pointer
                    == old(self).threads@[i].stack_pointer
                    && final(self).threads@[i].instruction_pointer
                        == old(self).threads@[i].instruction_pointer
                    && final(self).threads@[i].priority == old(self).threads@[i].priority
                    && final(self).threads@[i].cpu_time == old(self).threads@[i].cpu_time,
            r == match sched_pick(old(self).sched()) {
                Some(t) => Some(ThreadId(t)),
                None => None::<ThreadId>,
            },
            r is None <==> old(self).ready_queue@.len() == 0,
            old(self).ready_queue@.len() > 0 ==> r == Some(old(self).ready_queue@[0]),
            r matches Some(tid) ==> old(self).spec_has_thread(tid.0) && (old(self).spec_thread(
                tid.0,
            ).state == ThreadState::Ready || (old(self).current_thread == Some(tid) && old(self).spec_thread(tid.0).state == ThreadState::Running)),
            r matches Some(tid) ==> final(self).current_thread == Some(tid) && final(self).spec_thread(tid.0).state == ThreadState::Running,
    {
        proof {
            lemma_step_preserves_wf(old(self).sched());
        }
        let front = match self.ready_queue.pop_front() {
            None => {
                proof {
                    assert(final(self).sched() =~= old(self).sched());
                }
                return None;
            },
            Some(t) => t,
        };
        proof {
            assert(old(self).sched().queue[0] == front.0);
        }
        // The implicit yield: the previously running thread goes back to
        // Ready, keeping its place in the queue.
        if let Some(c) = self.current_thread {
            match self.find_thread_index(c.0) {
                Some(ci) => {
                    if matches!(self.threads[ci].state, ThreadState::Running) {
                        let tcb = self.threads[ci];
                        proof {
                            assert(seq_tid_idx(old(self).threads@, c.0) == ci as int);
                            lemma_states_of_update(
                                old(self).threads@,
                                ci as int,
                                ThreadControlBlock { state: ThreadState::Ready, ..tcb },
                            );
                        }
                        self.threads[ci] = ThreadControlBlock { state: ThreadState::Ready, ..tcb };
                    }
                },
                None => {},
            }
        }
        proof {
            assert(states_of(self.threads@) =~= sched_demote(old(self).sched()).states);
        }
        // Re-validate that the popped thread is still Ready; a stale entry
        // is dropped.
        let fi = match self.find_thread_index(front.0) {
            None => {
                proof {
                    assert(final(self).sched() =~= sched_step(old(self).sched()));
                }
                return None;
            },
            Some(fi) => fi,
        };
        if !matches!(self.threads[fi].state, ThreadState::Ready) {
            proof {
                assert(seq_tid_idx(self.threads@, front.0) == fi as int);
                assert(states_of(self.threads@)[front.0] != ThreadState::Ready);
                assert(final(self).sched() =~= sched_step(old(self).sched()));
            }
            return None;
        }
        let tcb = self.threads[fi];
        proof {
            assert(seq_tid_idx(self.threads@, front.0) == fi as int);
            assert(states_of(self.threads@)[front.0] == ThreadState::Ready);
            lemma_states_of_update(
                self.threads@,
                fi as int,
                ThreadControlBlock { state: ThreadState::Running, ..tcb },
            );
        }
        self.threads[fi] = ThreadControlBlock { state: ThreadState::Running, ..tcb };
        self.current_thread = Some(front);
        self.ready_queue.push_back(front);
        proof {
            assert(final(self).queue_ids() =~= old(self).sched().queue.subrange(
                1,
                old(self).sched().queue.len() as int,
            ).push(front.0));
            assert(final(self).sched() =~= sched_step(old(self).sched()));
            assert(seq_tid_idx(final(self).threads@, front.0) == fi as int);
        }
        Some(front)
    }

    /// Create a new thread in the process `pid`: a fresh identifier is
    /// assigned, the stack and instruction pointers are initialized from
    /// `params`, the thread starts Ready, and it is appended to the owning
    /// process's thread list and to the ready queue's tail. An unknown `pid`
    /// fails with `ProcessNotFound` and performs no mutation at all.
    pub fn create_thread(&mut self, pid: ProcessId, params: ThreadCreateParams) -> (r: Result<
        ThreadId,
        ProcessError,
    >)
        requires
            old(self).wf(),
            old(self).next_tid < u32::MAX,
            params.entry_point + params.stack_size <= usize::MAX,
        ensures
            final(self).wf(),
            r is Err <==> !old(self).spec_has_process(pid.0),
            r is Err ==> r == Err::<ThreadId, ProcessError>(ProcessError::ProcessNotFound)
                && final(self).threads@ == old(self).threads@
                && final(self).processes@ == old(self).processes@
                && final(self).ready_queue@ == old(self).ready_queue@
                && final(self).current_thread == old(self).current_thread
                && final(self).next_pid == old(self).next_pid
                && final(self).next_tid == old(self).next_tid,
            r matches Ok(tid) ==> {
                &&& tid.0 == old(self).next_tid
                &&& final(self).next_tid == old(self).next_tid + 1
                &&& final(self).next_pid == old(self).next_pid
                &&& final(self).current_thread == old(self).current_thread
                &&& final(self).threads@ == old(self).threads@.push(
                    ThreadControlBlock {
                        tid,
                        pid,
                        state: ThreadState::Ready,
                        stack_pointer: (params.entry_point + params.stack_size) as usize,
                        instruction_pointer: params.entry_point,
                        priority: params.priority,
                        cpu_time: 0,
                    },
                )
                &&& final(self).ready_queue@ == old(self).ready_queue@.push(tid)
                &&& final(self).spec_thread(tid.0).state == ThreadState::Ready
                &&& final(self).processes@.len() == old(self).processes@.len()
                &&& (forall|i: int|
                    0 <= i < old(self).processes@.len() && i != seq_pid_idx(
                        old(self).processes@,
                        pid.0,
                    ) ==> #[trigger] final(self).processes@[i] == old(self).processes@[i])
                &&& {
                    let pidx = seq_pid_idx(old(self).processes@, pid.0);
                    let p0 = old(self).processes@[pidx];
                    let p1 = final(self).processes@[pidx];
                    p1.pid == p0.pid && p1.parent_pid == p0.parent_pid && p1.state == p0.state
                        && p1.capabilities@ == p0.capabilities@ && p1.memory_regions@
                        == p0.memory_regions@ && p1.priority == p0.priority && p1.creation_time
                        == p0.creation_time && p1.cpu_time == p0.cpu_time && p1.threads@
                        == p0.threads@.push(tid)
                }
            },
    {
        let pi = match self.find_process_index(pid.0) {
            None => {
                return Err(ProcessError::ProcessNotFound);
            },
            Some(i) => i,
        };
        proof {
            assert(seq_pid_idx(old(self).processes@, pid.0) == pi as int);
        }
        let tid = ThreadId(self.next_tid);
        self.next_tid = self.next_tid + 1;
        let tcb = ThreadControlBlock {
            tid,
            pid,
            state: ThreadState::Ready,
            stack_pointer: params.entry_point + params.stack_size,
            instruction_pointer: params.entry_point,
            priority: params.priority,
            cpu_time: 0,
        };
        proof {
            assert(!seq_has_tid(old(self).threads@, tid.0)) by {
                if seq_has_tid(old(self).threads@, tid.0) {
                    let j = choose|j: int|
                        0 <= j < old(self).threads@.len() && old(self).threads@[j].tid.0 == tid.0;
                    assert(old(self).threads@[j].tid.0 < old(self).next_tid);
                }
            }
            lemma_states_of_push(old(self).threads@, tcb);
        }
        self.threads.push(tcb);
        self.ready_queue.push_back(tid);
        self.processes[pi].threads.push(tid);
        proof {
            let pre = old(self).sched();
            let post = self.sched();
            assert(post.queue =~= pre.queue.push(tid.0));
            assert(post.states =~= pre.states.insert(tid.0, ThreadState::Ready));
            assert(!pre.queue.contains(tid.0)) by {
                if pre.queue.contains(tid.0) {
                    let k = choose|k: int| 0 <= k < pre.queue.len() && pre.queue[k] == tid.0;
                    assert(pre.states.contains_key(pre.queue[k]));
                    assert(seq_has_tid(old(self).threads@, tid.0));
                }
            }
            assert(sched_wf(post)) by {
                assert forall|k: int| 0 <= k < post.queue.len() implies post.states.contains_key(
                    #[trigger] post.queue[k],
                ) && (post.states[post.queue[k]] == ThreadState::Ready || (post.current == Some(
                    post.queue[k],
                ) && post.states[post.queue[k]] == ThreadState::Running)) by {
                    if k < post.queue.len() - 1 {
                        assert(post.queue[k] == pre.queue[k]);
                    } else {
                        assert(post.queue[k] == tid.0);
                    }
                }
                assert forall|k: int, l: int|
                    0 <= k < post.queue.len() && 0 <= l < post.queue.len() && k
                        != l implies #[trigger] post.queue[k] != #[trigger] post.queue[l] by {
                    let n = post.queue.len() - 1;
                    if k < n && l < n {
                        assert(post.queue[k] == pre.queue[k] && post.queue[l] == pre.queue[l]);
                    } else if k == n {
                        assert(post.queue[k] == tid.0 && post.queue[l] == pre.queue[l]);
                        assert(pre.queue.contains(pre.queue[l]));
                    } else {
                        assert(post.queue[l] == tid.0 && post.queue[k] == pre.queue[k]);
                        assert(pre.queue.contains(pre.queue[k]));
                    }
                }
                match post.current {
                    Some(c) => {
                        assert(pre.queue.contains(c));
                        let k = choose|k: int| 0 <= k < pre.queue.len() && pre.queue[k] == c;
                        assert(post.queue[k] == c);
                        assert(post.queue.contains(c));
                    },
                    None => {},
                }
            }
            lemma_states_index(self.threads@);
            // Table invariants: the owner list gained exactly the new thread.
            assert(self.wf()) by {
                assert forall|i: int|
                    0 <= i < self.threads@.len() implies seq_has_pid(
                    self.processes@,
                    (#[trigger] self.threads@[i]).pid.0,
                ) by {
                    if i < self.threads@.len() - 1 {
                        assert(self.threads@[i] == old(self).threads@[i]);
                        let j = choose|j: int|
                            0 <= j < old(self).processes@.len() && old(self).processes@[j].pid.0
                                == old(self).threads@[i].pid.0;
                        assert(self.processes@[j].pid.0 == self.threads@[i].pid.0);
                    } else {
                        assert(self.processes@[pi as int].pid.0 == pid.0);
                    }
                }
                assert forall|i: int, k: int|
                    #![trigger self.processes@[i].threads@[k]]
                    0 <= i < self.processes@.len() && 0 <= k
                        < self.processes@[i].threads@.len() implies seq_has_tid(
                    self.threads@,
                    self.processes@[i].threads@[k].0,
                ) && seq_thread(self.threads@, self.processes@[i].threads@[k].0).pid
                    == self.processes@[i].pid by {
                    if i == pi as int && k == self.processes@[i].threads@.len() - 1 {
                        assert(self.processes@[i].threads@[k] == tid);
                        assert(seq_thread(self.threads@, tid.0) == tcb);
                    } else {
                        assert(old(self).processes@[i].threads@[k]
                            == self.processes@[i].threads@[k]);
                        assert(seq_has_tid(
                            old(self).threads@,
                            old(self).processes@[i].threads@[k].0,
                        ));
                    }
                }
            }
        }
        Ok(tid)
    }

    /// Create a new process: a fresh identifier is assigned, the control
    /// block is stored, and an initial thread is created for it, so the new
    /// process joins the rotation Ready. Creation never fails; identifier
    /// exhaustion is excluded by the caller's obligation.
    pub fn create_process(&mut self, params: ProcessCreateParams) -> (r: Result<
        ProcessId,
        ProcessError,
    >)
        requires
            old(self).wf(),
            old(self).next_pid < u32::MAX,
            old(self).next_tid < u32::MAX,
        ensures
            final(self).wf(),
            r == Ok::<ProcessId, ProcessError>(ProcessId(old(self).next_pid)),
            final(self).next_pid == old(self).next_pid + 1,
            final(self).next_tid == old(self).next_tid + 1,
            final(self).current_thread == old(self).current_thread,
            final(self).processes@.len() == old(self).processes@.len() + 1,
            forall|i: int|
                0 <= i < old(self).processes@.len() ==> #[trigger] final(self).processes@[i]
                    == old(self).processes@[i],
            final(self).spec_has_process(old(self).next_pid),
            final(self).spec_process(old(self).next_pid).state == ProcessState::Ready,
            final(self).spec_process(old(self).next_pid).threads@ == seq![
                ThreadId(old(self).next_tid),
            ],
            final(self).spec_process(old(self).next_pid).parent_pid is None,
            final(self).spec_has_thread(old(self).next_tid),
            final(self).spec_thread(old(self).next_tid).state == ThreadState::Ready,
            final(self).spec_thread(old(self).next_tid).pid.0 == old(self).next_pid,
            final(self).threads@.len() == old(self).threads@.len() + 1,
            final(self).ready_queue@ == old(self).ready_queue@.push(ThreadId(old(self).next_tid)),
    {
        let _ = params;
        let pid = ProcessId(self.next_pid);
        self.next_pid = self.next_pid + 1;
        let pcb = ProcessControlBlock {
            pid,
            parent_pid: None,
            state: ProcessState::Created,
            capabilities: Vec::new(),
            memory_regions: Vec::new(),
            threads: Vec::new(),
            priority: 128,
            creation_time: 0,
            cpu_time: 0,
        };
        proof {
            assert(!seq_has_pid(old(self).processes@, pid.0)) by {
                if seq_has_pid(old(self).processes@, pid.0) {
                    let j = choose|j: int|
                        0 <= j < old(self).processes@.len() && old(self).processes@[j].pid.0
                            == pid.0;
                    assert(old(self).processes@[j].pid.0 < old(self).next_pid);
                }
            }
        }
        self.processes.push(pcb);
        let ghost snap = *self;
        proof {
            let n = old(self).processes@.len() as int;
            assert(snap.processes@[n].pid.0 == pid.0);
            assert(snap.sched() =~= old(self).sched());
            assert(snap.wf()) by {
                assert forall|i: int|
                    0 <= i < snap.threads@.len() implies seq_has_pid(
                    snap.processes@,
                    (#[trigger] snap.threads@[i]).pid.0,
                ) by {
                    let j = choose|j: int|
                        0 <= j < old(self).processes@.len() && old(self).processes@[j].pid.0
                            == snap.threads@[i].pid.0;
                    assert(snap.processes@[j].pid.0 == snap.threads@[i].pid.0);
                }
                assert forall|i: int, k: int|
                    #![trigger snap.processes@[i].threads@[k]]
                    0 <= i < snap.processes@.len() && 0 <= k
                        < snap.processes@[i].threads@.len() implies seq_has_tid(
                    snap.threads@,
                    snap.processes@[i].threads@[k].0,
                ) && seq_thread(snap.threads@, snap.processes@[i].threads@[k].0).pid
                    == snap.processes@[i].pid by {
                    assert(i < n);
                    assert(snap.processes@[i] == old(self).processes@[i]);
                }
            }
            assert(seq_pid_idx(snap.processes@, pid.0) == n) by {
                let j = seq_pid_idx(snap.processes@, pid.0);
                assert(seq_has_pid(snap.processes@, pid.0));
                assert(0 <= j < snap.processes@.len() && snap.processes@[j].pid.0 == pid.0);
                if j < n {
                    assert(old(self).processes@[j].pid.0 == pid.0);
                    assert(seq_has_pid(old(self).processes@, pid.0));
                }
            }
        }
        let thread_params = ThreadCreateParams {
            entry_point: 0x400000,
            stack_size: 0x100000,
            priority: 128,
        };
        let tid = match self.create_thread(pid, thread_params) {
            Ok(tid) => tid,
            Err(_) => {
                proof {
                    assert(false);
                }
                vstd::pervasive::unreached()
            },
        };
        let pi = self.processes.len() - 1;
        proof {
            let n = old(self).processes@.len() as int;
            assert(pi as int == n);
            assert(self.processes@[n].pid.0 == pid.0);
            assert(self.processes@[n].threads@ =~= seq![tid]);
            assert(self.processes@[n].state == ProcessState::Created);
        }
        let ghost before = *self;
        self.processes[pi].state = ProcessState::Ready;
        proof {
            let n = old(self).processes@.len() as int;
            assert(self.processes@.len() == before.processes@.len());
            assert(forall|j: int|
                0 <= j < self.processes@.len() && j != n ==> #[trigger] self.processes@[j]
                    == before.processes@[j]);
            assert(self.processes@[n].pid == before.processes@[n].pid);
            assert(self.processes@[n].threads@ == before.processes@[n].threads@);
            assert(self.sched() =~= before.sched());
            assert(self.wf()) by {
                assert forall|i: int|
                    0 <= i < self.threads@.len() implies seq_has_pid(
                    self.processes@,
                    (#[trigger] self.threads@[i]).pid.0,
                ) by {
                    let j = choose|j: int|
                        0 <= j < before.processes@.len() && before.processes@[j].pid.0
                            == self.threads@[i].pid.0;
                    assert(self.processes@[j].pid.0 == self.threads@[i].pid.0);
                }
                assert forall|i: int, k: int|
                    #![trigger self.processes@[i].threads@[k]]
                    0 <= i < self.processes@.len() && 0 <= k
                        < self.processes@[i].threads@.len() implies seq_has_tid(
                    self.threads@,
                    self.processes@[i].threads@[k].0,
                ) && seq_thread(self.threads@, self.processes@[i].threads@[k].0).pid
                    == self.processes@[i].pid by {
                    assert(self.processes@[i].threads@[k] == before.processes@[i].threads@[k]);
                    assert(self.processes@[i].pid == before.processes@[i].pid);
                }
            }
            assert(seq_pid_idx(self.processes@, pid.0) == n) by {
                let j = seq_pid_idx(self.processes@, pid.0);
                assert(seq_has_pid(self.processes@, pid.0)) by {
                    assert(self.processes@[n].pid.0 == pid.0);
                }
                assert(0 <= j < self.processes@.len() && self.processes@[j].pid.0 == pid.0);
                if j != n {
                    assert(false);
                }
            }
            lemma_states_index(self.threads@);
            assert(self.spec_thread(tid.0).state == ThreadState::Ready) by {
                assert(self.threads@[self.threads@.len() - 1].tid.0 == tid.0);
                assert(seq_has_tid(self.threads@, tid.0));
                let j = seq_tid_idx(self.threads@, tid.0);
                assert(0 <= j < self.threads@.len() && self.threads@[j].tid.0 == tid.0);
                assert(states_of(self.threads@)[tid.0] == self.threads@[j].state);
                assert(self.threads@[self.threads@.len() - 1].state == ThreadState::Ready);
            }
        }
        Ok(pid)
    }


    /// Terminate a process: every thread it owns is terminated in turn
    /// (cascading through `terminate_thread`, so a running thread hands the
    /// processor on), and the process is then marked Terminated. An unknown
    /// `pid` fails with `ProcessNotFound` and changes nothing. Capabilities
    /// the process delegated to others are not revoked by this call; that
    /// remains the grantor's responsibility.
    pub fn terminate_process(&mut self, pid: ProcessId) -> (r: Result<(), ProcessError>)
        requires
            old(self).wf(),
        ensures
            final(self).wf(),
            r is Err <==> !old(self).spec_has_process(pid.0),
            r is Err ==> r == Err::<(), ProcessError>(ProcessError::ProcessNotFound)
                && final(self).threads@ == old(self).threads@
                && final(self).processes@ == old(self).processes@
                && final(self).ready_queue@ == old(self).ready_queue@
                && final(self).current_thread == old(self).current_thread
                && final(self).next_pid == old(self).next_pid
                && final(self).next_tid == old(self).next_tid,
            r is Ok ==> {
                &&& final(self).next_pid == old(self).next_pid
                &&& final(self).next_tid == old(self).next_tid
                &&& final(self).threads@.len() == old(self).threads@.len()
                &&& (forall|i: int|
                    0 <= i < old(self).threads@.len() ==> (#[trigger] final(self).threads@[i]).tid
                        == old(self).threads@[i].tid && final(self).threads@[i].pid
                        == old(self).threads@[i].pid)
                &&& (forall|i: int|
                    0 <= i < old(self).threads@.len() && (#[trigger] old(self).threads@[i]).pid.0 == pid.0 ==> final(self).threads@[i].state
                        == ThreadState::Terminated)
                &&& (forall|t: u32|
                    final(self).spec_has_thread(t) && (#[trigger] final(self).spec_thread(
                        t,
                    )).pid.0 == pid.0 ==> final(self).spec_thread(t).state
                        == ThreadState::Terminated)
                &&& (forall|i: int|
                    0 <= i < old(self).threads@.len() && (#[trigger] old(self).threads@[i]).state == ThreadState::Terminated ==> final(self).threads@[i].state == ThreadState::Terminated)
                &&& (forall|k: int|
                    0 <= k < final(self).sched().queue.len() ==> final(self).spec_thread(
                        #[trigger] final(self).sched().queue[k],
                    ).pid.0 != pid.0)
                &&& final(self).processes@.len() == old(self).processes@.len()
                &&& (forall|i: int|
                    0 <= i < old(self).processes@.len() && i != seq_pid_idx(
                        old(self).processes@,
                        pid.0,
                    ) ==> #[trigger] final(self).processes@[i] == old(self).processes@[i])
                &&& final(self).spec_process(pid.0).state == ProcessState::Terminated
                &&& final(self).spec_process(pid.0).pid == old(self).spec_process(pid.0).pid
                &&& final(self).spec_process(pid.0).threads@ == old(self).spec_process(
                    pid.0,
                ).threads@
            },
    {
        let pi = match self.find_process_index(pid.0) {
            None => {
                return Err(ProcessError::ProcessNotFound);
            },
            Some(i) => i,
        };
        proof {
            assert(seq_pid_idx(old(self).processes@, pid.0) == pi as int);
        }
        // Collect the identifiers of every thread the process owns.
        let mut owned: Vec<ThreadId> = Vec::new();
        let mut i: usize = 0;
        while i < self.threads.len()
            invariant
                i <= self.threads.len(),
                self == old(self),
                forall|j: int|
                    0 <= j < i && (#[trigger] old(self).threads@[j]).pid.0 == pid.0
                        ==> owned@.contains(old(self).threads@[j].tid),
                forall|k: int|
                    0 <= k < owned@.len() ==> seq_has_tid(
                        old(self).threads@,
                        (#[trigger] owned@[k]).0,
                    ),
            decreases self.threads.len() - i,
        {
            if self.threads[i].pid.0 == pid.0 {
                let t = self.threads[i].tid;
                let ghost prev = owned@;
                owned.push(t);
                proof {
                    assert(owned@ == prev.push(t));
                    assert(owned@[owned@.len() - 1] == t);
                    assert(seq_has_tid(old(self).threads@, t.0)) by {
                        assert(old(self).threads@[i as int].tid.0 == t.0);
                    }
                    assert forall|j: int|
                        0 <= j < i + 1 && (#[trigger] old(self).threads@[j]).pid.0
                            == pid.0 implies owned@.contains(old(self).threads@[j].tid) by {
                        if j < i {
                            assert(prev.contains(old(self).threads@[j].tid));
                            let w = choose|w: int|
                                0 <= w < prev.len() && prev[w] == old(self).threads@[j].tid;
                            assert(owned@[w] == old(self).threads@[j].tid);
                        } else {
                            assert(owned@[owned@.len() - 1] == old(self).threads@[j].tid);
                        }
                    }
                    assert forall|w: int|
                        0 <= w < owned@.len() implies seq_has_tid(
                        old(self).threads@,
                        (#[trigger] owned@[w]).0,
                    ) by {
                        if w < owned@.len() - 1 {
                            assert(owned@[w] == prev[w]);
                        }
                    }
                }
            }
            i += 1;
        }
        // Terminate each owned thread in turn.
        let mut k: usize = 0;
        while k < owned.len()
            invariant
                k <= owned.len(),
                self.wf(),
                self.processes@ == old(self).processes@,
                self.next_pid == old(self).next_pid,
                self.next_tid == old(self).next_tid,
                self.threads@.len() == old(self).threads@.len(),
                forall|i2: int|
                    0 <= i2 < old(self).threads@.len() ==> (#[trigger] self.threads@[i2]).tid
                        == old(self).threads@[i2].tid && self.threads@[i2].pid
                        == old(self).threads@[i2].pid,
                forall|j: int|
                    0 <= j < old(self).threads@.len() && (#[trigger] old(self).threads@[j]).pid.0 == pid.0 ==> owned@.contains(old(self).threads@[j].tid),
                forall|j: int|
                    0 <= j < owned@.len() ==> seq_has_tid(
                        old(self).threads@,
                        (#[trigger] owned@[j]).0,
                    ),
                forall|i2: int|
                    0 <= i2 < old(self).threads@.len() && (#[trigger] old(self).threads@[i2]).state == ThreadState::Terminated ==> self.threads@[i2].state
                        == ThreadState::Terminated,
                forall|j: int, i2: int|
                    0 <= j < k && 0 <= i2 < old(self).threads@.len() && (#[trigger] old(self).threads@[i2]).tid == (#[trigger] owned@[j]) ==> self.threads@[i2].state
                        == ThreadState::Terminated,
            decreases owned.len() - k,
        {
            let t = owned[k];
            let ghost pre = *self;
            proof {
                assert(seq_has_tid(old(self).threads@, t.0));
                assert(seq_has_tid(self.threads@, t.0)) by {
                    let j = choose|j: int|
                        0 <= j < old(self).threads@.len() && old(self).threads@[j].tid.0 == t.0;
                    assert(self.threads@[j].tid.0 == t.0);
                }
            }
            match self.terminate_thread(t) {
                Ok(()) => {},
                Err(_) => {
                    proof {
                        assert(false);
                    }
                },
            }
            proof {
                lemma_states_index(self.threads@);
                lemma_states_index(pre.threads@);
                assert forall|j: int, i2: int|
                    0 <= j < k + 1 && 0 <= i2 < old(self).threads@.len() && (#[trigger] old(self).threads@[i2]).tid == (#[trigger] owned@[j]) implies self.threads@[i2].state
                    == ThreadState::Terminated by {
                    if j < k {
                        assert(pre.threads@[i2].state == ThreadState::Terminated);
                    } else {
                        // This is the thread just terminated.
                        assert(owned@[j] == t);
                        assert(self.threads@[i2].tid.0 == t.0);
                        assert(self.spec_thread(t.0).state == ThreadState::Terminated);
                        let j2 = seq_tid_idx(self.threads@, t.0);
                        assert(0 <= j2 < self.threads@.len() && self.threads@[j2].tid.0 == t.0);
                        assert(j2 == i2);
                    }
                }
            }
            k += 1;
        }
        // Mark the process itself Terminated.
        let ghost before = *self;
        self.processes[pi].state = ProcessState::Terminated;
        proof {
            let n = pi as int;
            assert(self.processes@.len() == before.processes@.len());
            assert(forall|j: int|
                0 <= j < self.processes@.len() && j != n ==> #[trigger] self.processes@[j]
                    == before.processes@[j]);
            assert(self.processes@[n].pid == before.processes@[n].pid);
            assert(self.processes@[n].threads@ == before.processes@[n].threads@);
            assert(self.sched() =~= before.sched());
            assert(self.wf()) by {
                assert forall|i2: int|
                    0 <= i2 < self.threads@.len() implies seq_has_pid(
                    self.processes@,
                    (#[trigger] self.threads@[i2]).pid.0,
                ) by {
                    let j = choose|j: int|
                        0 <= j < before.processes@.len() && before.processes@[j].pid.0
                            == self.threads@[i2].pid.0;
                    assert(self.processes@[j].pid.0 == self.threads@[i2].pid.0);
                }
                assert forall|i2: int, k2: int|
                    #![trigger self.processes@[i2].threads@[k2]]
                    0 <= i2 < self.processes@.len() && 0 <= k2
                        < self.processes@[i2].threads@.len() implies seq_has_tid(
                    self.threads@,
                    self.processes@[i2].threads@[k2].0,
                ) && seq_thread(self.threads@, self.processes@[i2].threads@[k2].0).pid
                    == self.processes@[i2].pid by {
                    assert(self.processes@[i2].threads@[k2] == before.processes@[i2].threads@[k2]);
                    assert(self.processes@[i2].pid == before.processes@[i2].pid);
                }
            }
            // The owned threads are exactly those whose table entry names
            // this process, and each is Terminated now.
            lemma_states_index(self.threads@);
            assert forall|t: u32|
                self.spec_has_thread(t) && (#[trigger] self.spec_thread(t)).pid.0
                    == pid.0 implies self.spec_thread(t).state == ThreadState::Terminated by {
                let j = seq_tid_idx(self.threads@, t);
                assert(0 <= j < self.threads@.len() && self.threads@[j].tid.0 == t);
                assert(old(self).threads@[j].pid.0 == pid.0);
                assert(owned@.contains(old(self).threads@[j].tid));
                let w = choose|w: int|
                    0 <= w < owned@.len() && owned@[w] == old(self).threads@[j].tid;
                assert(self.threads@[j].state == ThreadState::Terminated);
                assert(self.spec_thread(t) == self.threads@[j]);
            }
            assert forall|i2: int|
                0 <= i2 < old(self).threads@.len() && (#[trigger] old(self).threads@[i2]).pid.0
                    == pid.0 implies self.threads@[i2].state == ThreadState::Terminated by {
                assert(owned@.contains(old(self).threads@[i2].tid));
                let w = choose|w: int|
                    0 <= w < owned@.len() && owned@[w] == old(self).threads@[i2].tid;
            }
            // No thread of this process remains in the ready queue: queued
            // threads are Ready or Running, never Terminated.
            assert forall|k2: int|
                0 <= k2 < self.sched().queue.len() implies self.spec_thread(
                #[trigger] self.sched().queue[k2],
            ).pid.0 != pid.0 by {
                let q = self.sched().queue[k2];
                assert(self.sched().states.contains_key(q));
                assert(self.sched().states[q] == ThreadState::Ready || self.sched().states[q]
                    == ThreadState::Running);
                let j = seq_tid_idx(self.threads@, q);
                assert(0 <= j < self.threads@.len() && self.threads@[j].tid.0 == q);
                assert(states_of(self.threads@)[q] == self.threads@[j].state);
                if self.spec_thread(q).pid.0 == pid.0 {
                    assert(self.threads@[j].state == ThreadState::Terminated);
                }
            }
            assert(seq_pid_idx(self.processes@, pid.0) == n) by {
                let j = seq_pid_idx(self.processes@, pid.0);
                assert(seq_has_pid(self.processes@, pid.0)) by {
                    assert(self.processes@[n].pid.0 == pid.0);
                }
                assert(0 <= j < self.processes@.len() && self.processes@[j].pid.0 == pid.0);
                if j != n {
                    assert(old(self).processes@[j].pid.0 == pid.0);
                    assert(false);
                }
            }
        }
        Ok(())
    }

    /// Take `tid` out of the ready queue, wherever it sits. Nothing else
    /// changes; the caller re-establishes the scheduler invariants.
    #[verifier::loop_isolation(false)]
    fn remove_from_queue(&mut self, tid: ThreadId)
        requires
            forall|k: int, l: int|
                #![trigger old(self).queue_ids()[k], old(self).queue_ids()[l]]
                0 <= k < old(self).queue_ids().len() && 0 <= l < old(self).queue_ids().len() && k
                    != l ==> old(self).queue_ids()[k] != old(self).queue_ids()[l],
        ensures
            final(self).threads@ == old(self).threads@,
            final(self).processes@ == old(self).processes@,
            final(self).next_pid == old(self).next_pid,
            final(self).next_tid == old(self).next_tid,
            final(self).current_thread == old(self).current_thread,
            final(self).queue_ids() == queue_remove(old(self).queue_ids(), tid.0),
    {
        let mut k: usize = 0;
        while k < self.ready_queue.len()
            invariant
                k <= self.ready_queue.len(),
                self == old(self),
                forall|j: int| 0 <= j < k ==> old(self).queue_ids()[j] != tid.0,
            decreases self.ready_queue.len() - k,
        {
            if self.ready_queue[k].0 == tid.0 {
                proof {
                    assert(old(self).queue_ids()[k as int] == tid.0);
                    assert(old(self).queue_ids().contains(tid.0));
                    let i = old(self).queue_ids().index_of(tid.0);
                    assert(0 <= i < old(self).queue_ids().len() && old(self).queue_ids()[i]
                        == tid.0);
                    if i != k as int {
                        assert(old(self).queue_ids()[i] != old(self).queue_ids()[k as int]);
                        assert(false);
                    }
                }
                let _ = self.ready_queue.remove(k);
                proof {
                    assert(self.queue_ids() =~= queue_remove(old(self).queue_ids(), tid.0));
                }
                return;
            }
            k += 1;
        }
        proof {
            if old(self).queue_ids().contains(tid.0) {
                let j = choose|j: int|
                    0 <= j < old(self).queue_ids().len() && old(self).queue_ids()[j] == tid.0;
                assert(false);
            }
        }
    }

    /// Terminate a thread: its recorded state becomes Terminated, it leaves
    /// the ready queue wherever it sits, and — if it was the current thread —
    /// the current pointer is cleared and the next thread is scheduled at
    /// once. An unknown thread fails with `ThreadNotFound` and nothing
    /// changes. Once terminated, the laws of `crate::scheduling` guarantee
    /// the thread is never scheduled again.
    pub fn terminate_thread(&mut self, tid: ThreadId) -> (r: Result<(), ProcessError>)
        requires
            old(self).wf(),
        ensures
            final(self).wf(),
            r is Err <==> !old(self).spec_has_thread(tid.0),
            r is Err ==> r == Err::<(), ProcessError>(ProcessError::ThreadNotFound) && final(self).threads@ == old(self).threads@ && final(self).processes@ == old(self).processes@
                && final(self).ready_queue@ == old(self).ready_queue@ && final(self).current_thread
                == old(self).current_thread && final(self).next_pid == old(self).next_pid && final(self).next_tid == old(self).next_tid,
            r is Ok ==> {
                &&& final(self).sched() == sched_retire(
                    old(self).sched(),
                    tid.0,
                    ThreadState::Terminated,
                )
                &&& final(self).processes@ == old(self).processes@
                &&& final(self).next_pid == old(self).next_pid
                &&& final(self).next_tid == old(self).next_tid
                &&& final(self).threads@.len() == old(self).threads@.len()
                &&& (forall|i: int|
                    0 <= i < old(self).threads@.len() ==> (#[trigger] final(self).threads@[i]).tid
                        == old(self).threads@[i].tid && final(self).threads@[i].pid
                        == old(self).threads@[i].pid && final(self).threads@[i].stack_pointer
                        == old(self).threads@[i].stack_pointer
                        && final(self).threads@[i].instruction_pointer
                            == old(self).threads@[i].instruction_pointer
                        && final(self).threads@[i].priority == old(self).threads@[i].priority
                        && final(self).threads@[i].cpu_time == old(self).threads@[i].cpu_time)
                &&& final(self).spec_thread(tid.0).state == ThreadState::Terminated
                &&& !final(self).sched().queue.contains(tid.0)
                &&& final(self).current_thread != Some(tid)
                &&& (forall|i: int|
                    0 <= i < old(self).threads@.len() && (#[trigger] old(self).threads@[i]).state == ThreadState::Terminated ==> final(self).threads@[i].state == ThreadState::Terminated)
                &&& (forall|i: int|
                    0 <= i < old(self).threads@.len() && (#[trigger] old(self).threads@[i]).tid.0 != tid.0 ==> (final(self).threads@[i].state == old(self).threads@[i].state || (old(self).threads@[i].state == ThreadState::Ready
                        && final(self).threads@[i].state == ThreadState::Running && final(self).current_thread == Some(old(self).threads@[i].tid))))
            },
    {
        let ti = match self.find_thread_index(tid.0) {
            None => {
                return Err(ProcessError::ThreadNotFound);
            },
            Some(i) => i,
        };
        proof {
            lemma_retire(old(self).sched(), tid.0, ThreadState::Terminated);
            lemma_states_index(old(self).threads@);
            assert(seq_tid_idx(old(self).threads@, tid.0) == ti as int);
        }
        let tcb = self.threads[ti];
        proof {
            lemma_states_of_update(
                old(self).threads@,
                ti as int,
                ThreadControlBlock { state: ThreadState::Terminated, ..tcb },
            );
        }
        self.threads[ti] = ThreadControlBlock { state: ThreadState::Terminated, ..tcb };
        self.remove_from_queue(tid);
        let ghost mid = sched_remove(old(self).sched(), tid.0, ThreadState::Terminated);
        let is_current = match self.current_thread {
            Some(c) => c.0 == tid.0,
            None => false,
        };
        if is_current {
            self.current_thread = None;
            proof {
                assert(self.sched() =~= mid);
                assert(self.wf()) by {
                    assert(sched_wf(self.sched()));
                }
            }
            let _ = self.schedule_next();
            proof {
                assert(final(self).sched() == sched_step(mid));
                assert(final(self).sched() == sched_retire(
                    old(self).sched(),
                    tid.0,
                    ThreadState::Terminated,
                ));
            }
        } else {
            proof {
                assert(old(self).sched().current != Some(tid.0));
                assert(self.sched() =~= mid);
                assert(final(self).sched() == sched_retire(
                    old(self).sched(),
                    tid.0,
                    ThreadState::Terminated,
                ));
                assert(self.wf()) by {
                    assert(sched_wf(self.sched()));
                }
            }
        }
        proof {
            lemma_states_index(final(self).threads@);
            assert(final(self).spec_thread(tid.0).state == ThreadState::Terminated) by {
                assert(final(self).sched().states[tid.0] == ThreadState::Terminated);
                assert(seq_has_tid(final(self).threads@, tid.0)) by {
                    assert(final(self).threads@[ti as int].tid.0 == tid.0);
                }
                let j = seq_tid_idx(final(self).threads@, tid.0);
                assert(0 <= j < final(self).threads@.len() && final(self).threads@[j].tid.0
                    == tid.0);
                assert(states_of(final(self).threads@)[tid.0] == final(self).threads@[j].state);
            }
        }
        Ok(())
    }

    /// Block a thread awaiting a capability response: its recorded state
    /// becomes Blocked and it leaves the ready queue; if it was the current
    /// thread the next thread is scheduled at once. It is re-enqueued only
    /// by `unblock_thread`, when its response is delivered. An unknown
    /// thread fails with `ThreadNotFound`; a terminated one with
    /// `InvalidParameters`; neither changes anything.
    pub fn block_thread(&mut self, tid: ThreadId) -> (r: Result<(), ProcessError>)
        requires
            old(self).wf(),
        ensures
            final(self).wf(),
            r is Ok <==> old(self).spec_has_thread(tid.0) && old(self).spec_thread(tid.0).state
                != ThreadState::Terminated,
            !old(self).spec_has_thread(tid.0) ==> r == Err::<(), ProcessError>(
                ProcessError::ThreadNotFound,
            ),
            old(self).spec_has_thread(tid.0) && old(self).spec_thread(tid.0).state
                == ThreadState::Terminated ==> r == Err::<(), ProcessError>(
                ProcessError::InvalidParameters,
            ),
            r is Err ==> final(self).threads@ == old(self).threads@ && final(self).processes@
                == old(self).processes@ && final(self).ready_queue@ == old(self).ready_queue@
                && final(self).current_thread == old(self).current_thread && final(self).next_pid
                == old(self).next_pid && final(self).next_tid == old(self).next_tid,
            r is Ok ==> {
                &&& final(self).sched() == sched_retire(
                    old(self).sched(),
                    tid.0,
                    ThreadState::Blocked,
                )
                &&& final(self).processes@ == old(self).processes@
                &&& final(self).next_pid == old(self).next_pid
                &&& final(self).next_tid == old(self).next_tid
                &&& final(self).threads@.len() == old(self).threads@.len()
                &&& (forall|i: int|
                    0 <= i < old(self).threads@.len() ==> (#[trigger] final(self).threads@[i]).tid
                        == old(self).threads@[i].tid && final(self).threads@[i].pid
                        == old(self).threads@[i].pid)
                &&& final(self).spec_thread(tid.0).state == ThreadState::Blocked
                &&& !final(self).sched().queue.contains(tid.0)
                &&& final(self).current_thread != Some(tid)
                &&& (forall|i: int|
                    0 <= i < old(self).threads@.len() && (#[trigger] old(self).threads@[i]).state == ThreadState::Terminated ==> final(self).threads@[i].state == ThreadState::Terminated)
            },
    {
        let ti = match self.find_thread_index(tid.0) {
            None => {
                return Err(ProcessError::ThreadNotFound);
            },
            Some(i) => i,
        };
        if matches!(self.threads[ti].state, ThreadState::Terminated) {
            proof {
                assert(seq_tid_idx(old(self).threads@, tid.0) == ti as int);
            }
            return Err(ProcessError::InvalidParameters);
        }
        proof {
            lemma_retire(old(self).sched(), tid.0, ThreadState::Blocked);
            lemma_states_index(old(self).threads@);
            assert(seq_tid_idx(old(self).threads@, tid.0) == ti as int);
        }
        let tcb = self.threads[ti];
        proof {
            lemma_states_of_update(
                old(self).threads@,
                ti as int,
                ThreadControlBlock { state: ThreadState::Blocked, ..tcb },
            );
        }
        self.threads[ti] = ThreadControlBlock { state: ThreadState::Blocked, ..tcb };
        self.remove_from_queue(tid);
        let ghost mid = sched_remove(old(self).sched(), tid.0, ThreadState::Blocked);
        let is_current = match self.current_thread {
            Some(c) => c.0 == tid.0,
            None => false,
        };
        if is_current {
            self.current_thread = None;
            proof {
                assert(self.sched() =~= mid);
                assert(self.wf()) by {
                    assert(sched_wf(self.sched()));
                }
            }
            let _ = self.schedule_next();
            proof {
                assert(final(self).sched() == sched_step(mid));
            }
        } else {
            proof {
                assert(old(self).sched().current != Some(tid.0));
                assert(self.sched() =~= mid);
                assert(final(self).sched() == sched_retire(
                    old(self).sched(),
                    tid.0,
                    ThreadState::Blocked,
                ));
                assert(self.wf()) by {
                    assert(sched_wf(self.sched()));
                }
            }
        }
        proof {
            lemma_states_index(final(self).threads@);
            assert(final(self).spec_thread(tid.0).state == ThreadState::Blocked) by {
                assert(final(self).sched().states[tid.0] == ThreadState::Blocked);
                assert(seq_has_tid(final(self).threads@, tid.0)) by {
                    assert(final(self).threads@[ti as int].tid.0 == tid.0);
                }
                let j = seq_tid_idx(final(self).threads@, tid.0);
                assert(states_of(final(self).threads@)[tid.0] == final(self).threads@[j].state);
            }
        }
        Ok(())
    }

    /// Wake a blocked thread once its capability response has been
    /// delivered: its recorded state becomes Ready and it joins the ready
    /// queue's tail. Waking a thread that is not Blocked is a no-op; an
    /// unknown thread fails with `ThreadNotFound`.
    pub fn unblock_thread(&mut self, tid: ThreadId) -> (r: Result<(), ProcessError>)
        requires
            old(self).wf(),
        ensures
            final(self).wf(),
            r is Err <==> !old(self).spec_has_thread(tid.0),
            r is Err ==> r == Err::<(), ProcessError>(ProcessError::ThreadNotFound),
            r is Err || old(self).spec_thread(tid.0).state != ThreadState::Blocked ==> final(self).threads@ == old(self).threads@ && final(self).processes@ == old(self).processes@
                && final(self).ready_queue@ == old(self).ready_queue@ && final(self).current_thread
                == old(self).current_thread && final(self).next_pid == old(self).next_pid && final(self).next_tid == old(self).next_tid,
            r is Ok && old(self).spec_thread(tid.0).state == ThreadState::Blocked ==> {
                &&& final(self).threads@ == old(self).threads@.update(
                    seq_tid_idx(old(self).threads@, tid.0),
                    ThreadControlBlock {
                        state: ThreadState::Ready,
                        ..old(self).spec_thread(tid.0)
                    },
                )
                &&& final(self).ready_queue@ == old(self).ready_queue@.push(tid)
                &&& final(self).spec_thread(tid.0).state == ThreadState::Ready
                &&& final(self).processes@ == old(self).processes@
                &&& final(self).current_thread == old(self).current_thread
                &&& final(self).next_pid == old(self).next_pid
                &&& final(self).next_tid == old(self).next_tid
            },
    {
        let ti = match self.find_thread_index(tid.0) {
            None => {
                return Err(ProcessError::ThreadNotFound);
            },
            Some(i) => i,
        };
        proof {
            lemma_states_index(old(self).threads@);
            assert(seq_tid_idx(old(self).threads@, tid.0) == ti as int);
        }
        if !matches!(self.threads[ti].state, ThreadState::Blocked) {
            return Ok(());
        }
        let tcb = self.threads[ti];
        proof {
            lemma_states_of_update(
                old(self).threads@,
                ti as int,
                ThreadControlBlock { state: ThreadState::Ready, ..tcb },
            );
        }
        self.threads[ti] = ThreadControlBlock { state: ThreadState::Ready, ..tcb };
        self.ready_queue.push_back(tid);
        proof {
            // A blocked thread sat outside the queue, so the push keeps
            // entries unique and every queue invariant.
            assert(!old(self).sched().queue.contains(tid.0)) by {
                if old(self).sched().queue.contains(tid.0) {
                    let k = choose|k: int|
                        0 <= k < old(self).sched().queue.len() && old(self).sched().queue[k]
                            == tid.0;
                    assert(old(self).sched().states[tid.0] == ThreadState::Ready || (old(self).sched().current == Some(tid.0) && old(self).sched().states[tid.0]
                        == ThreadState::Running));
                }
            }
            assert(final(self).queue_ids() =~= old(self).queue_ids().push(tid.0));
            assert(final(self).sched().states =~= old(self).sched().states.insert(
                tid.0,
                ThreadState::Ready,
            ));
            assert(old(self).sched().current != Some(tid.0));
            assert(sched_wf(final(self).sched())) by {
                let post = final(self).sched();
                let pre = old(self).sched();
                assert forall|k: int| 0 <= k < post.queue.len() implies post.states.contains_key(
                    #[trigger] post.queue[k],
                ) && (post.states[post.queue[k]] == ThreadState::Ready || (post.current == Some(
                    post.queue[k],
                ) && post.states[post.queue[k]] == ThreadState::Running)) by {
                    if k < post.queue.len() - 1 {
                        assert(post.queue[k] == pre.queue[k]);
                    } else {
                        assert(post.queue[k] == tid.0);
                    }
                }
                assert forall|k: int, l: int|
                    0 <= k < post.queue.len() && 0 <= l < post.queue.len() && k
                        != l implies #[trigger] post.queue[k] != #[trigger] post.queue[l] by {
                    let n = post.queue.len() - 1;
                    if k < n && l < n {
                        assert(post.queue[k] == pre.queue[k] && post.queue[l] == pre.queue[l]);
                    } else if k == n {
                        assert(post.queue[k] == tid.0 && post.queue[l] == pre.queue[l]);
                        assert(pre.queue.contains(pre.queue[l]));
                    } else {
                        assert(post.queue[l] == tid.0 && post.queue[k] == pre.queue[k]);
                        assert(pre.queue.contains(pre.queue[k]));
                    }
                }
                match post.current {
                    Some(c) => {
                        assert(pre.queue.contains(c));
                        let k = choose|k: int| 0 <= k < pre.queue.len() && pre.queue[k] == c;
                        assert(post.queue[k] == c);
                        assert(post.queue.contains(c));
                    },
                    None => {},
                }
            }
            lemma_states_index(final(self).threads@);
        }
        Ok(())
    }

    /// Law: a terminated thread is never scheduled again. Once a thread's
    /// recorded state is Terminated — as `terminate_thread` leaves it — no
    /// number of further `schedule_next` calls ever returns its identifier.
    pub proof fn lemma_terminated_never_scheduled_again(self, tid: u32, n: nat)
        requires
            self.wf(),
            self.spec_has_thread(tid),
            self.spec_thread(tid).state == ThreadState::Terminated,
        ensures
            forall|k: nat|
                k < n ==> #[trigger] crate::scheduling::sched_pick_at(self.sched(), k) != Some(
                    tid,
                ),
    {
        assert(self.sched().states.contains_key(tid));
        assert(self.sched().states[tid] == ThreadState::Terminated);
        crate::scheduling::lemma_terminated_never_scheduled(self.sched(), tid, n);
    }

    /// Law: round-robin fairness. When every queued thread is Ready, the
    /// next `schedule_next` calls return the queued threads exactly in queue
    /// order — each exactly once, since the queue holds no identifier twice
    /// — and only after all have run once is the first returned again.
    pub proof fn lemma_round_robin_rotation(self)
        requires
            self.wf(),
            forall|k: int|
                0 <= k < self.queue_ids().len() ==> self.spec_thread(
                    #[trigger] self.queue_ids()[k],
                ).state == ThreadState::Ready,
        ensures
            forall|k: int|
                0 <= k < self.queue_ids().len() ==> crate::scheduling::sched_pick_at(
                    self.sched(),
                    k as nat,
                ) == Some(#[trigger] self.queue_ids()[k]),
            self.queue_ids().len() > 0 ==> crate::scheduling::sched_pick_at(
                self.sched(),
                self.queue_ids().len() as nat,
            ) == Some(self.queue_ids()[0]),
    {
        let s = self.sched();
        assert(crate::scheduling::all_ready(s)) by {
            assert forall|k: int| 0 <= k < s.queue.len() implies s.states[#[trigger] s.queue[k]]
                == ThreadState::Ready by {
                assert(s.states.contains_key(s.queue[k]));
                assert(s.states[s.queue[k]] == self.spec_thread(s.queue[k]).state);
            }
        }
        crate::scheduling::lemma_round_robin(s);
    }

    /// Yield the current thread: it goes to the back of the rotation — the
    /// scheduler left it at the queue's tail when it was scheduled — and the
    /// next ready thread is scheduled in its place. This is the only
    /// voluntary preemption point.
    pub fn yield_thread(&mut self)
        requires
            old(self).wf(),
        ensures
            final(self).wf(),
            final(self).sched() == sched_step(old(self).sched()),
            final(self).processes@ == old(self).processes@,
            final(self).next_pid == old(self).next_pid,
            final(self).next_tid == old(self).next_tid,
    {
        let _ = self.schedule_next();
    }
}

} // verus!
