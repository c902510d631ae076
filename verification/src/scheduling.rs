//! Mathematical model of the cooperative round-robin scheduler.
//!
//! The model reduces the process manager to what scheduling decisions depend
//! on: the recorded state of each thread, the FIFO ready queue of thread
//! identifiers, and the current-thread pointer. `sched_step` is the exact
//! transition `schedule_next` performs, so laws proved here — round-robin
//! fairness, and that a terminated thread is never scheduled again — hold of
//! arbitrarily many scheduler calls.

use vstd::prelude::*;
use crate::process::ThreadState;

verus! {

/// Scheduler state: recorded thread states, the ready queue, and the current
/// thread.
#[verifier::ext_equal]
pub struct Sched {
    pub states: Map<u32, ThreadState>,
    pub queue: Seq<u32>,
    pub current: Option<u32>,
}

/// Scheduler well-formedness:
/// - every queued identifier names a known thread;
/// - the queue holds an identifier at most once;
/// - every queued thread is Ready, except the current thread, which sits in
///   the queue (at the tail since it was scheduled) while Running;
/// - the current thread, if any, is a known Running thread in the queue;
/// - no thread other than the current one is Running.
pub open spec fn sched_wf(s: Sched) -> bool {
    &&& (forall|k: int| 0 <= k < s.queue.len() ==> s.states.contains_key(#[trigger] s.queue[k]))
    &&& (forall|k: int, l: int|
        #![trigger s.queue[k], s.queue[l]]
        0 <= k < s.queue.len() && 0 <= l < s.queue.len() && k != l ==> s.queue[k] != s.queue[l])
    &&& (forall|k: int|
        0 <= k < s.queue.len() ==> (s.states[#[trigger] s.queue[k]] == ThreadState::Ready || (
        s.current == Some(s.queue[k]) && s.states[s.queue[k]] == ThreadState::Running)))
    &&& (match s.current {
        Some(c) => s.states.contains_key(c) && s.states[c] == ThreadState::Running
            && s.queue.contains(c),
        None => true,
    })
    &&& (forall|t: u32|
        #![trigger s.states[t]]
        s.states.contains_key(t) && s.states[t] == ThreadState::Running ==> s.current == Some(t))
}

/// The implicit yield that selecting a new thread performs: the current
/// thread, if it is still Running, is set back to Ready. It keeps its place
/// in the queue.
pub open spec fn sched_demote(s: Sched) -> Sched {
    match s.current {
        Some(c) => if s.states.contains_key(c) && s.states[c] == ThreadState::Running {
            Sched { states: s.states.insert(c, ThreadState::Ready), queue: s.queue, current: s.current }
        } else {
            s
        },
        None => s,
    }
}

/// One `schedule_next` transition: pop the queue's front, set the previous
/// current thread back to Ready, and — after re-validating that the popped
/// thread is Ready — mark it current and Running and re-append it to the
/// tail. A stale entry that fails re-validation is dropped.
pub open spec fn sched_step(s: Sched) -> Sched {
    if s.queue.len() == 0 {
        s
    } else {
        let t = s.queue[0];
        let s1 = sched_demote(s);
        if s1.states.contains_key(t) && s1.states[t] == ThreadState::Ready {
            Sched {
                states: s1.states.insert(t, ThreadState::Running),
                queue: s.queue.subrange(1, s.queue.len() as int).push(t),
                current: Some(t),
            }
        } else {
            Sched {
                states: s1.states,
                queue: s.queue.subrange(1, s.queue.len() as int),
                current: s1.current,
            }
        }
    }
}

/// The thread `schedule_next` returns for state `s`, if any.
pub open spec fn sched_pick(s: Sched) -> Option<u32> {
    if s.queue.len() == 0 {
        None
    } else {
        let t = s.queue[0];
        let s1 = sched_demote(s);
        if s1.states.contains_key(t) && s1.states[t] == ThreadState::Ready {
            Some(t)
        } else {
            None
        }
    }
}

/// The scheduler state after `n` successive `schedule_next` calls.
pub open spec fn sched_run(s: Sched, n: nat) -> Sched
    decreases n,
{
    if n == 0 {
        s
    } else {
        sched_step(sched_run(s, (n - 1) as nat))
    }
}

/// The thread returned by the `k`th of successive `schedule_next` calls
/// (counting from zero).
pub open spec fn sched_pick_at(s: Sched, k: nat) -> Option<u32> {
    sched_pick(sched_run(s, k))
}

/// One scheduling step preserves well-formedness, never picks a thread that
/// was not Ready at selection, and never adds identifiers to the queue.
pub proof fn lemma_step_preserves_wf(s: Sched)
    requires
        sched_wf(s),
    ensures
        sched_wf(sched_step(s)),
        s.queue.len() > 0 ==> sched_pick(s) == Some(s.queue[0]),
        s.queue.len() == 0 ==> sched_pick(s) is None,
        forall|k: int|
            0 <= k < sched_step(s).queue.len() ==> s.queue.contains(
                #[trigger] sched_step(s).queue[k],
            ),
        forall|t: u32|
            s.states.contains_key(t) && #[trigger] s.states[t] == ThreadState::Terminated
                ==> sched_step(s).states.contains_key(t) && sched_step(s).states[t]
                == ThreadState::Terminated,
        forall|t: u32|
            s.states.contains_key(t) && #[trigger] s.states[t] == ThreadState::Blocked
                ==> sched_step(s).states.contains_key(t) && sched_step(s).states[t]
                == ThreadState::Blocked,
        sched_pick(s) matches Some(t) ==> s.states.contains_key(t) && (s.states[t]
            == ThreadState::Ready || s.states[t] == ThreadState::Running),
{
    if s.queue.len() == 0 {
    } else {
        let t = s.queue[0];
        let s1 = sched_demote(s);
        assert(s.queue.contains(t));
        // The popped entry is Ready after the implicit yield, so the stale
        // branch is unreachable from a well-formed state.
        match s.current {
            Some(c) => {
                if s.states[t] == ThreadState::Ready {
                    if t == c {
                        assert(false);
                    }
                    assert(s1.states[t] == ThreadState::Ready);
                } else {
                    assert(s.current == Some(t) && s.states[t] == ThreadState::Running);
                    assert(s1.states[t] == ThreadState::Ready);
                }
            },
            None => {
                assert(s.states[t] == ThreadState::Ready);
            },
        }
        assert(s1.states.contains_key(t) && s1.states[t] == ThreadState::Ready);
        let post = sched_step(s);
        assert(post.queue == s.queue.subrange(1, s.queue.len() as int).push(t));
        // Queue membership is preserved.
        assert forall|k: int| 0 <= k < post.queue.len() implies s.queue.contains(
            #[trigger] post.queue[k],
        ) by {
            if k < post.queue.len() - 1 {
                assert(post.queue[k] == s.queue[k + 1]);
            } else {
                assert(post.queue[k] == t);
            }
        }
        // Well-formedness of the successor state.
        assert forall|k: int, l: int|
            0 <= k < post.queue.len() && 0 <= l < post.queue.len() && k != l implies #[trigger] post.queue[k]
            != #[trigger] post.queue[l] by {
            let n = s.queue.len() as int;
            if k < n - 1 && l < n - 1 {
                assert(post.queue[k] == s.queue[k + 1]);
                assert(post.queue[l] == s.queue[l + 1]);
            } else if k == n - 1 {
                assert(post.queue[k] == t && post.queue[l] == s.queue[l + 1]);
            } else {
                assert(post.queue[l] == t && post.queue[k] == s.queue[k + 1]);
            }
        }
        assert forall|k: int| 0 <= k < post.queue.len() implies (post.states[#[trigger] post.queue[k]]
            == ThreadState::Ready || (post.current == Some(post.queue[k]) && post.states[post.queue[k]]
            == ThreadState::Running)) by {
            if k < post.queue.len() - 1 {
                let q = post.queue[k];
                assert(q == s.queue[k + 1]);
                if q == t {
                    assert(s.queue[0] == s.queue[k + 1]);
                    assert(false);
                }
            }
        }
        assert(post.queue.contains(t)) by {
            assert(post.queue[post.queue.len() - 1] == t);
        }
    }
}

/// The queue with `tid` taken out of whichever position it sits in;
/// well-defined because a well-formed queue holds an identifier at most
/// once.
pub open spec fn queue_remove(q: Seq<u32>, tid: u32) -> Seq<u32> {
    if q.contains(tid) {
        q.remove(q.index_of(tid))
    } else {
        q
    }
}

/// The transition shared by terminating and blocking a thread: record the
/// new state, take the thread out of the ready queue wherever it sits, and —
/// if it was the current thread — clear the current pointer and schedule the
/// next thread at once, so the system never idles on a stale pointer while
/// other threads are ready.
pub open spec fn sched_remove(s: Sched, tid: u32, st: ThreadState) -> Sched {
    Sched {
        states: s.states.insert(tid, st),
        queue: queue_remove(s.queue, tid),
        current: if s.current == Some(tid) {
            None
        } else {
            s.current
        },
    }
}

/// See `sched_remove`; when the retired thread was current, the next thread
/// is scheduled at once.
pub open spec fn sched_retire(s: Sched, tid: u32, st: ThreadState) -> Sched {
    if s.current == Some(tid) {
        sched_step(sched_remove(s, tid, st))
    } else {
        sched_remove(s, tid, st)
    }
}

/// Retiring a thread preserves well-formedness; the thread keeps the retired
/// state and leaves the queue, every other thread keeps its state except
/// that the next ready thread may start Running, and the queue gains no
/// identifiers.
pub proof fn lemma_retire(s: Sched, tid: u32, st: ThreadState)
    requires
        sched_wf(s),
        s.states.contains_key(tid),
        st == ThreadState::Terminated || st == ThreadState::Blocked,
    ensures
        sched_wf(sched_retire(s, tid, st)),
        sched_retire(s, tid, st).states.contains_key(tid),
        sched_retire(s, tid, st).states[tid] == st,
        !sched_retire(s, tid, st).queue.contains(tid),
        sched_retire(s, tid, st).current != Some(tid),
        sched_wf(sched_remove(s, tid, st)),
        forall|t: u32|
            s.states.contains_key(t) == sched_retire(s, tid, st).states.contains_key(t),
        forall|t: u32|
            t != tid && s.states.contains_key(t) ==> (#[trigger] sched_retire(
                s,
                tid,
                st,
            ).states[t] == s.states[t] || (s.states[t] == ThreadState::Ready && sched_retire(
                s,
                tid,
                st,
            ).states[t] == ThreadState::Running && sched_retire(s, tid, st).current == Some(t))),
        forall|k: int|
            0 <= k < sched_retire(s, tid, st).queue.len() ==> s.queue.contains(
                #[trigger] sched_retire(s, tid, st).queue[k],
            ),
    {
    let q1 = queue_remove(s.queue, tid);
    let s1 = sched_remove(s, tid, st);
    // Facts about the queue after removal.
    if s.queue.contains(tid) {
        let i = s.queue.index_of(tid);
        assert(0 <= i < s.queue.len() && s.queue[i] == tid);
        assert(q1 == s.queue.remove(i));
        assert forall|k: int| 0 <= k < q1.len() implies s.queue.contains(#[trigger] q1[k])
            && q1[k] != tid by {
            if k < i {
                assert(q1[k] == s.queue[k]);
            } else {
                assert(q1[k] == s.queue[k + 1]);
            }
        }
        assert forall|k: int, l: int|
            0 <= k < q1.len() && 0 <= l < q1.len() && k != l implies #[trigger] q1[k]
            != #[trigger] q1[l] by {
            let sk: int = if k < i {
                k
            } else {
                k + 1
            };
            let sl: int = if l < i {
                l
            } else {
                l + 1
            };
            assert(q1[k] == s.queue[sk] && q1[l] == s.queue[sl]);
        }
    } else {
        assert forall|k: int| 0 <= k < q1.len() implies s.queue.contains(#[trigger] q1[k])
            && q1[k] != tid by {
            assert(q1[k] == s.queue[k]);
            if q1[k] == tid {
                assert(s.queue.contains(tid));
            }
        }
    }
    // Well-formedness of the intermediate state.
    assert forall|k: int| 0 <= k < s1.queue.len() implies s1.states.contains_key(
        #[trigger] s1.queue[k],
    ) && (s1.states[s1.queue[k]] == ThreadState::Ready || (s1.current == Some(s1.queue[k])
        && s1.states[s1.queue[k]] == ThreadState::Running)) by {
        let q = s1.queue[k];
        let j = choose|j: int| 0 <= j < s.queue.len() && s.queue[j] == q;
        assert(s.queue.contains(q));
        assert(s.states[q] == ThreadState::Ready || (s.current == Some(q) && s.states[q]
            == ThreadState::Running));
        if s.current == Some(q) && s.states[q] == ThreadState::Running {
            if s.current == Some(tid) {
                assert(q == tid);
                assert(false);
            }
        }
    }
    assert forall|t: u32|
        s1.states.contains_key(t) && #[trigger] s1.states[t] == ThreadState::Running implies s1.current
        == Some(t) by {
        if t != tid {
            assert(s.states[t] == ThreadState::Running);
            assert(s.current == Some(t));
        }
    }
    match s1.current {
        Some(c) => {
            assert(c != tid);
            assert(s.states[c] == ThreadState::Running);
            assert(s.queue.contains(c));
            let j = s.queue.index_of(c);
            // hold the position of c in the removed queue
            if s.queue.contains(tid) {
                let i = s.queue.index_of(tid);
                let jc = choose|j: int| 0 <= j < s.queue.len() && s.queue[j] == c;
                if jc < i {
                    assert(q1[jc] == c);
                } else {
                    assert(jc != i);
                    assert(q1[jc - 1] == c);
                }
                assert(q1.contains(c));
            } else {
                assert(q1 == s.queue);
            }
        },
        None => {},
    }
    assert(sched_wf(s1));
    if s.current == Some(tid) {
        lemma_step_preserves_wf(s1);
        let post = sched_step(s1);
        assert(sched_retire(s, tid, st) == post);
        // The retired thread is not in the queue, so the step cannot touch
        // its entry or return it.
        if s1.queue.len() > 0 {
            let front = s1.queue[0];
            assert(q1.contains(front));
            assert(front != tid);
        }
        assert(!post.queue.contains(tid)) by {
            if post.queue.contains(tid) {
                let k = choose|k: int| 0 <= k < post.queue.len() && post.queue[k] == tid;
                assert(s1.queue.contains(post.queue[k]));
                assert(q1.contains(tid));
            }
        }
        assert(post.states[tid] == st);
        assert(post.current != Some(tid)) by {
            match post.current {
                Some(pc) => {
                    if pc == tid {
                        assert(post.states[pc] == ThreadState::Running);
                    }
                },
                None => {},
            }
        }
    } else {
        assert(!s1.queue.contains(tid));
    }
}

/// All queued threads are Ready (so none is running and, in a well-formed
/// state, there is no current thread).
pub open spec fn all_ready(s: Sched) -> bool {
    forall|k: int| 0 <= k < s.queue.len() ==> s.states[#[trigger] s.queue[k]] == ThreadState::Ready
}

/// The scheduler state reached after the first `k` of a round of
/// `schedule_next` calls over a queue of Ready threads: the first `k`
/// entries have rotated to the tail, the `k`th-scheduled thread is current
/// and Running, and every other thread is as it was.
pub open spec fn rotated(s: Sched, k: int) -> Sched {
    if k == 0 {
        s
    } else {
        Sched {
            states: s.states.insert(s.queue[k - 1], ThreadState::Running),
            queue: s.queue.subrange(k, s.queue.len() as int) + s.queue.subrange(0, k),
            current: Some(s.queue[k - 1]),
        }
    }
}

/// In a well-formed state whose queued threads are all Ready, the first `k`
/// scheduling steps rotate the queue exactly, and the `k`th step returns the
/// `k`th queued thread.
pub proof fn lemma_first_round(s: Sched, k: int)
    requires
        sched_wf(s),
        all_ready(s),
        0 <= k <= s.queue.len(),
    ensures
        sched_run(s, k as nat) == rotated(s, k),
        k < s.queue.len() ==> sched_pick_at(s, k as nat) == Some(s.queue[k]),
    decreases k,
{
    let n = s.queue.len() as int;
    // With every queued thread Ready, no thread is Running, so there is no
    // current thread.
    assert(s.current is None) by {
        match s.current {
            Some(c) => {
                assert(s.queue.contains(c));
                let j = choose|j: int| 0 <= j < s.queue.len() && s.queue[j] == c;
                assert(s.states[s.queue[j]] == ThreadState::Ready);
            },
            None => {},
        }
    }
    if k == 0 {
        if 0 < n {
            assert(sched_pick(s) == Some(s.queue[0]));
        }
    } else {
        lemma_first_round(s, k - 1);
        let r = rotated(s, k - 1);
        assert(sched_run(s, k as nat) == sched_step(r));
        // The rotated queue is the original cut at k-1.
        if k - 1 == 0 {
            assert(r == s);
        }
        assert(r.queue.len() == n) by {
            if k - 1 > 0 {
                assert(r.queue == s.queue.subrange(k - 1, n) + s.queue.subrange(0, k - 1));
            }
        }
        let t = s.queue[k - 1];
        assert(r.queue[0] == t) by {
            if k - 1 > 0 {
                assert(r.queue[0] == s.queue.subrange(k - 1, n)[0]);
            }
        }
        // After the implicit yield the state map is the original again.
        let s1 = sched_demote(r);
        assert(s1.states =~= s.states) by {
            if k - 1 > 0 {
                let c = s.queue[k - 2];
                assert(r.current == Some(c));
                assert(r.states[c] == ThreadState::Running);
                assert(s1.states =~= s.states.insert(c, ThreadState::Running).insert(
                    c,
                    ThreadState::Ready,
                ));
                assert(s.states[c] == ThreadState::Ready);
            }
        }
        assert(s.states.contains_key(t));
        assert(s1.states[t] == ThreadState::Ready);
        let post = sched_step(r);
        assert(post.states =~= s.states.insert(t, ThreadState::Running));
        assert(post.current == Some(t));
        assert(post.queue =~= s.queue.subrange(k, n) + s.queue.subrange(0, k)) by {
            assert(post.queue == r.queue.subrange(1, n).push(t));
            assert forall|j: int| 0 <= j < n implies post.queue[j] == (s.queue.subrange(k, n)
                + s.queue.subrange(0, k))[j] by {
                if k - 1 > 0 {
                    if j < n - 1 {
                        assert(post.queue[j] == r.queue[j + 1]);
                    }
                } else {
                    if j < n - 1 {
                        assert(post.queue[j] == s.queue[j + 1]);
                    }
                }
            }
        }
        assert(sched_step(r) =~= rotated(s, k));
        // What the k-th call returns, for the next round's sake.
        if k < n {
            let rk = rotated(s, k);
            assert(rk.queue[0] == s.queue[k]);
            let s2 = sched_demote(rk);
            assert(s2.states =~= s.states) by {
                assert(rk.states[t] == ThreadState::Running);
                assert(s.states[t] == ThreadState::Ready);
            }
            assert(s2.states[s.queue[k]] == ThreadState::Ready);
            assert(sched_pick(rk) == Some(s.queue[k]));
        }
    }
}

/// Law: round-robin fairness. From a well-formed state whose queued threads
/// are all Ready, successive `schedule_next` calls return the queued threads
/// exactly in queue order — each thread once, and the queue holds no thread
/// twice — and only after every queued thread has run once does the first
/// run again.
pub proof fn lemma_round_robin(s: Sched)
    requires
        sched_wf(s),
        all_ready(s),
    ensures
        forall|k: int|
            0 <= k < s.queue.len() ==> sched_pick_at(s, k as nat) == Some(#[trigger] s.queue[k]),
        s.queue.len() > 0 ==> sched_pick_at(s, s.queue.len() as nat) == Some(s.queue[0]),
{
    let n = s.queue.len() as int;
    assert forall|k: int| 0 <= k < n implies sched_pick_at(s, k as nat) == Some(
        #[trigger] s.queue[k],
    ) by {
        lemma_first_round(s, k);
    }
    if n > 0 {
        lemma_first_round(s, n);
        let r = rotated(s, n);
        assert(sched_run(s, n as nat) == r);
        assert(r.queue =~= s.queue) by {
            assert(r.queue == s.queue.subrange(n, n) + s.queue.subrange(0, n));
        }
        assert(r.queue[0] == s.queue[0]);
        let t = s.queue[n - 1];
        let s1 = sched_demote(r);
        assert(s1.states =~= s.states) by {
            assert(r.current == Some(t));
            assert(r.states[t] == ThreadState::Running);
            assert(s.states[t] == ThreadState::Ready);
        }
        assert(s.states.contains_key(s.queue[0]));
        assert(s1.states[s.queue[0]] == ThreadState::Ready);
        assert(sched_pick(r) == Some(s.queue[0]));
    }
}

/// Law: a thread whose recorded state is Terminated is never returned by any
/// later `schedule_next` call, however many are made; it stays Terminated
/// and off the queue throughout.
pub proof fn lemma_terminated_never_scheduled(s: Sched, tid: u32, n: nat)
    requires
        sched_wf(s),
        s.states.contains_key(tid),
        s.states[tid] == ThreadState::Terminated,
    ensures
        forall|k: nat| k < n ==> #[trigger] sched_pick_at(s, k) != Some(tid),
        sched_wf(sched_run(s, n)),
        sched_run(s, n).states.contains_key(tid),
        sched_run(s, n).states[tid] == ThreadState::Terminated,
    decreases n,
{
    if n == 0 {
    } else {
        lemma_terminated_never_scheduled(s, tid, (n - 1) as nat);
        let prev = sched_run(s, (n - 1) as nat);
        lemma_step_preserves_wf(prev);
        assert(sched_run(s, n) == sched_step(prev));
        assert(sched_pick_at(s, (n - 1) as nat) != Some(tid));
        assert forall|k: nat| k < n implies #[trigger] sched_pick_at(s, k) != Some(tid) by {
            if k < (n - 1) as nat {
            }
        }
    }
}

} // verus!
