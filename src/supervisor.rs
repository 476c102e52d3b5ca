//! The supervisor of a service's workers: it keeps the pool between its
//! bounds, tracks each worker's last reported state, and stops spawning
//! once the service shuts down.
use vstd::prelude::*;
use crate::worker::{WorkerState, WorkerStateEvent};

verus! {

/// The supervisor as the contracts see it.
pub ghost struct SupervisorView {
    pub min_workers: nat,
    pub max_workers: nat,
    pub workers: Seq<WorkerStateEvent>,
    pub next_id: u64,
    pub stopping: bool,
}

/// A pool of workers and their states.
pub struct Supervisor {
    min_workers: usize,
    max_workers: usize,
    workers: Vec<WorkerStateEvent>,
    next_id: u64,
    stopping: bool,
}

impl View for Supervisor {
    type V = SupervisorView;

    closed spec fn view(&self) -> SupervisorView {
        SupervisorView {
            min_workers: self.min_workers as nat,
            max_workers: self.max_workers as nat,
            workers: self.workers@,
            next_id: self.next_id,
            stopping: self.stopping,
        }
    }
}

/// How many workers of `ws` are idle.
pub open spec fn idle_count(ws: Seq<WorkerStateEvent>) -> nat
    decreases ws.len(),
{
    if ws.len() == 0 {
        0
    } else {
        idle_count(ws.drop_last()) + if ws.last().state == WorkerState::Idle { 1nat } else { 0nat }
    }
}

/// The position of worker `id` in `ws`.
pub open spec fn position_of(ws: Seq<WorkerStateEvent>, id: u64) -> Option<int> {
    if exists|i: int| 0 <= i < ws.len() && (#[trigger] ws[i]).worker_id == id {
        Some(choose|i: int| 0 <= i < ws.len() && (#[trigger] ws[i]).worker_id == id)
    } else {
        None
    }
}

impl Supervisor {
    /// The pool is within its upper bound, and its worker ids are distinct
    /// and below the next id to hand out.
    pub open spec fn wf(&self) -> bool {
        &&& self@.min_workers <= self@.max_workers
        &&& self@.workers.len() <= self@.max_workers
        &&& forall|i: int, j: int|
            0 <= i < j < self@.workers.len() ==> (#[trigger] self@.workers[i]).worker_id
                != (#[trigger] self@.workers[j]).worker_id
        &&& forall|i: int| 0 <= i < self@.workers.len() ==> (#[trigger] self@.workers[i]).worker_id < self@.next_id
    }

    /// An empty pool kept between `min_workers` and `max_workers`.
    pub fn new(min_workers: usize, max_workers: usize) -> (r: Supervisor)
        requires
            min_workers <= max_workers,
        ensures
            r.wf(),
            r@ == (SupervisorView {
                min_workers: min_workers as nat,
                max_workers: max_workers as nat,
                workers: Seq::empty(),
                next_id: 0,
                stopping: false,
            }),
    {
        let r = Supervisor { min_workers, max_workers, workers: Vec::new(), next_id: 0, stopping: false };
        proof {
            assert(r@.workers =~= Seq::<WorkerStateEvent>::empty());
        }
        r
    }

    /// Workers in the pool.
    pub fn worker_count(&self) -> (r: usize)
        ensures
            r == self@.workers.len(),
    {
        self.workers.len()
    }

    /// Idle workers in the pool.
    pub fn idle_workers(&self) -> (r: usize)
        ensures
            r == idle_count(self@.workers),
    {
        let mut n: usize = 0;
        let mut i: usize = 0;
        while i < self.workers.len()
            invariant
                i <= self.workers.len(),
                n == idle_count(self.workers@.subrange(0, i as int)),
                n <= i,
            decreases self.workers.len() - i,
        {
            proof {
                let next = self.workers@.subrange(0, i + 1);
                assert(next.drop_last() =~= self.workers@.subrange(0, i as int));
                assert(next.last() == self.workers@[i as int]);
            }
            if self.workers[i].state == WorkerState::Idle {
                n = n + 1;
            }
            i = i + 1;
        }
        proof {
            assert(self.workers@.subrange(0, i as int) =~= self.workers@);
        }
        n
    }

    /// From now on no worker is spawned.
    pub fn begin_shutdown(&mut self)
        ensures
            final(self)@ == (SupervisorView { stopping: true, ..old(self)@ }),
    {
        self.stopping = true;
    }

    /// Records a worker's report. A worker that is done leaves the pool;
    /// reports of workers not in the pool change nothing.
    pub fn on_event(&mut self, ev: WorkerStateEvent) -> (reaped: bool)
        requires
            old(self).wf(),
        ensures
            final(self).wf(),
            match position_of(old(self)@.workers, ev.worker_id) {
                Some(i) => if ev.state == WorkerState::Done {
                    reaped && final(self)@ == (SupervisorView { workers: old(self)@.workers.remove(i), ..old(self)@ })
                } else {
                    !reaped && final(self)@ == (SupervisorView {
                        workers: old(self)@.workers.update(i, ev),
                        ..old(self)@
                    })
                },
                None => !reaped && final(self)@ == old(self)@,
            },
    {
        let mut i: usize = 0;
        while i < self.workers.len()
            invariant
                self.wf(),
                self@ == old(self)@,
                i <= self.workers.len(),
                forall|j: int| 0 <= j < i ==> (#[trigger] self@.workers[j]).worker_id != ev.worker_id,
            decreases self.workers.len() - i,
        {
            if self.workers[i].worker_id == ev.worker_id {
                proof {
                    let ws = self@.workers;
                    let k = choose|k: int| 0 <= k < ws.len() && (#[trigger] ws[k]).worker_id == ev.worker_id;
                    assert(ws[i as int].worker_id == ev.worker_id);
                    if k != i {
                        if k < i {
                            assert(ws[k].worker_id != ev.worker_id);
                        } else {
                            assert(ws[i as int].worker_id != ws[k].worker_id);
                        }
                    }
                    assert(position_of(ws, ev.worker_id) == Some(i as int));
                }
                if ev.state == WorkerState::Done {
                    self.workers.remove(i);
                    proof {
                        let ws = old(self)@.workers;
                        assert forall|a: int, b: int|
                            0 <= a < b < self@.workers.len() implies (#[trigger] self@.workers[a]).worker_id
                                != (#[trigger] self@.workers[b]).worker_id by {
                            let a2 = if a < i { a } else { a + 1 };
                            let b2 = if b < i { b } else { b + 1 };
                            assert(self@.workers[a] == ws[a2]);
                            assert(self@.workers[b] == ws[b2]);
                        }
                        assert forall|a: int| 0 <= a < self@.workers.len() implies (#[trigger] self@.workers[a]).worker_id
                            < self@.next_id by {
                            let a2 = if a < i { a } else { a + 1 };
                            assert(self@.workers[a] == ws[a2]);
                        }
                    }
                    return true;
                } else {
                    self.workers.set(i, ev);
                    proof {
                        let ws = old(self)@.workers;
                        assert forall|a: int, b: int|
                            0 <= a < b < self@.workers.len() implies (#[trigger] self@.workers[a]).worker_id
                                != (#[trigger] self@.workers[b]).worker_id by {
                            assert(self@.workers[a].worker_id == ws[a].worker_id);
                            assert(self@.workers[b].worker_id == ws[b].worker_id);
                        }
                        assert forall|a: int| 0 <= a < self@.workers.len() implies (#[trigger] self@.workers[a]).worker_id
                            < self@.next_id by {
                            assert(self@.workers[a].worker_id == ws[a].worker_id);
                        }
                    }
                    return false;
                }
            }
            i = i + 1;
        }
        false
    }

    /// Spawns a worker where one is wanted: the service is not shutting
    /// down, the pool is below `max_workers`, and it is below
    /// `min_workers` or has no idle worker. The new worker starts idle.
    pub fn spawn(&mut self) -> (r: Option<u64>)
        requires
            old(self).wf(),
        ensures
            final(self).wf(),
            ({
                let s = old(self)@;
                let wanted = !s.stopping && s.workers.len() < s.max_workers && s.next_id < u64::MAX
                    && (s.workers.len() < s.min_workers || idle_count(s.workers) == 0);
                if wanted {
                    &&& r == Some(s.next_id)
                    &&& final(self)@ == (SupervisorView {
                        workers: s.workers.push(WorkerStateEvent { worker_id: s.next_id, state: WorkerState::Idle }),
                        next_id: (s.next_id + 1) as u64,
                        ..s
                    })
                } else {
                    r is None && final(self)@ == s
                }
            }),
    {
        if self.stopping || self.workers.len() >= self.max_workers || self.next_id == u64::MAX {
            return None;
        }
        if self.workers.len() >= self.min_workers && self.idle_workers() > 0 {
            return None;
        }
        let id = self.next_id;
        self.workers.push(WorkerStateEvent { worker_id: id, state: WorkerState::Idle });
        self.next_id = id + 1;
        proof {
            let ws = self@.workers;
            let n = ws.len() - 1;
            assert forall|a: int, b: int|
                0 <= a < b < ws.len() implies (#[trigger] ws[a]).worker_id != (#[trigger] ws[b]).worker_id by {
                if b == n {
                    assert(ws[a] == old(self)@.workers[a]);
                } else {
                    assert(ws[a] == old(self)@.workers[a]);
                    assert(ws[b] == old(self)@.workers[b]);
                }
            }
            assert forall|a: int| 0 <= a < ws.len() implies (#[trigger] ws[a]).worker_id < self@.next_id by {
                if a < n {
                    assert(ws[a] == old(self)@.workers[a]);
                }
            }
        }
        Some(id)
    }
}

} // verus!
