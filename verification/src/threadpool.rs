//! The work-stealing thread pool, as a verified state machine.
//!
//! The running pool is `1` coordinator thread plus `n` worker threads; the
//! threads, mutexes and the submission channel live in the surrounding
//! binary. Everything those threads decide is verified here, over a model of
//! the pool's containers: the submission channel (`pending`), the global
//! queue, one local deque per worker, and the list of executed jobs. A job is
//! an opaque one-shot closure at run time; the model tracks each by its
//! side-effect token, a `u64`.
//!
//! Every operation preserves [`ThreadPool::wf`], whose heart is conservation:
//! the jobs in the containers plus the jobs executed are, as a multiset,
//! exactly the jobs submitted. From it follow the pool's headline
//! guarantees: [`lemma_at_most_once`], [`lemma_no_loss_on_drain`] and
//! [`lemma_no_loss_after_join`].

use vstd::prelude::*;
use vstd::multiset::Multiset;
use std::collections::VecDeque;

verus! {

broadcast use vstd::multiset::group_multiset_axioms, vstd::seq_lib::group_to_multiset_ensures;

/// The jobs held in a row of local deques, as one multiset.
pub open spec fn locals_jobs(ls: Seq<VecDeque<u64>>) -> Multiset<u64>
    decreases ls.len(),
{
    if ls.len() == 0 {
        Multiset::empty()
    } else {
        locals_jobs(ls.drop_last()).add(ls.last()@.to_multiset())
    }
}

/// Replacing the deque at `i` removes its jobs and adds the new deque's.
pub proof fn lemma_locals_jobs_update(ls: Seq<VecDeque<u64>>, i: int, d: VecDeque<u64>)
    requires
        0 <= i < ls.len(),
    ensures
        locals_jobs(ls.update(i, d)).add(ls[i]@.to_multiset()) == locals_jobs(ls).add(
            d@.to_multiset(),
        ),
    decreases ls.len(),
{
    let lu = ls.update(i, d);
    if i == ls.len() - 1 {
        assert(lu.drop_last() =~= ls.drop_last());
        assert(lu.last() == d);
        assert(locals_jobs(lu).add(ls[i]@.to_multiset()) =~= locals_jobs(ls).add(
            d@.to_multiset(),
        ));
    } else {
        assert(lu.drop_last() =~= ls.drop_last().update(i, d));
        assert(lu.last() == ls.last());
        lemma_locals_jobs_update(ls.drop_last(), i, d);
        assert(ls.drop_last()[i] == ls[i]);
        assert(locals_jobs(lu) == locals_jobs(ls.drop_last().update(i, d)).add(
            ls.last()@.to_multiset(),
        ));
        assert(locals_jobs(ls) == locals_jobs(ls.drop_last()).add(ls.last()@.to_multiset()));
        assert forall|x: u64|
            locals_jobs(lu).add(ls[i]@.to_multiset()).count(x) == locals_jobs(ls).add(
                d@.to_multiset(),
            ).count(x) by {
            assert(locals_jobs(ls.drop_last().update(i, d)).add(
                ls.drop_last()[i]@.to_multiset(),
            ).count(x) == locals_jobs(ls.drop_last()).add(d@.to_multiset()).count(x));
        }
        assert(locals_jobs(lu).add(ls[i]@.to_multiset()) =~= locals_jobs(ls).add(
            d@.to_multiset(),
        ));
    }
}

/// A row of empty deques holds no jobs.
pub proof fn lemma_locals_jobs_all_empty(ls: Seq<VecDeque<u64>>)
    requires
        forall|k: int| 0 <= k < ls.len() ==> #[trigger] ls[k]@.len() == 0,
    ensures
        locals_jobs(ls) == Multiset::<u64>::empty(),
    decreases ls.len(),
{
    if ls.len() > 0 {
        lemma_locals_jobs_all_empty(ls.drop_last());
        ls.last()@.to_multiset_ensures();
        assert(ls.last()@.to_multiset().len() == 0);
        assert(locals_jobs(ls) =~= Multiset::<u64>::empty());
    }
}

/// The model of the pool: every container a job can sit in, the record of
/// executed jobs, and the two lifecycle flags. `closed` says the handle has
/// dropped the send side of the submission channel; `shutdown` says the
/// coordinator has drained the channel and told the workers to wind down.
pub struct ThreadPool {
    /// Jobs submitted but not yet forwarded by the coordinator.
    pub pending: VecDeque<u64>,
    /// The global queue the coordinator appends to.
    pub global: VecDeque<u64>,
    /// One local deque per worker.
    pub locals: Vec<VecDeque<u64>>,
    /// Tokens of executed jobs, in execution order.
    pub executed: Vec<u64>,
    /// The submission channel's send side has been dropped.
    pub closed: bool,
    /// The coordinator has observed the closed, drained channel.
    pub shutdown: bool,
    /// Which workers have wound down. An exited worker ticks no more.
    pub exited: Vec<bool>,
    /// Every token ever submitted, in submission order.
    pub submitted: Ghost<Seq<u64>>,
}

impl ThreadPool {
    /// The jobs currently held in some container, waiting to run.
    pub open spec fn in_flight(self) -> Multiset<u64> {
        self.pending@.to_multiset().add(self.global@.to_multiset()).add(
            locals_jobs(self.locals@),
        )
    }

    /// Well-formedness: at least one worker; shutdown only after the channel
    /// closed and drained; conservation — the jobs waiting plus the jobs
    /// executed are exactly the jobs submitted; and a worker exits only
    /// during shutdown, after seeing its own deque and the global queue
    /// empty, and nothing can refill either afterwards.
    pub open spec fn wf(self) -> bool {
        &&& self.locals@.len() >= 1
        &&& self.exited@.len() == self.locals@.len()
        &&& self.shutdown ==> self.closed && self.pending@.len() == 0
        &&& self.in_flight().add(self.executed@.to_multiset()) == self.submitted@.to_multiset()
        &&& forall|k: int|
            0 <= k < self.exited@.len() && #[trigger] self.exited@[k] ==> self.shutdown
                && self.locals@[k]@.len() == 0 && self.global@.len() == 0
    }

    /// The number of workers.
    pub open spec fn worker_count(self) -> nat {
        self.locals@.len()
    }

    /// A pool must have at least one worker; construction rejects `n == 0`.
    pub fn worker_count_valid(n: usize) -> (b: bool)
        ensures
            b == (n >= 1),
    {
        n >= 1
    }

    /// Build a pool of `n` workers, all containers empty.
    pub fn new(n: usize) -> (p: ThreadPool)
        requires
            n >= 1,
        ensures
            p.wf(),
            p.worker_count() == n,
            p.pending@.len() == 0,
            p.global@.len() == 0,
            forall|k: int| 0 <= k < n ==> #[trigger] p.locals@[k]@.len() == 0,
            forall|k: int| 0 <= k < n ==> !#[trigger] p.exited@[k],
            p.executed@.len() == 0,
            !p.closed,
            !p.shutdown,
            p.submitted@.len() == 0,
    {
        let mut locals: Vec<VecDeque<u64>> = Vec::new();
        let mut exited: Vec<bool> = Vec::new();
        let mut i: usize = 0;
        while i < n
            invariant
                i <= n,
                locals@.len() == i,
                exited@.len() == i,
                forall|k: int| 0 <= k < i ==> #[trigger] locals@[k]@.len() == 0,
                forall|k: int| 0 <= k < i ==> !#[trigger] exited@[k],
            decreases n - i,
        {
            locals.push(VecDeque::new());
            exited.push(false);
            i = i + 1;
        }
        let p = ThreadPool {
            pending: VecDeque::new(),
            global: VecDeque::new(),
            locals,
            executed: Vec::new(),
            closed: false,
            shutdown: false,
            exited,
            submitted: Ghost(Seq::empty()),
        };
        proof {
            lemma_locals_jobs_all_empty(p.locals@);
            p.pending@.to_multiset_ensures();
            p.global@.to_multiset_ensures();
            p.executed@.to_multiset_ensures();
            p.submitted@.to_multiset_ensures();
            assert(p.in_flight().add(p.executed@.to_multiset()) =~= p.submitted@.to_multiset());
        }
        p
    }

    /// Whether a submission would be accepted: only before the handle has
    /// begun destruction. Submitting later is a programmer error the caller
    /// must treat as fatal.
    pub fn can_submit(&self) -> (b: bool)
        ensures
            b == !self.closed,
    {
        !self.closed
    }

    /// Hand a job to the pool: it joins the submission channel, and nothing
    /// else — not the queues, not the workers — changes, whatever the pool is
    /// doing. The handle never waits on job execution.
    pub fn submit(&mut self, job: u64)
        requires
            old(self).wf(),
            !old(self).closed,
        ensures
            final(self).wf(),
            final(self).pending@ == old(self).pending@.push(job),
            final(self).submitted@ == old(self).submitted@.push(job),
            final(self).global == old(self).global,
            final(self).locals == old(self).locals,
            final(self).executed == old(self).executed,
            final(self).closed == old(self).closed,
            final(self).shutdown == old(self).shutdown,
            final(self).exited == old(self).exited,
    {
        self.pending.push_back(job);
        proof {
            self.submitted@ = self.submitted@.push(job);
            assert(self.in_flight().add(self.executed@.to_multiset()) =~= self.submitted@.to_multiset());
        }
    }

    /// Drop of the handle's send side: no further submissions.
    pub fn close(&mut self)
        requires
            old(self).wf(),
        ensures
            final(self).wf(),
            final(self).closed,
            final(self).pending == old(self).pending,
            final(self).global == old(self).global,
            final(self).locals == old(self).locals,
            final(self).executed == old(self).executed,
            final(self).shutdown == old(self).shutdown,
            final(self).exited == old(self).exited,
            final(self).submitted == old(self).submitted,
    {
        self.closed = true;
    }

    /// One coordinator step: move the oldest submitted job onto the global
    /// queue. The coordinator is the sole appender, so submissions reach the
    /// global queue in FIFO order.
    pub fn forward(&mut self) -> (job: u64)
        requires
            old(self).wf(),
            old(self).pending@.len() > 0,
        ensures
            final(self).wf(),
            job == old(self).pending@[0],
            final(self).pending@ == old(self).pending@.subrange(1, old(self).pending@.len() as int),
            final(self).global@ == old(self).global@.push(job),
            final(self).locals == old(self).locals,
            final(self).executed == old(self).executed,
            final(self).closed == old(self).closed,
            final(self).shutdown == old(self).shutdown,
            final(self).exited == old(self).exited,
            final(self).submitted == old(self).submitted,
    {
        let job = match self.pending.pop_front() {
            Some(j) => j,
            None => {
                proof {
                    assert(false);
                }
                0u64
            },
        };
        self.global.push_back(job);
        proof {
            assert(old(self).pending@.subrange(1, old(self).pending@.len() as int) =~= old(
                self,
            ).pending@.remove(0));
            assert(self.pending@.to_multiset() == old(self).pending@.to_multiset().remove(job));
            assert(old(self).pending@.to_multiset().count(job) > 0);
            assert(self.in_flight().add(self.executed@.to_multiset()) =~= self.submitted@.to_multiset());
        }
        job
    }

    /// The coordinator's shutdown signal: sent once the channel is closed and
    /// it has forwarded everything it received.
    pub fn signal_shutdown(&mut self)
        requires
            old(self).wf(),
            old(self).closed,
            old(self).pending@.len() == 0,
        ensures
            final(self).wf(),
            final(self).shutdown,
            final(self).pending == old(self).pending,
            final(self).global == old(self).global,
            final(self).locals == old(self).locals,
            final(self).executed == old(self).executed,
            final(self).closed == old(self).closed,
            final(self).exited == old(self).exited,
            final(self).submitted == old(self).submitted,
    {
        self.shutdown = true;
    }
}

/// What a worker resolves to do with one look at its surroundings.
#[derive(Clone, Copy, Debug, PartialEq, Eq, Structural)]
pub enum WorkerDecision {
    /// Pop and run the front job of its own deque.
    RunLocal,
    /// Move the back half of the neighbor's deque into its own.
    StealNeighbor,
    /// Move the back half of the global queue into its own deque.
    DrainGlobal,
    /// Back off briefly and look again.
    Sleep,
    /// Wind down: shutdown was signalled and no work is observable.
    Exit,
}

/// The worker policy. `neighbor_len` is `None` when the non-blocking probe
/// of the neighbor's lock failed — a worker never waits on its neighbor.
/// Local work first; else steal from a neighbor seen with work; else drain
/// the global queue; else exit, but only when shutdown has been signalled
/// and the neighbor was actually observed empty; else sleep.
pub open spec fn decide_spec(
    local_len: usize,
    neighbor_len: Option<usize>,
    global_len: usize,
    shutdown: bool,
) -> WorkerDecision {
    if local_len > 0 {
        WorkerDecision::RunLocal
    } else {
        match neighbor_len {
            Some(nl) => if nl > 0 {
                WorkerDecision::StealNeighbor
            } else if global_len > 0 {
                WorkerDecision::DrainGlobal
            } else if shutdown {
                WorkerDecision::Exit
            } else {
                WorkerDecision::Sleep
            },
            None => if global_len > 0 {
                WorkerDecision::DrainGlobal
            } else {
                WorkerDecision::Sleep
            },
        }
    }
}

/// One worker decision, computed from what the worker observed.
pub fn worker_decide(
    local_len: usize,
    neighbor_len: Option<usize>,
    global_len: usize,
    shutdown: bool,
) -> (d: WorkerDecision)
    ensures
        d == decide_spec(local_len, neighbor_len, global_len, shutdown),
{
    if local_len > 0 {
        WorkerDecision::RunLocal
    } else {
        match neighbor_len {
            Some(nl) => {
                if nl > 0 {
                    WorkerDecision::StealNeighbor
                } else if global_len > 0 {
                    WorkerDecision::DrainGlobal
                } else if shutdown {
                    WorkerDecision::Exit
                } else {
                    WorkerDecision::Sleep
                }
            },
            None => {
                if global_len > 0 {
                    WorkerDecision::DrainGlobal
                } else {
                    WorkerDecision::Sleep
                }
            },
        }
    }
}

/// Deadlock freedom of the policy: a worker with an empty deque whose
/// neighbor offers no work never waits on the neighbor — it drains the
/// global queue when that has work, and otherwise sleeps or, only once
/// shutdown is signalled and the neighbor was observed empty, exits. Every
/// observation resolves to exactly one of those; the policy cannot wedge.
pub proof fn lemma_deadlock_free(neighbor_len: Option<usize>, global_len: usize, shutdown: bool)
    requires
        neighbor_len matches Some(nl) ==> nl == 0,
    ensures
        global_len > 0 ==> decide_spec(0, neighbor_len, global_len, shutdown)
            == WorkerDecision::DrainGlobal,
        global_len == 0 && shutdown && neighbor_len is Some ==> decide_spec(
            0,
            neighbor_len,
            global_len,
            shutdown,
        ) == WorkerDecision::Exit,
        global_len == 0 && !(shutdown && neighbor_len is Some) ==> decide_spec(
            0,
            neighbor_len,
            global_len,
            shutdown,
        ) == WorkerDecision::Sleep,
{
}

/// The victim a worker steals from: the next worker around the ring.
pub open spec fn neighbor_index(i: int, n: int) -> int {
    if i == n - 1 {
        0
    } else {
        i + 1
    }
}

/// What one worker tick did, with the token it ran or the number of jobs it
/// migrated.
#[derive(Clone, Copy, Debug, PartialEq, Eq, Structural)]
pub enum WorkerAction {
    RanLocal(u64),
    StoleNeighbor(usize),
    DrainedGlobal(usize),
    Slept,
    Exited,
}

impl ThreadPool {
    /// The neighbor of worker `i` in a pool of `n`: `(i + 1) mod n`. The
    /// relation is a single directed ring, so each deque is ever touched by
    /// two threads only: its owner and one stealer.
    pub fn neighbor_of(i: usize, n: usize) -> (nb: usize)
        requires
            n >= 1,
            i < n,
        ensures
            nb == neighbor_index(i as int, n as int),
            nb == (i as int + 1) % (n as int),
            nb < n,
    {
        let nb = if i == n - 1 {
            0
        } else {
            i + 1
        };
        proof {
            if i == n - 1 {
                assert((i as int + 1) % (n as int) == 0) by {
                    vstd::arithmetic::div_mod::lemma_mod_self_0(n as int);
                };
            } else {
                assert((i as int + 1) % (n as int) == i as int + 1) by {
                    vstd::arithmetic::div_mod::lemma_small_mod((i + 1) as nat, n as nat);
                };
            }
        }
        nb
    }

    /// One tick of worker `i`'s loop, acting on what it observes now.
    /// `neighbor_available` says whether the non-blocking probe of the
    /// neighbor's lock succeeded. The tick carries out exactly what the
    /// policy [`decide_spec`] resolves to on those observations: run the
    /// front local job, migrate the back half of the neighbor's deque or of
    /// the global queue (splitting at `len / 2`, so a single job moves
    /// whole), sleep, or exit. Jobs are conserved, and a migration leaves
    /// the worker with work in hand.
    pub fn worker_tick(&mut self, i: usize, neighbor_available: bool) -> (a: WorkerAction)
        requires
            old(self).wf(),
            i < old(self).locals@.len(),
            !old(self).exited@[i as int],
        ensures
            final(self).wf(),
            final(self).worker_count() == old(self).worker_count(),
            final(self).pending == old(self).pending,
            final(self).closed == old(self).closed,
            final(self).shutdown == old(self).shutdown,
            final(self).submitted == old(self).submitted,
            a != WorkerAction::Exited ==> final(self).exited == old(self).exited,
            a == WorkerAction::Exited ==> final(self).exited@ == old(self).exited@.update(
                i as int,
                true,
            ),
            ({
                let n = old(self).locals@.len() as int;
                let nb = neighbor_index(i as int, n);
                let lq = old(self).locals@[i as int]@;
                let nq = old(self).locals@[nb]@;
                let gq = old(self).global@;
                let d = decide_spec(
                    lq.len() as usize,
                    if neighbor_available {
                        Some(nq.len() as usize)
                    } else {
                        None
                    },
                    gq.len() as usize,
                    old(self).shutdown,
                );
                &&& (d == WorkerDecision::RunLocal ==> {
                    &&& a == WorkerAction::RanLocal(lq[0])
                    &&& final(self).locals@[i as int]@ == lq.subrange(1, lq.len() as int)
                    &&& forall|k: int|
                        0 <= k < n && k != i ==> final(self).locals@[k] == old(self).locals@[k]
                    &&& final(self).executed@ == old(self).executed@.push(lq[0])
                    &&& final(self).global == old(self).global
                })
                &&& (d == WorkerDecision::StealNeighbor ==> {
                    &&& a == WorkerAction::StoleNeighbor((nq.len() - nq.len() / 2) as usize)
                    &&& final(self).locals@[nb]@ == nq.subrange(0, nq.len() as int / 2)
                    &&& final(self).locals@[i as int]@ == nq.subrange(
                        nq.len() as int / 2,
                        nq.len() as int,
                    )
                    &&& forall|k: int|
                        0 <= k < n && k != i && k != nb ==> final(self).locals@[k] == old(
                            self,
                        ).locals@[k]
                    &&& final(self).locals@[i as int]@.len() >= 1
                    &&& final(self).executed == old(self).executed
                    &&& final(self).global == old(self).global
                })
                &&& (d == WorkerDecision::DrainGlobal ==> {
                    &&& a == WorkerAction::DrainedGlobal((gq.len() - gq.len() / 2) as usize)
                    &&& final(self).global@ == gq.subrange(0, gq.len() as int / 2)
                    &&& final(self).locals@[i as int]@ == gq.subrange(
                        gq.len() as int / 2,
                        gq.len() as int,
                    )
                    &&& forall|k: int|
                        0 <= k < n && k != i ==> final(self).locals@[k] == old(self).locals@[k]
                    &&& final(self).locals@[i as int]@.len() >= 1
                    &&& final(self).executed == old(self).executed
                })
                &&& (d == WorkerDecision::Sleep ==> {
                    &&& a == WorkerAction::Slept
                    &&& final(self).locals == old(self).locals
                    &&& final(self).global == old(self).global
                    &&& final(self).executed == old(self).executed
                })
                &&& (d == WorkerDecision::Exit ==> {
                    &&& a == WorkerAction::Exited
                    &&& final(self).locals == old(self).locals
                    &&& final(self).global == old(self).global
                    &&& final(self).executed == old(self).executed
                })
            }),
    {
        let n = self.locals.len();
        let nb = Self::neighbor_of(i, n);
        let local_len = self.locals[i].len();
        if local_len > 0 {
            let job = match self.locals[i].pop_front() {
                Some(j) => j,
                None => {
                    proof {
                        assert(false);
                    }
                    0u64
                },
            };
            self.executed.push(job);
            proof {
                let lq = old(self).locals@[i as int]@;
                lemma_locals_jobs_update(old(self).locals@, i as int, self.locals@[i as int]);
                assert(lq.subrange(1, lq.len() as int) =~= lq.remove(0));
                assert(lq.remove(0).to_multiset() == lq.to_multiset().remove(lq[0]));
                assert(lq.to_multiset().contains(lq[0]));
                assert forall|x: u64|
                    final(self).in_flight().add(final(self).executed@.to_multiset()).count(x)
                        == old(self).in_flight().add(old(self).executed@.to_multiset()).count(
                        x,
                    ) by {
                    assert(locals_jobs(self.locals@).add(lq.to_multiset()).count(x) == locals_jobs(
                        old(self).locals@,
                    ).add(self.locals@[i as int]@.to_multiset()).count(x));
                }
                assert(final(self).in_flight().add(final(self).executed@.to_multiset())
                    =~= old(self).in_flight().add(old(self).executed@.to_multiset()));
            }
            WorkerAction::RanLocal(job)
        } else {
            let neighbor_len = if neighbor_available {
                self.locals[nb].len()
            } else {
                0
            };
            if neighbor_available && neighbor_len > 0 {
                let split = neighbor_len / 2;
                let mut moved = self.locals[nb].split_off(split);
                let moved_count = neighbor_len - split;
                let ghost mid = self.locals@;
                self.locals[i].append(&mut moved);
                proof {
                    let nq = old(self).locals@[nb as int]@;
                    let lq = old(self).locals@[i as int]@;
                    assert(nq =~= nq.subrange(0, nq.len() as int / 2) + nq.subrange(
                        nq.len() as int / 2,
                        nq.len() as int,
                    ));
                    vstd::seq_lib::lemma_multiset_commutative(
                        nq.subrange(0, nq.len() as int / 2),
                        nq.subrange(nq.len() as int / 2, nq.len() as int),
                    );
                    lemma_locals_jobs_update(old(self).locals@, nb as int, mid[nb as int]);
                    lemma_locals_jobs_update(mid, i as int, self.locals@[i as int]);
                    assert(lq =~= Seq::<u64>::empty());
                    lq.to_multiset_ensures();
                    assert(self.locals@[i as int]@ =~= nq.subrange(
                        nq.len() as int / 2,
                        nq.len() as int,
                    ));
                    assert forall|x: u64|
                        final(self).in_flight().add(final(self).executed@.to_multiset()).count(x)
                            == old(self).in_flight().add(old(self).executed@.to_multiset()).count(
                            x,
                        ) by {
                        assert(locals_jobs(mid).add(nq.to_multiset()).count(x) == locals_jobs(
                            old(self).locals@,
                        ).add(mid[nb as int]@.to_multiset()).count(x));
                        assert(locals_jobs(self.locals@).add(mid[i as int]@.to_multiset()).count(x)
                            == locals_jobs(mid).add(self.locals@[i as int]@.to_multiset()).count(
                            x,
                        ));
                    }
                    assert(final(self).in_flight().add(final(self).executed@.to_multiset())
                        =~= old(self).in_flight().add(old(self).executed@.to_multiset()));
                }
                WorkerAction::StoleNeighbor(moved_count)
            } else {
                let global_len = self.global.len();
                if global_len > 0 {
                    let split = global_len / 2;
                    let mut moved = self.global.split_off(split);
                    let moved_count = global_len - split;
                    self.locals[i].append(&mut moved);
                    proof {
                        let gq = old(self).global@;
                        let lq = old(self).locals@[i as int]@;
                        assert(gq =~= gq.subrange(0, gq.len() as int / 2) + gq.subrange(
                            gq.len() as int / 2,
                            gq.len() as int,
                        ));
                        vstd::seq_lib::lemma_multiset_commutative(
                            gq.subrange(0, gq.len() as int / 2),
                            gq.subrange(gq.len() as int / 2, gq.len() as int),
                        );
                        lemma_locals_jobs_update(
                            old(self).locals@,
                            i as int,
                            self.locals@[i as int],
                        );
                        assert(lq =~= Seq::<u64>::empty());
                        lq.to_multiset_ensures();
                        assert(self.locals@[i as int]@ =~= gq.subrange(
                            gq.len() as int / 2,
                            gq.len() as int,
                        ));
                        assert forall|x: u64|
                            final(self).in_flight().add(final(self).executed@.to_multiset()).count(
                                x,
                            ) == old(self).in_flight().add(
                                old(self).executed@.to_multiset(),
                            ).count(x) by {
                            assert(locals_jobs(self.locals@).add(lq.to_multiset()).count(x)
                                == locals_jobs(old(self).locals@).add(
                                self.locals@[i as int]@.to_multiset(),
                            ).count(x));
                        }
                        assert(final(self).in_flight().add(final(self).executed@.to_multiset())
                            =~= old(self).in_flight().add(old(self).executed@.to_multiset()));
                    }
                    WorkerAction::DrainedGlobal(moved_count)
                } else if self.shutdown && neighbor_available {
                    self.exited[i] = true;
                    WorkerAction::Exited
                } else {
                    WorkerAction::Slept
                }
            }
        }
    }
}

/// At-most-once execution: as long as the submitted side-effect tokens are
/// distinct, no token appears twice in the execution record — in any
/// reachable state, not only after shutdown.
pub proof fn lemma_at_most_once(p: ThreadPool)
    requires
        p.wf(),
        p.submitted@.no_duplicates(),
    ensures
        p.executed@.no_duplicates(),
{
    p.submitted@.lemma_multiset_has_no_duplicates();
    assert forall|x: u64| p.executed@.to_multiset().contains(x) implies p.executed@.to_multiset().count(x) == 1 by {
        assert(p.in_flight().add(p.executed@.to_multiset()).count(x) == p.submitted@.to_multiset().count(x));
        assert(p.submitted@.to_multiset().contains(x));
    }
    p.executed@.lemma_multiset_has_no_duplicates_conv();
}

/// No loss under clean shutdown: when every container has drained — nothing
/// pending, global queue empty, every local deque empty — the executed
/// tokens are exactly the submitted ones, as a multiset and in number.
pub proof fn lemma_no_loss_on_drain(p: ThreadPool)
    requires
        p.wf(),
        p.pending@.len() == 0,
        p.global@.len() == 0,
        forall|k: int| 0 <= k < p.locals@.len() ==> #[trigger] p.locals@[k]@.len() == 0,
    ensures
        p.executed@.to_multiset() == p.submitted@.to_multiset(),
        p.executed@.len() == p.submitted@.len(),
{
    lemma_locals_jobs_all_empty(p.locals@);
    p.pending@.to_multiset_ensures();
    p.global@.to_multiset_ensures();
    p.executed@.to_multiset_ensures();
    p.submitted@.to_multiset_ensures();
    assert(p.executed@.to_multiset() =~= p.submitted@.to_multiset());
}

/// Exactly-once: a drained pool has executed each of the distinct submitted
/// tokens exactly once — every submission is observed, none twice.
pub proof fn lemma_exactly_once(p: ThreadPool)
    requires
        p.wf(),
        p.submitted@.no_duplicates(),
        p.pending@.len() == 0,
        p.global@.len() == 0,
        forall|k: int| 0 <= k < p.locals@.len() ==> #[trigger] p.locals@[k]@.len() == 0,
    ensures
        p.executed@.to_multiset() == p.submitted@.to_multiset(),
        p.executed@.len() == p.submitted@.len(),
        p.executed@.no_duplicates(),
{
    lemma_no_loss_on_drain(p);
    lemma_at_most_once(p);
}

/// No loss under clean shutdown, as destruction observes it. Destroying the
/// handle closes the channel and joins the coordinator, which joins every
/// worker; so when destruction returns, every worker has exited. In any
/// well-formed such state nothing is left pending, queued or held, and the
/// executed tokens are exactly the submitted ones: every job submitted
/// before the handle was destroyed has been executed before destruction
/// returns.
pub proof fn lemma_no_loss_after_join(p: ThreadPool)
    requires
        p.wf(),
        forall|k: int| 0 <= k < p.exited@.len() ==> #[trigger] p.exited@[k],
    ensures
        p.executed@.to_multiset() == p.submitted@.to_multiset(),
        p.executed@.len() == p.submitted@.len(),
{
    assert(p.exited@[0]);
    assert forall|k: int| 0 <= k < p.locals@.len() implies #[trigger] p.locals@[k]@.len() == 0 by {
        assert(p.exited@[k]);
    }
    lemma_no_loss_on_drain(p);
}

} // verus!
