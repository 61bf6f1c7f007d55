use stealpool::threadpool::{ThreadPool, WorkerAction, WorkerDecision};

/// Drive every worker round-robin until all have exited, with the neighbor
/// probe always succeeding. Returns how many jobs each worker executed.
fn run_to_exit(p: &mut ThreadPool) -> Vec<usize> {
    let n = p.locals.len();
    let mut ran = vec![0usize; n];
    let mut exited = vec![false; n];
    let mut steps = 0usize;
    while exited.iter().any(|e| !e) {
        steps += 1;
        assert!(steps < 1_000_000, "the pool failed to wind down");
        for i in 0..n {
            if exited[i] {
                continue;
            }
            // a worker that migrated work keeps running until it has
            // executed a job, gone idle or exited, as the real loop does
            loop {
                match p.worker_tick(i, true) {
                    WorkerAction::RanLocal(_) => {
                        ran[i] += 1;
                        break;
                    }
                    WorkerAction::Exited => {
                        exited[i] = true;
                        break;
                    }
                    WorkerAction::Slept => break,
                    _ => {}
                }
            }
        }
    }
    ran
}

#[test]
fn construction_needs_at_least_one_worker() {
    assert!(!ThreadPool::worker_count_valid(0));
    assert!(ThreadPool::worker_count_valid(1));
    assert!(ThreadPool::worker_count_valid(4));
}

#[test]
fn a_new_pool_is_empty() {
    let p = ThreadPool::new(3);
    assert_eq!(p.locals.len(), 3);
    assert_eq!(p.pending.len(), 0);
    assert_eq!(p.global.len(), 0);
    assert_eq!(p.executed.len(), 0);
    assert!(p.can_submit());
}

#[test]
fn the_coordinator_forwards_in_fifo_order() {
    let mut p = ThreadPool::new(2);
    p.submit(10);
    p.submit(20);
    p.submit(30);
    assert_eq!(p.forward(), 10);
    assert_eq!(p.forward(), 20);
    assert_eq!(p.forward(), 30);
    assert_eq!(p.global.iter().copied().collect::<Vec<u64>>(), vec![10, 20, 30]);
}

#[test]
fn submission_is_refused_after_close() {
    let mut p = ThreadPool::new(2);
    assert!(p.can_submit());
    p.close();
    assert!(!p.can_submit());
}

#[test]
fn the_neighbor_relation_is_a_ring() {
    assert_eq!(ThreadPool::neighbor_of(0, 4), 1);
    assert_eq!(ThreadPool::neighbor_of(1, 4), 2);
    assert_eq!(ThreadPool::neighbor_of(3, 4), 0);
    assert_eq!(ThreadPool::neighbor_of(0, 1), 0);
}

#[test]
fn the_policy_prefers_local_then_steal_then_global() {
    assert_eq!(stealpool::threadpool::worker_decide(2, Some(5), 9, false), WorkerDecision::RunLocal);
    assert_eq!(
        stealpool::threadpool::worker_decide(0, Some(5), 9, false),
        WorkerDecision::StealNeighbor
    );
    assert_eq!(
        stealpool::threadpool::worker_decide(0, Some(0), 9, false),
        WorkerDecision::DrainGlobal
    );
    assert_eq!(stealpool::threadpool::worker_decide(0, None, 9, true), WorkerDecision::DrainGlobal);
    assert_eq!(stealpool::threadpool::worker_decide(0, Some(0), 0, false), WorkerDecision::Sleep);
    assert_eq!(stealpool::threadpool::worker_decide(0, None, 0, true), WorkerDecision::Sleep);
    assert_eq!(stealpool::threadpool::worker_decide(0, Some(0), 0, true), WorkerDecision::Exit);
}

#[test]
fn a_worker_never_exits_before_shutdown() {
    let mut p = ThreadPool::new(1);
    assert_eq!(p.worker_tick(0, true), WorkerAction::Slept);
    p.close();
    assert_eq!(p.worker_tick(0, true), WorkerAction::Slept);
    p.signal_shutdown();
    assert_eq!(p.worker_tick(0, true), WorkerAction::Exited);
}

#[test]
fn a_worker_blocked_on_its_neighbor_sleeps_instead_of_exiting() {
    let mut p = ThreadPool::new(2);
    p.close();
    p.signal_shutdown();
    assert_eq!(p.worker_tick(0, false), WorkerAction::Slept);
    assert_eq!(p.worker_tick(0, true), WorkerAction::Exited);
}

#[test]
fn single_worker_fan_out_runs_every_job() {
    let mut p = ThreadPool::new(1);
    for t in 0..1000u64 {
        p.submit(t);
    }
    p.close();
    while p.pending.len() > 0 {
        p.forward();
    }
    p.signal_shutdown();
    run_to_exit(&mut p);
    assert!(p.exited.iter().all(|&e| e));
    assert_eq!(p.pending.len() + p.global.len(), 0);
    assert!(p.locals.iter().all(|d| d.is_empty()));
    let mut seen = p.executed.clone();
    seen.sort();
    assert_eq!(seen, (0..1000u64).collect::<Vec<u64>>());
}

#[test]
fn four_workers_run_each_job_exactly_once() {
    let mut p = ThreadPool::new(4);
    for t in 0..10_000u64 {
        p.submit(t);
    }
    p.close();
    while p.pending.len() > 0 {
        p.forward();
    }
    p.signal_shutdown();
    run_to_exit(&mut p);
    assert_eq!(p.executed.len(), 10_000);
    let mut seen = p.executed.clone();
    seen.sort();
    seen.dedup();
    assert_eq!(seen.len(), 10_000);
}

#[test]
fn immediate_destruction_loses_nothing() {
    let mut p = ThreadPool::new(4);
    for t in 0..1000u64 {
        p.submit(t);
    }
    p.close();
    while p.pending.len() > 0 {
        p.forward();
    }
    p.signal_shutdown();
    run_to_exit(&mut p);
    let mut seen = p.executed.clone();
    seen.sort();
    assert_eq!(seen, (0..1000u64).collect::<Vec<u64>>());
}

#[test]
fn stealing_spreads_work_across_both_workers() {
    let mut p = ThreadPool::new(2);
    for t in 0..200u64 {
        p.submit(t);
    }
    p.close();
    while p.pending.len() > 0 {
        p.forward();
    }
    p.signal_shutdown();
    let ran = run_to_exit(&mut p);
    assert!(ran[0] > 0, "worker 0 executed nothing");
    assert!(ran[1] > 0, "worker 1 executed nothing");
    assert_eq!(ran[0] + ran[1], 200);
}

#[test]
fn a_steal_moves_the_back_half() {
    let mut p = ThreadPool::new(2);
    for t in [1u64, 2, 3, 4, 5] {
        p.submit(t);
        p.forward();
    }
    // worker 1 drains the global queue: split at 2, takes the back 3 jobs
    assert_eq!(p.worker_tick(1, false), WorkerAction::DrainedGlobal(3));
    assert_eq!(p.locals[1].iter().copied().collect::<Vec<u64>>(), vec![3, 4, 5]);
    assert_eq!(p.global.iter().copied().collect::<Vec<u64>>(), vec![1, 2]);
    // worker 0's neighbor is worker 1: steal the back half, split at 1
    assert_eq!(p.worker_tick(0, true), WorkerAction::StoleNeighbor(2));
    assert_eq!(p.locals[0].iter().copied().collect::<Vec<u64>>(), vec![4, 5]);
    assert_eq!(p.locals[1].iter().copied().collect::<Vec<u64>>(), vec![3]);
}

#[test]
fn a_single_job_moves_whole() {
    let mut p = ThreadPool::new(2);
    p.submit(42);
    p.forward();
    assert_eq!(p.worker_tick(0, false), WorkerAction::DrainedGlobal(1));
    assert_eq!(p.global.len(), 0);
    assert_eq!(p.locals[0].iter().copied().collect::<Vec<u64>>(), vec![42]);
    assert_eq!(p.worker_tick(1, true), WorkerAction::StoleNeighbor(1));
    assert_eq!(p.locals[1].iter().copied().collect::<Vec<u64>>(), vec![42]);
    assert_eq!(p.worker_tick(1, true), WorkerAction::RanLocal(42));
    assert_eq!(p.executed, vec![42]);
}

#[test]
fn local_work_runs_in_front_to_back_order() {
    let mut p = ThreadPool::new(1);
    for t in [7u64, 8, 9, 10] {
        p.submit(t);
        p.forward();
    }
    // the drain takes the back half [9, 10]; the front stays global
    assert_eq!(p.worker_tick(0, true), WorkerAction::DrainedGlobal(2));
    assert_eq!(p.worker_tick(0, true), WorkerAction::RanLocal(9));
    assert_eq!(p.worker_tick(0, true), WorkerAction::RanLocal(10));
}
