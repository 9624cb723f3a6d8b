use aetherion_kernel::process::task::AgentRole;
use aetherion_kernel::process::{kill, spawn_matriarch, spawn_submatriarch, spawn_worker, ProcessTable};
use aetherion_kernel::scheduler::{
    aging_boosts, current_pid, enqueue_process, init, metrics, role_to_priority, test_tick, tick, total_ticks, SchedPriority, Scheduler,
};

fn hierarchy() -> (ProcessTable, u64, u64, u64) {
    let mut t = ProcessTable::new();
    let m = spawn_matriarch(&mut t, "Root", 1000, 1000).unwrap();
    let s = spawn_submatriarch(&mut t, "Sub", m, 1000, 1000).unwrap();
    let w = spawn_worker(&mut t, "Worker", s, 1000, 1000).unwrap();
    (t, m, s, w)
}

#[test]
fn scheduler_role_priorities() {
    assert_eq!(role_to_priority(AgentRole::KernelThread), SchedPriority::Critical);
    assert_eq!(role_to_priority(AgentRole::Matriarch), SchedPriority::High);
    assert_eq!(role_to_priority(AgentRole::SubMatriarch), SchedPriority::Normal);
    assert_eq!(role_to_priority(AgentRole::Worker), SchedPriority::Low);
}

#[test]
fn scheduler_init_fills_queues() {
    let (t, _m, _s, _w) = hierarchy();
    let mut sched = Scheduler::new();
    init(&mut sched, &t);
    let q = metrics(&sched).queue_lengths;
    assert_eq!(q, [0, 1, 1, 1, 0]);
    assert_eq!(current_pid(&sched), 0);
}

#[test]
fn scheduler_strict_priority() {
    let (t, m, _s, _w) = hierarchy();
    let mut sched = Scheduler::new();
    init(&mut sched, &t);
    let r = test_tick(&mut sched, &t);
    assert_eq!((r.old_pid, r.new_pid, r.new_priority, r.switched, r.tick_number), (0, m, SchedPriority::High, true, 1));
    for i in 0..5u64 {
        let r = test_tick(&mut sched, &t);
        assert_eq!(r.new_pid, m);
        assert_eq!(r.new_priority, SchedPriority::High);
        assert!(!r.switched);
        assert_eq!(r.tick_number, i + 2);
    }
    let mt = metrics(&sched);
    assert_eq!(mt.total_ticks, 6);
    assert_eq!(mt.context_switches, 1);
    assert_eq!(mt.current_pid, m);
}

#[test]
fn scheduler_falls_to_lower_queue() {
    let (mut t, m, s, w) = hierarchy();
    let mut sched = Scheduler::new();
    init(&mut sched, &t);
    assert_eq!(test_tick(&mut sched, &t).new_pid, m);
    assert_eq!(kill(&mut t, m), Ok(()));
    // the terminated matriarch still has a role, so it is requeued; nothing
    // has waited long enough for a boost, so the High queue is served.
    assert_eq!(test_tick(&mut sched, &t).new_pid, m);
    let mut only_sub = Scheduler::new();
    enqueue_process(&mut only_sub, &t, w);
    enqueue_process(&mut only_sub, &t, s);
    let r = test_tick(&mut only_sub, &t);
    assert_eq!((r.new_pid, r.new_priority), (s, SchedPriority::Normal));
}

#[test]
fn scheduler_round_robin_within_queue() {
    let mut t = ProcessTable::new();
    let m = spawn_matriarch(&mut t, "Root", 1000, 1000).unwrap();
    let a = spawn_submatriarch(&mut t, "A", m, 1000, 1000).unwrap();
    let b = spawn_submatriarch(&mut t, "B", m, 1000, 1000).unwrap();
    let mut sched = Scheduler::new();
    enqueue_process(&mut sched, &t, a);
    enqueue_process(&mut sched, &t, b);
    assert_eq!(test_tick(&mut sched, &t).new_pid, a);
    assert_eq!(test_tick(&mut sched, &t).new_pid, b);
    assert_eq!(test_tick(&mut sched, &t).new_pid, a);
}

#[test]
fn scheduler_empty_runs_nothing() {
    let t = ProcessTable::new();
    let mut sched = Scheduler::new();
    let r = test_tick(&mut sched, &t);
    assert_eq!((r.new_pid, r.new_priority, r.switched), (0, SchedPriority::Idle, false));
    enqueue_process(&mut sched, &t, 42);
    assert_eq!(metrics(&sched).queue_lengths, [0, 0, 0, 0, 0]);
}

#[test]
fn scheduler_timer_acts_every_tenth_tick() {
    let (t, m, _s, _w) = hierarchy();
    let mut sched = Scheduler::new();
    tick(&mut sched, &t);
    assert_eq!(total_ticks(&sched), 0);
    assert_eq!(metrics(&sched).total_ticks, 0);
    init(&mut sched, &t);
    tick(&mut sched, &t);
    assert_eq!(total_ticks(&sched), 1);
    assert_eq!(metrics(&sched).total_ticks, 1);
    assert_eq!(current_pid(&sched), m);
    for _ in 0..9 {
        tick(&mut sched, &t);
    }
    assert_eq!(total_ticks(&sched), 10);
    assert_eq!(metrics(&sched).total_ticks, 1);
    tick(&mut sched, &t);
    assert_eq!(total_ticks(&sched), 11);
    assert_eq!(metrics(&sched).total_ticks, 2);
    let _ = test_tick(&mut sched, &t);
    assert_eq!(total_ticks(&sched), 12);
    assert_eq!(metrics(&sched).total_ticks, 3);
}

#[test]
fn scheduler_aging_serves_waiting_worker() {
    let (t, m, _s, w) = hierarchy();
    let mut sched = Scheduler::new();
    enqueue_process(&mut sched, &t, m);
    enqueue_process(&mut sched, &t, w);
    assert_eq!(metrics(&sched).queue_lengths, [0, 1, 0, 1, 0]);
    for i in 1..100u64 {
        let r = test_tick(&mut sched, &t);
        assert_eq!(r.new_pid, m, "tick {}", i);
        assert_eq!(r.new_priority, SchedPriority::High);
    }
    assert_eq!(aging_boosts(&sched), 0);
    let r = test_tick(&mut sched, &t);
    assert_eq!((r.old_pid, r.new_pid, r.new_priority, r.switched, r.tick_number), (m, w, SchedPriority::Low, true, 100));
    assert_eq!(aging_boosts(&sched), 1);
    assert_eq!(metrics(&sched).aging_boosts, 1);
    let r = test_tick(&mut sched, &t);
    assert_eq!((r.new_pid, r.new_priority), (m, SchedPriority::High));
    assert_eq!(aging_boosts(&sched), 1);
}

#[test]
fn scheduler_workers_get_time_over_long_runs() {
    let (t, _m, _s, _w) = hierarchy();
    let mut sched = Scheduler::new();
    init(&mut sched, &t);
    let mut low_or_normal = 0u32;
    for _ in 0..300 {
        let r = test_tick(&mut sched, &t);
        if r.new_priority == SchedPriority::Low || r.new_priority == SchedPriority::Normal {
            low_or_normal += 1;
        }
    }
    assert!(low_or_normal > 0);
    assert!(aging_boosts(&sched) > 0);
}
