//! Priority scheduling over five ready queues, with aging: a process that
//! has waited `AGING_TICKS` scheduling steps runs before any other.

pub mod aging;

use vstd::prelude::*;
use std::collections::VecDeque;
use crate::arith::{inc, wrapping_inc};
use crate::scheduler::aging::sched_wf;
use crate::process::{ProcessTable, get_role_priority, list_active_pids, live_processes};
use crate::process::task::{AgentRole, Process};

verus! {

/// Scheduling priority, from lowest to highest.
#[derive(Debug, Clone, Copy, PartialEq, Eq, Structural)]
pub enum SchedPriority {
    Idle,
    Low,
    Normal,
    High,
    Critical,
}

/// Position of a priority's queue (Idle 0 up to Critical 4).
pub open spec fn level(p: SchedPriority) -> int {
    match p {
        SchedPriority::Idle => 0,
        SchedPriority::Low => 1,
        SchedPriority::Normal => 2,
        SchedPriority::High => 3,
        SchedPriority::Critical => 4,
    }
}

/// The priority of queue `i`.
pub open spec fn priority_at(i: int) -> SchedPriority {
    if i == 4 {
        SchedPriority::Critical
    } else if i == 3 {
        SchedPriority::High
    } else if i == 2 {
        SchedPriority::Normal
    } else if i == 1 {
        SchedPriority::Low
    } else {
        SchedPriority::Idle
    }
}

/// The queue each role is scheduled in.
pub open spec fn role_level(role: AgentRole) -> SchedPriority {
    match role {
        AgentRole::Matriarch => SchedPriority::High,
        AgentRole::SubMatriarch => SchedPriority::Normal,
        AgentRole::Worker => SchedPriority::Low,
        AgentRole::KernelThread => SchedPriority::Critical,
    }
}

/// The queue a role is scheduled in: kernel threads Critical, the matriarch
/// High, sub-matriarchs Normal, workers Low.
pub fn role_to_priority(role: AgentRole) -> (p: SchedPriority)
    ensures
        p == role_level(role),
{
    match role {
        AgentRole::Matriarch => SchedPriority::High,
        AgentRole::SubMatriarch => SchedPriority::Normal,
        AgentRole::Worker => SchedPriority::Low,
        AgentRole::KernelThread => SchedPriority::Critical,
    }
}

/// What one scheduling step did.
#[derive(Debug, Clone, Copy)]
pub struct TickResult {
    pub old_pid: u64,
    pub new_pid: u64,
    pub new_priority: SchedPriority,
    pub switched: bool,
    pub tick_number: u64,
}

/// Counters and queue lengths of the scheduler.
#[derive(Debug, Clone, Copy)]
pub struct SchedulerMetrics {
    pub total_ticks: u64,
    pub context_switches: u64,
    pub current_pid: u64,
    pub queue_lengths: [usize; 5],
    pub aging_boosts: u64,
}

/// Scheduling steps after which a waiting process is boosted.
pub const AGING_TICKS: u64 = 100;

/// The scheduler: one FIFO queue per priority of process identifiers, each
/// with the scheduling step at which it was queued, the running process (0:
/// none), and its counters.
pub struct Scheduler {
    pub idle: VecDeque<(u64, u64)>,
    pub low: VecDeque<(u64, u64)>,
    pub normal: VecDeque<(u64, u64)>,
    pub high: VecDeque<(u64, u64)>,
    pub critical: VecDeque<(u64, u64)>,
    pub current_pid: u64,
    /// Scheduling steps taken.
    pub total_ticks: u64,
    pub context_switches: u64,
    /// Timer ticks are acted on once `init` has run.
    pub active: bool,
    /// Timer ticks seen.
    pub tick_counter: u64,
    /// Steps in which a waiting process was boosted.
    pub aging_boosts: u64,
}

/// The identifiers of a queue.
pub open spec fn pids_of(q: Seq<(u64, u64)>) -> Seq<u64> {
    q.map_values(|e: (u64, u64)| e.0)
}

/// The identifiers of each queue.
pub open spec fn pids_all(es: Seq<Seq<(u64, u64)>>) -> Seq<Seq<u64>> {
    seq![pids_of(es[0]), pids_of(es[1]), pids_of(es[2]), pids_of(es[3]), pids_of(es[4])]
}

impl Scheduler {
    /// The queues with the step each entry was queued at, from Idle (0) to
    /// Critical (4).
    pub open spec fn entries(&self) -> Seq<Seq<(u64, u64)>> {
        seq![self.idle@, self.low@, self.normal@, self.high@, self.critical@]
    }

    /// The queues, from Idle (0) to Critical (4).
    pub open spec fn queues(&self) -> Seq<Seq<u64>> {
        pids_all(self.entries())
    }

    /// An inactive scheduler with empty queues and no running process.
    pub fn new() -> (s: Self)
        ensures
            s.entries() == seq![
                Seq::<(u64, u64)>::empty(),
                Seq::<(u64, u64)>::empty(),
                Seq::<(u64, u64)>::empty(),
                Seq::<(u64, u64)>::empty(),
                Seq::<(u64, u64)>::empty(),
            ],
            s.queues() == seq![Seq::<u64>::empty(), Seq::<u64>::empty(), Seq::<u64>::empty(), Seq::<u64>::empty(), Seq::<u64>::empty()],
            s.current_pid == 0 && s.total_ticks == 0 && s.context_switches == 0,
            !s.active && s.tick_counter == 0 && s.aging_boosts == 0,
            sched_wf(&s),
    {
        let s = Scheduler {
            idle: VecDeque::new(),
            low: VecDeque::new(),
            normal: VecDeque::new(),
            high: VecDeque::new(),
            critical: VecDeque::new(),
            current_pid: 0,
            total_ticks: 0,
            context_switches: 0,
            active: false,
            tick_counter: 0,
            aging_boosts: 0,
        };
        assert(pids_of(Seq::<(u64, u64)>::empty()) =~= Seq::<u64>::empty());
        assert(s.queues() =~= seq![Seq::<u64>::empty(), Seq::<u64>::empty(), Seq::<u64>::empty(), Seq::<u64>::empty(), Seq::<u64>::empty()]);
        s
    }

    /// Appends `pid` to the queue of `priority`, stamped with the current
    /// step.
    pub fn enqueue(&mut self, pid: u64, priority: SchedPriority)
        ensures
            final(self).entries() == old(self).entries().update(
                level(priority),
                old(self).entries()[level(priority)].push((pid, old(self).total_ticks)),
            ),
            final(self).queues() == old(self).queues().update(level(priority), old(self).queues()[level(priority)].push(pid)),
            same_counters(old(self), final(self)),
            sched_wf(old(self)) ==> sched_wf(final(self)),
    {
        let e = (pid, self.total_ticks);
        match priority {
            SchedPriority::Idle => self.idle.push_back(e),
            SchedPriority::Low => self.low.push_back(e),
            SchedPriority::Normal => self.normal.push_back(e),
            SchedPriority::High => self.high.push_back(e),
            SchedPriority::Critical => self.critical.push_back(e),
        }
        let ghost l = level(priority);
        assert(self.entries() =~= old(self).entries().update(l, old(self).entries()[l].push(e)));
        assert(pids_of(old(self).entries()[l].push(e)) =~= pids_of(old(self).entries()[l]).push(pid));
        assert(self.queues() =~= old(self).queues().update(l, old(self).queues()[l].push(pid)));
        proof {
            if sched_wf(old(self)) {
                let es = self.entries();
                let e0 = old(self).entries();
                assert forall|k: int, a: int, b: int|
                    0 <= k < 5 && 0 <= a <= b < es[k].len() implies #[trigger] es[k][a].1 <= #[trigger] es[k][b].1 && es[k][b].1
                        <= self.total_ticks by {
                    if k == l && b == e0[k].len() {
                        if a < b {
                            assert(es[k][a] == e0[k][a]);
                            assert(e0[k][a].1 <= e0[k][a].1 && e0[k][a].1 <= old(self).total_ticks);
                        }
                    } else if k == l {
                        assert(es[k][a] == e0[k][a] && es[k][b] == e0[k][b]);
                    } else {
                        assert(es[k] == e0[k]);
                    }
                }
            }
        }
    }

    /// The first entry of queue `i`, if any.
    fn front_of(&self, i: usize) -> (r: Option<(u64, u64)>)
        requires
            i < 5,
        ensures
            self.entries()[i as int].len() == 0 ==> r is None,
            self.entries()[i as int].len() > 0 ==> r == Some(self.entries()[i as int][0]),
    {
        let q = if i == 0 {
            &self.idle
        } else if i == 1 {
            &self.low
        } else if i == 2 {
            &self.normal
        } else if i == 3 {
            &self.high
        } else {
            &self.critical
        };
        if q.len() == 0 {
            None
        } else {
            Some(q[0])
        }
    }

    /// Removes and returns the first entry of the non-empty queue `i`.
    fn take_front(&mut self, i: usize) -> (r: (u64, u64))
        requires
            i < 5,
            old(self).entries()[i as int].len() > 0,
        ensures
            r == old(self).entries()[i as int][0],
            final(self).entries() == old(self).entries().update(i as int, old(self).entries()[i as int].drop_first()),
            same_counters(old(self), final(self)),
            final(self).aging_boosts == old(self).aging_boosts,
    {
        let ghost es = self.entries();
        let r = if i == 0 {
            self.idle.pop_front()
        } else if i == 1 {
            self.low.pop_front()
        } else if i == 2 {
            self.normal.pop_front()
        } else if i == 3 {
            self.high.pop_front()
        } else {
            self.critical.pop_front()
        };
        assert(self.entries() =~= es.update(i as int, es[i as int].drop_first()));
        r.unwrap()
    }

    /// Takes the first identifier of the highest non-empty queue, with that
    /// queue's priority; `None` when every queue is empty.
    pub fn dequeue_next(&mut self) -> (r: Option<(u64, SchedPriority)>)
        ensures
            ({
                let es = old(self).entries();
                let i = highest_ready(pids_all(es));
                &&& i < 0 ==> r is None && final(self).entries() == es
                &&& i >= 0 ==> r == Some((es[i][0].0, priority_at(i))) && final(self).entries() == es.update(i, es[i].drop_first())
            }),
            same_counters(old(self), final(self)),
            final(self).aging_boosts == old(self).aging_boosts,
    {
        let ghost es = self.entries();
        let mut i: usize = 5;
        while i > 0
            invariant
                i <= 5,
                es == old(self).entries(),
                self.entries() == es,
                same_counters(old(self), self),
                self.aging_boosts == old(self).aging_boosts,
                forall|j: int| i <= j < 5 ==> #[trigger] es[j].len() == 0,
            decreases i,
        {
            i = i - 1;
            if self.front_of(i).is_some() {
                proof {
                    assert(highest_ready(pids_all(es)) == i);
                }
                let e = self.take_front(i);
                return Some((e.0, priority_for(i)));
            }
        }
        proof {
            assert(highest_ready(pids_all(es)) == -1);
        }
        None
    }
}

/// The priority of queue `i` (`priority_at`).
fn priority_for(i: usize) -> (p: SchedPriority)
    requires
        i < 5,
    ensures
        p == priority_at(i as int),
{
    if i == 4 {
        SchedPriority::Critical
    } else if i == 3 {
        SchedPriority::High
    } else if i == 2 {
        SchedPriority::Normal
    } else if i == 1 {
        SchedPriority::Low
    } else {
        SchedPriority::Idle
    }
}

/// The counters and running process are unchanged.
pub open spec fn same_counters(a: &Scheduler, b: &Scheduler) -> bool {
    &&& a.current_pid == b.current_pid
    &&& a.total_ticks == b.total_ticks
    &&& a.context_switches == b.context_switches
    &&& a.active == b.active
    &&& a.tick_counter == b.tick_counter
    &&& a.aging_boosts == b.aging_boosts
}

/// The highest queue holding an identifier, or -1 when all are empty.
pub open spec fn highest_ready(qs: Seq<Seq<u64>>) -> int {
    if qs[4].len() > 0 {
        4
    } else if qs[3].len() > 0 {
        3
    } else if qs[2].len() > 0 {
        2
    } else if qs[1].len() > 0 {
        1
    } else if qs[0].len() > 0 {
        0
    } else {
        -1
    }
}

/// Among the queues up to `i`, the non-empty one whose first entry was
/// queued earliest (the higher queue on a tie), or -1.
pub open spec fn oldest_upto(es: Seq<Seq<(u64, u64)>>, i: int) -> int
    decreases i + 1,
{
    if i < 0 {
        -1
    } else {
        let o = oldest_upto(es, i - 1);
        if es[i].len() == 0 {
            o
        } else if o < 0 || es[i][0].1 <= es[o][0].1 {
            i
        } else {
            o
        }
    }
}

/// The queue whose first entry has waited longest, or -1 when all are empty.
pub open spec fn oldest(es: Seq<Seq<(u64, u64)>>) -> int {
    oldest_upto(es, 4)
}

/// The queue served at step `now`: the one whose first entry has waited
/// longest when that entry has waited `AGING_TICKS` steps (a boost), else
/// the highest non-empty one; -1 when all are empty.
pub open spec fn chosen(es: Seq<Seq<(u64, u64)>>, now: u64) -> int {
    let o = oldest(es);
    if o >= 0 && es[o][0].1 + AGING_TICKS <= now {
        o
    } else {
        highest_ready(pids_all(es))
    }
}

/// The queues after the running process `old_pid` went back to the end of
/// its role's queue, stamped `now` (when it is a process of `table`).
pub open spec fn requeued(es: Seq<Seq<(u64, u64)>>, table: &ProcessTable, old_pid: u64, now: u64) -> Seq<Seq<(u64, u64)>> {
    if old_pid != 0 && table.procs@.contains_key(old_pid) {
        let l = level(role_level(table.procs@[old_pid].role));
        es.update(l, es[l].push((old_pid, now)))
    } else {
        es
    }
}

/// `n` results from one scheduling step in `o`: the step is counted, the
/// running process is requeued, then the process at the front of the
/// `chosen` queue runs (none when all are empty); a boost is counted when
/// the chosen queue is not the highest non-empty one.
pub open spec fn stepped_state(o: &Scheduler, n: &Scheduler, table: &ProcessTable) -> bool {
    let now = wrapping_inc(o.total_ticks);
    let es = requeued(o.entries(), table, o.current_pid, now);
    let i = chosen(es, now);
    &&& n.total_ticks == now
    &&& n.active == o.active && n.tick_counter == o.tick_counter
    &&& n.aging_boosts == (if i >= 0 && i != highest_ready(pids_all(es)) { wrapping_inc(o.aging_boosts) } else { o.aging_boosts })
    &&& i >= 0 ==> {
        let next = es[i][0].0;
        &&& n.entries() == es.update(i, es[i].drop_first())
        &&& n.current_pid == next
        &&& n.context_switches == (if next != o.current_pid { wrapping_inc(o.context_switches) } else { o.context_switches })
    }
    &&& i < 0 ==> n.entries() == es && n.current_pid == 0 && n.context_switches == o.context_switches
}

/// `r` reports the scheduling step taken in `o`.
pub open spec fn step_report(o: &Scheduler, table: &ProcessTable, r: TickResult) -> bool {
    let now = wrapping_inc(o.total_ticks);
    let es = requeued(o.entries(), table, o.current_pid, now);
    let i = chosen(es, now);
    &&& r.old_pid == o.current_pid && r.tick_number == now
    &&& i >= 0 ==> r.new_pid == es[i][0].0 && r.new_priority == priority_at(i) && r.switched == (es[i][0].0 != o.current_pid)
    &&& i < 0 ==> r.new_pid == 0 && r.new_priority == SchedPriority::Idle && r.switched == (o.current_pid != 0)
}

/// `s` with its timer-tick count replaced by `c`.
pub open spec fn with_tick_counter(s: Scheduler, c: u64) -> Scheduler {
    Scheduler { tick_counter: c, ..s }
}

impl Scheduler {
    /// The queue to serve at step `now` (`chosen`).
    fn pick_queue(&self, now: u64) -> (r: Option<usize>)
        ensures
            chosen(self.entries(), now) < 0 ==> r is None,
            chosen(self.entries(), now) >= 0 ==> r == Some(chosen(self.entries(), now) as usize),
            r matches Some(k) ==> k < 5 && self.entries()[k as int].len() > 0,
            -1 <= chosen(self.entries(), now) < 5,
    {
        let ghost es = self.entries();
        let mut o: Option<usize> = None;
        let mut o_stamp: u64 = 0;
        let mut i: usize = 0;
        while i < 5
            invariant
                i <= 5,
                self.entries() == es,
                oldest_upto(es, i - 1) < 0 ==> o is None,
                oldest_upto(es, i - 1) >= 0 ==> o == Some(oldest_upto(es, i - 1) as usize) && o_stamp == es[oldest_upto(es, i - 1)][0].1,
                -1 <= oldest_upto(es, i - 1) < i,
                oldest_upto(es, i - 1) >= 0 ==> es[oldest_upto(es, i - 1)].len() > 0,
            decreases 5 - i,
        {
            match self.front_of(i) {
                Some(e) => {
                    if o.is_none() || e.1 <= o_stamp {
                        o = Some(i);
                        o_stamp = e.1;
                    }
                },
                None => {},
            }
            i += 1;
        }
        match o {
            Some(k) => {
                if o_stamp <= u64::MAX - AGING_TICKS && o_stamp + AGING_TICKS <= now {
                    return Some(k);
                }
            },
            None => {},
        }
        let ghost aged = oldest(es) >= 0 && es[oldest(es)][0].1 + AGING_TICKS <= now;
        assert(!aged);
        match self.choose_highest() {
            Some(j) => {
                proof {
                    assert(pids_all(es)[j as int].len() == es[j as int].len());
                }
                Some(j)
            },
            None => None,
        }
    }

    /// One scheduling step: counts it, requeues the running process (if it
    /// is in `table`) and runs the process at the front of the chosen
    /// queue (`chosen`: a process that waited `AGING_TICKS` steps is
    /// boosted, else the highest priority runs).
    pub fn tick(&mut self, table: &ProcessTable) -> (r: TickResult)
        ensures
            stepped_state(old(self), final(self), table),
            step_report(old(self), table, r),
    {
        self.total_ticks = inc(self.total_ticks);
        let now = self.total_ticks;
        let old_pid = self.current_pid;
        if old_pid != 0 {
            if let Some((role, _prio)) = get_role_priority(table, old_pid) {
                self.enqueue(old_pid, role_to_priority(role));
            }
        }
        let ghost es = self.entries();
        assert(es == requeued(old(self).entries(), table, old_pid, now));
        match self.pick_queue(now) {
            Some(i) => {
                let top = self.choose_highest();
                if top != Some(i) {
                    self.aging_boosts = inc(self.aging_boosts);
                }
                let e = self.take_front(i);
                let next_pid = e.0;
                let switched = next_pid != old_pid;
                if switched {
                    self.context_switches = inc(self.context_switches);
                }
                self.current_pid = next_pid;
                TickResult { old_pid, new_pid: next_pid, new_priority: priority_for(i), switched, tick_number: now }
            },
            None => {
                self.current_pid = 0;
                TickResult { old_pid, new_pid: 0, new_priority: SchedPriority::Idle, switched: old_pid != 0, tick_number: now }
            },
        }
    }

    /// The highest non-empty queue (`highest_ready`), if any.
    fn choose_highest(&self) -> (r: Option<usize>)
        ensures
            highest_ready(pids_all(self.entries())) < 0 ==> r is None,
            highest_ready(pids_all(self.entries())) >= 0 ==> r == Some(highest_ready(pids_all(self.entries())) as usize),
            r matches Some(k) ==> k < 5 && self.entries()[k as int].len() > 0,
    {
        let ghost es = self.entries();
        let mut j: usize = 5;
        while j > 0
            invariant
                j <= 5,
                self.entries() == es,
                forall|k: int| j <= k < 5 ==> #[trigger] es[k].len() == 0,
            decreases j,
        {
            j = j - 1;
            if self.front_of(j).is_some() {
                proof {
                    assert(highest_ready(pids_all(es)) == j);
                }
                return Some(j);
            }
        }
        proof {
            assert(highest_ready(pids_all(es)) == -1);
        }
        None
    }
}

} // verus!

verus! {

/// Timer ticks seen.
pub fn total_ticks(sched: &Scheduler) -> (n: u64)
    ensures
        n == sched.tick_counter,
{
    sched.tick_counter
}

/// The queues after appending each live process of `ps`, in order, to its
/// role's queue.
pub open spec fn enqueued_all(qs: Seq<Seq<u64>>, ps: Seq<Process>) -> Seq<Seq<u64>>
    decreases ps.len(),
{
    if ps.len() == 0 {
        qs
    } else {
        let p = ps.last();
        let before = enqueued_all(qs, ps.drop_last());
        let l = level(role_level(p.role));
        before.update(l, before[l].push(p.pid))
    }
}

/// Queues every live process of `table` (in identifier order) and starts
/// acting on timer ticks.
pub fn init(sched: &mut Scheduler, table: &ProcessTable)
    requires
        crate::process::table_wf(table),
    ensures
        final(sched).queues() == enqueued_all(old(sched).queues(), live_processes(table)),
        final(sched).active,
        final(sched).current_pid == old(sched).current_pid,
        final(sched).total_ticks == old(sched).total_ticks,
        final(sched).context_switches == old(sched).context_switches,
        final(sched).tick_counter == old(sched).tick_counter,
        final(sched).aging_boosts == old(sched).aging_boosts,
        sched_wf(old(sched)) ==> sched_wf(final(sched)),
{
    let pids = list_active_pids(table);
    let ghost ps = live_processes(table);
    let ghost q0 = sched.queues();
    let count = table.procs.len();
    proof {
        let vs = table.procs.value_seq();
        let ks = table.procs.key_seq();
        let pred = |p: Process| crate::process::is_live(p);
        vs.filter_lemma(pred);
        assert forall|j: int| 0 <= j < ps.len() implies table.procs@.contains_key(#[trigger] ps[j].pid) && table.procs@[ps[j].pid] == ps[j] by {
            assert(vs.filter(pred).contains(ps[j]));
            vs.lemma_filter_contains_rev(pred, ps[j]);
            let idx = choose|idx: int| 0 <= idx < vs.len() && vs[idx] == ps[j];
            let k = ks[idx];
            assert(ks.contains(k));
            assert(table.procs@[ks[idx]] == vs[idx]);
        }
    }
    let mut i: usize = 0;
    while i < pids.len()
        invariant
            i <= pids@.len(),
            pids@ == ps.map_values(|p: Process| p.pid),
            ps == live_processes(table),
            crate::process::table_wf(table),
            forall|j: int| 0 <= j < ps.len() ==> table.procs@.contains_key(#[trigger] ps[j].pid) && table.procs@[ps[j].pid] == ps[j],
            sched.queues() == enqueued_all(q0, ps.take(i as int)),
            same_counters(old(sched), sched),
            sched_wf(old(sched)) ==> sched_wf(sched),
        decreases pids@.len() - i,
    {
        let pid = pids[i];
        proof {
            assert(ps.take(i + 1).drop_last() =~= ps.take(i as int));
        }
        if let Some((role, _)) = get_role_priority(table, pid) {
            sched.enqueue(pid, role_to_priority(role));
        }
        i += 1;
    }
    proof {
        assert(ps.take(ps.len() as int) =~= ps);
    }
    sched.active = true;
}

/// Queues process `pid` in its role's queue (nothing for an unknown process).
pub fn enqueue_process(sched: &mut Scheduler, table: &ProcessTable, pid: u64)
    ensures
        table.procs@.contains_key(pid) ==> final(sched).queues() == old(sched).queues().update(
            level(role_level(table.procs@[pid].role)),
            old(sched).queues()[level(role_level(table.procs@[pid].role))].push(pid),
        ),
        !table.procs@.contains_key(pid) ==> final(sched).queues() == old(sched).queues(),
        same_counters(old(sched), final(sched)),
{
    if let Some((role, _)) = get_role_priority(table, pid) {
        sched.enqueue(pid, role_to_priority(role));
    }
}

/// Handles a timer tick: once active, counts it and takes a scheduling
/// step on every tenth tick (the first included).
pub fn tick(sched: &mut Scheduler, table: &ProcessTable)
    ensures
        !old(sched).active ==> *final(sched) == *old(sched),
        old(sched).active && old(sched).tick_counter % 10 != 0 ==> final(sched).tick_counter == wrapping_inc(old(sched).tick_counter)
            && final(sched).queues() == old(sched).queues() && final(sched).current_pid == old(sched).current_pid
            && final(sched).total_ticks == old(sched).total_ticks && final(sched).context_switches == old(sched).context_switches
            && final(sched).active,
        old(sched).active && old(sched).tick_counter % 10 == 0 ==> stepped_state(
            &with_tick_counter(*old(sched), wrapping_inc(old(sched).tick_counter)), final(sched), table),
{
    if !sched.active {
        return;
    }
    let n = sched.tick_counter;
    sched.tick_counter = inc(n);
    if n % 10 != 0 {
        return;
    }
    let _result = sched.tick(table);
}

/// Counts a tick and takes one scheduling step, returning what it did.
pub fn test_tick(sched: &mut Scheduler, table: &ProcessTable) -> (r: TickResult)
    ensures
        stepped_state(&with_tick_counter(*old(sched), wrapping_inc(old(sched).tick_counter)), final(sched), table),
        step_report(old(sched), table, r),
{
    sched.tick_counter = inc(sched.tick_counter);
    sched.tick(table)
}

/// Counters, running process and queue lengths.
pub fn metrics(sched: &Scheduler) -> (m: SchedulerMetrics)
    ensures
        m.total_ticks == sched.total_ticks,
        m.context_switches == sched.context_switches,
        m.current_pid == sched.current_pid,
        m.aging_boosts == sched.aging_boosts,
        forall|i: int| 0 <= i < 5 ==> m.queue_lengths@[i] == sched.queues()[i].len(),
{
    let lengths: [usize; 5] = [sched.idle.len(), sched.low.len(), sched.normal.len(), sched.high.len(), sched.critical.len()];
    SchedulerMetrics {
        total_ticks: sched.total_ticks,
        context_switches: sched.context_switches,
        current_pid: sched.current_pid,
        queue_lengths: lengths,
        aging_boosts: sched.aging_boosts,
    }
}

/// Scheduling steps in which a waiting process was boosted.
pub fn aging_boosts(sched: &Scheduler) -> (n: u64)
    ensures
        n == sched.aging_boosts,
{
    sched.aging_boosts
}

/// The running process (0: none).
pub fn current_pid(sched: &Scheduler) -> (pid: u64)
    ensures
        pid == sched.current_pid,
{
    sched.current_pid
}

} // verus!
