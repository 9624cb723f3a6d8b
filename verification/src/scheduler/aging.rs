//! No starvation: with aging, a queued process runs within a bounded
//! number of scheduling steps.

use vstd::prelude::*;
use crate::arith::wrapping_inc;
use crate::process::ProcessTable;
use crate::scheduler::{
    AGING_TICKS, Scheduler, chosen, highest_ready, oldest, oldest_upto, pids_all, requeued, stepped_state,
};

verus! {

/// Every queue is in the order its entries were queued, and no entry was
/// queued after the current step.
pub open spec fn sched_wf(s: &Scheduler) -> bool {
    forall|k: int, a: int, b: int|
        0 <= k < 5 && 0 <= a <= b < s.entries()[k].len() ==> #[trigger] s.entries()[k][a].1 <= #[trigger] s.entries()[k][b].1
            && s.entries()[k][b].1 <= s.total_ticks
}

/// How many entries of `q` were queued at step `t` or before.
pub open spec fn count_le(q: Seq<(u64, u64)>, t: u64) -> nat
    decreases q.len(),
{
    if q.len() == 0 {
        0
    } else {
        count_le(q.drop_last(), t) + (if q.last().1 <= t { 1nat } else { 0nat })
    }
}

/// How many queued entries were queued at step `t` or before.
pub open spec fn older_count(es: Seq<Seq<(u64, u64)>>, t: u64) -> nat {
    count_le(es[0], t) + count_le(es[1], t) + count_le(es[2], t) + count_le(es[3], t) + count_le(es[4], t)
}

proof fn lemma_count_push(q: Seq<(u64, u64)>, e: (u64, u64), t: u64)
    ensures
        count_le(q.push(e), t) == count_le(q, t) + (if e.1 <= t { 1nat } else { 0nat }),
{
    assert(q.push(e).drop_last() =~= q);
}

proof fn lemma_count_drop_first(q: Seq<(u64, u64)>, t: u64)
    requires
        q.len() > 0,
    ensures
        count_le(q, t) == count_le(q.drop_first(), t) + (if q[0].1 <= t { 1nat } else { 0nat }),
    decreases q.len(),
{
    if q.len() > 1 {
        lemma_count_drop_first(q.drop_last(), t);
        assert(q.drop_last().drop_first() =~= q.drop_first().drop_last());
    } else {
        assert(q.drop_first() =~= Seq::<(u64, u64)>::empty());
        assert(q.drop_last() =~= Seq::<(u64, u64)>::empty());
    }
}

proof fn lemma_count_pos(q: Seq<(u64, u64)>, j: int, t: u64)
    requires
        0 <= j < q.len(),
        q[j].1 <= t,
    ensures
        count_le(q, t) >= 1,
    decreases q.len(),
{
    if j < q.len() - 1 {
        lemma_count_pos(q.drop_last(), j, t);
    }
}

/// The queue `oldest_upto(es, i)` is non-empty, and its first entry was
/// queued no later than that of any non-empty queue up to `i`.
proof fn lemma_oldest_upto(es: Seq<Seq<(u64, u64)>>, i: int)
    requires
        -1 <= i < 5,
    ensures
        -1 <= oldest_upto(es, i) <= i,
        oldest_upto(es, i) >= 0 ==> es[oldest_upto(es, i)].len() > 0,
        forall|k: int| 0 <= k <= i && es[k].len() > 0 ==> oldest_upto(es, i) >= 0 && #[trigger] es[oldest_upto(es, i)][0].1
            <= es[k][0].1,
    decreases i + 1,
{
    if i >= 0 {
        lemma_oldest_upto(es, i - 1);
    }
}

/// Priority order: while no queued process has waited `AGING_TICKS` steps,
/// a step serves the highest non-empty queue, never one below a queue that
/// holds a process.
pub proof fn lemma_priority_order(es: Seq<Seq<(u64, u64)>>, now: u64, j: int)
    requires
        es.len() == 5,
        0 <= j < 5,
        es[j].len() > 0,
        forall|k: int| 0 <= k < 5 && #[trigger] es[k].len() > 0 ==> now < es[k][0].1 + AGING_TICKS,
    ensures
        chosen(es, now) == highest_ready(pids_all(es)),
        j <= chosen(es, now) < 5,
        es[chosen(es, now)].len() > 0,
{
    lemma_oldest_upto(es, 4);
    assert forall|k: int| 0 <= k < 5 implies #[trigger] pids_all(es)[k].len() == es[k].len() by {}
}

/// Each of the five queues is in queueing order, with no entry queued
/// after step `t`.
pub open spec fn ordered(es: Seq<Seq<(u64, u64)>>, t: u64) -> bool {
    forall|k: int, a: int, b: int|
        0 <= k < 5 && 0 <= a <= b < es[k].len() ==> #[trigger] es[k][a].1 <= #[trigger] es[k][b].1 && es[k][b].1 <= t
}

/// Requeueing the running process at step `now` keeps the order and the
/// entries queued before `now`.
proof fn lemma_requeue(o: &Scheduler, table: &ProcessTable, now: u64, s: u64)
    requires
        sched_wf(o),
        o.total_ticks < now,
        s < now,
    ensures
        ({
            let es = requeued(o.entries(), table, o.current_pid, now);
            &&& ordered(es, now)
            &&& older_count(es, s) == older_count(o.entries(), s)
            &&& forall|k: int, a: int| 0 <= k < 5 && 0 <= a < o.entries()[k].len() ==> a < es[k].len() && #[trigger] es[k][a]
                == o.entries()[k][a]
        }),
{
    let e0 = o.entries();
    let es = requeued(e0, table, o.current_pid, now);
    assert forall|k: int| 0 <= k < 5 implies count_le(#[trigger] es[k], s) == count_le(e0[k], s) by {
        if o.current_pid != 0 && table.procs@.contains_key(o.current_pid) {
            let l = crate::scheduler::level(crate::scheduler::role_level(table.procs@[o.current_pid].role));
            if k == l {
                lemma_count_push(e0[l], (o.current_pid, now), s);
            }
        }
    }
    assert forall|k: int, a: int, b: int|
        0 <= k < 5 && 0 <= a <= b < es[k].len() implies #[trigger] es[k][a].1 <= #[trigger] es[k][b].1 && es[k][b].1 <= now by {
        if b >= e0[k].len() {
            assert(es[k][b].1 == now);
            if a < e0[k].len() {
                assert(es[k][a] == e0[k][a]);
                assert(e0[k][a].1 <= e0[k][a].1 && e0[k][a].1 <= o.total_ticks);
            }
        } else {
            assert(es[k][a] == e0[k][a] && es[k][b] == e0[k][b]);
        }
    }
}

/// With an entry queued at step `s` waiting, the step serves some queue;
/// when that entry has waited `AGING_TICKS` steps, the entry served was
/// queued no later than `s`.
proof fn lemma_pick(es: Seq<Seq<(u64, u64)>>, now: u64, s: u64, q: int, j: int)
    requires
        es.len() == 5,
        ordered(es, now),
        0 <= q < 5,
        0 <= j < es[q].len(),
        es[q][j].1 == s,
    ensures
        0 <= chosen(es, now) < 5,
        es[chosen(es, now)].len() > 0,
        now >= s + AGING_TICKS ==> es[chosen(es, now)][0].1 <= s,
{
    lemma_oldest_upto(es, 4);
    assert(es[q][0].1 <= es[q][j].1);
    assert(pids_all(es)[q].len() == es[q].len());
    let hr = highest_ready(pids_all(es));
    if hr >= 0 {
        assert(pids_all(es)[hr].len() == es[hr].len());
    }
}

/// Serving queue `i` keeps the order, and takes one entry queued by `s`
/// away exactly when its first entry was queued by `s`.
proof fn lemma_serve(es: Seq<Seq<(u64, u64)>>, i: int, now: u64, s: u64)
    requires
        es.len() == 5,
        ordered(es, now),
        0 <= i < 5,
        es[i].len() > 0,
    ensures
        ({
            let ne = es.update(i, es[i].drop_first());
            &&& ordered(ne, now)
            &&& older_count(ne, s) + (if es[i][0].1 <= s { 1nat } else { 0nat }) == older_count(es, s)
        }),
{
    let ne = es.update(i, es[i].drop_first());
    lemma_count_drop_first(es[i], s);
    assert forall|k: int, a: int, b: int|
        0 <= k < 5 && 0 <= a <= b < ne[k].len() implies #[trigger] ne[k][a].1 <= #[trigger] ne[k][b].1 && ne[k][b].1 <= now by {
        if k == i {
            assert(ne[k][a] == es[k][a + 1] && ne[k][b] == es[k][b + 1]);
        } else {
            assert(ne[k] == es[k]);
        }
    }
}

/// One scheduling step, for a process `p` queued at step `s` (at position
/// `j` of queue `q`): either `p` runs, or it stays queued and no more
/// entries queued by step `s` remain; fewer, when `p` has waited
/// `AGING_TICKS` steps.
proof fn lemma_step(o: &Scheduler, n: &Scheduler, table: &ProcessTable, p: u64, s: u64, q: int, j: int) -> (pos: (int, int))
    requires
        sched_wf(o),
        o.total_ticks < u64::MAX,
        s <= o.total_ticks,
        0 <= q < 5,
        0 <= j < o.entries()[q].len(),
        o.entries()[q][j] == (p, s),
        stepped_state(o, n, table),
    ensures
        sched_wf(n),
        n.total_ticks == o.total_ticks + 1,
        n.current_pid != p ==> ({
            let (q2, j2) = pos;
            &&& 0 <= q2 < 5 && 0 <= j2 < n.entries()[q2].len() && n.entries()[q2][j2] == (p, s)
            &&& older_count(n.entries(), s) <= older_count(o.entries(), s)
            &&& o.total_ticks + 1 >= s + AGING_TICKS ==> older_count(n.entries(), s) < older_count(o.entries(), s)
        }),
{
    let now = wrapping_inc(o.total_ticks);
    let es = requeued(o.entries(), table, o.current_pid, now);
    lemma_requeue(o, table, now, s);
    assert(es[q][j] == (p, s));
    lemma_pick(es, now, s, q, j);
    let i = chosen(es, now);
    lemma_serve(es, i, now, s);
    let ne = es.update(i, es[i].drop_first());
    assert(n.entries() == ne);
    assert(sched_wf(n)) by {
        assert(ordered(ne, now));
    }
    if n.current_pid != p {
        if i == q {
            assert(j != 0);
            assert(ne[q][j - 1] == es[q][j]);
            (q, j - 1)
        } else {
            assert(ne[q] == es[q]);
            (q, j)
        }
    } else {
        (q, j)
    }
}

/// No starvation: in a run of scheduling steps over a fixed process table,
/// a process queued at step `s` runs within `AGING_TICKS` plus the number
/// of entries queued by step `s` steps (the steps not wrapping the step
/// counter).
pub proof fn lemma_no_starvation(runs: Seq<Scheduler>, table: &ProcessTable, q: int, j: int)
    requires
        sched_wf(&runs[0]),
        0 <= q < 5,
        0 <= j < runs[0].entries()[q].len(),
        runs.len() == AGING_TICKS + older_count(runs[0].entries(), runs[0].entries()[q][j].1),
        runs[0].total_ticks + runs.len() < u64::MAX,
        forall|i: int| 0 <= i < runs.len() - 1 ==> #[trigger] stepped_state(&runs[i], &runs[i + 1], table),
    ensures
        exists|i: int| 0 < i < runs.len() && #[trigger] runs[i].current_pid == runs[0].entries()[q][j].0,
{
    let (p, s) = runs[0].entries()[q][j];
    lemma_run_from(runs, table, p, s, older_count(runs[0].entries(), s), 0, q, j);
}

/// From step `k` on, with `p` still queued: it runs by the end of `runs`.
proof fn lemma_run_from(runs: Seq<Scheduler>, table: &ProcessTable, p: u64, s: u64, c0: nat, k: int, qk: int, jk: int)
    requires
        0 <= k < runs.len(),
        runs.len() == AGING_TICKS + c0,
        runs[0].total_ticks + runs.len() < u64::MAX,
        forall|i: int| 0 <= i < runs.len() - 1 ==> #[trigger] stepped_state(&runs[i], &runs[i + 1], table),
        s <= runs[0].total_ticks,
        sched_wf(&runs[k]),
        runs[k].total_ticks == runs[0].total_ticks + k,
        0 <= qk < 5 && 0 <= jk < runs[k].entries()[qk].len() && runs[k].entries()[qk][jk] == (p, s),
        older_count(runs[k].entries(), s) + (if k > AGING_TICKS - 1 { k - (AGING_TICKS - 1) } else { 0 }) <= c0,
    ensures
        exists|i: int| 0 < i < runs.len() && #[trigger] runs[i].current_pid == p,
    decreases runs.len() - k,
{
    lemma_count_pos(runs[k].entries()[qk], jk, s);
    if k == runs.len() - 1 {
        assert(older_count(runs[k].entries(), s) >= 1);
        assert(false);
    } else {
        assert(stepped_state(&runs[k], &runs[k + 1], table));
        let pos = lemma_step(&runs[k], &runs[k + 1], table, p, s, qk, jk);
        if runs[k + 1].current_pid == p {
            assert(runs[k + 1].current_pid == p);
        } else {
            lemma_run_from(runs, table, p, s, c0, k + 1, pos.0, pos.1);
        }
    }
}

} // verus!
