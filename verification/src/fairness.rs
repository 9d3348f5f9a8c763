//! Starvation freedom of the traffic-light controller: an approach whose
//! queue never empties turns green within a bounded number of ticks, as
//! long as the conflict zone becomes clear again within `k + 1` ticks of
//! all-red. Occupancy while an approach is green is unconstrained.
//!
//! The argument: green and clearing phases are bounded while some other
//! approach waits, so the controller switches at least once every
//! `MAX_GREEN_TICKS + MIN_CLEAR_TICKS + 1 + k` ticks. After `MAX_WAIT_TICKS`
//! ticks the waiting approach is overdue. From then on, every approach that
//! is served instead of it must have waited at least as long; once served,
//! that approach restarts from zero and can never again have waited as
//! long. With three other approaches, the fourth switch serves the waiting one.

use crate::lights::{
    candidate, eligible, next_green, overdue, sat_inc, Lights, Phase, MAX_GREEN_TICKS,
    MAX_WAIT_TICKS, MIN_CLEAR_TICKS,
};
use vstd::prelude::*;

verus! {

/// Ticks within which a continuously waiting approach turns green when the
/// conflict zone is clear at every all-red tick.
pub const STARVATION_BOUND: u32 = 3535;

/// Ticks within which a continuously waiting approach turns green when every
/// `k + 1` consecutive all-red ticks include one with a clear conflict zone.
pub open spec fn starvation_bound(k: int) -> int {
    STARVATION_BOUND + 5 * k
}

/// The lights are all-red at every tick from `i` to `i + k`.
pub open spec fn all_red_between(states: Seq<Lights>, i: int, k: int) -> bool {
    forall|j: int| i <= j <= i + k ==> (#[trigger] states[j]).phase == Phase::Clearing
}

/// The conflict zone is clear at some tick from `i` to `i + k`.
pub open spec fn clear_between(occupied: Seq<bool>, i: int, k: int) -> bool {
    exists|j: int| i <= j <= i + k && !#[trigger] occupied[j]
}

/// Whenever the lights stay all-red for `k + 1` consecutive ticks, the
/// conflict zone is clear at one of those ticks.
pub open spec fn clears_within(states: Seq<Lights>, occupied: Seq<bool>, k: int) -> bool {
    forall|i: int|
        0 <= i && i + k < occupied.len() && #[trigger] all_red_between(states, i, k)
            ==> clear_between(occupied, i, k)
}

/// `states` is a run of the controller: each state follows the previous one
/// under the queue lengths `queues[i]` and conflict-zone occupancy `occupied[i]`.
pub open spec fn is_run(states: Seq<Lights>, queues: Seq<Seq<usize>>, occupied: Seq<bool>) -> bool {
    &&& states.len() == queues.len() + 1
    &&& occupied.len() == queues.len()
    &&& forall|i: int|
        #![trigger queues[i]]
        0 <= i < queues.len() ==> queues[i].len() == 4 && Lights::step(
            states[i],
            states[i + 1],
            queues[i],
            occupied[i],
        )
}

/// The controller switches to a new green approach between states `j` and `j + 1`.
pub open spec fn switches_at(states: Seq<Lights>, j: int) -> bool {
    states[j].phase == Phase::Clearing && states[j + 1].phase == Phase::Green
}

/// Upper bound on the ticks left before the next switch while another approach waits.
spec fn ticks_to_switch(lights: Lights) -> int {
    match lights.phase {
        Phase::Green => {
            let timer = if lights.green_timer >= MAX_GREEN_TICKS {
                MAX_GREEN_TICKS as int
            } else {
                lights.green_timer as int
            };
            MAX_GREEN_TICKS - timer + MIN_CLEAR_TICKS + 1
        },
        Phase::Clearing => {
            let timer = if lights.clear_timer >= MIN_CLEAR_TICKS {
                MIN_CLEAR_TICKS as int
            } else {
                lights.clear_timer as int
            };
            MIN_CLEAR_TICKS - timer
        },
    }
}

/// All-red, with the minimum clearing time elapsed by the end of this tick:
/// the lights switch at this tick exactly when the conflict zone is clear.
spec fn ready(lights: Lights) -> bool {
    lights.phase == Phase::Clearing && lights.clear_timer >= MIN_CLEAR_TICKS - 1
}

/// A run in which approach `d` always has a queue, the conflict zone is
/// clear within every `k + 1` consecutive all-red ticks, and `d` is never green.
spec fn starving_run(
    states: Seq<Lights>,
    queues: Seq<Seq<usize>>,
    occupied: Seq<bool>,
    d: int,
    k: int,
) -> bool {
    &&& is_run(states, queues, occupied)
    &&& states[0].wf()
    &&& 0 <= d < 4
    &&& forall|i: int| #![trigger queues[i]] 0 <= i < queues.len() ==> queues[i][d] > 0
    &&& 0 <= k
    &&& clears_within(states, occupied, k)
    &&& forall|i: int| #![trigger states[i]] 0 <= i < states.len() ==> !states[i].green_for(d)
}

proof fn lemma_run_wf(states: Seq<Lights>, queues: Seq<Seq<usize>>, occupied: Seq<bool>, i: int)
    requires
        is_run(states, queues, occupied),
        states[0].wf(),
        0 <= i < states.len(),
    ensures
        states[i].wf(),
    decreases i,
{
    if i > 0 {
        lemma_run_wf(states, queues, occupied, i - 1);
        assert(queues[i - 1].len() == 4);
    }
}

/// What one tick of a starving run does to the waits, the green approach
/// and the ticks left before the next switch.
proof fn lemma_starving_step(
    states: Seq<Lights>,
    queues: Seq<Seq<usize>>,
    occupied: Seq<bool>,
    d: int,
    k: int,
    t: int,
)
    requires
        starving_run(states, queues, occupied, d, k),
        0 <= t < queues.len(),
    ensures
        states[t + 1].wait_ticks@[d] == sat_inc(states[t].wait_ticks@[d]),
        forall|x: int|
            0 <= x < 4 ==> #[trigger] states[t + 1].wait_ticks@[x] <= states[t].wait_ticks@[x] + 1,
        !switches_at(states, t) ==> states[t + 1].green_dir == states[t].green_dir,
        !switches_at(states, t) && !ready(states[t]) ==> ticks_to_switch(states[t + 1])
            < ticks_to_switch(states[t]),
        ready(states[t]) && !switches_at(states, t) ==> ready(states[t + 1]) && occupied[t],
        switches_at(states, t) ==> states[t + 1].wait_ticks@[states[t + 1].green_dir as int] == 0,
        states[t + 1].green_dir < 4,
{
    lemma_run_wf(states, queues, occupied, t);
    lemma_run_wf(states, queues, occupied, t + 1);
    let pre = states[t];
    let post = states[t + 1];
    let q = queues[t];
    assert(q.len() == 4 && Lights::step(pre, post, q, occupied[t]));
    assert(q[d] > 0);
    assert(!pre.green_for(d));
    assert(!post.green_for(d));
    let waited = pre.waited(q);
    assert(waited[d] == sat_inc(pre.wait_ticks[d]));
    assert forall|x: int| 0 <= x < 4 implies #[trigger] post.wait_ticks@[x] <= pre.wait_ticks@[x]
        + 1 by {
        assert(waited[x] <= pre.wait_ticks[x] + 1);
    }
    if pre.phase == Phase::Green {
        assert(pre.green_dir != d);
        assert(crate::lights::other_demand(q, pre.green_dir as int));
    }
}

/// From an all-red state that is ready to switch, the lights switch at the
/// first tick with a clear conflict zone, at most `k` ticks later.
proof fn lemma_ready_switch(
    states: Seq<Lights>,
    queues: Seq<Seq<usize>>,
    occupied: Seq<bool>,
    d: int,
    k: int,
    r: int,
    t: int,
) -> (j: int)
    requires
        starving_run(states, queues, occupied, d, k),
        0 <= r <= t <= r + k,
        r + k < queues.len(),
        forall|m: int| r <= m <= t ==> ready(#[trigger] states[m]),
        forall|m: int| r <= m < t ==> #[trigger] occupied[m],
    ensures
        t <= j <= r + k,
        switches_at(states, j),
    decreases r + k - t,
{
    lemma_starving_step(states, queues, occupied, d, k, t);
    if switches_at(states, t) {
        t
    } else if t == r + k {
        assert forall|m: int| r <= m <= r + k implies (#[trigger] states[m]).phase
            == Phase::Clearing by {
            assert(ready(states[m]));
        }
        assert(all_red_between(states, r, k));
        assert(clear_between(occupied, r, k));
        let m = choose|m: int| r <= m <= r + k && !#[trigger] occupied[m];
        assert(occupied[m]);
        t
    } else {
        lemma_ready_switch(states, queues, occupied, d, k, r, t + 1)
    }
}

/// From any state of a starving run with enough ticks left, the controller
/// switches within `ticks_to_switch + k` ticks.
proof fn lemma_switch_within(
    states: Seq<Lights>,
    queues: Seq<Seq<usize>>,
    occupied: Seq<bool>,
    d: int,
    k: int,
    i: int,
) -> (j: int)
    requires
        starving_run(states, queues, occupied, d, k),
        0 <= i,
        i + ticks_to_switch(states[i]) + k < queues.len(),
    ensures
        i <= j <= i + ticks_to_switch(states[i]) + k,
        switches_at(states, j),
    decreases ticks_to_switch(states[i]),
{
    if ready(states[i]) {
        lemma_ready_switch(states, queues, occupied, d, k, i, i)
    } else {
        lemma_starving_step(states, queues, occupied, d, k, i);
        if switches_at(states, i) {
            i
        } else {
            lemma_switch_within(states, queues, occupied, d, k, i + 1)
        }
    }
}

/// The waiting approach's wait grows by one every tick, up to saturation.
proof fn lemma_wait_grows(
    states: Seq<Lights>,
    queues: Seq<Seq<usize>>,
    occupied: Seq<bool>,
    d: int,
    k: int,
    s: int,
    t: int,
)
    requires
        starving_run(states, queues, occupied, d, k),
        0 <= s <= t < states.len(),
    ensures
        states[t].wait_ticks@[d] >= if states[s].wait_ticks@[d] + (t - s) > u32::MAX {
            u32::MAX as int
        } else {
            states[s].wait_ticks@[d] + (t - s)
        },
    decreases t - s,
{
    if s < t {
        lemma_wait_grows(states, queues, occupied, d, k, s, t - 1);
        lemma_starving_step(states, queues, occupied, d, k, t - 1);
    }
}

/// Any approach's wait grows by at most one per tick.
proof fn lemma_wait_bounded(
    states: Seq<Lights>,
    queues: Seq<Seq<usize>>,
    occupied: Seq<bool>,
    d: int,
    k: int,
    x: int,
    s: int,
    t: int,
)
    requires
        starving_run(states, queues, occupied, d, k),
        0 <= x < 4,
        0 <= s <= t < states.len(),
    ensures
        states[t].wait_ticks@[x] <= states[s].wait_ticks@[x] + (t - s),
    decreases t - s,
{
    if s < t {
        lemma_wait_bounded(states, queues, occupied, d, k, x, s, t - 1);
        lemma_starving_step(states, queues, occupied, d, k, t - 1);
    }
}

/// After a switch, the green approach stays different from the waiting one.
proof fn lemma_last_green_not_waiting(
    states: Seq<Lights>,
    queues: Seq<Seq<usize>>,
    occupied: Seq<bool>,
    d: int,
    k: int,
    j: int,
    t: int,
)
    requires
        starving_run(states, queues, occupied, d, k),
        0 <= j < t < states.len(),
        switches_at(states, j),
    ensures
        states[t].green_dir != d,
    decreases t - j,
{
    if t == j + 1 {
        assert(states[t].phase == Phase::Green);
        assert(!states[t].green_for(d));
    } else {
        lemma_last_green_not_waiting(states, queues, occupied, d, k, j, t - 1);
        lemma_starving_step(states, queues, occupied, d, k, t - 1);
        if switches_at(states, t - 1) {
            assert(!states[t].green_for(d));
        }
    }
}

/// At a switch after an earlier switch, once the waiting approach is overdue,
/// the approach chosen has waited at least as long as the waiting one.
proof fn lemma_chosen_waited_longer(
    states: Seq<Lights>,
    queues: Seq<Seq<usize>>,
    occupied: Seq<bool>,
    d: int,
    k: int,
    earlier: int,
    j: int,
)
    requires
        starving_run(states, queues, occupied, d, k),
        0 <= earlier < j < queues.len(),
        switches_at(states, earlier),
        switches_at(states, j),
        states[j].wait_ticks@[d] >= MAX_WAIT_TICKS,
    ensures
        ({
            let waited = states[j].waited(queues[j]);
            let chosen = states[j + 1].green_dir as int;
            &&& chosen != d
            &&& 0 <= chosen < 4
            &&& waited[chosen] >= waited[d]
            &&& waited[chosen] <= states[j].wait_ticks@[chosen] + 1
        }),
{
    lemma_run_wf(states, queues, occupied, j);
    lemma_run_wf(states, queues, occupied, j + 1);
    lemma_last_green_not_waiting(states, queues, occupied, d, k, earlier, j);
    let pre = states[j];
    let post = states[j + 1];
    let q = queues[j];
    assert(q.len() == 4 && Lights::step(pre, post, q, occupied[j]));
    assert(q[d] > 0);
    assert(!post.green_for(d));
    let last = pre.green_dir as int;
    let waited = pre.waited(q);
    assert(waited[d] == sat_inc(pre.wait_ticks[d]));
    assert(eligible(q, last, d));
    assert(overdue(q, waited, last, d));
    assert(candidate(q, waited, last, d));
    assert(next_green(q, waited, last, pre.round_robin_cursor as int, post.green_dir as int));
    let chosen = post.green_dir as int;
    assert(waited[chosen] <= pre.wait_ticks[chosen] + 1);
}

/// An approach that always has a queue turns green within
/// `starvation_bound(k)` ticks of any run of the controller (from a
/// well-formed state) in which every `k + 1` consecutive all-red ticks
/// include one with a clear conflict zone. Occupancy during green ticks is
/// unconstrained; with `k == 0` the bound is `STARVATION_BOUND`. The bound
/// must fit the saturating 32-bit wait counters.
#[verifier::rlimit(60)]
pub proof fn lemma_no_starvation(
    states: Seq<Lights>,
    queues: Seq<Seq<usize>>,
    occupied: Seq<bool>,
    d: int,
    k: int,
)
    requires
        is_run(states, queues, occupied),
        states[0].wf(),
        0 <= d < 4,
        0 <= k,
        starvation_bound(k) <= u32::MAX,
        queues.len() >= starvation_bound(k),
        forall|i: int| #![trigger queues[i]] 0 <= i < queues.len() ==> queues[i][d] > 0,
        clears_within(states, occupied, k),
    ensures
        exists|i: int| 0 <= i <= starvation_bound(k) && #[trigger] states[i].green_for(d),
{
    if !exists|i: int| 0 <= i <= starvation_bound(k) && #[trigger] states[i].green_for(d) {
        // Consider the prefix of the run that ends at the bound.
        let n = starvation_bound(k);
        let s = states.subrange(0, n + 1);
        let qs = queues.subrange(0, n);
        let os = occupied.subrange(0, n);
        assert forall|i: int| #![trigger qs[i]] 0 <= i < qs.len() implies qs[i].len() == 4
            && Lights::step(s[i], s[i + 1], qs[i], os[i]) by {
            assert(qs[i] == queues[i]);
            assert(queues[i].len() == 4);
        }
        assert(is_run(s, qs, os));
        assert forall|i: int| #![trigger qs[i]] 0 <= i < qs.len() implies qs[i][d] > 0 by {
            assert(qs[i] == queues[i]);
        }
        assert forall|i: int|
            0 <= i && i + k < os.len() && #[trigger] all_red_between(s, i, k) implies clear_between(
            os,
            i,
            k,
        ) by {
            assert forall|j: int| i <= j <= i + k implies (#[trigger] states[j]).phase
                == Phase::Clearing by {
                assert(states[j] == s[j]);
            }
            assert(all_red_between(states, i, k));
            assert(clear_between(occupied, i, k));
            let j = choose|j: int| i <= j <= i + k && !#[trigger] occupied[j];
            assert(os[j] == occupied[j]);
        }
        assert(clears_within(s, os, k));
        assert forall|i: int| #![trigger s[i]] 0 <= i < s.len() implies !s[i].green_for(d) by {
            assert(s[i] == states[i]);
        }
        assert(starving_run(s, qs, os, d, k));
        // The waiting approach is overdue from tick MAX_WAIT_TICKS on.
        let start = MAX_WAIT_TICKS as int;
        lemma_run_wf(s, qs, os, start);
        let j1 = lemma_switch_within(s, qs, os, d, k, start);
        lemma_run_wf(s, qs, os, j1 + 1);
        let j2 = lemma_switch_within(s, qs, os, d, k, j1 + 1);
        lemma_run_wf(s, qs, os, j2 + 1);
        let j3 = lemma_switch_within(s, qs, os, d, k, j2 + 1);
        lemma_run_wf(s, qs, os, j3 + 1);
        let j4 = lemma_switch_within(s, qs, os, d, k, j3 + 1);
        lemma_run_wf(s, qs, os, j4 + 1);
        let j5 = lemma_switch_within(s, qs, os, d, k, j4 + 1);
        assert(j5 + 1 < s.len());

        let js = seq![j2, j3, j4, j5];
        assert forall|a: int| 0 <= a < 4 implies s[#[trigger] js[a]].wait_ticks@[d]
            >= MAX_WAIT_TICKS + (js[a] - start) by {
            lemma_wait_grows(s, qs, os, d, k, 0, js[a]);
        }
        assert forall|a: int| 0 <= a < 4 implies {
            let j = #[trigger] js[a];
            let waited = s[j].waited(qs[j]);
            let chosen = s[j + 1].green_dir as int;
            &&& chosen != d
            &&& 0 <= chosen < 4
            &&& waited[chosen] >= waited[d]
            &&& waited[chosen] <= s[j].wait_ticks@[chosen] + 1
        } by {
            lemma_chosen_waited_longer(s, qs, os, d, k, j1, js[a]);
        }
        // An approach served at an earlier of these switches has waited less
        // than the waiting approach at every later one.
        assert forall|a: int, b: int| 0 <= a < b < 4 implies s[#[trigger] js[a] + 1].green_dir
            != s[#[trigger] js[b] + 1].green_dir by {
            let ja = js[a];
            let jb = js[b];
            let served = s[ja + 1].green_dir as int;
            lemma_starving_step(s, qs, os, d, k, ja);
            lemma_wait_bounded(s, qs, os, d, k, served, ja + 1, jb);
            lemma_wait_grows(s, qs, os, d, k, ja, jb);
            let waited = s[jb].waited(qs[jb]);
            assert(waited[d] == sat_inc(s[jb].wait_ticks@[d])) by {
                lemma_run_wf(s, qs, os, jb);
                assert(qs[jb][d] > 0);
                assert(!s[jb].green_for(d));
            }
            assert(waited[served] <= s[jb].wait_ticks@[served] + 1) by {
                lemma_run_wf(s, qs, os, jb);
            }
        }
        let c2 = s[j2 + 1].green_dir as int;
        let c3 = s[j3 + 1].green_dir as int;
        let c4 = s[j4 + 1].green_dir as int;
        let c5 = s[j5 + 1].green_dir as int;
        assert(js[0] == j2 && js[1] == j3 && js[2] == j4 && js[3] == j5);
        assert(c2 != c3 && c2 != c4 && c2 != c5 && c3 != c4 && c3 != c5 && c4 != c5);
        assert(c2 != d && c3 != d && c4 != d && c5 != d);
        assert(0 <= c2 < 4 && 0 <= c3 < 4 && 0 <= c4 < 4 && 0 <= c5 < 4);
        assert(false);
    }
}

} // verus!
