//! Fair, congestion-aware, single-approach traffic-light controller.
//!
//! Exactly one approach may be green at a time. Every green phase is
//! followed by an all-red clearing phase that lasts at least
//! `MIN_CLEAR_TICKS` and ends only once the conflict zone is empty. The next
//! green approach is chosen by priority class: overdue queues first, then
//! critical queues, then the longest wait, with round-robin order breaking
//! ties. The approach that was just green is not chosen again while another
//! approach has a queue.

use crate::geometry::{capacity, lane_capacity, FIXED_HZ};
use vstd::prelude::*;

verus! {

/// Shortest green phase, in ticks.
pub const MIN_GREEN_TICKS: u32 = 3 * FIXED_HZ;
/// Longest green phase while another approach is waiting, in ticks.
pub const MAX_GREEN_TICKS: u32 = 8 * FIXED_HZ;
/// Shortest all-red clearing phase, in ticks.
pub const MIN_CLEAR_TICKS: u32 = 45;
/// Waiting time after which a queue is overdue, in ticks (15 model seconds).
pub const MAX_WAIT_TICKS: u32 = 15 * FIXED_HZ;

#[derive(Clone, Copy, Debug, PartialEq, Eq, Structural)]
pub enum Phase {
    Green,
    Clearing,
}

#[derive(Debug)]
pub struct Lights {
    pub phase: Phase,
    pub green_dir: usize,
    pub green_timer: u32,
    pub clear_timer: u32,
    pub wait_ticks: [u32; 4],
    /// The approach at which the next round-robin scan starts.
    pub round_robin_cursor: usize,
}

/// `x + 1`, saturating at `u32::MAX`.
pub open spec fn sat_inc(x: u32) -> u32 {
    if x == u32::MAX {
        x
    } else {
        (x + 1) as u32
    }
}

/// Queue length from which an approach is critical: ceil(0.85 * capacity).
pub open spec fn critical_queue() -> int {
    (lane_capacity() * 85 + 99) as int / 100
}

/// Some approach other than `dir` has a queue.
pub open spec fn other_demand(queues: Seq<usize>, dir: int) -> bool {
    exists|d: int| 0 <= d < 4 && d != dir && queues[d] > 0
}

/// Position of `dir` in a round-robin scan that starts at `cursor`.
pub open spec fn scan_rank(cursor: int, dir: int) -> int {
    if dir >= cursor {
        dir - cursor
    } else {
        dir + 4 - cursor
    }
}

/// Waiting time after one tick: reset when the queue is empty or the
/// approach is green, otherwise one more tick (saturating).
pub open spec fn next_wait(wait: u32, queue: usize, green: bool) -> u32 {
    if queue == 0 || green {
        0
    } else {
        sat_inc(wait)
    }
}

/// `dir` may receive the next green: it has a queue, and it is not the
/// approach `last` that was just green unless no other approach has a queue.
pub open spec fn eligible(queues: Seq<usize>, last: int, dir: int) -> bool {
    &&& 0 <= dir < 4
    &&& queues[dir] > 0
    &&& (dir != last || !other_demand(queues, last))
}

/// An eligible approach that has waited at least `MAX_WAIT_TICKS`.
pub open spec fn overdue(queues: Seq<usize>, waits: Seq<u32>, last: int, dir: int) -> bool {
    eligible(queues, last, dir) && waits[dir] >= MAX_WAIT_TICKS
}

/// An eligible approach whose queue has reached the critical length.
pub open spec fn critical(queues: Seq<usize>, last: int, dir: int) -> bool {
    eligible(queues, last, dir) && queues[dir] >= critical_queue()
}

/// `dir` belongs to the highest non-empty priority class:
/// overdue queues, else critical queues, else every eligible queue.
pub open spec fn candidate(queues: Seq<usize>, waits: Seq<u32>, last: int, dir: int) -> bool {
    if exists|d: int| overdue(queues, waits, last, d) {
        overdue(queues, waits, last, dir)
    } else if exists|d: int| critical(queues, last, d) {
        critical(queues, last, dir)
    } else {
        eligible(queues, last, dir)
    }
}

/// `dir` is the approach that turns green next: a candidate with the longest
/// wait, and the first in round-robin order from `cursor` among equal waits.
pub open spec fn next_green(
    queues: Seq<usize>,
    waits: Seq<u32>,
    last: int,
    cursor: int,
    dir: int,
) -> bool {
    &&& candidate(queues, waits, last, dir)
    &&& forall|e: int|
        #[trigger] candidate(queues, waits, last, e) ==> waits[e] < waits[dir] || (waits[e]
            == waits[dir] && scan_rank(cursor, dir) <= scan_rank(cursor, e))
}

impl Lights {
    /// The green approach and the round-robin cursor name one of the four approaches.
    pub open spec fn wf(&self) -> bool {
        &&& self.green_dir < 4
        &&& self.round_robin_cursor < 4
    }

    pub open spec fn green_for(&self, origin: int) -> bool {
        self.phase == Phase::Green && self.green_dir == origin
    }

    /// The green phase yields once its timer reads `timer`: another approach
    /// waits, the minimum green has elapsed, and either the maximum green has
    /// elapsed or the active queue is empty or not critical.
    pub open spec fn should_yield(&self, queues: Seq<usize>, timer: u32) -> bool {
        &&& other_demand(queues, self.green_dir as int)
        &&& timer >= MIN_GREEN_TICKS
        &&& (timer >= MAX_GREEN_TICKS || queues[self.green_dir as int] == 0
            || queues[self.green_dir as int] < critical_queue())
    }

    /// Waiting times after the wait bookkeeping of one tick.
    pub open spec fn waited(&self, queues: Seq<usize>) -> Seq<u32> {
        Seq::new(4, |d: int| next_wait(self.wait_ticks[d], queues[d], self.green_for(d)))
    }

    /// One controller tick from `pre` to `post`, given the queue length of
    /// each approach and whether a vehicle occupies the conflict zone.
    pub open spec fn step(pre: Lights, post: Lights, queues: Seq<usize>, occupied: bool) -> bool {
        let waited = pre.waited(queues);
        match pre.phase {
            Phase::Green => {
                let timer = sat_inc(pre.green_timer);
                &&& post.wait_ticks@ == waited
                &&& post.green_dir == pre.green_dir
                &&& post.green_timer == timer
                &&& post.round_robin_cursor == pre.round_robin_cursor
                &&& if pre.should_yield(queues, timer) {
                    post.phase == Phase::Clearing && post.clear_timer == 0
                } else {
                    post.phase == Phase::Green && post.clear_timer == pre.clear_timer
                }
            },
            Phase::Clearing => {
                let timer = sat_inc(pre.clear_timer);
                let last = pre.green_dir as int;
                &&& post.clear_timer == timer
                &&& if timer >= MIN_CLEAR_TICKS && !occupied {
                    &&& post.phase == Phase::Green
                    &&& post.green_timer == 0
                    &&& post.green_dir < 4
                    &&& post.round_robin_cursor == (post.green_dir + 1) % 4
                    &&& if exists|d: int| eligible(queues, last, d) {
                        next_green(queues, waited, last, pre.round_robin_cursor as int, post.green_dir as int)
                    } else {
                        post.green_dir == pre.green_dir
                    }
                    &&& post.wait_ticks@ == waited.update(post.green_dir as int, 0)
                } else {
                    &&& post.phase == Phase::Clearing
                    &&& post.wait_ticks@ == waited
                    &&& post.green_dir == pre.green_dir
                    &&& post.green_timer == pre.green_timer
                    &&& post.round_robin_cursor == pre.round_robin_cursor
                }
            },
        }
    }
}

/// Whether an approach other than `dir` has a queue.
fn has_other_demand(queues: &[usize; 4], dir: usize) -> (demand: bool)
    ensures
        demand == other_demand(queues@, dir as int),
{
    let mut demand = false;
    let mut d: usize = 0;
    while d < 4
        invariant
            d <= 4,
            demand <==> exists|e: int| 0 <= e < d && e != dir && queues@[e] > 0,
        decreases 4 - d,
    {
        if d != dir && queues[d] > 0 {
            demand = true;
        }
        d += 1;
    }
    demand
}

impl Lights {
    pub fn new() -> (lights: Self)
        ensures
            lights.wf(),
            lights.phase == Phase::Green,
            lights.green_dir == 0,
            lights.green_timer == 0,
            lights.clear_timer == 0,
            lights.wait_ticks@ == seq![0u32, 0u32, 0u32, 0u32],
            lights.round_robin_cursor == 1,
    {
        Lights {
            phase: Phase::Green,
            green_dir: 0,
            green_timer: 0,
            clear_timer: 0,
            wait_ticks: [0, 0, 0, 0],
            round_robin_cursor: 1,
        }
    }

    pub fn is_green(&self, origin: usize) -> (green: bool)
        ensures
            green == self.green_for(origin as int),
    {
        match self.phase {
            Phase::Green => self.green_dir == origin,
            Phase::Clearing => false,
        }
    }

    pub fn update(&mut self, queues: &[usize; 4], conflict_occupied: bool)
        requires
            old(self).wf(),
        ensures
            final(self).wf(),
            Lights::step(*old(self), *final(self), queues@, conflict_occupied),
    {
        self.update_wait_times(queues);

        match self.phase {
            Phase::Green => {
                self.green_timer = self.green_timer.saturating_add(1);
                let other_demand = has_other_demand(queues, self.green_dir);
                let active_queue = queues[self.green_dir];
                let active_is_critical = active_queue >= Self::critical_threshold();
                let minimum_elapsed = self.green_timer >= MIN_GREEN_TICKS;
                let maximum_elapsed = self.green_timer >= MAX_GREEN_TICKS;
                let should_yield = other_demand && minimum_elapsed && (maximum_elapsed
                    || active_queue == 0 || !active_is_critical);

                if should_yield {
                    self.phase = Phase::Clearing;
                    self.clear_timer = 0;
                }
            },
            Phase::Clearing => {
                self.clear_timer = self.clear_timer.saturating_add(1);
                if self.clear_timer >= MIN_CLEAR_TICKS && !conflict_occupied {
                    let next = match self.choose_next(queues) {
                        Some(dir) => dir,
                        None => self.green_dir,
                    };
                    self.green_dir = next;
                    self.wait_ticks[next] = 0;
                    self.round_robin_cursor = (next + 1) % 4;
                    self.phase = Phase::Green;
                    self.green_timer = 0;
                }
            },
        }
    }

    fn critical_threshold() -> (threshold: usize)
        ensures
            threshold == critical_queue(),
            threshold * 100 >= lane_capacity() * 85,
            (threshold - 1) * 100 < lane_capacity() * 85,
    {
        let lane = capacity();
        assert(lane == 8);
        (lane * 85 + 99) / 100
    }

    fn update_wait_times(&mut self, queues: &[usize; 4])
        ensures
            final(self).wait_ticks@ == old(self).waited(queues@),
            final(self).phase == old(self).phase,
            final(self).green_dir == old(self).green_dir,
            final(self).green_timer == old(self).green_timer,
            final(self).clear_timer == old(self).clear_timer,
            final(self).round_robin_cursor == old(self).round_robin_cursor,
    {
        let mut dir: usize = 0;
        while dir < 4
            invariant
                dir <= 4,
                self.phase == old(self).phase,
                self.green_dir == old(self).green_dir,
                self.green_timer == old(self).green_timer,
                self.clear_timer == old(self).clear_timer,
                self.round_robin_cursor == old(self).round_robin_cursor,
                forall|d: int|
                    0 <= d < dir ==> self.wait_ticks[d] == next_wait(
                        old(self).wait_ticks[d],
                        queues@[d],
                        old(self).green_for(d),
                    ),
                forall|d: int| dir <= d < 4 ==> self.wait_ticks[d] == old(self).wait_ticks[d],
            decreases 4 - dir,
        {
            if queues[dir] == 0 || self.is_green(dir) {
                self.wait_ticks[dir] = 0;
            } else {
                self.wait_ticks[dir] = self.wait_ticks[dir].saturating_add(1);
            }
            dir += 1;
        }
        assert(self.wait_ticks@ =~= old(self).waited(queues@));
    }

    fn choose_next(&self, queues: &[usize; 4]) -> (next: Option<usize>)
        requires
            self.wf(),
        ensures
            next is None <==> !(exists|d: int| eligible(queues@, self.green_dir as int, d)),
            next matches Some(dir) ==> next_green(
                queues@,
                self.wait_ticks@,
                self.green_dir as int,
                self.round_robin_cursor as int,
                dir as int,
            ),
    {
        let ghost q = queues@;
        let ghost w = self.wait_ticks@;
        let ghost last = self.green_dir as int;
        let threshold = Self::critical_threshold();
        let other = has_other_demand(queues, self.green_dir);

        let mut any_overdue = false;
        let mut any_critical = false;
        let mut d: usize = 0;
        while d < 4
            invariant
                d <= 4,
                q == queues@,
                w == self.wait_ticks@,
                last == self.green_dir,
                other == other_demand(q, last),
                threshold == critical_queue(),
                any_overdue <==> exists|e: int| 0 <= e < d && overdue(q, w, last, e),
                any_critical <==> exists|e: int| 0 <= e < d && critical(q, last, e),
            decreases 4 - d,
        {
            let is_eligible = queues[d] > 0 && (d != self.green_dir || !other);
            assert(is_eligible == eligible(q, last, d as int));
            assert(overdue(q, w, last, d as int) == (is_eligible && w[d as int] >= MAX_WAIT_TICKS));
            assert(critical(q, last, d as int) == (is_eligible && q[d as int] >= threshold));
            if is_eligible && self.wait_ticks[d] >= MAX_WAIT_TICKS {
                any_overdue = true;
            }
            if is_eligible && queues[d] >= threshold {
                any_critical = true;
            }
            d += 1;
        }
        assert(any_overdue <==> exists|e: int| overdue(q, w, last, e));
        assert(any_critical <==> exists|e: int| critical(q, last, e));

        // Scan from the cursor so equal waiting times are resolved round-robin.
        let ghost cursor = self.round_robin_cursor as int;
        let mut best: Option<usize> = None;
        let mut best_wait: u32 = 0;
        let mut offset: usize = 0;
        while offset < 4
            invariant
                offset <= 4,
                0 <= cursor < 4,
                cursor == self.round_robin_cursor,
                q == queues@,
                w == self.wait_ticks@,
                last == self.green_dir,
                other == other_demand(q, last),
                threshold == critical_queue(),
                any_overdue <==> exists|e: int| overdue(q, w, last, e),
                any_critical <==> exists|e: int| critical(q, last, e),
                best is None <==> !(exists|e: int|
                    0 <= e < 4 && scan_rank(cursor, e) < offset && candidate(q, w, last, e)),
                best matches Some(b) ==> {
                    &&& 0 <= b < 4
                    &&& candidate(q, w, last, b as int)
                    &&& best_wait == w[b as int]
                    &&& scan_rank(cursor, b as int) < offset
                    &&& forall|e: int|
                        0 <= e < 4 && scan_rank(cursor, e) < offset && #[trigger] candidate(
                            q,
                            w,
                            last,
                            e,
                        ) ==> w[e] < w[b as int] || (w[e] == w[b as int] && scan_rank(
                            cursor,
                            b as int,
                        ) <= scan_rank(cursor, e))
                },
            decreases 4 - offset,
        {
            let mut dir = self.round_robin_cursor + offset;
            if dir >= 4 {
                dir = dir - 4;
            }
            assert(scan_rank(cursor, dir as int) == offset);
            let is_eligible = queues[dir] > 0 && (dir != self.green_dir || !other);
            let in_class = if any_overdue {
                is_eligible && self.wait_ticks[dir] >= MAX_WAIT_TICKS
            } else if any_critical {
                is_eligible && queues[dir] >= threshold
            } else {
                is_eligible
            };
            assert(in_class == candidate(q, w, last, dir as int));
            if in_class && (best.is_none() || self.wait_ticks[dir] > best_wait) {
                best = Some(dir);
                best_wait = self.wait_ticks[dir];
            }
            offset += 1;
        }
        assert forall|e: int| 0 <= e < 4 implies scan_rank(cursor, e) < 4 by {}
        proof {
            if exists|d: int| eligible(q, last, d) {
                let d = choose|d: int| eligible(q, last, d);
                if exists|e: int| overdue(q, w, last, e) {
                    let e = choose|e: int| overdue(q, w, last, e);
                    assert(candidate(q, w, last, e));
                } else if exists|e: int| critical(q, last, e) {
                    let e = choose|e: int| critical(q, last, e);
                    assert(candidate(q, w, last, e));
                } else {
                    assert(candidate(q, w, last, d));
                }
            }
        }
        best
    }
}

/// At most one approach is green at any time.
pub proof fn lemma_single_green_approach(lights: Lights, a: int, b: int)
    requires
        lights.green_for(a),
        lights.green_for(b),
    ensures
        a == b,
{
}

/// The green approach never changes directly from one approach to another:
/// a new approach turns green only at the end of an all-red clearing phase.
pub proof fn lemma_green_changes_only_after_clearing(
    pre: Lights,
    post: Lights,
    queues: Seq<usize>,
    occupied: bool,
)
    requires
        Lights::step(pre, post, queues, occupied),
        post.phase == Phase::Green,
    ensures
        post.green_dir != pre.green_dir ==> pre.phase == Phase::Clearing,
        pre.phase == Phase::Green ==> post.green_dir == pre.green_dir,
{
}

/// A clearing phase ends only once the minimum clearing time has elapsed and
/// the conflict zone is empty; while a vehicle occupies it, the lights stay all-red.
pub proof fn lemma_clearing_waits_for_the_conflict_zone(
    pre: Lights,
    post: Lights,
    queues: Seq<usize>,
    occupied: bool,
)
    requires
        Lights::step(pre, post, queues, occupied),
        pre.phase == Phase::Clearing,
    ensures
        occupied ==> post.phase == Phase::Clearing,
        post.phase == Phase::Green ==> post.clear_timer >= MIN_CLEAR_TICKS,
        sat_inc(pre.clear_timer) >= MIN_CLEAR_TICKS && !occupied ==> post.phase == Phase::Green,
{
}

/// A green phase yields only after the minimum green time and only when
/// another approach waits; it always yields once the maximum green time has
/// elapsed while another approach waits.
pub proof fn lemma_green_duration_bounds(
    pre: Lights,
    post: Lights,
    queues: Seq<usize>,
    occupied: bool,
)
    requires
        pre.wf(),
        Lights::step(pre, post, queues, occupied),
        pre.phase == Phase::Green,
    ensures
        post.phase == Phase::Clearing ==> post.green_timer >= MIN_GREEN_TICKS && other_demand(
            queues,
            pre.green_dir as int,
        ),
        !other_demand(queues, pre.green_dir as int) ==> post.phase == Phase::Green,
        other_demand(queues, pre.green_dir as int) && post.green_timer >= MAX_GREEN_TICKS
            ==> post.phase == Phase::Clearing,
{
}

/// When a clearing phase ends, the new green approach has a queue whenever
/// any approach has one, and it is not the approach that was green before
/// while another approach has a queue.
pub proof fn lemma_next_green_serves_a_waiting_queue(
    pre: Lights,
    post: Lights,
    queues: Seq<usize>,
    occupied: bool,
)
    requires
        pre.wf(),
        queues.len() == 4,
        Lights::step(pre, post, queues, occupied),
        pre.phase == Phase::Clearing,
        post.phase == Phase::Green,
    ensures
        (exists|d: int| 0 <= d < 4 && queues[d] > 0) ==> queues[post.green_dir as int] > 0,
        other_demand(queues, pre.green_dir as int) ==> post.green_dir != pre.green_dir,
        post.wait_ticks[post.green_dir as int] == 0,
{
    let last = pre.green_dir as int;
    if exists|d: int| 0 <= d < 4 && queues[d] > 0 {
        let d = choose|d: int| 0 <= d < 4 && queues[d] > 0;
        if other_demand(queues, last) {
            let e = choose|e: int| 0 <= e < 4 && e != last && queues[e] > 0;
            assert(eligible(queues, last, e));
        } else {
            assert(eligible(queues, last, d));
        }
    }
}

/// The next green approach is chosen by priority class: an overdue queue is
/// served before any other; otherwise a critical queue before any other;
/// within the class, the longest wait wins.
pub proof fn lemma_next_green_priority(
    pre: Lights,
    post: Lights,
    queues: Seq<usize>,
    occupied: bool,
    other: int,
)
    requires
        pre.wf(),
        queues.len() == 4,
        Lights::step(pre, post, queues, occupied),
        pre.phase == Phase::Clearing,
        post.phase == Phase::Green,
    ensures
        overdue(queues, pre.waited(queues), pre.green_dir as int, other) ==> overdue(
            queues,
            pre.waited(queues),
            pre.green_dir as int,
            post.green_dir as int,
        ),
        !(exists|d: int| overdue(queues, pre.waited(queues), pre.green_dir as int, d)) && critical(
            queues,
            pre.green_dir as int,
            other,
        ) ==> critical(queues, pre.green_dir as int, post.green_dir as int),
        candidate(queues, pre.waited(queues), pre.green_dir as int, other) ==> pre.waited(
            queues,
        )[other] <= pre.waited(queues)[post.green_dir as int],
{
    let last = pre.green_dir as int;
    let w = pre.waited(queues);
    if eligible(queues, last, other) {
        assert(exists|d: int| eligible(queues, last, d));
        assert(next_green(queues, w, last, pre.round_robin_cursor as int, post.green_dir as int));
        if overdue(queues, w, last, other) {
            assert(exists|d: int| overdue(queues, w, last, d));
        }
        if critical(queues, last, other) {
            assert(exists|d: int| critical(queues, last, d));
        }
    }
}

/// The choice of the next green approach is deterministic: at most one
/// approach satisfies `next_green` for given queues, waits and cursor.
pub proof fn lemma_next_green_unique(
    queues: Seq<usize>,
    waits: Seq<u32>,
    last: int,
    cursor: int,
    a: int,
    b: int,
)
    requires
        0 <= cursor < 4,
        next_green(queues, waits, last, cursor, a),
        next_green(queues, waits, last, cursor, b),
    ensures
        a == b,
{
    assert(candidate(queues, waits, last, a));
    assert(candidate(queues, waits, last, b));
}

/// Waiting times are kept only for approaches that have a queue and are
/// red: after a tick, an empty approach and the green approach have waited 0.
pub proof fn lemma_wait_reset(pre: Lights, post: Lights, queues: Seq<usize>, occupied: bool, d: int)
    requires
        pre.wf(),
        Lights::step(pre, post, queues, occupied),
        0 <= d < 4,
    ensures
        queues[d] == 0 ==> post.wait_ticks[d] == 0,
        post.green_for(d) ==> post.wait_ticks[d] == 0,
{
    assert(post.wait_ticks[d] == post.wait_ticks@[d]);
}

/// The lane holds 8 vehicles, and a queue is critical from 7 vehicles on:
/// 85% of the capacity, rounded up. A queue of `n` vehicles is critical
/// exactly when `100 * n >= 85 * capacity`.
pub proof fn lemma_critical_is_85_percent_of_capacity(n: int)
    requires
        n >= 0,
    ensures
        lane_capacity() == 8,
        critical_queue() == 7,
        n >= critical_queue() <==> n * 100 >= lane_capacity() * 85,
{
    assert(crate::geometry::lane_length() == 359);
    assert(lane_capacity() == 8);
}

/// While another approach waits, a green approach whose own queue is below
/// 85% of the lane capacity (an empty queue included) yields as soon as the
/// minimum green has elapsed; a queue of at least 85% of the capacity keeps
/// its green until the maximum green has elapsed. Green never yields before
/// the minimum, and always yields at the maximum.
pub proof fn lemma_green_yields_unless_critical(
    pre: Lights,
    post: Lights,
    queues: Seq<usize>,
    occupied: bool,
)
    requires
        pre.wf(),
        queues.len() == 4,
        Lights::step(pre, post, queues, occupied),
        pre.phase == Phase::Green,
        exists|d: int| 0 <= d < 4 && d != pre.green_dir && queues[d] > 0,
    ensures
        pre.green_timer + 1 >= MIN_GREEN_TICKS && queues[pre.green_dir as int] * 100
            < lane_capacity() * 85 ==> post.phase == Phase::Clearing,
        pre.green_timer + 1 < MIN_GREEN_TICKS ==> post.phase == Phase::Green,
        queues[pre.green_dir as int] * 100 >= lane_capacity() * 85 && pre.green_timer + 1
            < MAX_GREEN_TICKS ==> post.phase == Phase::Green,
        pre.green_timer + 1 >= MAX_GREEN_TICKS ==> post.phase == Phase::Clearing,
        post.green_dir == pre.green_dir,
{
    lemma_critical_is_85_percent_of_capacity(queues[pre.green_dir as int] as int);
    let d = choose|d: int| 0 <= d < 4 && d != pre.green_dir && queues[d] > 0;
    assert(other_demand(queues, pre.green_dir as int));
}

/// Approach `e` has a queue and is not `last`, the approach that was just
/// green, unless no other approach has a queue.
pub open spec fn may_turn_green(queues: Seq<usize>, last: int, e: int) -> bool {
    &&& 0 <= e < 4
    &&& queues[e] > 0
    &&& (e != last || !(exists|x: int| 0 <= x < 4 && x != last && #[trigger] queues[x] > 0))
}

/// Wait of a red approach with a queue after one more tick (saturating).
pub open spec fn wait_after_tick(lights: Lights, e: int) -> int {
    if lights.wait_ticks[e] == u32::MAX {
        u32::MAX as int
    } else {
        lights.wait_ticks[e] + 1
    }
}

/// Priority class of approach `e` when an all-red phase ends: 2 when it has
/// waited at least `MAX_WAIT_TICKS`, else 1 when its queue is at least 85%
/// of the lane capacity, else 0.
pub open spec fn priority_class(lights: Lights, queues: Seq<usize>, e: int) -> int {
    if wait_after_tick(lights, e) >= MAX_WAIT_TICKS {
        2
    } else if queues[e] * 100 >= lane_capacity() * 85 {
        1
    } else {
        0
    }
}

/// How the next green approach is chosen when an all-red phase ends, stated
/// over the queues and the waits after this tick. An approach may turn
/// green when it has a queue and is not the approach that was just green,
/// unless no other approach has a queue. Then:
/// - if none may, the previous approach stays selected;
/// - the winner may turn green and has the highest priority class among
///   those that may (overdue before critical before the rest);
/// - within that class it has the longest wait;
/// - equal waits in the class go to the first approach in round-robin order
///   from the cursor, and the cursor moves past the winner;
/// - the winner's wait restarts from zero.
pub proof fn lemma_next_green_choice(
    pre: Lights,
    post: Lights,
    queues: Seq<usize>,
    occupied: bool,
    e: int,
)
    requires
        pre.wf(),
        queues.len() == 4,
        Lights::step(pre, post, queues, occupied),
        pre.phase == Phase::Clearing,
        post.phase == Phase::Green,
    ensures
        (forall|x: int| !#[trigger] may_turn_green(queues, pre.green_dir as int, x))
            ==> post.green_dir == pre.green_dir,
        may_turn_green(queues, pre.green_dir as int, e) ==> may_turn_green(
            queues,
            pre.green_dir as int,
            post.green_dir as int,
        ),
        may_turn_green(queues, pre.green_dir as int, e) ==> priority_class(pre, queues, e)
            <= priority_class(pre, queues, post.green_dir as int),
        may_turn_green(queues, pre.green_dir as int, e) && priority_class(pre, queues, e)
            == priority_class(pre, queues, post.green_dir as int) ==> wait_after_tick(pre, e)
            <= wait_after_tick(pre, post.green_dir as int),
        may_turn_green(queues, pre.green_dir as int, e) && e != post.green_dir && priority_class(
            pre,
            queues,
            e,
        ) == priority_class(pre, queues, post.green_dir as int) && wait_after_tick(pre, e)
            == wait_after_tick(pre, post.green_dir as int) ==> (post.green_dir + 4
            - pre.round_robin_cursor) % 4 < (e + 4 - pre.round_robin_cursor) % 4,
        post.round_robin_cursor == (post.green_dir + 1) % 4,
        post.wait_ticks[post.green_dir as int] == 0,
{
    let last = pre.green_dir as int;
    let chosen = post.green_dir as int;
    let cursor = pre.round_robin_cursor as int;
    let waited = pre.waited(queues);
    lemma_critical_is_85_percent_of_capacity(0);
    assert forall|x: int| 0 <= x < 4 implies (queues[x] >= critical_queue() <==> queues[x] * 100
        >= lane_capacity() * 85) by {
        lemma_critical_is_85_percent_of_capacity(queues[x] as int);
    }
    assert forall|x: int| #[trigger] may_turn_green(queues, last, x) == eligible(queues, last, x) by {
        if 0 <= x < 4 && queues[x] > 0 && x == last {
            assert((exists|y: int| 0 <= y < 4 && y != last && #[trigger] queues[y] > 0)
                == other_demand(queues, last));
        }
    }
    assert forall|x: int| 0 <= x < 4 && queues[x] > 0 implies waited[x] == wait_after_tick(pre, x)
        by {}
    assert(post.wait_ticks@[chosen] == 0);
    if exists|x: int| eligible(queues, last, x) {
        let x0 = choose|x: int| eligible(queues, last, x);
        assert(may_turn_green(queues, last, x0));
        assert(next_green(queues, waited, last, cursor, chosen));
        assert(candidate(queues, waited, last, chosen));
        if eligible(queues, last, e) {
            if overdue(queues, waited, last, e) {
                assert(candidate(queues, waited, last, e));
            } else if exists|x: int| overdue(queues, waited, last, x) {
                assert(overdue(queues, waited, last, chosen));
            } else if critical(queues, last, e) {
                assert(candidate(queues, waited, last, e));
            } else if exists|x: int| critical(queues, last, x) {
                assert(critical(queues, last, chosen));
            } else {
                assert(candidate(queues, waited, last, e));
            }
            if priority_class(pre, queues, e) == priority_class(pre, queues, chosen) {
                assert(candidate(queues, waited, last, e));
                assert(scan_rank(cursor, chosen) <= scan_rank(cursor, e) || waited[e]
                    < waited[chosen] || e == chosen || waited[e] != waited[chosen]);
            }
        }
    } else {
        assert(!eligible(queues, last, e));
    }
}

/// The controller's clocks: the green timer counts the ticks of a green
/// phase, the clearing timer those of an all-red phase (both saturating),
/// and a new phase starts its timer from zero.
pub proof fn lemma_phase_timers(pre: Lights, post: Lights, queues: Seq<usize>, occupied: bool)
    requires
        pre.wf(),
        queues.len() == 4,
        Lights::step(pre, post, queues, occupied),
    ensures
        pre.phase == Phase::Green && pre.green_timer < u32::MAX ==> post.green_timer
            == pre.green_timer + 1,
        pre.phase == Phase::Green && post.phase == Phase::Clearing ==> post.clear_timer == 0,
        pre.phase == Phase::Clearing && pre.clear_timer < u32::MAX ==> post.clear_timer
            == pre.clear_timer + 1,
        pre.phase == Phase::Clearing && post.phase == Phase::Green ==> post.green_timer == 0,
        pre.phase == Phase::Clearing && post.phase == Phase::Clearing ==> post.green_dir
            == pre.green_dir,
{
}

/// Waiting times: after a tick, an approach with an empty queue or a green
/// light has waited 0 ticks, and a red approach with a queue has waited one
/// tick more (saturating), unless it has just been chosen to turn green.
pub proof fn lemma_waits_count_red_ticks_with_a_queue(
    pre: Lights,
    post: Lights,
    queues: Seq<usize>,
    occupied: bool,
    d: int,
)
    requires
        pre.wf(),
        queues.len() == 4,
        Lights::step(pre, post, queues, occupied),
        0 <= d < 4,
    ensures
        queues[d] == 0 ==> post.wait_ticks[d] == 0,
        pre.phase == Phase::Green && pre.green_dir == d ==> post.wait_ticks[d] == 0,
        queues[d] > 0 && !(pre.phase == Phase::Green && pre.green_dir == d) && !(pre.phase
            == Phase::Clearing && post.phase == Phase::Green && post.green_dir == d)
            ==> post.wait_ticks[d] == wait_after_tick(pre, d),
{
    assert(post.wait_ticks[d] == post.wait_ticks@[d]);
}

} // verus!
