//! Vehicle lifecycle and the lane bookkeeping of the simulation: queue
//! lengths, conflict-zone occupancy, spawn admission and random choices.

use crate::geometry::{capacity, lane_capacity, lane_length, FOLLOW_DISTANCE};
use rand::seq::SliceRandom;
use rand::Rng;
use vstd::prelude::*;

verus! {

#[derive(Clone, Copy, Debug, PartialEq, Eq, Structural)]
pub enum VehiclePhase {
    Approaching,
    Waiting,
    Crossing,
    Leaving,
}

impl VehiclePhase {
    /// The vehicle has not yet entered the conflict zone.
    pub open spec fn before_conflict(self) -> bool {
        self == VehiclePhase::Approaching || self == VehiclePhase::Waiting
    }

    /// Whether a vehicle in this phase still queues in its entry lane.
    pub fn is_before_conflict(self) -> (before: bool)
        ensures
            before == self.before_conflict(),
    {
        match self {
            VehiclePhase::Approaching | VehiclePhase::Waiting => true,
            VehiclePhase::Crossing | VehiclePhase::Leaving => false,
        }
    }

    /// The lights hold the vehicle at the conflict entry: it has not
    /// entered the conflict zone and its approach is not green.
    pub open spec fn held(self, green: bool) -> bool {
        self.before_conflict() && !green
    }

    /// Whether a vehicle in this phase must stop at the conflict entry.
    pub fn must_stop(self, green: bool) -> (stop: bool)
        ensures
            stop == self.held(green),
    {
        self.is_before_conflict() && !green
    }

    /// The phase of a vehicle after a tick: leaving once its whole body is
    /// past the conflict zone, crossing once it is past the conflict entry,
    /// waiting when it did not move, approaching otherwise.
    pub fn after_tick(beyond_exit: bool, beyond_entry: bool, stationary: bool) -> (phase: Self)
        ensures
            phase == (if beyond_exit {
                VehiclePhase::Leaving
            } else if beyond_entry {
                VehiclePhase::Crossing
            } else if stationary {
                VehiclePhase::Waiting
            } else {
                VehiclePhase::Approaching
            }),
    {
        if beyond_exit {
            VehiclePhase::Leaving
        } else if beyond_entry {
            VehiclePhase::Crossing
        } else if stationary {
            VehiclePhase::Waiting
        } else {
            VehiclePhase::Approaching
        }
    }
}

/// A vehicle that has entered the conflict zone is never held by the
/// lights, and a vehicle before it is held exactly while its approach is red.
pub proof fn lemma_entered_vehicles_are_never_held(phase: VehiclePhase, green: bool)
    ensures
        !phase.before_conflict() ==> !phase.held(green),
        phase.before_conflict() ==> (phase.held(green) <==> !green),
{
}

/// Number of vehicles among `vehicles` (origin, phase) that queue in the
/// entry lane of `origin`.
pub open spec fn queued(vehicles: Seq<(usize, VehiclePhase)>, origin: int) -> nat
    decreases vehicles.len(),
{
    if vehicles.len() == 0 {
        0
    } else {
        let last = vehicles.last();
        queued(vehicles.drop_last(), origin) + if last.0 == origin && last.1.before_conflict() {
            1nat
        } else {
            0nat
        }
    }
}

proof fn lemma_queued_bounded(vehicles: Seq<(usize, VehiclePhase)>, origin: int)
    ensures
        queued(vehicles, origin) <= vehicles.len(),
    decreases vehicles.len(),
{
    if vehicles.len() > 0 {
        lemma_queued_bounded(vehicles.drop_last(), origin);
    }
}

/// Queue length of each approach: the vehicles of that origin that have
/// not yet entered the conflict zone.
pub fn queue_lengths(vehicles: &[(usize, VehiclePhase)]) -> (queues: [usize; 4])
    requires
        forall|i: int| 0 <= i < vehicles.len() ==> #[trigger] vehicles[i].0 < 4,
    ensures
        forall|d: int| 0 <= d < 4 ==> queues[d] == queued(vehicles@, d),
{
    let mut queues: [usize; 4] = [0, 0, 0, 0];
    let mut i: usize = 0;
    while i < vehicles.len()
        invariant
            i <= vehicles.len(),
            forall|j: int| 0 <= j < vehicles.len() ==> #[trigger] vehicles[j].0 < 4,
            forall|d: int| 0 <= d < 4 ==> queues[d] == queued(vehicles@.take(i as int), d),
        decreases vehicles.len() - i,
    {
        let (origin, phase) = vehicles[i];
        assert(vehicles@.take(i + 1).drop_last() =~= vehicles@.take(i as int));
        proof {
            lemma_queued_bounded(vehicles@.take(i as int), origin as int);
        }
        if phase.is_before_conflict() {
            queues[origin] = queues[origin] + 1;
        }
        i += 1;
    }
    assert(vehicles@.take(vehicles.len() as int) =~= vehicles@);
    queues
}

/// Whether some vehicle is crossing the conflict zone.
pub fn conflict_occupied(phases: &[VehiclePhase]) -> (occupied: bool)
    ensures
        occupied <==> exists|i: int| 0 <= i < phases.len() && phases[i] == VehiclePhase::Crossing,
{
    let mut i: usize = 0;
    while i < phases.len()
        invariant
            i <= phases.len(),
            forall|j: int| 0 <= j < i ==> phases[j] != VehiclePhase::Crossing,
        decreases phases.len() - i,
    {
        if let VehiclePhase::Crossing = phases[i] {
            return true;
        }
        i += 1;
    }
    false
}

/// A vehicle may appear at `origin` when the origin names an approach, its
/// queue is below the lane capacity, and its entry is physically clear.
pub open spec fn admits(origin: int, queues: Seq<usize>, entry_clear: bool) -> bool {
    &&& 0 <= origin < 4
    &&& queues[origin] < lane_capacity()
    &&& entry_clear
}

/// Spawn admission for one origin; `entry_clear` tells whether no vehicle
/// of that origin is still within one following distance of the spawn point.
pub fn can_spawn(origin: usize, queues: &[usize; 4], entry_clear: bool) -> (allowed: bool)
    ensures
        allowed == admits(origin as int, queues@, entry_clear),
        allowed ==> entry_clear,
        allowed <==> (origin < 4 && (queues[origin as int] + 1) * FOLLOW_DISTANCE <= lane_length()
            && entry_clear),
{
    proof {
        lemma_admission_needs_room_and_a_clear_entry(origin as int, queues@, entry_clear);
    }
    if origin >= 4 {
        return false;
    }
    queues[origin] < capacity() && entry_clear
}

/// The first origin of `order` whose entry admits a vehicle.
pub fn first_open_origin(order: [usize; 4], open: [bool; 4]) -> (origin: Option<usize>)
    ensures
        origin is None <==> forall|i: int| 0 <= i < 4 ==> !(order[i] < 4 && open[order[i] as int]),
        origin matches Some(o) ==> exists|i: int|
            0 <= i < 4 && order[i] == o && o < 4 && open[o as int] && forall|j: int|
                0 <= j < i ==> !(order[j] < 4 && open[order[j] as int]),
{
    let mut i: usize = 0;
    while i < 4
        invariant
            i <= 4,
            forall|j: int| 0 <= j < i ==> !(order[j] < 4 && open[order[j] as int]),
        decreases 4 - i,
    {
        let candidate = order[i];
        if candidate < 4 && open[candidate] {
            return Some(candidate);
        }
        i += 1;
    }
    None
}

/// A uniformly random index below `bound`, drawn from the thread-local generator.
/// Calls `rand::Rng::gen_range` on `rand::thread_rng()` with the range `0..bound`,
/// which panics on an empty range; nothing is claimed about which value comes back
/// beyond its range.
#[verifier::external_body]
fn random_below(bound: usize) -> (value: usize)
    requires
        bound > 0,
    ensures
        value < bound,
{
    rand::thread_rng().gen_range(0..bound)
}

/// Randomly permutes `values` with the thread-local generator.
/// Calls `rand::seq::SliceRandom::shuffle`, which only swaps elements, so the
/// result holds the same elements; which permutation comes back is left open.
#[verifier::external_body]
fn shuffle_in_place(values: &mut [usize; 4])
    ensures
        final(values)@.to_multiset() == old(values)@.to_multiset(),
{
    values.shuffle(&mut rand::thread_rng());
}

/// The immutable route of a new vehicle: straight (0), left (1) or right (2),
/// chosen at random.
pub fn random_route() -> (route: usize)
    ensures
        route < 3,
{
    random_below(3)
}

/// A random order of the four origins: each origin appears exactly once.
pub fn random_origin_order() -> (order: [usize; 4])
    ensures
        forall|i: int| 0 <= i < 4 ==> #[trigger] order[i] < 4,
        forall|d: usize| d < 4 ==> #[trigger] order@.contains(d),
        order@.no_duplicates(),
{
    let mut order: [usize; 4] = [0, 1, 2, 3];
    let ghost initial = order@;
    shuffle_in_place(&mut order);
    proof {
        broadcast use vstd::seq_lib::group_to_multiset_ensures;

        assert(initial =~= seq![0usize, 1, 2, 3]);
        assert(initial.no_duplicates());
        initial.lemma_multiset_has_no_duplicates();
        let m = initial.to_multiset();
        assert(order@.to_multiset() == m);
        assert forall|x: usize| order@.to_multiset().contains(x) implies order@.to_multiset().count(
            x,
        ) == 1 by {}
        order@.lemma_multiset_has_no_duplicates_conv();
        assert forall|i: int| 0 <= i < 4 implies #[trigger] order[i] < 4 by {
            assert(order@.contains(order@[i]));
            assert(order@.to_multiset().count(order@[i]) > 0);
            assert(m.count(order@[i]) > 0);
            assert(initial.contains(order@[i]));
        }
        assert forall|d: usize| d < 4 implies #[trigger] order@.contains(d) by {
            assert(initial[d as int] == d);
            assert(initial.contains(d));
            assert(m.count(d) > 0);
            assert(order@.to_multiset().count(d) > 0);
        }
    }
    order
}

/// Spawn admission never lets a queue grow beyond the lane capacity: when
/// `admits` holds, the queue after adding the new vehicle is at most the capacity.
pub proof fn lemma_admission_respects_capacity(origin: int, queues: Seq<usize>, entry_clear: bool)
    requires
        admits(origin, queues, entry_clear),
    ensures
        queues[origin] + 1 <= lane_capacity(),
{
}

/// A vehicle is admitted at an origin exactly when the origin names one of
/// the four approaches, the entry lane still has room for one more vehicle
/// with its safety gap, and no vehicle is within one following distance of
/// the spawn point. A blocked entry always refuses the request.
pub proof fn lemma_admission_needs_room_and_a_clear_entry(
    origin: int,
    queues: Seq<usize>,
    entry_clear: bool,
)
    ensures
        admits(origin, queues, entry_clear) <==> (0 <= origin < 4 && (queues[origin] + 1)
            * FOLLOW_DISTANCE <= lane_length() && entry_clear),
        !entry_clear ==> !admits(origin, queues, entry_clear),
{
    assert(lane_length() == 359);
    assert(lane_capacity() == 8);
    if 0 <= origin < 4 {
        let n = queues[origin] as int;
        assert(n < 8 <==> (n + 1) * 43 <= 359) by (nonlinear_arith)
            requires n >= 0;
    }
}

/// Exactly the approaching and the waiting vehicles queue in their entry
/// lane; crossing and leaving vehicles do not.
pub proof fn lemma_queueing_phases(phase: VehiclePhase)
    ensures
        phase.before_conflict() <==> (phase == VehiclePhase::Approaching || phase
            == VehiclePhase::Waiting),
{
}

/// Counting a queue: no vehicle gives an empty queue, and one more vehicle
/// adds one to the queue of its origin when it is approaching or waiting,
/// and nothing otherwise.
pub proof fn lemma_queue_counts_each_vehicle(
    vehicles: Seq<(usize, VehiclePhase)>,
    vehicle: (usize, VehiclePhase),
    origin: int,
)
    ensures
        queued(Seq::empty(), origin) == 0,
        queued(vehicles.push(vehicle), origin) == queued(vehicles, origin) + if vehicle.0
            == origin && (vehicle.1 == VehiclePhase::Approaching || vehicle.1
            == VehiclePhase::Waiting) {
            1int
        } else {
            0int
        },
{
    assert(vehicles.push(vehicle).drop_last() =~= vehicles);
}

} // verus!
