//! The shrinking wall of the arena.
//!
//! Units: a radius is a whole number of nano-units, a shrink rate a whole
//! number of milli-units per second, a duration a whole number of
//! microseconds. One milli-unit per second over one microsecond is one
//! nano-unit, so a tick's decrement is the plain product of rate and duration,
//! with no rounding.
//!
//! Order within a tick: the wall handed to the physics step is built from the
//! radius as it stood before that tick's decrement; the decrement follows. The
//! wall in use therefore lags the tracked radius by exactly one tick.
//!
//! Collapse: the radius itself has no floor, so it stays an exact function of
//! the elapsed time. A wall whose radius is zero or less is never built by a
//! tick: the tick reports `Collapsed` instead, which ends the round.

use vstd::prelude::*;
use crate::ring::{
    Edge, angle_steps, angle_steps_spec, is_closed_cycle, lemma_ring_is_closed_cycle, ring_edges,
    ring_edges_spec,
};

verus! {

/// The fewest sides a wall may have.
pub const MIN_SIDES: u32 = 3;

/// Why a boundary operation was refused.
#[derive(Clone, Copy, Debug, PartialEq, Eq, Structural)]
pub enum BoundaryError {
    /// Fewer than `MIN_SIDES` sides were asked for.
    TooFewSides,
    /// The initial radius was zero or negative.
    RadiusNotPositive,
    /// The wall has shrunk to nothing: the round is over.
    Collapsed,
    /// The decrement would take the radius below what an `i64` holds.
    RadiusOutOfRange,
}

/// The arena wall: a regular polygon around the origin that shrinks with time.
#[derive(Clone, Copy, Debug, PartialEq, Eq, Structural)]
pub struct Boundary {
    /// Current radius, in nano-units.
    pub radius: i64,
    /// Number of vertices, and of segments, of the wall.
    pub side_count: u32,
    /// Shrink rate, in milli-units per second.
    pub shrink_rate: u32,
}

/// The collision shape of the wall for one tick. Vertex `k` lies on the circle
/// of radius `radius` at `angle_steps[k]` steps of a full turn divided into as
/// many equal steps as there are vertices.
#[derive(Clone, Debug, PartialEq, Eq)]
pub struct BoundaryShape {
    pub radius: i64,
    pub angle_steps: Vec<u32>,
    pub edges: Vec<Edge>,
}

/// `shape` is the wall of `side_count` sides at radius `radius`.
pub open spec fn is_shape_of(shape: BoundaryShape, radius: i64, side_count: nat) -> bool {
    &&& shape.radius == radius
    &&& shape.angle_steps@ == angle_steps_spec(side_count)
    &&& shape.edges@ == ring_edges_spec(side_count)
}

/// The radius after one tick of `elapsed_micros` at `shrink_rate`.
pub open spec fn shrunk_radius(radius: int, shrink_rate: nat, elapsed_micros: nat) -> int {
    radius - shrink_rate * elapsed_micros
}

/// `result` and `after` are what one tick of `elapsed_micros` makes of
/// `before`: a wall that has not collapsed is built at the radius as it
/// stands, and the radius is then decremented; a collapsed wall, or a
/// decrement that does not fit, is refused and changes nothing.
pub open spec fn is_tick(
    before: Boundary,
    elapsed_micros: u32,
    after: Boundary,
    result: Result<BoundaryShape, BoundaryError>,
) -> bool {
    let next = shrunk_radius(before.radius as int, before.shrink_rate as nat, elapsed_micros as nat);
    &&& after.side_count == before.side_count
    &&& after.shrink_rate == before.shrink_rate
    &&& match result {
        Ok(shape) => before.radius > 0 && is_shape_of(
            shape,
            before.radius,
            before.side_count as nat,
        ) && after.radius == next,
        Err(e) => after == before && if before.radius <= 0 {
            e == BoundaryError::Collapsed
        } else {
            e == BoundaryError::RadiusOutOfRange && next < i64::MIN
        },
    }
}

/// The sum of a sequence of tick durations.
pub open spec fn total_elapsed(durations: Seq<nat>) -> nat
    decreases durations.len(),
{
    if durations.len() == 0 {
        0
    } else {
        total_elapsed(durations.drop_last()) + durations.last()
    }
}

/// The radius after one tick for each of `durations`, in order.
pub open spec fn radius_after(initial: int, shrink_rate: nat, durations: Seq<nat>) -> int
    decreases durations.len(),
{
    if durations.len() == 0 {
        initial
    } else {
        shrunk_radius(
            radius_after(initial, shrink_rate, durations.drop_last()),
            shrink_rate,
            durations.last(),
        )
    }
}

/// Builds the wall of `side_count` sides at radius `radius`. The result
/// depends on the two arguments alone.
pub fn regenerate(radius: i64, side_count: u32) -> (shape: BoundaryShape)
    ensures
        is_shape_of(shape, radius, side_count as nat),
{
    BoundaryShape { radius, angle_steps: angle_steps(side_count), edges: ring_edges(side_count) }
}

impl Boundary {
    /// A boundary has enough sides to enclose an area.
    pub open spec fn wf(self) -> bool {
        self.side_count >= MIN_SIDES
    }

    /// Creates a boundary, refusing one with fewer than `MIN_SIDES` sides or
    /// without a positive radius.
    pub fn new(radius: i64, side_count: u32, shrink_rate: u32) -> (result: Result<
        Boundary,
        BoundaryError,
    >)
        ensures
            side_count < MIN_SIDES ==> result == Err::<Boundary, BoundaryError>(
                BoundaryError::TooFewSides,
            ),
            side_count >= MIN_SIDES && radius <= 0 ==> result == Err::<Boundary, BoundaryError>(
                BoundaryError::RadiusNotPositive,
            ),
            side_count >= MIN_SIDES && radius > 0 ==> result == Ok::<Boundary, BoundaryError>(
                (Boundary { radius, side_count, shrink_rate }),
            ),
            result is Ok ==> result->Ok_0.wf(),
    {
        if side_count < MIN_SIDES {
            Err(BoundaryError::TooFewSides)
        } else if radius <= 0 {
            Err(BoundaryError::RadiusNotPositive)
        } else {
            Ok(Boundary { radius, side_count, shrink_rate })
        }
    }

    /// Whether the wall has shrunk to nothing.
    pub fn is_collapsed(&self) -> (collapsed: bool)
        ensures
            collapsed == (self.radius <= 0),
    {
        self.radius <= 0
    }

    /// The wall at the current radius.
    pub fn shape(&self) -> (shape: BoundaryShape)
        ensures
            is_shape_of(shape, self.radius, self.side_count as nat),
    {
        regenerate(self.radius, self.side_count)
    }

    /// Decrements the radius by rate times duration. There is no floor: the
    /// radius may reach zero and go below. Refused, with nothing changed, only
    /// where the new radius would not fit.
    pub fn shrink(&mut self, elapsed_micros: u32) -> (result: Result<(), BoundaryError>)
        ensures
            final(self).side_count == old(self).side_count,
            final(self).shrink_rate == old(self).shrink_rate,
            match result {
                Ok(_) => final(self).radius == shrunk_radius(
                    old(self).radius as int,
                    old(self).shrink_rate as nat,
                    elapsed_micros as nat,
                ),
                Err(e) => e == BoundaryError::RadiusOutOfRange && *final(self) == *old(self)
                    && shrunk_radius(
                    old(self).radius as int,
                    old(self).shrink_rate as nat,
                    elapsed_micros as nat,
                ) < i64::MIN,
            },
    {
        assert(self.shrink_rate * elapsed_micros <= 0xffff_ffff * 0xffff_ffff) by (nonlinear_arith)
            requires
                0 <= self.shrink_rate <= 0xffff_ffff,
                0 <= elapsed_micros <= 0xffff_ffff,
        ;
        let decrement: u64 = (self.shrink_rate as u64) * (elapsed_micros as u64);
        let next: i128 = (self.radius as i128) - (decrement as i128);
        if next < i64::MIN as i128 {
            Err(BoundaryError::RadiusOutOfRange)
        } else {
            self.radius = next as i64;
            Ok(())
        }
    }

    /// One tick: hands out the wall built from the radius as it stands, then
    /// decrements the radius. A collapsed wall is not built: the tick is
    /// refused with `Collapsed`. A refused tick changes nothing.
    pub fn tick(&mut self, elapsed_micros: u32) -> (result: Result<BoundaryShape, BoundaryError>)
        ensures
            is_tick(*old(self), elapsed_micros, *final(self), result),
    {
        if self.radius <= 0 {
            return Err(BoundaryError::Collapsed);
        }
        let shape = regenerate(self.radius, self.side_count);
        match self.shrink(elapsed_micros) {
            Ok(_) => Ok(shape),
            Err(e) => Err(e),
        }
    }
}

/// A wall of `side_count` sides has exactly `side_count` vertices and exactly
/// `side_count` segments, and its segments form one closed cycle that visits
/// every vertex exactly once.
pub proof fn lemma_shape_is_closed_ring(shape: BoundaryShape, radius: i64, side_count: nat)
    requires
        is_shape_of(shape, radius, side_count),
        1 <= side_count <= u32::MAX,
    ensures
        shape.angle_steps@.len() == side_count,
        shape.edges@.len() == side_count,
        forall|k: int| 0 <= k < side_count ==> shape.angle_steps@[k] == k,
        is_closed_cycle(shape.edges@, side_count),
{
    lemma_ring_is_closed_cycle(side_count);
}

/// Two walls built from the same radius and side count are the same wall.
pub proof fn lemma_regenerate_is_a_function(
    first: BoundaryShape,
    second: BoundaryShape,
    radius: i64,
    side_count: nat,
)
    requires
        is_shape_of(first, radius, side_count),
        is_shape_of(second, radius, side_count),
    ensures
        first.radius == second.radius,
        first.angle_steps@ == second.angle_steps@,
        first.edges@ == second.edges@,
{
}

/// After any sequence of ticks the radius is the initial radius less the
/// shrink rate times the sum of the durations.
pub proof fn lemma_radius_after_ticks(initial: int, shrink_rate: nat, durations: Seq<nat>)
    ensures
        radius_after(initial, shrink_rate, durations) == initial - shrink_rate * total_elapsed(
            durations,
        ),
    decreases durations.len(),
{
    if durations.len() > 0 {
        let before = durations.drop_last();
        lemma_radius_after_ticks(initial, shrink_rate, before);
        assert(shrink_rate * (total_elapsed(before) + durations.last()) == shrink_rate
            * total_elapsed(before) + shrink_rate * durations.last()) by (nonlinear_arith);
    } else {
        assert(shrink_rate * 0 == 0) by (nonlinear_arith);
    }
}

/// With a positive shrink rate and positive durations the radius strictly
/// decreases: after more ticks it is smaller than after fewer.
pub proof fn lemma_radius_strictly_decreases(
    initial: int,
    shrink_rate: nat,
    durations: Seq<nat>,
    fewer: int,
    more: int,
)
    requires
        shrink_rate > 0,
        forall|k: int| 0 <= k < durations.len() ==> durations[k] > 0,
        0 <= fewer < more <= durations.len(),
    ensures
        radius_after(initial, shrink_rate, durations.take(more)) < radius_after(
            initial,
            shrink_rate,
            durations.take(fewer),
        ),
    decreases more - fewer,
{
    let longer = durations.take(more);
    assert(longer.drop_last() =~= durations.take(more - 1));
    assert(longer.last() == durations[more - 1]);
    assert(shrink_rate * longer.last() > 0) by (nonlinear_arith)
        requires
            shrink_rate > 0,
            longer.last() > 0,
    ;
    if fewer < more - 1 {
        lemma_radius_strictly_decreases(initial, shrink_rate, durations, fewer, more - 1);
    }
}

} // verus!
