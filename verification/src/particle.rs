//! Sparks: they fly on in a straight line, shrink, and are gone once
//! nothing is left of them.

use vstd::prelude::*;
use crate::player::{travel, travelled, REACH_MAX, SPEED_MAX, TICKS, TICK_MAX};
use crate::vector::Vec3;

verus! {

/// How fast a spark shrinks, in grid steps per second: half a world unit.
pub const SHRINK_SPEED: i64 = 500;

/// Greatest size of a spark.
pub const SPARK_MAX: i64 = 1_000_000;

/// A spark: where it is, how fast it flies in grid steps per second, and
/// its size.
#[derive(Clone, Copy, Debug, PartialEq, Eq, Structural)]
pub struct Particle {
    pub position: Vec3,
    pub velocity: Vec3,
    pub size: i64,
}

/// The particles that are left of the first `upto` after `ticks` of time,
/// in their order: each has flown on and shrunk, and those of which nothing
/// is left, or which have left the limits, are gone.
pub open spec fn aged_all(particles: Seq<Particle>, ticks: i64, upto: nat) -> Seq<Particle>
    decreases upto,
{
    if upto == 0 {
        Seq::empty()
    } else {
        let before = aged_all(particles, ticks, (upto - 1) as nat);
        let aged = particles[upto - 1].aged(ticks);
        if aged.alive() && aged.wf() {
            before.push(aged)
        } else {
            before
        }
    }
}

impl Particle {
    /// Position, speed and size lie within their limits.
    pub open spec fn wf(self) -> bool {
        &&& -REACH_MAX <= self.position.x <= REACH_MAX
        &&& -REACH_MAX <= self.position.y <= REACH_MAX
        &&& -REACH_MAX <= self.position.z <= REACH_MAX
        &&& -SPEED_MAX <= self.velocity.x <= SPEED_MAX
        &&& -SPEED_MAX <= self.velocity.y <= SPEED_MAX
        &&& -SPEED_MAX <= self.velocity.z <= SPEED_MAX
        &&& -SPARK_MAX <= self.size <= SPARK_MAX
    }

    /// Something is left of the particle.
    pub open spec fn alive(self) -> bool {
        self.size > 0
    }

    /// The particle after `ticks` of time: flown on by its velocity, and
    /// smaller by what it shrinks in that time, in whole grid steps.
    pub open spec fn aged(self, ticks: i64) -> Particle {
        Particle {
            position: Vec3 {
                x: (self.position.x + travelled(self.velocity.x, ticks)) as i64,
                y: (self.position.y + travelled(self.velocity.y, ticks)) as i64,
                z: (self.position.z + travelled(self.velocity.z, ticks)) as i64,
            },
            velocity: self.velocity,
            size: (self.size - SHRINK_SPEED * ticks / (TICKS as int)) as i64,
        }
    }

    /// Whether position, speed and size lie within their limits.
    pub fn in_bounds(&self) -> (yes: bool)
        ensures
            yes == self.wf(),
    {
        -REACH_MAX <= self.position.x && self.position.x <= REACH_MAX && -REACH_MAX
            <= self.position.y && self.position.y <= REACH_MAX && -REACH_MAX <= self.position.z
            && self.position.z <= REACH_MAX && -SPEED_MAX <= self.velocity.x && self.velocity.x
            <= SPEED_MAX && -SPEED_MAX <= self.velocity.y && self.velocity.y <= SPEED_MAX
            && -SPEED_MAX <= self.velocity.z && self.velocity.z <= SPEED_MAX && -SPARK_MAX
            <= self.size && self.size <= SPARK_MAX
    }

    /// The particle after `ticks` of time, see `aged`.
    pub fn age(&self, ticks: i64) -> (later: Particle)
        requires
            self.wf(),
            0 <= ticks <= TICK_MAX,
        ensures
            later == self.aged(ticks),
    {
        Particle {
            position: Vec3::new(
                self.position.x + travel(self.velocity.x, ticks),
                self.position.y + travel(self.velocity.y, ticks),
                self.position.z + travel(self.velocity.z, ticks),
            ),
            velocity: self.velocity,
            size: self.size - SHRINK_SPEED * ticks / TICKS,
        }
    }
}

/// Every particle of the sequence lies within the limits.
pub open spec fn all_in_bounds(particles: Seq<Particle>) -> bool {
    forall|i: int| 0 <= i < particles.len() ==> (#[trigger] particles[i]).wf()
}

/// Moves every particle on by `ticks` of time and drops those of which
/// nothing is left.
pub fn update_particles(particles: &mut Vec<Particle>, ticks: i64)
    requires
        all_in_bounds(old(particles)@),
        0 <= ticks <= TICK_MAX,
    ensures
        final(particles)@ == aged_all(old(particles)@, ticks, old(particles)@.len()),
        all_in_bounds(final(particles)@),
        final(particles)@.len() <= old(particles)@.len(),
{
    let mut kept: Vec<Particle> = Vec::new();
    let mut i: usize = 0;
    while i < particles.len()
        invariant
            i <= particles@.len(),
            particles@ == old(particles)@,
            all_in_bounds(particles@),
            0 <= ticks <= TICK_MAX,
            kept@ == aged_all(particles@, ticks, i as nat),
            all_in_bounds(kept@),
            kept@.len() <= i,
        decreases particles@.len() - i,
    {
        assert(particles@[i as int].wf());
        let later = particles[i].age(ticks);
        if later.size > 0 && later.in_bounds() {
            kept.push(later);
        }
        i += 1;
    }
    *particles = kept;
}

} // verus!
