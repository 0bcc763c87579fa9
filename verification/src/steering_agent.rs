//! Agents and their steering behaviours.
//!
//! An agent carries position, velocity and a per-tick acceleration
//! accumulator, a facing direction, hunger, age, an optional wander
//! target and its genome. Steering behaviours accumulate bounded
//! forces into the acceleration; the physics step then integrates
//! them, clamps the speed to the genome's limit and resets the
//! accumulator.
//!
//! The facing direction is kept as the last non-zero pre-clamp
//! velocity vector; a renderer derives its angle from the pair.
//! An agent exactly at a steering target receives a zero force: the
//! degenerate normalization is special-cased rather than letting an
//! undefined direction propagate.

use vstd::prelude::*;
use crate::fx::{
    SCALE, FX_MAX, in_fx, fadd_s, fsub_s, muldiv_s, isqrt_s, fadd, fmuldiv,
    lemma_muldiv_nonneg,
};
use crate::vec2::{
    V2, Bounds, v2_wf, v2s, v2_add_sp, v2_sub_sp, v2_neg_sp, v2_fmul_sp, dsq_sp, msq_sp,
    v2_scale_dir_sp, v2_clamp_mag_sp, bounds_wf, in_bounds, v2_new, v2_zero, v2_add, v2_sub,
    v2_neg, v2_fmul, v2_dist_sq, v2_mag_sq, v2_mag, v2_scale_dir, v2_clamp_mag,
};
use crate::dna::{Dna, dna_wf};
use crate::rng::rng_range;

verus! {

/// Hunger gained by every physics step, in `SCALE` parts.
pub const HUNGER_STEP: i64 = 200;

/// Squared speed below which the velocity snaps to zero.
pub const VEL_SNAP_MSQ: i64 = 100;

/// Squared distance within which a wander target counts as reached
/// and is cleared. Squared distances carry the scale twice.
pub const WANDER_CLEAR_DSQ: i64 = 16000000;

/// A mobile agent.
#[derive(Clone, Copy, Debug)]
pub struct SteeringAgent {
    pub position: V2,
    pub velocity: V2,
    pub acceleration: V2,
    pub heading: V2,
    pub hunger: i64,
    pub age: i64,
    pub wander_target: Option<V2>,
    pub dna: Dna,
}

/// The agent invariant: every vector and scalar is in-domain, age is
/// non-negative, and the genome is well formed.
pub open spec fn agent_wf(a: SteeringAgent) -> bool {
    &&& v2_wf(a.position)
    &&& v2_wf(a.velocity)
    &&& v2_wf(a.acceleration)
    &&& v2_wf(a.heading)
    &&& in_fx(a.hunger as int)
    &&& 0 <= a.age <= FX_MAX
    &&& match a.wander_target {
        Some(t) => v2_wf(t),
        None => true,
    }
    &&& dna_wf(a.dna)
}

/// The agent with a force accumulated into its acceleration.
pub open spec fn with_accel(a: SteeringAgent, f: V2) -> SteeringAgent {
    SteeringAgent { acceleration: v2_add_sp(a.acceleration, f), ..a }
}

/// The force that `seek` accumulates: desired velocity at full speed
/// toward the target, minus the current velocity, clamped to the
/// genome's steering limit, scaled by the multiplier. An agent exactly
/// at the target receives no force.
pub open spec fn seek_force_sp(
    pos: V2,
    vel: V2,
    maxv: int,
    maxf: int,
    target: V2,
    mult: int,
) -> V2 {
    let diff = v2_sub_sp(target, pos);
    if msq_sp(diff) == 0 {
        v2s(0, 0)
    } else {
        let d = isqrt_s(msq_sp(diff));
        let desired = v2_scale_dir_sp(diff, maxv, d);
        v2_fmul_sp(v2_clamp_mag_sp(v2_sub_sp(desired, vel), maxf), mult)
    }
}

/// The desired speed of `arrive`: ramps linearly from zero at the
/// target to full speed at the arrive threshold and beyond.
pub open spec fn arrive_speed_sp(d: int, thresh: int, maxv: int) -> int {
    if d < thresh {
        muldiv_s(d, maxv, thresh)
    } else {
        maxv
    }
}

/// The force that `arrive` accumulates: like `seek_force_sp`, but the
/// desired speed ramps down on approach.
pub open spec fn arrive_force_sp(
    pos: V2,
    vel: V2,
    maxv: int,
    maxf: int,
    thresh: int,
    target: V2,
    mult: int,
) -> V2 {
    let diff = v2_sub_sp(target, pos);
    if msq_sp(diff) == 0 {
        v2s(0, 0)
    } else {
        let d = isqrt_s(msq_sp(diff));
        let desired = v2_scale_dir_sp(diff, arrive_speed_sp(d, thresh, maxv), d);
        v2_fmul_sp(v2_clamp_mag_sp(v2_sub_sp(desired, vel), maxf), mult)
    }
}

/// The force that `flee` accumulates: the seek steering force negated
/// before the multiplier is applied.
pub open spec fn flee_force_sp(
    pos: V2,
    vel: V2,
    maxv: int,
    maxf: int,
    target: V2,
    mult: int,
) -> V2 {
    let diff = v2_sub_sp(target, pos);
    if msq_sp(diff) == 0 {
        v2s(0, 0)
    } else {
        let d = isqrt_s(msq_sp(diff));
        let desired = v2_scale_dir_sp(diff, maxv, d);
        v2_fmul_sp(v2_neg_sp(v2_clamp_mag_sp(v2_sub_sp(desired, vel), maxf)), mult)
    }
}

/// Arriving from at least the arrive threshold away is exactly
/// seeking: the ramp is saturated, so the desired velocity, and with
/// it the whole steering force, coincide.
pub proof fn lemma_arrive_far_is_seek(
    pos: V2,
    vel: V2,
    maxv: int,
    maxf: int,
    thresh: int,
    target: V2,
    mult: int,
)
    requires
        isqrt_s(msq_sp(v2_sub_sp(target, pos))) >= thresh,
    ensures
        arrive_force_sp(pos, vel, maxv, maxf, thresh, target, mult) == seek_force_sp(
            pos,
            vel,
            maxv,
            maxf,
            target,
            mult,
        ),
{
}

/// An agent exactly at the target receives a zero arrive force.
pub proof fn lemma_arrive_at_target_is_zero(
    pos: V2,
    vel: V2,
    maxv: int,
    maxf: int,
    thresh: int,
    mult: int,
)
    ensures
        arrive_force_sp(pos, vel, maxv, maxf, thresh, pos, mult) == v2s(0, 0),
{
    assert(fsub_s(pos.x as int, pos.x as int) == 0);
    assert(fsub_s(pos.y as int, pos.y as int) == 0);
    let z = v2_sub_sp(pos, pos);
    let xi = z.x as int;
    let yi = z.y as int;
    assert(xi == 0 && yi == 0);
    assert(xi * xi == 0 && yi * yi == 0);
    assert(msq_sp(z) == 0);
}

/// The physics half of the update step: integrate the acceleration,
/// snap residual creep to zero, refresh the facing direction while
/// moving, clamp the speed to the genome's limit, advance the
/// position, and reset the accumulator.
pub open spec fn update_position_sp(a: SteeringAgent) -> SteeringAgent {
    let v1 = v2_add_sp(a.velocity, a.acceleration);
    let v2 = if msq_sp(v1) < VEL_SNAP_MSQ {
        v2s(0, 0)
    } else {
        v1
    };
    let heading = if msq_sp(v2) > 0 {
        v2
    } else {
        a.heading
    };
    let v3 = v2_clamp_mag_sp(v2, a.dna.max_velocity as int);
    SteeringAgent {
        position: v2_add_sp(a.position, v3),
        velocity: v3,
        acceleration: v2s(0, 0),
        heading,
        ..a
    }
}

/// The hunger half of the update step.
pub open spec fn update_hunger_sp(a: SteeringAgent) -> SteeringAgent {
    SteeringAgent { hunger: fadd_s(a.hunger as int, HUNGER_STEP as int) as i64, ..a }
}

/// One whole physics-and-hunger step.
pub open spec fn update_sp(a: SteeringAgent) -> SteeringAgent {
    update_hunger_sp(update_position_sp(a))
}

/// The wander target an invocation works toward: the remembered one,
/// or any fresh point within the bounds.
pub open spec fn wander_pick(a: SteeringAgent, bounds: Bounds, t: V2) -> bool {
    match a.wander_target {
        Some(t0) => t == t0,
        None => in_bounds(t, bounds) && v2_wf(t),
    }
}

/// One wander invocation with target `t`: arrive at it with a unit
/// multiplier, then clear the target once within reach.
pub open spec fn wander_step_sp(a: SteeringAgent, t: V2) -> SteeringAgent {
    let a1 = with_accel(
        a,
        arrive_force_sp(
            a.position,
            a.velocity,
            a.dna.max_velocity as int,
            a.dna.max_steer_force as int,
            a.dna.arrive_threshold as int,
            t,
            SCALE as int,
        ),
    );
    SteeringAgent {
        wander_target: if dsq_sp(a.position, t) < WANDER_CLEAR_DSQ {
            None
        } else {
            Some(t)
        },
        ..a1
    }
}

/// A point drawn uniformly within the centred extent.
pub fn get_random_position(bounds: Bounds, rng: &mut rand::rngs::StdRng) -> (p: V2)
    requires
        bounds_wf(bounds),
    ensures
        in_bounds(p, bounds),
        v2_wf(p),
{
    let half_w: i64 = ((bounds.w as u64) / 2) as i64;
    let half_h: i64 = ((bounds.h as u64) / 2) as i64;
    let x: i64 = (rng_range(rng, 0, bounds.w as u64) as i64) - half_w;
    let y: i64 = (rng_range(rng, 0, bounds.h as u64) as i64) - half_h;
    v2_new(x, y)
}

impl SteeringAgent {
    /// A newborn agent at the given position with the given genome:
    /// at rest, sated, ageless, with no wander target yet.
    pub fn new(position: V2, dna: &Dna) -> (a: SteeringAgent)
        requires
            v2_wf(position),
            dna_wf(*dna),
        ensures
            a == (SteeringAgent {
                position,
                velocity: v2s(0, 0),
                acceleration: v2s(0, 0),
                heading: v2s(0, 0),
                hunger: 0i64,
                age: 0i64,
                wander_target: None::<V2>,
                dna: *dna,
            }),
            agent_wf(a),
    {
        SteeringAgent {
            position,
            velocity: v2_zero(),
            acceleration: v2_zero(),
            heading: v2_zero(),
            hunger: 0,
            age: 0,
            wander_target: None,
            dna: *dna,
        }
    }

    /// Accumulate a force into the acceleration buffer.
    pub fn apply_force(&mut self, force: V2)
        requires
            agent_wf(*old(self)),
            v2_wf(force),
        ensures
            *final(self) == with_accel(*old(self), force),
            agent_wf(*final(self)),
    {
        self.acceleration = v2_add(self.acceleration, force);
    }

    /// The common trunk of the steering behaviours: the clamped
    /// steering force toward a desired velocity of the given speed,
    /// or a zero force when already at the target.
    fn steer_toward(&self, target: V2, use_arrive_ramp: bool) -> (f: V2)
        requires
            agent_wf(*self),
            v2_wf(target),
        ensures
            v2_wf(f),
            ({
                let diff = v2_sub_sp(target, self.position);
                let maxv = self.dna.max_velocity as int;
                let thresh = self.dna.arrive_threshold as int;
                f == if msq_sp(diff) == 0 {
                    v2s(0, 0)
                } else {
                    let d = isqrt_s(msq_sp(diff));
                    let speed = if use_arrive_ramp {
                        arrive_speed_sp(d, thresh, maxv)
                    } else {
                        maxv
                    };
                    v2_clamp_mag_sp(
                        v2_sub_sp(v2_scale_dir_sp(diff, speed, d), self.velocity),
                        self.dna.max_steer_force as int,
                    )
                }
            }),
    {
        let diff = v2_sub(target, self.position);
        let dsq = v2_mag_sq(diff);
        if dsq == 0 {
            v2_zero()
        } else {
            let d: u64 = v2_mag(diff);
            proof {
                if d == 0 {
                    assert(msq_sp(diff) < (0int + 1) * (0int + 1));
                    assert(false);
                }
            }
            let speed: i64 = if use_arrive_ramp && d < self.dna.arrive_threshold as u64 {
                let s = fmuldiv(d as i64, self.dna.max_velocity, self.dna.arrive_threshold as u64);
                proof {
                    lemma_muldiv_nonneg(
                        d as int,
                        self.dna.max_velocity as int,
                        self.dna.arrive_threshold as int,
                    );
                }
                s
            } else {
                self.dna.max_velocity
            };
            let desired = v2_scale_dir(diff, speed, d);
            let steer = v2_sub(desired, self.velocity);
            v2_clamp_mag(steer, self.dna.max_steer_force)
        }
    }

    /// Seek: accumulate a full-speed steering force toward the target,
    /// scaled by the multiplier.
    pub fn seek(&mut self, target: V2, force_multiplier: i64)
        requires
            agent_wf(*old(self)),
            v2_wf(target),
            0 <= force_multiplier <= FX_MAX,
        ensures
            *final(self) == with_accel(
                *old(self),
                seek_force_sp(
                    old(self).position,
                    old(self).velocity,
                    old(self).dna.max_velocity as int,
                    old(self).dna.max_steer_force as int,
                    target,
                    force_multiplier as int,
                ),
            ),
            agent_wf(*final(self)),
    {
        let clamped = self.steer_toward(target, false);
        let force = v2_fmul(clamped, force_multiplier);
        proof {
            if msq_sp(v2_sub_sp(target, self.position)) == 0 {
                crate::vec2::lemma_fmul_zero_vec(force_multiplier as int);
            }
        }
        self.apply_force(force);
    }

    /// Arrive: like seek, but the desired speed ramps down linearly
    /// within the arrive threshold, producing deceleration on
    /// approach. At the target itself the force is zero.
    pub fn arrive(&mut self, target: V2, force_multiplier: i64)
        requires
            agent_wf(*old(self)),
            v2_wf(target),
            0 <= force_multiplier <= FX_MAX,
        ensures
            *final(self) == with_accel(
                *old(self),
                arrive_force_sp(
                    old(self).position,
                    old(self).velocity,
                    old(self).dna.max_velocity as int,
                    old(self).dna.max_steer_force as int,
                    old(self).dna.arrive_threshold as int,
                    target,
                    force_multiplier as int,
                ),
            ),
            old(self).position == target ==> final(self).acceleration == old(self).acceleration,
            agent_wf(*final(self)),
    {
        let clamped = self.steer_toward(target, true);
        let force = v2_fmul(clamped, force_multiplier);
        proof {
            if msq_sp(v2_sub_sp(target, self.position)) == 0 {
                crate::vec2::lemma_fmul_zero_vec(force_multiplier as int);
                crate::vec2::lemma_add_zero_vec(self.acceleration);
            }
        }
        self.apply_force(force);
    }

    /// Flee: the seek steering force away from the target.
    pub fn flee(&mut self, target: V2, force_multiplier: i64)
        requires
            agent_wf(*old(self)),
            v2_wf(target),
            0 <= force_multiplier <= FX_MAX,
        ensures
            *final(self) == with_accel(
                *old(self),
                flee_force_sp(
                    old(self).position,
                    old(self).velocity,
                    old(self).dna.max_velocity as int,
                    old(self).dna.max_steer_force as int,
                    target,
                    force_multiplier as int,
                ),
            ),
            agent_wf(*final(self)),
    {
        let clamped = self.steer_toward(target, false);
        let force = v2_fmul(v2_neg(clamped), force_multiplier);
        proof {
            if msq_sp(v2_sub_sp(target, self.position)) == 0 {
                crate::vec2::lemma_neg_zero_vec();
                crate::vec2::lemma_fmul_zero_vec(force_multiplier as int);
            }
        }
        self.apply_force(force);
    }

    /// Wander: arrive at a remembered random target, choosing a fresh
    /// one within the bounds when none is held, and clear it once the
    /// agent comes within reach so the next invocation re-targets.
    pub fn wander(&mut self, bounds: Bounds, rng: &mut rand::rngs::StdRng)
        requires
            agent_wf(*old(self)),
            bounds_wf(bounds),
        ensures
            exists|t: V2|
                #[trigger] wander_pick(*old(self), bounds, t) && *final(self) == wander_step_sp(
                    *old(self),
                    t,
                ),
            (old(self).wander_target matches Some(t0) ==> *final(self) == wander_step_sp(
                *old(self),
                t0,
            )),
            agent_wf(*final(self)),
    {
        let ghost a0 = *self;
        let t: V2 = match self.wander_target {
            Some(t) => t,
            None => {
                let t = get_random_position(bounds, rng);
                self.wander_target = Some(t);
                t
            },
        };
        self.arrive(t, SCALE);
        let d = v2_dist_sq(self.position, t);
        if d < WANDER_CLEAR_DSQ as u128 {
            self.wander_target = None;
        }
        proof {
            assert(wander_pick(a0, bounds, t));
            assert(*self == wander_step_sp(a0, t));
        }
    }

    /// The physics half of the per-tick update.
    fn update_position(&mut self)
        requires
            agent_wf(*old(self)),
        ensures
            *final(self) == update_position_sp(*old(self)),
            agent_wf(*final(self)),
            msq_sp(final(self).velocity) <= (old(self).dna.max_velocity as int) * (
            old(self).dna.max_velocity as int),
    {
        self.velocity = v2_add(self.velocity, self.acceleration);
        let msq = v2_mag_sq(self.velocity);
        if msq < VEL_SNAP_MSQ as u128 {
            self.velocity = v2_zero();
        }
        let msq2 = v2_mag_sq(self.velocity);
        if msq2 > 0 {
            self.heading = self.velocity;
        }
        self.velocity = v2_clamp_mag(self.velocity, self.dna.max_velocity);
        self.position = v2_add(self.position, self.velocity);
        self.acceleration = v2_zero();
    }

    /// The hunger half of the per-tick update.
    fn update_hunger(&mut self)
        requires
            agent_wf(*old(self)),
        ensures
            *final(self) == update_hunger_sp(*old(self)),
            agent_wf(*final(self)),
    {
        self.hunger = fadd(self.hunger, HUNGER_STEP);
    }

    /// One whole per-tick step: integrate the accumulated forces and
    /// grow hunger by the fixed increment. Afterwards the speed never
    /// exceeds the genome's velocity limit.
    pub fn update(&mut self)
        requires
            agent_wf(*old(self)),
        ensures
            *final(self) == update_sp(*old(self)),
            agent_wf(*final(self)),
            msq_sp(final(self).velocity) <= (old(self).dna.max_velocity as int) * (
            old(self).dna.max_velocity as int),
    {
        self.update_position();
        self.update_hunger();
    }
}

} // verus!
