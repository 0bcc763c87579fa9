//! The genome: eight heritable fixed-point traits that govern an
//! agent's movement limits and sensing.
//!
//! A genome is drawn uniformly at birth, copied into offspring through
//! the mutation operator, and otherwise immutable. Mutation multiplies
//! each trait, independently and with a given probability, by a factor
//! drawn uniformly from `[MUT_FACTOR_MIN, MUT_FACTOR_MAX)`; no
//! re-clamping into the initial ranges is applied afterwards, so traits
//! may drift across generations.

use vstd::prelude::*;
use crate::fx::{SCALE, FX_MAX, fmul_s, fmul, lemma_fmul_nonneg};
use crate::rng::rng_range;

verus! {

pub const HUE_MIN: i64 = 0;

pub const HUE_MAX: i64 = 1000;

pub const MAX_VELOCITY_MIN: i64 = 2500;

pub const MAX_VELOCITY_MAX: i64 = 5000;

pub const MAX_STEER_FORCE_MIN: i64 = 75;

pub const MAX_STEER_FORCE_MAX: i64 = 200;

pub const ARRIVE_THRESHOLD_MIN: i64 = 48000;

pub const ARRIVE_THRESHOLD_MAX: i64 = 64000;

pub const DETECTION_RADIUS_MIN: i64 = 64000;

pub const DETECTION_RADIUS_MAX: i64 = 192000;

pub const FORCE_MULTIPLIER_MIN: i64 = 750;

pub const FORCE_MULTIPLIER_MAX: i64 = 1250;

/// Lower bound (inclusive) of the mutation factor, in `SCALE` parts.
pub const MUT_FACTOR_MIN: i64 = 930;

/// Upper bound (exclusive) of the mutation factor, in `SCALE` parts.
pub const MUT_FACTOR_MAX: i64 = 1070;

/// The trait vector of one agent.
#[derive(Clone, Copy, PartialEq, Eq, Structural, Debug)]
pub struct Dna {
    pub hue: i64,
    pub max_velocity: i64,
    pub max_steer_force: i64,
    pub arrive_threshold: i64,
    pub food_detection_radius: i64,
    pub food_force_multiplier: i64,
    pub poison_detection_radius: i64,
    pub poison_force_multiplier: i64,
}

/// Every trait is a non-negative in-domain scalar.
pub open spec fn dna_wf(g: Dna) -> bool {
    &&& 0 <= g.hue <= FX_MAX
    &&& 0 <= g.max_velocity <= FX_MAX
    &&& 0 <= g.max_steer_force <= FX_MAX
    &&& 0 <= g.arrive_threshold <= FX_MAX
    &&& 0 <= g.food_detection_radius <= FX_MAX
    &&& 0 <= g.food_force_multiplier <= FX_MAX
    &&& 0 <= g.poison_detection_radius <= FX_MAX
    &&& 0 <= g.poison_force_multiplier <= FX_MAX
}

/// Every trait lies in the range that random initialization draws from.
pub open spec fn dna_in_init_ranges(g: Dna) -> bool {
    &&& HUE_MIN <= g.hue < HUE_MAX
    &&& MAX_VELOCITY_MIN <= g.max_velocity < MAX_VELOCITY_MAX
    &&& MAX_STEER_FORCE_MIN <= g.max_steer_force < MAX_STEER_FORCE_MAX
    &&& ARRIVE_THRESHOLD_MIN <= g.arrive_threshold < ARRIVE_THRESHOLD_MAX
    &&& DETECTION_RADIUS_MIN <= g.food_detection_radius < DETECTION_RADIUS_MAX
    &&& FORCE_MULTIPLIER_MIN <= g.food_force_multiplier < FORCE_MULTIPLIER_MAX
    &&& DETECTION_RADIUS_MIN <= g.poison_detection_radius < DETECTION_RADIUS_MAX
    &&& FORCE_MULTIPLIER_MIN <= g.poison_force_multiplier < FORCE_MULTIPLIER_MAX
}

/// One trait changed by a mutation factor from `[MUT_FACTOR_MIN,
/// MUT_FACTOR_MAX)`.
pub open spec fn trait_mutated(t: int, n: int) -> bool {
    exists|f: int|
        MUT_FACTOR_MIN <= f < MUT_FACTOR_MAX && n == #[trigger] fmul_s(t, f)
}

/// Each trait of `b` is the corresponding trait of `a`, either copied
/// unchanged or changed by one mutation factor.
pub open spec fn dna_mutation_of(a: Dna, b: Dna) -> bool {
    &&& (b.hue == a.hue || trait_mutated(a.hue as int, b.hue as int))
    &&& (b.max_velocity == a.max_velocity || trait_mutated(
        a.max_velocity as int,
        b.max_velocity as int,
    ))
    &&& (b.max_steer_force == a.max_steer_force || trait_mutated(
        a.max_steer_force as int,
        b.max_steer_force as int,
    ))
    &&& (b.arrive_threshold == a.arrive_threshold || trait_mutated(
        a.arrive_threshold as int,
        b.arrive_threshold as int,
    ))
    &&& (b.food_detection_radius == a.food_detection_radius || trait_mutated(
        a.food_detection_radius as int,
        b.food_detection_radius as int,
    ))
    &&& (b.food_force_multiplier == a.food_force_multiplier || trait_mutated(
        a.food_force_multiplier as int,
        b.food_force_multiplier as int,
    ))
    &&& (b.poison_detection_radius == a.poison_detection_radius || trait_mutated(
        a.poison_detection_radius as int,
        b.poison_detection_radius as int,
    ))
    &&& (b.poison_force_multiplier == a.poison_force_multiplier || trait_mutated(
        a.poison_force_multiplier as int,
        b.poison_force_multiplier as int,
    ))
}

/// Every trait of `b` was changed by one mutation factor.
pub open spec fn dna_fully_mutated(a: Dna, b: Dna) -> bool {
    &&& trait_mutated(a.hue as int, b.hue as int)
    &&& trait_mutated(a.max_velocity as int, b.max_velocity as int)
    &&& trait_mutated(a.max_steer_force as int, b.max_steer_force as int)
    &&& trait_mutated(a.arrive_threshold as int, b.arrive_threshold as int)
    &&& trait_mutated(a.food_detection_radius as int, b.food_detection_radius as int)
    &&& trait_mutated(a.food_force_multiplier as int, b.food_force_multiplier as int)
    &&& trait_mutated(a.poison_detection_radius as int, b.poison_detection_radius as int)
    &&& trait_mutated(a.poison_force_multiplier as int, b.poison_force_multiplier as int)
}

/// One trait's mutation roll: with probability `chance` in `SCALE`
/// parts the trait is multiplied by a fresh mutation factor, otherwise
/// it is copied unchanged.
fn mutate_trait(t: i64, chance: i64, rng: &mut rand::rngs::StdRng) -> (n: i64)
    requires
        0 <= t <= FX_MAX,
    ensures
        n == t || trait_mutated(t as int, n as int),
        chance <= 0 ==> n == t,
        chance >= SCALE ==> trait_mutated(t as int, n as int),
        0 <= n <= FX_MAX,
{
    let roll = rng_range(rng, 0, SCALE as u64);
    if (roll as i64) < chance {
        let f = rng_range(rng, MUT_FACTOR_MIN as u64, MUT_FACTOR_MAX as u64) as i64;
        let n = fmul(t, f);
        proof {
            lemma_fmul_nonneg(t as int, f as int);
            assert(trait_mutated(t as int, n as int)) by {
                assert(MUT_FACTOR_MIN <= f < MUT_FACTOR_MAX && n == fmul_s(
                    t as int,
                    f as int,
                ));
            }
        }
        n
    } else {
        t
    }
}

impl Dna {
    /// A fresh genome: every trait drawn uniformly from its fixed range.
    pub fn random(rng: &mut rand::rngs::StdRng) -> (g: Dna)
        ensures
            dna_in_init_ranges(g),
            dna_wf(g),
    {
        Dna {
            hue: rng_range(rng, HUE_MIN as u64, HUE_MAX as u64) as i64,
            max_velocity: rng_range(rng, MAX_VELOCITY_MIN as u64, MAX_VELOCITY_MAX as u64) as i64,
            max_steer_force: rng_range(
                rng,
                MAX_STEER_FORCE_MIN as u64,
                MAX_STEER_FORCE_MAX as u64,
            ) as i64,
            arrive_threshold: rng_range(
                rng,
                ARRIVE_THRESHOLD_MIN as u64,
                ARRIVE_THRESHOLD_MAX as u64,
            ) as i64,
            food_detection_radius: rng_range(
                rng,
                DETECTION_RADIUS_MIN as u64,
                DETECTION_RADIUS_MAX as u64,
            ) as i64,
            food_force_multiplier: rng_range(
                rng,
                FORCE_MULTIPLIER_MIN as u64,
                FORCE_MULTIPLIER_MAX as u64,
            ) as i64,
            poison_detection_radius: rng_range(
                rng,
                DETECTION_RADIUS_MIN as u64,
                DETECTION_RADIUS_MAX as u64,
            ) as i64,
            poison_force_multiplier: rng_range(
                rng,
                FORCE_MULTIPLIER_MIN as u64,
                FORCE_MULTIPLIER_MAX as u64,
            ) as i64,
        }
    }

    /// A mutated copy: each trait keeps its value or is multiplied by a
    /// fresh factor, independently with probability `mutate_chance` in
    /// `SCALE` parts. A chance at or below zero copies the genome
    /// bit for bit; a chance at or above `SCALE` mutates every trait.
    pub fn mutate(self, mutate_chance: i64, rng: &mut rand::rngs::StdRng) -> (g: Dna)
        requires
            dna_wf(self),
        ensures
            dna_mutation_of(self, g),
            mutate_chance <= 0 ==> g == self,
            mutate_chance >= SCALE ==> dna_fully_mutated(self, g),
            dna_wf(g),
    {
        Dna {
            max_velocity: mutate_trait(self.max_velocity, mutate_chance, rng),
            max_steer_force: mutate_trait(self.max_steer_force, mutate_chance, rng),
            arrive_threshold: mutate_trait(self.arrive_threshold, mutate_chance, rng),
            food_detection_radius: mutate_trait(self.food_detection_radius, mutate_chance, rng),
            food_force_multiplier: mutate_trait(self.food_force_multiplier, mutate_chance, rng),
            poison_detection_radius: mutate_trait(
                self.poison_detection_radius,
                mutate_chance,
                rng,
            ),
            poison_force_multiplier: mutate_trait(
                self.poison_force_multiplier,
                mutate_chance,
                rng,
            ),
            hue: mutate_trait(self.hue, mutate_chance, rng),
        }
    }
}

} // verus!
