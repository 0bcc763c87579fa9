//! Food and poison resources.
//!
//! Both share one entity shape and are told apart by the sign of the
//! potency: positive nourishes, negative harms. The radius is always
//! half the potency's magnitude, and the hue is drawn from a palette
//! keyed by the polarity.

use vstd::prelude::*;
use crate::fx::{FX_MAX, abs_s, in_fx, fx_abs};
use crate::vec2::{V2, v2_wf};
use crate::rng::rng_range;

verus! {

/// Lower bound (inclusive) of the poison palette's hue.
pub const POISON_HUE_MIN: i64 = 0;

/// Upper bound (exclusive) of the poison palette's hue.
pub const POISON_HUE_MAX: i64 = 100;

/// Lower bound (inclusive) of the food palette's hue.
pub const FOOD_HUE_MIN: i64 = 250;

/// Upper bound (exclusive) of the food palette's hue.
pub const FOOD_HUE_MAX: i64 = 400;

/// Lower bound (inclusive) of a fresh resource's potency magnitude.
pub const POTENCY_MIN: i64 = 15000;

/// Upper bound (exclusive) of a fresh resource's potency magnitude.
pub const POTENCY_MAX: i64 = 25000;

/// A food or poison resource.
#[derive(Clone, Copy, PartialEq, Eq, Structural, Debug)]
pub struct Food {
    pub position: V2,
    pub hue: i64,
    pub radius: i64,
    pub potency: i64,
}

/// The resource invariant: in-domain scalars, and the radius is half
/// the potency's magnitude.
pub open spec fn food_wf(f: Food) -> bool {
    &&& v2_wf(f.position)
    &&& 0 <= f.hue <= FX_MAX
    &&& in_fx(f.potency as int)
    &&& f.radius == abs_s(f.potency as int) / 2
}

impl Food {
    /// A resource of the given potency: the radius is half the
    /// potency's magnitude and the hue is drawn from the poison palette
    /// for a negative potency, from the food palette otherwise.
    pub fn new(position: V2, potency: i64, rng: &mut rand::rngs::StdRng) -> (r: Food)
        requires
            v2_wf(position),
            in_fx(potency as int),
        ensures
            r.position == position,
            r.potency == potency,
            r.radius == abs_s(potency as int) / 2,
            potency < 0 ==> POISON_HUE_MIN <= r.hue < POISON_HUE_MAX,
            potency >= 0 ==> FOOD_HUE_MIN <= r.hue < FOOD_HUE_MAX,
            food_wf(r),
    {
        let hue: i64 = if potency < 0 {
            rng_range(rng, POISON_HUE_MIN as u64, POISON_HUE_MAX as u64) as i64
        } else {
            rng_range(rng, FOOD_HUE_MIN as u64, FOOD_HUE_MAX as u64) as i64
        };
        let radius: i64 = (fx_abs(potency) / 2) as i64;
        Food { position, hue, radius, potency }
    }

    /// A fresh food resource: potency drawn uniformly from
    /// `[POTENCY_MIN, POTENCY_MAX)`.
    pub fn new_food(position: V2, rng: &mut rand::rngs::StdRng) -> (r: Food)
        requires
            v2_wf(position),
        ensures
            r.position == position,
            POTENCY_MIN <= r.potency < POTENCY_MAX,
            r.radius == r.potency / 2,
            FOOD_HUE_MIN <= r.hue < FOOD_HUE_MAX,
            food_wf(r),
    {
        let potency = rng_range(rng, POTENCY_MIN as u64, POTENCY_MAX as u64) as i64;
        Food::new(position, potency, rng)
    }

    /// A fresh poison resource: potency drawn uniformly from
    /// `[POTENCY_MIN, POTENCY_MAX)` and negated.
    pub fn new_poison(position: V2, rng: &mut rand::rngs::StdRng) -> (r: Food)
        requires
            v2_wf(position),
        ensures
            r.position == position,
            -POTENCY_MAX < r.potency <= -POTENCY_MIN,
            r.radius == (-(r.potency as int)) / 2,
            POISON_HUE_MIN <= r.hue < POISON_HUE_MAX,
            food_wf(r),
    {
        let potency = -(rng_range(rng, POTENCY_MIN as u64, POTENCY_MAX as u64) as i64);
        Food::new(position, potency, rng)
    }
}

} // verus!
