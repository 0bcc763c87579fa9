//! The population controller.
//!
//! One simulation tick walks the live agents in order. Each agent
//! first filters the shared poison list: overlapped poison kills the
//! agent and is removed, detected poison adds a flee force. A
//! surviving agent then either starves, chases and possibly consumes
//! the nearest detectable food, or wanders; its physics step runs, and
//! it may leave a newborn. After the pass the collections are
//! replenished toward their configured minimums.
//!
//! The survival decisions, the poison filtering and the food
//! consumption are deterministic functions of the tick's starting
//! state, captured by the fold functions below; only the kinematics of
//! wandering, the newborn genomes and the replenished entities depend
//! on the random source, and of those the contracts state shape and
//! range.

use vstd::prelude::*;
use crate::fx::{
    SCALE, FX_MAX, in_fx, fadd_s, fsub_s, fadd, fsub,
};
use crate::vec2::{
    V2, Bounds, v2_wf, v2s, dsq_sp, bounds_wf, in_bounds, v2_dist_sq,
};
use crate::dna::{Dna, dna_in_init_ranges, dna_mutation_of};
use crate::food::{
    Food, food_wf, POTENCY_MIN, POTENCY_MAX, FOOD_HUE_MIN, FOOD_HUE_MAX, POISON_HUE_MIN,
    POISON_HUE_MAX,
};
use crate::steering_agent::{
    SteeringAgent, agent_wf, with_accel, arrive_force_sp, flee_force_sp, wander_pick,
    wander_step_sp, update_sp, get_random_position,
};
use crate::vec2::v2_add_sp;
use crate::rng::rng_range;

verus! {

/// Hunger above which an agent starves, in `SCALE` parts.
pub const MAX_HUNGER_BEFORE_DEAD: i64 = 128000;

/// Hunger above which an agent searches for food, in `SCALE` parts.
pub const MAX_HUNGER_BEFORE_SEARCH: i64 = 20000;

/// Per-tick reproduction probability, in `SCALE` parts.
pub const REPRODUCTION_CHANCE: i64 = 1;

/// Mutation probability applied to an offspring's genome, in `SCALE`
/// parts.
pub const CHILD_MUTATE_CHANCE: i64 = 750;

/// Probability that one missing food slot is refilled, in `SCALE`
/// parts.
pub const FOOD_REFILL_CHANCE: i64 = 300;

/// Every resource of the sequence is well formed.
pub open spec fn foods_wf(s: Seq<Food>) -> bool {
    forall|i: int| 0 <= i < s.len() ==> food_wf(#[trigger] s[i])
}

/// Every agent of the sequence is well formed.
pub open spec fn agents_wf(s: Seq<SteeringAgent>) -> bool {
    forall|i: int| 0 <= i < s.len() ==> agent_wf(#[trigger] s[i])
}

/// The squared radius of a resource.
pub open spec fn radius_sq(f: Food) -> int {
    (f.radius as int) * (f.radius as int)
}

/// The squared detection radius for poison.
pub open spec fn poison_detect_sq(g: Dna) -> int {
    (g.poison_detection_radius as int) * (g.poison_detection_radius as int)
}

/// The squared detection radius for food.
pub open spec fn food_detect_sq(g: Dna) -> int {
    (g.food_detection_radius as int) * (g.food_detection_radius as int)
}

/// A body at `pos` overlaps the resource.
pub open spec fn poison_contact(pos: V2, p: Food) -> bool {
    dsq_sp(pos, p.position) < radius_sq(p)
}

/// A body at `pos` overlaps some resource of the sequence.
pub open spec fn touches_any(pos: V2, ps: Seq<Food>) -> bool {
    exists|j: int| 0 <= j < ps.len() && poison_contact(pos, #[trigger] ps[j])
}

/// The first `i` resources with those overlapped by `pos` removed,
/// in order.
pub open spec fn kept_prefix(pos: V2, ps: Seq<Food>, i: int) -> Seq<Food>
    decreases i,
{
    if i <= 0 {
        Seq::empty()
    } else {
        let prev = kept_prefix(pos, ps, i - 1);
        if poison_contact(pos, ps[i - 1]) {
            prev
        } else {
            prev.push(ps[i - 1])
        }
    }
}

/// Every resource the filter keeps is free of contact.
pub proof fn lemma_kept_prefix_sound(pos: V2, ps: Seq<Food>, i: int)
    requires
        0 <= i <= ps.len(),
    ensures
        forall|k: int|
            0 <= k < kept_prefix(pos, ps, i).len() ==> !poison_contact(
                pos,
                #[trigger] kept_prefix(pos, ps, i)[k],
            ),
    decreases i,
{
    if i > 0 {
        lemma_kept_prefix_sound(pos, ps, i - 1);
        let prev = kept_prefix(pos, ps, i - 1);
        let cur = kept_prefix(pos, ps, i);
        assert forall|k: int| 0 <= k < cur.len() implies !poison_contact(pos, cur[k]) by {
            if !poison_contact(pos, ps[i - 1]) {
                assert(cur == prev.push(ps[i - 1]));
                if k < prev.len() {
                    assert(cur[k] == prev[k]);
                } else {
                    assert(cur[k] == ps[i - 1]);
                }
            }
        }
    }
}

/// An overlapped resource kills the agent standing on it and no longer
/// appears in the filtered sequence.
pub proof fn lemma_poison_contact_removes(a: SteeringAgent, ps: Seq<Food>, j: int)
    requires
        0 <= j < ps.len(),
        poison_contact(a.position, ps[j]),
    ensures
        !step_retains(a, ps),
        !kept_prefix(a.position, ps, ps.len() as int).contains(ps[j]),
{
    assert(touches_any(a.position, ps));
    lemma_kept_prefix_sound(a.position, ps, ps.len() as int);
    let kept = kept_prefix(a.position, ps, ps.len() as int);
    assert forall|k: int| 0 <= k < kept.len() implies kept[k] != ps[j] by {
        assert(!poison_contact(a.position, kept[k]));
    }
}

/// An agent survives its turn: it overlaps no poison still present,
/// and its hunger is at or below the starvation threshold.
pub open spec fn step_retains(a: SteeringAgent, ps: Seq<Food>) -> bool {
    !touches_any(a.position, ps) && a.hunger <= MAX_HUNGER_BEFORE_DEAD
}

/// A starving agent is never retained, whatever the poison around it.
pub proof fn lemma_starved_not_retained(a: SteeringAgent, ps: Seq<Food>)
    requires
        a.hunger > MAX_HUNGER_BEFORE_DEAD,
    ensures
        !step_retains(a, ps),
{
}

/// The acceleration after fleeing, in order, every resource of the
/// sequence that lies within the detection radius.
pub open spec fn accel_after_flee(
    acc: V2,
    pos: V2,
    vel: V2,
    g: Dna,
    ps: Seq<Food>,
    i: int,
) -> V2
    decreases i,
{
    if i <= 0 {
        acc
    } else {
        let prev = accel_after_flee(acc, pos, vel, g, ps, i - 1);
        if dsq_sp(pos, ps[i - 1].position) < poison_detect_sq(g) {
            v2_add_sp(
                prev,
                flee_force_sp(
                    pos,
                    vel,
                    g.max_velocity as int,
                    g.max_steer_force as int,
                    ps[i - 1].position,
                    g.poison_force_multiplier as int,
                ),
            )
        } else {
            prev
        }
    }
}

/// The index of the nearest resource among the first `i` that lies
/// strictly within the given squared distance; ties keep the earliest.
pub open spec fn closest_prefix(pos: V2, mdsq: int, fs: Seq<Food>, i: int) -> Option<int>
    decreases i,
{
    if i <= 0 {
        None
    } else {
        let prev = closest_prefix(pos, mdsq, fs, i - 1);
        let d = dsq_sp(pos, fs[i - 1].position);
        if d < mdsq && (match prev {
            Some(k) => d < dsq_sp(pos, fs[k].position),
            None => true,
        }) {
            Some(i - 1)
        } else {
            prev
        }
    }
}

/// What the linear scan's result means: the winner lies within range,
/// no resource in range is nearer, and every earlier resource is out
/// of range or strictly farther; a `None` means nothing is in range.
pub proof fn lemma_closest_prefix_props(pos: V2, mdsq: int, fs: Seq<Food>, i: int)
    requires
        0 <= i <= fs.len(),
    ensures
        match closest_prefix(pos, mdsq, fs, i) {
            Some(k) => {
                &&& 0 <= k < i
                &&& dsq_sp(pos, fs[k].position) < mdsq
                &&& forall|j: int|
                    0 <= j < i && dsq_sp(pos, #[trigger] fs[j].position) < mdsq ==> dsq_sp(
                        pos,
                        fs[k].position,
                    ) <= dsq_sp(pos, fs[j].position)
                &&& forall|j: int|
                    0 <= j < k ==> dsq_sp(pos, #[trigger] fs[j].position) >= mdsq || dsq_sp(
                        pos,
                        fs[j].position,
                    ) > dsq_sp(pos, fs[k].position)
            },
            None => forall|j: int|
                0 <= j < i ==> dsq_sp(pos, #[trigger] fs[j].position) >= mdsq,
        },
    decreases i,
{
    if i > 0 {
        lemma_closest_prefix_props(pos, mdsq, fs, i - 1);
    }
}

/// The index of the food the agent consumes this turn, if any: it must
/// be hungry enough to search, the nearest detectable food must exist,
/// and the agent's body must overlap it.
pub open spec fn eat_index(a: SteeringAgent, fs: Seq<Food>) -> Option<int> {
    if a.hunger > MAX_HUNGER_BEFORE_SEARCH {
        match closest_prefix(a.position, food_detect_sq(a.dna), fs, fs.len() as int) {
            Some(k) => if dsq_sp(a.position, fs[k].position) < radius_sq(fs[k]) {
                Some(k)
            } else {
                None
            },
            None => None,
        }
    } else {
        None
    }
}

/// The food sequence after the agent's turn: the consumed resource,
/// if any, is removed.
pub open spec fn food_after_step(a: SteeringAgent, fs: Seq<Food>) -> Seq<Food> {
    match eat_index(a, fs) {
        Some(k) => fs.remove(k),
        None => fs,
    }
}

/// A surviving agent's state after its turn, given the poison kept
/// around it, the food it saw, the elapsed time and the wander target
/// `t` it worked toward (meaningful only on the wander branches).
#[verifier::opaque]
pub open spec fn survivor_sp(
    a0: SteeringAgent,
    kept: Seq<Food>,
    fs: Seq<Food>,
    delta: int,
    t: V2,
) -> SteeringAgent {
    let a1 = SteeringAgent { age: fadd_s(a0.age as int, delta) as i64, ..a0 };
    let a2 = SteeringAgent {
        acceleration: accel_after_flee(
            a0.acceleration,
            a0.position,
            a0.velocity,
            a0.dna,
            kept,
            kept.len() as int,
        ),
        ..a1
    };
    let a3 = if a0.hunger > MAX_HUNGER_BEFORE_SEARCH {
        match closest_prefix(a0.position, food_detect_sq(a0.dna), fs, fs.len() as int) {
            Some(k) => {
                let arrived = with_accel(
                    a2,
                    arrive_force_sp(
                        a2.position,
                        a2.velocity,
                        a2.dna.max_velocity as int,
                        a2.dna.max_steer_force as int,
                        a2.dna.arrive_threshold as int,
                        fs[k].position,
                        a2.dna.food_force_multiplier as int,
                    ),
                );
                if dsq_sp(a0.position, fs[k].position) < radius_sq(fs[k]) {
                    SteeringAgent {
                        hunger: fsub_s(arrived.hunger as int, fs[k].potency as int) as i64,
                        ..arrived
                    }
                } else {
                    arrived
                }
            },
            None => wander_step_sp(a2, t),
        }
    } else {
        wander_step_sp(a2, t)
    };
    update_sp(a3)
}

/// A freshly spawned offspring: at its parent's side, at rest, sated
/// and ageless.
pub open spec fn newborn_shape(b: SteeringAgent) -> bool {
    &&& b.velocity == v2s(0, 0)
    &&& b.acceleration == v2s(0, 0)
    &&& b.hunger == 0
    &&& b.age == 0
    &&& b.wander_target is None
    &&& agent_wf(b)
}


/// The poison remaining after agents `0..i` have each filtered, in
/// turn, the resources their bodies overlap.
pub open spec fn pass_poison(a_s: Seq<SteeringAgent>, p0: Seq<Food>, i: int) -> Seq<Food>
    decreases i,
{
    if i <= 0 {
        p0
    } else {
        let prev = pass_poison(a_s, p0, i - 1);
        kept_prefix(a_s[i - 1].position, prev, prev.len() as int)
    }
}

/// Agent `i` survives its turn, judged against the poison still
/// present when its turn comes.
pub open spec fn retains_at(a_s: Seq<SteeringAgent>, p0: Seq<Food>, i: int) -> bool {
    step_retains(a_s[i], pass_poison(a_s, p0, i))
}

/// The food remaining after agents `0..i` have each, when retained,
/// taken their turn at consuming the nearest overlapped food.
pub open spec fn pass_food(
    a_s: Seq<SteeringAgent>,
    p0: Seq<Food>,
    f0: Seq<Food>,
    i: int,
) -> Seq<Food>
    decreases i,
{
    if i <= 0 {
        f0
    } else {
        let prev = pass_food(a_s, p0, f0, i - 1);
        if retains_at(a_s, p0, i - 1) {
            food_after_step(a_s[i - 1], prev)
        } else {
            prev
        }
    }
}

/// How many of the first `i` agents survive their turn.
pub open spec fn retained_count(a_s: Seq<SteeringAgent>, p0: Seq<Food>, i: int) -> int
    decreases i,
{
    if i <= 0 {
        0
    } else {
        retained_count(a_s, p0, i - 1) + if retains_at(a_s, p0, i - 1) {
            1int
        } else {
            0int
        }
    }
}

/// The saturating total of the survivors' post-aging ages among the
/// first `i` agents.
pub open spec fn age_total(a_s: Seq<SteeringAgent>, p0: Seq<Food>, delta: int, i: int) -> int
    decreases i,
{
    if i <= 0 {
        0
    } else {
        let prev = age_total(a_s, p0, delta, i - 1);
        if retains_at(a_s, p0, i - 1) {
            fadd_s(prev, fadd_s(a_s[i - 1].age as int, delta))
        } else {
            prev
        }
    }
}

/// The number of survivors among the first `i` agents is between zero
/// and `i`.
pub proof fn lemma_rc_nonneg(a_s: Seq<SteeringAgent>, p0: Seq<Food>, i: int)
    requires
        i >= 0,
    ensures
        0 <= retained_count(a_s, p0, i) <= i,
    decreases i,
{
    if i > 0 {
        lemma_rc_nonneg(a_s, p0, i - 1);
    }
}

/// A survivor among the first `q` agents occupies a slot below the
/// count over any longer prefix.
pub proof fn lemma_rc_bounds(a_s: Seq<SteeringAgent>, p0: Seq<Food>, q: int, i: int)
    requires
        0 <= q < i,
    ensures
        retained_count(a_s, p0, q) <= retained_count(a_s, p0, i),
        retains_at(a_s, p0, q) ==> retained_count(a_s, p0, q) + 1 <= retained_count(a_s, p0, i),
    decreases i,
{
    if q + 1 < i {
        lemma_rc_bounds(a_s, p0, q, i - 1);
    }
}

/// One agent's turn in follow mode: arrive at the followed point,
/// with hunger forced to zero, then the physics step.
pub open spec fn follow_step_sp(a: SteeringAgent, pt: V2) -> SteeringAgent {
    update_sp(
        SteeringAgent {
            hunger: 0i64,
            ..with_accel(
                a,
                arrive_force_sp(
                    a.position,
                    a.velocity,
                    a.dna.max_velocity as int,
                    a.dna.max_steer_force as int,
                    a.dna.arrive_threshold as int,
                    pt,
                    SCALE as int,
                ),
            )
        },
    )
}

/// A freshly spawned food resource within the bounds.
pub open spec fn fresh_food_sp(f: Food, bounds: Bounds) -> bool {
    &&& food_wf(f)
    &&& in_bounds(f.position, bounds)
    &&& POTENCY_MIN <= f.potency < POTENCY_MAX
    &&& FOOD_HUE_MIN <= f.hue < FOOD_HUE_MAX
}

/// A freshly spawned poison resource within the bounds.
pub open spec fn fresh_poison_sp(f: Food, bounds: Bounds) -> bool {
    &&& food_wf(f)
    &&& in_bounds(f.position, bounds)
    &&& -POTENCY_MAX < f.potency <= -POTENCY_MIN
    &&& POISON_HUE_MIN <= f.hue < POISON_HUE_MAX
}

/// A freshly spawned agent within the bounds, with a fresh random
/// genome, not an inherited one.
pub open spec fn fresh_agent_sp(a: SteeringAgent, bounds: Bounds) -> bool {
    &&& newborn_shape(a)
    &&& in_bounds(a.position, bounds)
    &&& dna_in_init_ranges(a.dna)
}

/// Food replenishment: existing resources are kept in place; when the
/// count is short of the minimum, up to the deficit's worth of fresh
/// food is appended, each missing slot filled only with the refill
/// probability.
pub open spec fn food_replenished(
    base: Seq<Food>,
    out: Seq<Food>,
    minimum: int,
    bounds: Bounds,
) -> bool {
    &&& out.len() >= base.len()
    &&& base.len() >= minimum ==> out == base
    &&& out.len() <= (if base.len() >= minimum {
        base.len() as int
    } else {
        minimum
    })
    &&& out.subrange(0, base.len() as int) == base
    &&& forall|k: int| base.len() <= k < out.len() ==> fresh_food_sp(#[trigger] out[k], bounds)
}

/// Poison replenishment: existing resources kept in place, and the
/// whole deficit filled with fresh poison.
pub open spec fn poison_replenished(
    base: Seq<Food>,
    out: Seq<Food>,
    minimum: int,
    bounds: Bounds,
) -> bool {
    &&& out.len() == (if base.len() >= minimum {
        base.len() as int
    } else {
        minimum
    })
    &&& out.subrange(0, base.len() as int) == base
    &&& forall|k: int| base.len() <= k < out.len() ==> fresh_poison_sp(#[trigger] out[k], bounds)
}


/// After the pass, the agent list holds the `rc` survivors, `nb`
/// newborns (at most one per survivor), and enough fresh agents to
/// reach the minimum when those fall short.
pub open spec fn agents_filled(len: int, rc: int, nb: int, minimum: int) -> bool {
    0 <= nb <= rc && len == (if rc + nb >= minimum {
        rc + nb
    } else {
        minimum
    })
}

/// The outcome of one agent's turn.
#[derive(Clone, Copy, Debug)]
pub struct StepOutcome {
    pub retained: bool,
    pub newborn: Option<SteeringAgent>,
}

/// The squared value of a non-negative in-domain scalar.
fn sq_u128(a: i64) -> (r: u128)
    requires
        0 <= a <= FX_MAX,
    ensures
        r as int == (a as int) * (a as int),
{
    proof {
        assert((a as int) * (a as int) < 0x1_0000_0000_0000_0000_0000_0000_0000_0000
            && 0 <= (a as int) * (a as int)) by (nonlinear_arith)
            requires
                0 <= (a as int) <= 0x4000_0000_0000_0000,
        ;
    }
    (a as u128) * (a as u128)
}

/// The nearest food strictly within `max_distance` of `position`, with
/// its index, by linear scan; ties keep the lowest index.
pub fn find_closest_food(position: V2, max_distance: i64, food: &Vec<Food>) -> (r: Option<
    (usize, Food),
>)
    requires
        v2_wf(position),
        0 <= max_distance <= FX_MAX,
        foods_wf(food@),
    ensures
        ({
            let mdsq = (max_distance as int) * (max_distance as int);
            match r {
                Some((i, f)) => {
                    &&& i < food@.len()
                    &&& f == food@[i as int]
                    &&& closest_prefix(position, mdsq, food@, food@.len() as int) == Some(
                        i as int,
                    )
                },
                None => closest_prefix(position, mdsq, food@, food@.len() as int) is None,
            }
        }),
{
    let mut closest: Option<(usize, Food)> = None;
    let max_distance_squared = sq_u128(max_distance);
    let mut i: usize = 0;
    while i < food.len()
        invariant
            i <= food@.len(),
            v2_wf(position),
            foods_wf(food@),
            max_distance_squared as int == (max_distance as int) * (max_distance as int),
            match closest {
                Some((k, f)) => {
                    &&& k < i
                    &&& f == food@[k as int]
                    &&& closest_prefix(
                        position,
                        max_distance_squared as int,
                        food@,
                        i as int,
                    ) == Some(k as int)
                },
                None => closest_prefix(
                    position,
                    max_distance_squared as int,
                    food@,
                    i as int,
                ) is None,
            },
        decreases food@.len() - i,
    {
        let f = food[i];
        let d = v2_dist_sq(position, f.position);
        let nearer: bool = match closest {
            Some((_, best)) => d < v2_dist_sq(position, best.position),
            None => true,
        };
        if d < max_distance_squared && nearer {
            closest = Some((i, f));
        }
        i += 1;
    }
    closest
}

/// One agent's whole turn. The poison filtering, the survival verdict
/// and the food consumption are exact functions of the starting state;
/// a survivor's new state is pinned down up to the wander target it
/// worked toward, and a newborn, when one arrives, is a well-formed
/// offspring of the survivor.
#[verifier::rlimit(100)]
pub fn step_agent(
    agent: &mut SteeringAgent,
    food: &mut Vec<Food>,
    poison: &mut Vec<Food>,
    delta: i64,
    bounds: Bounds,
    rng: &mut rand::rngs::StdRng,
) -> (out: StepOutcome)
    requires
        agent_wf(*old(agent)),
        foods_wf(old(food)@),
        foods_wf(old(poison)@),
        0 <= delta <= FX_MAX,
        bounds_wf(bounds),
    ensures
        final(poison)@ == kept_prefix(
            old(agent).position,
            old(poison)@,
            old(poison)@.len() as int,
        ),
        out.retained == step_retains(*old(agent), old(poison)@),
        !out.retained ==> *final(agent) == *old(agent) && final(food)@ == old(food)@
            && out.newborn is None,
        out.retained ==> final(food)@ == food_after_step(*old(agent), old(food)@),
        out.retained ==> exists|t: V2|
            #[trigger] wander_pick(*old(agent), bounds, t) && *final(agent) == survivor_sp(
                *old(agent),
                kept_prefix(old(agent).position, old(poison)@, old(poison)@.len() as int),
                old(food)@,
                delta as int,
                t,
            ),
        match out.newborn {
            Some(b) => out.retained && newborn_shape(b) && b.position == final(agent).position
                && dna_mutation_of(final(agent).dna, b.dna),
            None => true,
        },
        agent_wf(*final(agent)),
        foods_wf(final(food)@),
        foods_wf(final(poison)@),
{
    let ghost a0 = *agent;
    let ghost p0 = poison@;
    let ghost f0 = food@;

    let mut kept: Vec<Food> = Vec::new();
    let mut touched = false;
    let mut i: usize = 0;
    while i < poison.len()
        invariant
            i <= p0.len(),
            poison@ == p0,
            *agent == a0,
            agent_wf(a0),
            foods_wf(p0),
            kept@ == kept_prefix(a0.position, p0, i as int),
            foods_wf(kept@),
            touched == exists|j: int| 0 <= j < i && poison_contact(a0.position, #[trigger] p0[j]),
        decreases p0.len() - i,
    {
        let p = poison[i];
        let d = v2_dist_sq(agent.position, p.position);
        let r2 = sq_u128(p.radius);
        if d < r2 {
            touched = true;
            proof {
                assert(poison_contact(a0.position, p0[i as int]));
            }
        } else {
            kept.push(p);
        }
        i += 1;
    }
    *poison = kept;
    proof {
        assert(touched == touches_any(a0.position, p0));
    }

    if touched || agent.hunger > MAX_HUNGER_BEFORE_DEAD {
        return StepOutcome { retained: false, newborn: None };
    }

    agent.age = fadd(agent.age, delta);

    let ghost a1 = *agent;
    let ghost keptseq = poison@;
    let mut j: usize = 0;
    while j < poison.len()
        invariant
            j <= keptseq.len(),
            poison@ == keptseq,
            foods_wf(keptseq),
            agent_wf(*agent),
            *agent == (SteeringAgent {
                acceleration: accel_after_flee(
                    a0.acceleration,
                    a0.position,
                    a0.velocity,
                    a0.dna,
                    keptseq,
                    j as int,
                ),
                ..a1
            }),
            a1.position == a0.position,
            a1.velocity == a0.velocity,
            a1.dna == a0.dna,
            a1.acceleration == a0.acceleration,
            agent_wf(a0),
        decreases keptseq.len() - j,
    {
        let p = poison[j];
        let d = v2_dist_sq(agent.position, p.position);
        let det = sq_u128(agent.dna.poison_detection_radius);
        if d < det {
            agent.flee(p.position, agent.dna.poison_force_multiplier);
        }
        j += 1;
    }

    let ghost a2 = *agent;
    let ghost mut tw: V2 = v2s(0, 0);

    if agent.hunger > MAX_HUNGER_BEFORE_SEARCH {
        let closest = find_closest_food(agent.position, agent.dna.food_detection_radius, food);
        match closest {
            Some((idx, f)) => {
                proof {
                    tw = match a0.wander_target {
                        Some(t0) => t0,
                        None => v2s(0, 0),
                    };
                    assert(wander_pick(a0, bounds, tw));
                }
                agent.arrive(f.position, agent.dna.food_force_multiplier);
                let d = v2_dist_sq(agent.position, f.position);
                let r2 = sq_u128(f.radius);
                if d < r2 {
                    food.remove(idx);
                    agent.hunger = fsub(agent.hunger, f.potency);
                }
            },
            None => {
                let ghost aw = *agent;
                agent.wander(bounds, rng);
                proof {
                    tw = choose|t: V2|
                        wander_pick(aw, bounds, t) && *agent == wander_step_sp(aw, t);
                    assert(wander_pick(a0, bounds, tw));
                }
            },
        }
    } else {
        let ghost aw = *agent;
        agent.wander(bounds, rng);
        proof {
            tw = choose|t: V2| wander_pick(aw, bounds, t) && *agent == wander_step_sp(aw, t);
            assert(wander_pick(a0, bounds, tw));
        }
    }

    agent.update();
    proof {
        reveal(survivor_sp);
        assert(*agent == survivor_sp(a0, keptseq, f0, delta as int, tw));
    }

    let roll = rng_range(rng, 0, SCALE as u64);
    let newborn: Option<SteeringAgent> = if (roll as i64) < REPRODUCTION_CHANCE {
        let child_dna = agent.dna.mutate(CHILD_MUTATE_CHANCE, rng);
        Some(SteeringAgent::new(agent.position, &child_dna))
    } else {
        None
    };

    StepOutcome { retained: true, newborn }
}


/// Refill the food toward its minimum: each missing slot is filled,
/// with the refill probability, by fresh food at a random position.
fn replenish_food(food: &mut Vec<Food>, minimum: usize, bounds: Bounds, rng: &mut rand::rngs::StdRng)
    requires
        foods_wf(old(food)@),
        bounds_wf(bounds),
    ensures
        food_replenished(old(food)@, final(food)@, minimum as int, bounds),
        foods_wf(final(food)@),
{
    let ghost base = food@;
    if food.len() < minimum {
        let deficit = minimum - food.len();
        let mut c: usize = 0;
        while c < deficit
            invariant
                c <= deficit,
                base.len() + deficit == minimum,
                food@.len() <= base.len() + c,
                food@.len() >= base.len(),
                food@.subrange(0, base.len() as int) == base,
                forall|k: int|
                    base.len() <= k < food@.len() ==> fresh_food_sp(#[trigger] food@[k], bounds),
                foods_wf(food@),
                bounds_wf(bounds),
            decreases deficit - c,
        {
            let roll = rng_range(rng, 0, SCALE as u64);
            if (roll as i64) < FOOD_REFILL_CHANCE {
                let pos = get_random_position(bounds, rng);
                let f = Food::new_food(pos, rng);
                food.push(f);
                proof {
                    assert(food@.subrange(0, base.len() as int) =~= base);
                }
            }
            c += 1;
        }
    } else {
        proof {
            assert(food@.subrange(0, base.len() as int) =~= base);
        }
    }
}

/// Refill the poison to its minimum: the whole deficit is filled with
/// fresh poison at random positions.
fn replenish_poison(
    poison: &mut Vec<Food>,
    minimum: usize,
    bounds: Bounds,
    rng: &mut rand::rngs::StdRng,
)
    requires
        foods_wf(old(poison)@),
        bounds_wf(bounds),
    ensures
        poison_replenished(old(poison)@, final(poison)@, minimum as int, bounds),
        foods_wf(final(poison)@),
{
    let ghost base = poison@;
    while poison.len() < minimum
        invariant
            poison@.len() >= base.len(),
            base.len() >= minimum ==> poison@ == base,
            poison@.len() <= (if base.len() >= minimum {
                base.len() as int
            } else {
                minimum as int
            }),
            poison@.subrange(0, base.len() as int) == base,
            forall|k: int|
                base.len() <= k < poison@.len() ==> fresh_poison_sp(#[trigger] poison@[k], bounds),
            foods_wf(poison@),
            bounds_wf(bounds),
        decreases minimum - poison@.len(),
    {
        let pos = get_random_position(bounds, rng);
        let f = Food::new_poison(pos, rng);
        poison.push(f);
        proof {
            assert(poison@.subrange(0, base.len() as int) =~= base);
        }
    }
}

/// Refill the agents to their minimum with fresh randomly seeded
/// agents at random positions.
fn replenish_agents(
    agents: &mut Vec<SteeringAgent>,
    minimum: usize,
    bounds: Bounds,
    rng: &mut rand::rngs::StdRng,
)
    requires
        agents_wf(old(agents)@),
        bounds_wf(bounds),
    ensures
        final(agents)@.len() == (if old(agents)@.len() >= minimum {
            old(agents)@.len() as int
        } else {
            minimum as int
        }),
        final(agents)@.subrange(0, old(agents)@.len() as int) == old(agents)@,
        forall|k: int|
            old(agents)@.len() <= k < final(agents)@.len() ==> fresh_agent_sp(
                #[trigger] final(agents)@[k],
                bounds,
            ),
        agents_wf(final(agents)@),
{
    let ghost base = agents@;
    while agents.len() < minimum
        invariant
            agents@.len() >= base.len(),
            base.len() >= minimum ==> agents@ == base,
            agents@.len() <= (if base.len() >= minimum {
                base.len() as int
            } else {
                minimum as int
            }),
            agents@.subrange(0, base.len() as int) == base,
            forall|k: int|
                base.len() <= k < agents@.len() ==> fresh_agent_sp(#[trigger] agents@[k], bounds),
            agents_wf(agents@),
            bounds_wf(bounds),
        decreases minimum - agents@.len(),
    {
        let pos = get_random_position(bounds, rng);
        let g = Dna::random(rng);
        let a = SteeringAgent::new(pos, &g);
        agents.push(a);
        proof {
            assert(agents@.subrange(0, base.len() as int) =~= base);
        }
    }
}




/// A survivor's age is its old age plus the elapsed time, whatever
/// else its turn did.
proof fn lemma_survivor_age(
    a0: SteeringAgent,
    kept: Seq<Food>,
    fs: Seq<Food>,
    delta: int,
    t: V2,
)
    ensures
        survivor_sp(a0, kept, fs, delta, t).age as int == fadd_s(a0.age as int, delta),
{
    reveal(survivor_sp);
}

/// Pushing a fresh survivor onto the kept list extends the slot
/// mapping by one and pins the survivor's age.
#[verifier::rlimit(100)]
#[verifier::spinoff_prover]
proof fn lemma_pass_push(
    a_s: Seq<SteeringAgent>,
    p0: Seq<Food>,
    f0: Seq<Food>,
    bounds: Bounds,
    delta: int,
    ii: int,
    oldkept: Seq<SteeringAgent>,
    a: SteeringAgent,
)
    requires
        0 <= ii < a_s.len(),
        oldkept.len() == retained_count(a_s, p0, ii),
        forall|q: int|
            0 <= q < ii && #[trigger] retains_at(a_s, p0, q) ==> exists|t: V2|
                #[trigger] wander_pick(a_s[q], bounds, t) && oldkept[retained_count(
                    a_s,
                    p0,
                    q,
                )] == survivor_sp(
                    a_s[q],
                    kept_prefix(
                        a_s[q].position,
                        pass_poison(a_s, p0, q),
                        pass_poison(a_s, p0, q).len() as int,
                    ),
                    pass_food(a_s, p0, f0, q),
                    delta,
                    t,
                ),
        retains_at(a_s, p0, ii),
        exists|t: V2|
            #[trigger] wander_pick(a_s[ii], bounds, t) && a == survivor_sp(
                a_s[ii],
                kept_prefix(
                    a_s[ii].position,
                    pass_poison(a_s, p0, ii),
                    pass_poison(a_s, p0, ii).len() as int,
                ),
                pass_food(a_s, p0, f0, ii),
                delta,
                t,
            ),
    ensures
        forall|q: int|
            0 <= q < ii + 1 && #[trigger] retains_at(a_s, p0, q) ==> exists|t: V2|
                #[trigger] wander_pick(a_s[q], bounds, t) && oldkept.push(a)[retained_count(
                    a_s,
                    p0,
                    q,
                )] == survivor_sp(
                    a_s[q],
                    kept_prefix(
                        a_s[q].position,
                        pass_poison(a_s, p0, q),
                        pass_poison(a_s, p0, q).len() as int,
                    ),
                    pass_food(a_s, p0, f0, q),
                    delta,
                    t,
                ),
        a.age as int == fadd_s(a_s[ii].age as int, delta),
{
    lemma_rc_nonneg(a_s, p0, ii);
    let tii = choose|t: V2|
        #[trigger] wander_pick(a_s[ii], bounds, t) && a == survivor_sp(
            a_s[ii],
            kept_prefix(
                a_s[ii].position,
                pass_poison(a_s, p0, ii),
                pass_poison(a_s, p0, ii).len() as int,
            ),
            pass_food(a_s, p0, f0, ii),
            delta,
            t,
        );
    lemma_survivor_age(
        a_s[ii],
        kept_prefix(
            a_s[ii].position,
            pass_poison(a_s, p0, ii),
            pass_poison(a_s, p0, ii).len() as int,
        ),
        pass_food(a_s, p0, f0, ii),
        delta,
        tii,
    );
    assert forall|q: int|
        0 <= q < ii + 1 && #[trigger] retains_at(a_s, p0, q) implies exists|t: V2|
        #[trigger] wander_pick(a_s[q], bounds, t) && oldkept.push(a)[retained_count(
            a_s,
            p0,
            q,
        )] == survivor_sp(
            a_s[q],
            kept_prefix(
                a_s[q].position,
                pass_poison(a_s, p0, q),
                pass_poison(a_s, p0, q).len() as int,
            ),
            pass_food(a_s, p0, f0, q),
            delta,
            t,
        ) by {
        if q < ii {
            lemma_rc_bounds(a_s, p0, q, ii);
            lemma_rc_nonneg(a_s, p0, q);
            let t0 = choose|t: V2|
                #[trigger] wander_pick(a_s[q], bounds, t) && oldkept[retained_count(
                    a_s,
                    p0,
                    q,
                )] == survivor_sp(
                    a_s[q],
                    kept_prefix(
                        a_s[q].position,
                        pass_poison(a_s, p0, q),
                        pass_poison(a_s, p0, q).len() as int,
                    ),
                    pass_food(a_s, p0, f0, q),
                    delta,
                    t,
                );
            assert(oldkept.push(a)[retained_count(a_s, p0, q)] == oldkept[retained_count(
                a_s,
                p0,
                q,
            )]);
        } else {
            assert(oldkept.push(a)[retained_count(a_s, p0, ii)] == a);
        }
    }
}

/// The whole per-agent pass of one tick: every agent takes its turn,
/// the shared collections evolve as the deterministic folds say, and
/// the survivors, the newborns and the survivors' saturating age total
/// come back for the controller to commit.
#[verifier::rlimit(100)]
#[verifier::spinoff_prover]
fn run_pass(
    agents: &Vec<SteeringAgent>,
    food: &mut Vec<Food>,
    poison: &mut Vec<Food>,
    delta: i64,
    bounds: Bounds,
    rng: &mut rand::rngs::StdRng,
) -> (r: (Vec<SteeringAgent>, Vec<SteeringAgent>, i64))
    requires
        agents_wf(agents@),
        foods_wf(old(food)@),
        foods_wf(old(poison)@),
        0 <= delta <= FX_MAX,
        bounds_wf(bounds),
    ensures
        ({
            let a_s = agents@;
            let f0 = old(food)@;
            let p0 = old(poison)@;
            let n = a_s.len() as int;
            &&& final(food)@ == pass_food(a_s, p0, f0, n)
            &&& final(poison)@ == pass_poison(a_s, p0, n)
            &&& foods_wf(final(food)@)
            &&& foods_wf(final(poison)@)
            &&& r.0@.len() == retained_count(a_s, p0, n)
            &&& agents_wf(r.0@)
            &&& forall|q: int|
                0 <= q < n && #[trigger] retains_at(a_s, p0, q) ==> exists|t: V2|
                    #[trigger] wander_pick(a_s[q], bounds, t) && r.0@[retained_count(
                        a_s,
                        p0,
                        q,
                    )] == survivor_sp(
                        a_s[q],
                        kept_prefix(
                            a_s[q].position,
                            pass_poison(a_s, p0, q),
                            pass_poison(a_s, p0, q).len() as int,
                        ),
                        pass_food(a_s, p0, f0, q),
                        delta as int,
                        t,
                    )
            &&& r.1@.len() <= r.0@.len()
            &&& forall|k: int| 0 <= k < r.1@.len() ==> newborn_shape(#[trigger] r.1@[k])
            &&& agents_wf(r.1@)
            &&& 0 <= r.2 <= FX_MAX
            &&& r.2 as int == age_total(a_s, p0, delta as int, n)
        }),
{
    let ghost a_s = agents@;
    let ghost f0 = food@;
    let ghost p0 = poison@;
    let ghost n = a_s.len() as int;
    let mut kept_agents: Vec<SteeringAgent> = Vec::new();
    let mut newborns: Vec<SteeringAgent> = Vec::new();
    let mut age_acc: i64 = 0;
    let mut i: usize = 0;
    while i < agents.len()

            invariant
                i <= n,
                n == a_s.len(),
                agents@ == a_s,
                agents_wf(a_s),
                food@ == pass_food(a_s, p0, f0, i as int),
                poison@ == pass_poison(a_s, p0, i as int),
                foods_wf(food@),
                foods_wf(poison@),
                kept_agents@.len() == retained_count(a_s, p0, i as int),
                agents_wf(kept_agents@),
                forall|q: int|
                    0 <= q < i && #[trigger] retains_at(a_s, p0, q) ==> exists|t: V2|
                        #[trigger] wander_pick(a_s[q], bounds, t)
                            && kept_agents@[retained_count(a_s, p0, q)] == survivor_sp(
                            a_s[q],
                            kept_prefix(
                                a_s[q].position,
                                pass_poison(a_s, p0, q),
                                pass_poison(a_s, p0, q).len() as int,
                            ),
                            pass_food(a_s, p0, f0, q),
                            delta as int,
                            t,
                        ),
                newborns@.len() <= kept_agents@.len(),
                forall|k: int|
                    0 <= k < newborns@.len() ==> newborn_shape(#[trigger] newborns@[k]),
                0 <= age_acc <= FX_MAX,
                age_acc as int == age_total(a_s, p0, delta as int, i as int),
                0 <= delta <= FX_MAX,
                bounds_wf(bounds),
            decreases n - i,
        {
            let ghost ii = i as int;
            let mut a = agents[i];
            let out = step_agent(
                &mut a,
                food,
                poison,
                delta,
                bounds,
                rng,
            );
            if out.retained {
                proof {
                    lemma_pass_push(a_s, p0, f0, bounds, delta as int, ii, kept_agents@, a);
                }
                age_acc = fadd(age_acc, a.age);
                kept_agents.push(a);
                match out.newborn {
                    Some(b) => {
                        newborns.push(b);
                    },
                    None => {},
                }
            }
            i += 1;
        }
    (kept_agents, newborns, age_acc)
}


/// Every agent arrives at the followed point with hunger held at zero;
/// aging is suspended and nobody dies or reproduces.
#[verifier::spinoff_prover]
fn run_follow(agents: &mut Vec<SteeringAgent>, pt: V2)
    requires
        agents_wf(old(agents)@),
        v2_wf(pt),
    ensures
        final(agents)@.len() == old(agents)@.len(),
        forall|q: int|
            0 <= q < old(agents)@.len() ==> final(agents)@[q] == follow_step_sp(
                #[trigger] old(agents)@[q],
                pt,
            ),
        agents_wf(final(agents)@),
{
    let ghost a_s = agents@;
    let mut i: usize = 0;
    while i < agents.len()
        invariant
            i <= a_s.len(),
            agents@.len() == a_s.len(),
            agents_wf(a_s),
            v2_wf(pt),
            forall|q: int| 0 <= q < i ==> agents@[q] == follow_step_sp(#[trigger] a_s[q], pt),
            forall|q: int| i <= q < a_s.len() ==> agents@[q] == #[trigger] a_s[q],
            agents_wf(agents@),
        decreases a_s.len() - i,
    {
        let mut a = agents[i];
        a.arrive(pt, SCALE);
        a.hunger = 0;
        a.update();
        agents.set(i, a);
        i += 1;
    }
}

/// The whole simulation state: the three collections, their configured
/// minimums, and the observability readout.
pub struct World {
    pub agents: Vec<SteeringAgent>,
    pub food: Vec<Food>,
    pub poison: Vec<Food>,
    pub minimum_food_count: usize,
    pub minimum_poison_count: usize,
    pub minimum_agent_count: usize,
    pub mean_age: i64,
}

/// The world invariant: every entity of every collection is well
/// formed, and the readout is in-domain.
pub open spec fn world_wf(w: World) -> bool {
    &&& agents_wf(w.agents@)
    &&& foods_wf(w.food@)
    &&& foods_wf(w.poison@)
    &&& in_fx(w.mean_age as int)
}

impl World {
    /// A fresh world: each collection filled to its configured minimum
    /// with randomly placed entities.
    pub fn new(
        minimum_agent_count: usize,
        minimum_food_count: usize,
        minimum_poison_count: usize,
        bounds: Bounds,
        rng: &mut rand::rngs::StdRng,
    ) -> (w: World)
        requires
            bounds_wf(bounds),
        ensures
            w.agents@.len() == minimum_agent_count,
            w.poison@.len() == minimum_poison_count,
            w.food@.len() == minimum_food_count,
            forall|i: int|
                0 <= i < w.agents@.len() ==> fresh_agent_sp(#[trigger] w.agents@[i], bounds),
            forall|i: int| 0 <= i < w.food@.len() ==> fresh_food_sp(#[trigger] w.food@[i], bounds),
            forall|i: int|
                0 <= i < w.poison@.len() ==> fresh_poison_sp(#[trigger] w.poison@[i], bounds),
            w.minimum_agent_count == minimum_agent_count,
            w.minimum_food_count == minimum_food_count,
            w.minimum_poison_count == minimum_poison_count,
            w.mean_age == 0,
            world_wf(w),
    {
        let mut agents: Vec<SteeringAgent> = Vec::new();
        replenish_agents(&mut agents, minimum_agent_count, bounds, rng);
        let mut poison: Vec<Food> = Vec::new();
        replenish_poison(&mut poison, minimum_poison_count, bounds, rng);
        let mut food: Vec<Food> = Vec::new();
        while food.len() < minimum_food_count
            invariant
                food@.len() <= minimum_food_count,
                forall|i: int|
                    0 <= i < food@.len() ==> fresh_food_sp(#[trigger] food@[i], bounds),
                foods_wf(food@),
                bounds_wf(bounds),
            decreases minimum_food_count - food@.len(),
        {
            let pos = get_random_position(bounds, rng);
            let f = Food::new_food(pos, rng);
            food.push(f);
        }
        World {
            agents,
            food,
            poison,
            minimum_food_count,
            minimum_poison_count,
            minimum_agent_count,
            mean_age: 0,
        }
    }

    /// The follow-mode tick: every agent arrives at the followed
    /// point with hunger held at zero and aging suspended; nothing
    /// dies, nothing is born, and the collections are replenished.
    #[verifier::rlimit(100)]
    #[verifier::spinoff_prover]
    fn tick_follow(&mut self, pt: V2, bounds: Bounds, rng: &mut rand::rngs::StdRng)
        requires
            world_wf(*old(self)),
            bounds_wf(bounds),
            v2_wf(pt),
        ensures
            world_wf(*final(self)),
            final(self).minimum_food_count == old(self).minimum_food_count,
            final(self).minimum_poison_count == old(self).minimum_poison_count,
            final(self).minimum_agent_count == old(self).minimum_agent_count,
            ({
            &&& final(self).agents@.len() == (if old(self).agents@.len() >= old(self).minimum_agent_count {
                old(self).agents@.len() as int
            } else {
                old(self).minimum_agent_count as int
            })
            &&& forall|q: int|
                0 <= q < old(self).agents@.len() ==> final(self).agents@[q]
                    == follow_step_sp(#[trigger] old(self).agents@[q], pt)
            &&& forall|k: int|
                old(self).agents@.len() <= k < final(self).agents@.len()
                    ==> fresh_agent_sp(#[trigger] final(self).agents@[k], bounds)
            &&& food_replenished(
                old(self).food@,
                final(self).food@,
                old(self).minimum_food_count as int,
                bounds,
            )
            &&& poison_replenished(
                old(self).poison@,
                final(self).poison@,
                old(self).minimum_poison_count as int,
                bounds,
            )
            &&& final(self).mean_age == 0
            }),
    {
        let ghost a_s = self.agents@;
        run_follow(&mut self.agents, pt);
        self.mean_age = 0;
        let ghost aft_follow = self.agents@;
        replenish_agents(&mut self.agents, self.minimum_agent_count, bounds, rng);
        replenish_food(&mut self.food, self.minimum_food_count, bounds, rng);
        replenish_poison(&mut self.poison, self.minimum_poison_count, bounds, rng);
        proof {
            assert forall|q: int| 0 <= q < a_s.len() implies self.agents@[q] == follow_step_sp(
                a_s[q],
                pt,
            ) by {
                assert(self.agents@.subrange(0, aft_follow.len() as int)[q] == self.agents@[q]);
            }
        }
    }

    /// The free-running tick: the per-agent pass, the commit of the
    /// survivors and newborns, the mean-age readout, and the
    /// replenishment of every collection.
    #[verifier::rlimit(100)]
    #[verifier::spinoff_prover]
    fn tick_free(&mut self, delta: i64, bounds: Bounds, rng: &mut rand::rngs::StdRng)
        requires
            world_wf(*old(self)),
            0 <= delta <= FX_MAX,
            bounds_wf(bounds),
        ensures
            world_wf(*final(self)),
            final(self).minimum_food_count == old(self).minimum_food_count,
            final(self).minimum_poison_count == old(self).minimum_poison_count,
            final(self).minimum_agent_count == old(self).minimum_agent_count,
            ({
            let a_s = old(self).agents@;
            let f0 = old(self).food@;
            let p0 = old(self).poison@;
            let n = a_s.len() as int;
            let rc = retained_count(a_s, p0, n);
            &&& poison_replenished(
                pass_poison(a_s, p0, n),
                final(self).poison@,
                old(self).minimum_poison_count as int,
                bounds,
            )
            &&& food_replenished(
                pass_food(a_s, p0, f0, n),
                final(self).food@,
                old(self).minimum_food_count as int,
                bounds,
            )
            &&& rc <= final(self).agents@.len()
            &&& forall|q: int|
                0 <= q < n && #[trigger] retains_at(a_s, p0, q) ==> exists|t: V2|
                    #[trigger] wander_pick(a_s[q], bounds, t) && final(self).agents@[retained_count(a_s, p0, q)] == survivor_sp(
                        a_s[q],
                        kept_prefix(
                            a_s[q].position,
                            pass_poison(a_s, p0, q),
                            pass_poison(a_s, p0, q).len() as int,
                        ),
                        pass_food(a_s, p0, f0, q),
                        delta as int,
                        t,
                    )
            &&& forall|k: int|
                rc <= k < final(self).agents@.len() ==> newborn_shape(
                    #[trigger] final(self).agents@[k],
                )
            &&& exists|nb: int|
                #[trigger] agents_filled(
                    final(self).agents@.len() as int,
                    rc,
                    nb,
                    old(self).minimum_agent_count as int,
                )
            &&& final(self).mean_age == (if rc == 0 {
                0int
            } else {
                age_total(a_s, p0, delta as int, n) / rc
            })
            }),
    {
        let ghost a_s = self.agents@;
        let ghost f0 = self.food@;
        let ghost p0 = self.poison@;
        let ghost n = a_s.len() as int;
        let pass = run_pass(
            &self.agents,
            &mut self.food,
            &mut self.poison,
            delta,
            bounds,
            rng,
        );
        let kept_agents = pass.0;
        let newborns = pass.1;
        let age_acc = pass.2;
        self.agents = kept_agents;
        let ghost keptfull = self.agents@;
        let ghost rc = retained_count(a_s, p0, n);
        let cnt = self.agents.len();
        let ma: i64 = if cnt == 0 {
            0
        } else {
            proof {
                vstd::arithmetic::div_mod::lemma_div_pos_is_pos(
                    age_acc as int,
                    cnt as int,
                );
                vstd::arithmetic::div_mod::lemma_div_nonincreasing(
                    age_acc as int,
                    cnt as int,
                );
            }
            ((age_acc as u64) / (cnt as u64)) as i64
        };
        self.mean_age = ma;
        let ghost nbl = newborns@.len() as int;
        let ghost foodsnap = self.food@;
        let ghost poisonsnap = self.poison@;
        let mut j: usize = 0;
        while j < newborns.len()
            invariant
                j <= newborns@.len(),
                self.mean_age == ma,
                in_fx(self.mean_age as int),
                self.food@ == foodsnap,
                self.poison@ == poisonsnap,
                foods_wf(self.food@),
                foods_wf(self.poison@),
                self.minimum_food_count == old(self).minimum_food_count,
                self.minimum_poison_count == old(self).minimum_poison_count,
                self.minimum_agent_count == old(self).minimum_agent_count,
                self.agents@.len() == keptfull.len() + j,
                self.agents@.subrange(0, keptfull.len() as int) == keptfull,
                forall|k: int|
                    keptfull.len() <= k < self.agents@.len() ==> newborn_shape(
                        #[trigger] self.agents@[k],
                    ),
                forall|k: int|
                    0 <= k < newborns@.len() ==> newborn_shape(#[trigger] newborns@[k]),
                agents_wf(self.agents@),
                agents_wf(keptfull),
            decreases newborns@.len() - j,
        {
            let b = newborns[j];
            self.agents.push(b);
            proof {
                assert(self.agents@.subrange(0, keptfull.len() as int) =~= keptfull);
                assert(newborn_shape(b));
            }
            j += 1;
        }
        let ghost aft_append = self.agents@;
        replenish_agents(&mut self.agents, self.minimum_agent_count, bounds, rng);
        replenish_food(&mut self.food, self.minimum_food_count, bounds, rng);
        replenish_poison(&mut self.poison, self.minimum_poison_count, bounds, rng);
        proof {
            lemma_rc_nonneg(a_s, p0, n);
            assert(keptfull.len() == rc);
            assert(aft_append.len() == rc + nbl);
            assert(self.agents@.subrange(0, aft_append.len() as int) == aft_append);
            assert forall|q: int|
                0 <= q < n && #[trigger] retains_at(a_s, p0, q) implies exists|t: V2|
                #[trigger] wander_pick(a_s[q], bounds, t) && self.agents@[retained_count(
                    a_s,
                    p0,
                    q,
                )] == survivor_sp(
                    a_s[q],
                    kept_prefix(
                        a_s[q].position,
                        pass_poison(a_s, p0, q),
                        pass_poison(a_s, p0, q).len() as int,
                    ),
                    pass_food(a_s, p0, f0, q),
                    delta as int,
                    t,
                ) by {
                lemma_rc_bounds(a_s, p0, q, n);
                let rcq = retained_count(a_s, p0, q);
                lemma_rc_nonneg(a_s, p0, q);
                let t0 = choose|t: V2|
                    #[trigger] wander_pick(a_s[q], bounds, t) && keptfull[rcq]
                        == survivor_sp(
                        a_s[q],
                        kept_prefix(
                            a_s[q].position,
                            pass_poison(a_s, p0, q),
                            pass_poison(a_s, p0, q).len() as int,
                        ),
                        pass_food(a_s, p0, f0, q),
                        delta as int,
                        t,
                    );
                assert(aft_append.subrange(0, keptfull.len() as int)[rcq]
                    == aft_append[rcq]);
                assert(self.agents@.subrange(0, aft_append.len() as int)[rcq]
                    == self.agents@[rcq]);
                assert(self.agents@[rcq] == keptfull[rcq]);
            }
            assert forall|k: int|
                rc <= k < self.agents@.len() implies newborn_shape(
                #[trigger] self.agents@[k],
            ) by {
                if k < aft_append.len() {
                    assert(self.agents@.subrange(0, aft_append.len() as int)[k]
                        == self.agents@[k]);
                    assert(self.agents@[k] == aft_append[k]);
                } else {
                    assert(fresh_agent_sp(self.agents@[k], bounds));
                }
            }
            assert(agents_filled(
                self.agents@.len() as int,
                rc,
                nbl,
                old(self).minimum_agent_count as int,
            ));
        }
    }

    /// One simulation tick.
    ///
    /// With a follow point every agent arrives at it with hunger held
    /// at zero and aging suspended; nothing dies and nothing is born.
    /// Otherwise each agent takes the turn that `step_agent` pins
    /// down: the poison and food collections end as the deterministic
    /// fold of those turns over the starting state, survivors sit in
    /// order at the front of the agent list with the dead dropped,
    /// newborns and replenished agents follow them, and the mean-age
    /// readout is the survivors' average age, zero when none survive.
    /// Afterwards every collection is replenished toward its minimum:
    /// poison and agents fill their whole deficit, food fills each
    /// missing slot only with the refill probability.
    #[verifier::rlimit(100)]
    #[verifier::spinoff_prover]
    pub fn tick(
        &mut self,
        delta: i64,
        bounds: Bounds,
        follow: Option<V2>,
        rng: &mut rand::rngs::StdRng,
    )
        requires
            world_wf(*old(self)),
            0 <= delta <= FX_MAX,
            bounds_wf(bounds),
            match follow {
                Some(pt) => v2_wf(pt),
                None => true,
            },
        ensures
            world_wf(*final(self)),
            final(self).minimum_food_count == old(self).minimum_food_count,
            final(self).minimum_poison_count == old(self).minimum_poison_count,
            final(self).minimum_agent_count == old(self).minimum_agent_count,
            match follow {
                Some(pt) => {
                    &&& final(self).agents@.len() == (if old(self).agents@.len() >= old(self).minimum_agent_count {
                        old(self).agents@.len() as int
                    } else {
                        old(self).minimum_agent_count as int
                    })
                    &&& forall|q: int|
                        0 <= q < old(self).agents@.len() ==> final(self).agents@[q]
                            == follow_step_sp(#[trigger] old(self).agents@[q], pt)
                    &&& forall|k: int|
                        old(self).agents@.len() <= k < final(self).agents@.len()
                            ==> fresh_agent_sp(#[trigger] final(self).agents@[k], bounds)
                    &&& food_replenished(
                        old(self).food@,
                        final(self).food@,
                        old(self).minimum_food_count as int,
                        bounds,
                    )
                    &&& poison_replenished(
                        old(self).poison@,
                        final(self).poison@,
                        old(self).minimum_poison_count as int,
                        bounds,
                    )
                    &&& final(self).mean_age == 0
                },
                None => {
                    let a_s = old(self).agents@;
                    let f0 = old(self).food@;
                    let p0 = old(self).poison@;
                    let n = a_s.len() as int;
                    let rc = retained_count(a_s, p0, n);
                    &&& poison_replenished(
                        pass_poison(a_s, p0, n),
                        final(self).poison@,
                        old(self).minimum_poison_count as int,
                        bounds,
                    )
                    &&& food_replenished(
                        pass_food(a_s, p0, f0, n),
                        final(self).food@,
                        old(self).minimum_food_count as int,
                        bounds,
                    )
                    &&& rc <= final(self).agents@.len()
                    &&& forall|q: int|
                        0 <= q < n && #[trigger] retains_at(a_s, p0, q) ==> exists|t: V2|
                            #[trigger] wander_pick(a_s[q], bounds, t) && final(self).agents@[retained_count(a_s, p0, q)] == survivor_sp(
                                a_s[q],
                                kept_prefix(
                                    a_s[q].position,
                                    pass_poison(a_s, p0, q),
                                    pass_poison(a_s, p0, q).len() as int,
                                ),
                                pass_food(a_s, p0, f0, q),
                                delta as int,
                                t,
                            )
                    &&& forall|k: int|
                        rc <= k < final(self).agents@.len() ==> newborn_shape(
                            #[trigger] final(self).agents@[k],
                        )
                    &&& exists|nb: int|
                        #[trigger] agents_filled(
                            final(self).agents@.len() as int,
                            rc,
                            nb,
                            old(self).minimum_agent_count as int,
                        )
                    &&& final(self).mean_age == (if rc == 0 {
                        0int
                    } else {
                        age_total(a_s, p0, delta as int, n) / rc
                    })
                },
            },
    {
        match follow {
            Some(pt) => {
                self.tick_follow(pt, bounds, rng);
            },
            None => {
                self.tick_free(delta, bounds, rng);
            },
        }
    }
}

} // verus!
