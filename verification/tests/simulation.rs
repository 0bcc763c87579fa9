use rand::SeedableRng;
use rand::rngs::StdRng;
use steering_life::dna::Dna;
use steering_life::food::Food;
use steering_life::steering_agent::SteeringAgent;
use steering_life::vec2::{Bounds, V2};
use steering_life::world::{World, find_closest_food};

fn rng(seed: u64) -> StdRng {
    StdRng::seed_from_u64(seed)
}

fn test_dna() -> Dna {
    Dna {
        hue: 500,
        max_velocity: 3000,
        max_steer_force: 100,
        arrive_threshold: 50000,
        food_detection_radius: 100000,
        food_force_multiplier: 1000,
        poison_detection_radius: 100000,
        poison_force_multiplier: 1000,
    }
}

fn bounds() -> Bounds {
    Bounds { w: 1024000, h: 768000 }
}

fn factor_range_ok(old: i64, new: i64) -> bool {
    // new == old * f / 1000 for some f in [930, 1070)
    new >= old * 930 / 1000 && new <= old * 1069 / 1000
}

#[test]
fn mutate_zero_chance_copies_bit_for_bit() {
    let mut r = rng(1);
    let g = test_dna();
    let m = g.mutate(0, &mut r);
    assert_eq!(g, m);
}

#[test]
fn mutate_full_chance_scales_every_trait() {
    let mut r = rng(2);
    let g = test_dna();
    let m = g.mutate(1000, &mut r);
    assert!(factor_range_ok(g.hue, m.hue));
    assert!(factor_range_ok(g.max_velocity, m.max_velocity));
    assert!(factor_range_ok(g.max_steer_force, m.max_steer_force));
    assert!(factor_range_ok(g.arrive_threshold, m.arrive_threshold));
    assert!(factor_range_ok(g.food_detection_radius, m.food_detection_radius));
    assert!(factor_range_ok(g.food_force_multiplier, m.food_force_multiplier));
    assert!(factor_range_ok(g.poison_detection_radius, m.poison_detection_radius));
    assert!(factor_range_ok(g.poison_force_multiplier, m.poison_force_multiplier));
}

#[test]
fn random_dna_lies_in_documented_ranges() {
    let mut r = rng(3);
    for _ in 0..50 {
        let g = Dna::random(&mut r);
        assert!(g.hue >= 0 && g.hue < 1000);
        assert!(g.max_velocity >= 2500 && g.max_velocity < 5000);
        assert!(g.max_steer_force >= 75 && g.max_steer_force < 200);
        assert!(g.arrive_threshold >= 48000 && g.arrive_threshold < 64000);
        assert!(g.food_detection_radius >= 64000 && g.food_detection_radius < 192000);
        assert!(g.food_force_multiplier >= 750 && g.food_force_multiplier < 1250);
        assert!(g.poison_detection_radius >= 64000 && g.poison_detection_radius < 192000);
        assert!(g.poison_force_multiplier >= 750 && g.poison_force_multiplier < 1250);
    }
}

#[test]
fn resource_radius_is_half_potency_and_hue_follows_polarity() {
    let mut r = rng(4);
    let p = V2 { x: 0, y: 0 };
    let food = Food::new(p, 20000, &mut r);
    assert_eq!(food.radius, 10000);
    assert!(food.hue >= 250 && food.hue < 400);
    let poison = Food::new(p, -17001, &mut r);
    assert_eq!(poison.radius, 8500);
    assert!(poison.hue >= 0 && poison.hue < 100);
    let zero = Food::new(p, 0, &mut r);
    assert_eq!(zero.radius, 0);
    assert!(zero.hue >= 250 && zero.hue < 400);
}

#[test]
fn new_food_and_new_poison_draw_potency_ranges() {
    let mut r = rng(5);
    let p = V2 { x: 0, y: 0 };
    for _ in 0..20 {
        let f = Food::new_food(p, &mut r);
        assert!(f.potency >= 15000 && f.potency < 25000);
        assert_eq!(f.radius, f.potency / 2);
        let q = Food::new_poison(p, &mut r);
        assert!(q.potency > -25000 && q.potency <= -15000);
        assert_eq!(q.radius, -q.potency / 2);
    }
}

#[test]
fn arrive_at_own_position_adds_no_force() {
    let g = test_dna();
    let pos = V2 { x: 12000, y: -7000 };
    let mut a = SteeringAgent::new(pos, &g);
    a.velocity = V2 { x: 1500, y: -800 };
    a.arrive(pos, 1000);
    assert_eq!(a.acceleration, V2 { x: 0, y: 0 });
}

#[test]
fn arrive_beyond_threshold_matches_seek() {
    let g = test_dna();
    let pos = V2 { x: 0, y: 0 };
    let target = V2 { x: 100000, y: 40000 };
    let mut a = SteeringAgent::new(pos, &g);
    a.velocity = V2 { x: 700, y: -300 };
    let mut b = SteeringAgent::new(pos, &g);
    b.velocity = V2 { x: 700, y: -300 };
    a.arrive(target, 900);
    b.seek(target, 900);
    assert_eq!(a.acceleration, b.acceleration);
}

#[test]
fn update_never_exceeds_max_velocity() {
    let g = test_dna();
    let mut a = SteeringAgent::new(V2 { x: 0, y: 0 }, &g);
    a.apply_force(V2 { x: 900000000, y: -700000000 });
    a.update();
    let vx = a.velocity.x as i128;
    let vy = a.velocity.y as i128;
    let maxv = g.max_velocity as i128;
    assert!(vx * vx + vy * vy <= maxv * maxv);
}

#[test]
fn update_snaps_residual_creep_to_zero() {
    let g = test_dna();
    let mut a = SteeringAgent::new(V2 { x: 0, y: 0 }, &g);
    a.apply_force(V2 { x: 5, y: 5 });
    a.update();
    assert_eq!(a.velocity, V2 { x: 0, y: 0 });
    assert_eq!(a.position, V2 { x: 0, y: 0 });
    assert_eq!(a.hunger, 200);
}

#[test]
fn starving_agent_is_removed_by_tick() {
    let mut r = rng(6);
    let g = test_dna();
    let mut a = SteeringAgent::new(V2 { x: 0, y: 0 }, &g);
    a.hunger = 128001;
    let mut w = World {
        agents: vec![a],
        food: Vec::new(),
        poison: Vec::new(),
        minimum_food_count: 0,
        minimum_poison_count: 0,
        minimum_agent_count: 0,
        mean_age: 0,
    };
    w.tick(16, bounds(), None, &mut r);
    assert_eq!(w.agents.len(), 0);
}

#[test]
fn poison_contact_kills_agent_and_removes_poison() {
    let mut r = rng(7);
    let g = test_dna();
    let a = SteeringAgent::new(V2 { x: 0, y: 0 }, &g);
    let poison = Food::new(V2 { x: 1000, y: 0 }, -20000, &mut r);
    let far_poison = Food::new(V2 { x: 400000, y: 0 }, -20000, &mut r);
    let mut w = World {
        agents: vec![a],
        food: Vec::new(),
        poison: vec![poison, far_poison],
        minimum_food_count: 0,
        minimum_poison_count: 0,
        minimum_agent_count: 0,
        mean_age: 0,
    };
    w.tick(16, bounds(), None, &mut r);
    assert_eq!(w.agents.len(), 0);
    assert_eq!(w.poison.len(), 1);
    assert_eq!(w.poison[0].position, V2 { x: 400000, y: 0 });
}

#[test]
fn eating_reduces_hunger_by_potency_and_removes_that_food() {
    let mut r = rng(8);
    let g = test_dna();
    let mut a = SteeringAgent::new(V2 { x: 0, y: 0 }, &g);
    a.hunger = 25000;
    let near = Food::new(V2 { x: 1000, y: 0 }, 20000, &mut r);
    let far = Food::new(V2 { x: 50000, y: 0 }, 17000, &mut r);
    let far_copy = far;
    let mut w = World {
        agents: vec![a],
        food: vec![near, far],
        poison: Vec::new(),
        minimum_food_count: 0,
        minimum_poison_count: 0,
        minimum_agent_count: 0,
        mean_age: 0,
    };
    w.tick(16, bounds(), None, &mut r);
    // hunger: 25000 - 20000 (ate the near food) + 200 (per-tick step)
    assert_eq!(w.agents[0].hunger, 5200);
    assert_eq!(w.food.len(), 1);
    assert_eq!(w.food[0], far_copy);
}

#[test]
fn hungry_agent_moves_toward_food_and_consumes_it() {
    let mut r = rng(9);
    let g = test_dna();
    let mut a = SteeringAgent::new(V2 { x: 0, y: 0 }, &g);
    a.hunger = 25000;
    let food = Food::new(V2 { x: 5000, y: 0 }, 20000, &mut r);
    let mut w = World {
        agents: vec![a],
        food: vec![food],
        poison: Vec::new(),
        minimum_food_count: 0,
        minimum_poison_count: 0,
        minimum_agent_count: 0,
        mean_age: 0,
    };
    w.tick(16, bounds(), None, &mut r);
    assert!(w.agents[0].hunger < 25000);
    assert_eq!(w.food.len(), 0);
    // the agent stepped toward the food's former location on the x axis
    assert!(w.agents[0].position.x > 0);
}

#[test]
fn hungry_agent_without_food_starts_wandering() {
    let mut r = rng(10);
    let g = test_dna();
    let mut a = SteeringAgent::new(V2 { x: 0, y: 0 }, &g);
    a.hunger = 25000;
    assert!(a.wander_target.is_none());
    let mut w = World {
        agents: vec![a],
        food: Vec::new(),
        poison: Vec::new(),
        minimum_food_count: 0,
        minimum_poison_count: 0,
        minimum_agent_count: 0,
        mean_age: 0,
    };
    w.tick(16, bounds(), None, &mut r);
    assert_eq!(w.agents.len(), 1);
    assert!(w.agents[0].wander_target.is_some());
    assert!(w.agents[0].position != V2 { x: 0, y: 0 });
}

#[test]
fn replenishment_fills_poison_and_agents_fully_but_food_is_chancy() {
    let mut r = rng(11);
    let mut w = World {
        agents: Vec::new(),
        food: Vec::new(),
        poison: Vec::new(),
        minimum_food_count: 10,
        minimum_poison_count: 5,
        minimum_agent_count: 3,
        mean_age: 0,
    };
    w.tick(16, bounds(), None, &mut r);
    assert!(w.food.len() <= 10);
    assert_eq!(w.poison.len(), 5);
    assert_eq!(w.agents.len(), 3);
    for f in &w.food {
        assert!(f.potency >= 15000 && f.potency < 25000);
    }
    for p in &w.poison {
        assert!(p.potency > -25000 && p.potency <= -15000);
    }
    for a in &w.agents {
        assert_eq!(a.hunger, 0);
        assert_eq!(a.age, 0);
    }
}

#[test]
fn food_refill_is_probabilistic_per_slot() {
    // over many seeds the refill chance must sometimes skip a slot
    // and sometimes fill one
    let mut filled_everything = 0;
    let mut filled_nothing = 0;
    for seed in 0..40 {
        let mut r = rng(1000 + seed);
        let mut w = World {
            agents: Vec::new(),
            food: Vec::new(),
            poison: Vec::new(),
            minimum_food_count: 6,
            minimum_poison_count: 0,
            minimum_agent_count: 0,
            mean_age: 0,
        };
        w.tick(16, bounds(), None, &mut r);
        assert!(w.food.len() <= 6);
        if w.food.len() == 6 {
            filled_everything += 1;
        }
        if w.food.is_empty() {
            filled_nothing += 1;
        }
    }
    assert!(filled_everything < 40);
    assert!(filled_nothing < 40);
}

#[test]
fn follow_mode_holds_hunger_and_keeps_everyone() {
    let mut r = rng(12);
    let g = test_dna();
    let mut a = SteeringAgent::new(V2 { x: 10000, y: 10000 }, &g);
    a.hunger = 300000;  // would starve in a free tick
    let mut w = World {
        agents: vec![a],
        food: Vec::new(),
        poison: Vec::new(),
        minimum_food_count: 0,
        minimum_poison_count: 0,
        minimum_agent_count: 0,
        mean_age: 0,
    };
    w.tick(16, bounds(), Some(V2 { x: 0, y: 0 }), &mut r);
    assert_eq!(w.agents.len(), 1);
    // hunger was forced to zero, then the physics step added one increment
    assert_eq!(w.agents[0].hunger, 200);
    assert_eq!(w.mean_age, 0);
}

#[test]
fn find_closest_food_prefers_nearest_and_breaks_ties_by_index() {
    let mut r = rng(13);
    let mut at = |x: i64| Food::new(V2 { x, y: 0 }, 20000, &mut r);
    let foods = vec![at(30000), at(10000), at(-10000), at(50000)];
    let found = find_closest_food(V2 { x: 0, y: 0 }, 100000, &foods);
    let (idx, f) = found.unwrap();
    // indices 1 and 2 are equally near; the earlier one wins
    assert_eq!(idx, 1);
    assert_eq!(f.position, V2 { x: 10000, y: 0 });
    // nothing within one thousandth of a unit
    assert!(find_closest_food(V2 { x: 0, y: 0 }, 1, &foods).is_none());
}

#[test]
fn world_new_fills_every_collection_to_its_minimum() {
    let mut r = rng(14);
    let w = World::new(4, 64, 32, bounds(), &mut r);
    assert_eq!(w.agents.len(), 4);
    assert_eq!(w.food.len(), 64);
    assert_eq!(w.poison.len(), 32);
    assert_eq!(w.minimum_agent_count, 4);
    assert_eq!(w.minimum_food_count, 64);
    assert_eq!(w.minimum_poison_count, 32);
}

#[test]
fn mean_age_tracks_survivors() {
    let mut r = rng(15);
    let g = test_dna();
    let mut a = SteeringAgent::new(V2 { x: 0, y: 0 }, &g);
    a.age = 1000;
    let mut b = SteeringAgent::new(V2 { x: 20000, y: 0 }, &g);
    b.age = 3000;
    let mut w = World {
        agents: vec![a, b],
        food: Vec::new(),
        poison: Vec::new(),
        minimum_food_count: 0,
        minimum_poison_count: 0,
        minimum_agent_count: 0,
        mean_age: 0,
    };
    w.tick(16, bounds(), None, &mut r);
    // both aged by the elapsed 16 thousandths; the mean is exact
    assert_eq!(w.mean_age, (1016 + 3016) / 2);
}
