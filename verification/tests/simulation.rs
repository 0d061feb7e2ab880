use glam::DVec2;
use gravity_sim::benchmark::{Benchmark, BenchmarkStatus};
use gravity_sim::particle::{
    Particle, Physics, Vec2, GREATEST_POSITIVE_BITS, NEGATIVE_INFINITY_BITS, NEGATIVE_ZERO_BITS,
    NEG_G_BITS, POSITIVE_INFINITY_BITS,
};
use gravity_sim::population::{Population, SpawnError};
use gravity_sim::protocol::{Event, Phase, Turn};
use gravity_sim::strategy::World;
use gravity_sim::worker::{commit, compute};
use gravity_sim::world::{PoolError, RayonWorld, SequentialWorld, WorkerThreadsWorld, WorldType};
use parking_lot::{Mutex, RwLock};
use rayon::iter::{IntoParallelIterator, ParallelIterator};

const NEG_G: f64 = -6.67430e-11;

type OfTwoVectors = fn(Vec2, Vec2) -> Vec2;
type OfVector = fn(Vec2) -> u64;
type OfReal = fn(u64) -> u64;
type OfTwoReals = fn(u64, u64) -> u64;
type OfVectorAndReal = fn(Vec2, u64) -> Vec2;
type Gravity =
    Physics<OfTwoVectors, OfVector, OfReal, OfTwoReals, OfVectorAndReal, OfVectorAndReal, OfTwoVectors>;

fn bits(v: DVec2) -> Vec2 {
    Vec2 { x: v.x.to_bits(), y: v.y.to_bits() }
}

fn vector(v: Vec2) -> DVec2 {
    DVec2::new(f64::from_bits(v.x), f64::from_bits(v.y))
}

fn at(x: f64, y: f64) -> Vec2 {
    bits(DVec2::new(x, y))
}

fn difference(a: Vec2, b: Vec2) -> Vec2 {
    bits(vector(a) - vector(b))
}

fn length(v: Vec2) -> u64 {
    vector(v).length().to_bits()
}

fn cube(x: u64) -> u64 {
    f64::from_bits(x).powi(3).to_bits()
}

fn product(x: u64, y: u64) -> u64 {
    (f64::from_bits(x) * f64::from_bits(y)).to_bits()
}

fn scale(v: Vec2, s: u64) -> Vec2 {
    bits(vector(v) * f64::from_bits(s))
}

fn quotient(v: Vec2, s: u64) -> Vec2 {
    bits(vector(v) / f64::from_bits(s))
}

fn sum(a: Vec2, b: Vec2) -> Vec2 {
    bits(vector(a) + vector(b))
}

fn gravity() -> Gravity {
    Physics { difference, length, cube, product, scale, quotient, sum }
}

/// The law of gravitation written out in one line.
fn pull(subject: &Particle, source: &Particle) -> Vec2 {
    let r = vector(subject.position) - vector(source.position);
    bits(NEG_G * f64::from_bits(source.mass) * r / r.length().powi(3))
}

fn never_called() -> Gravity {
    Physics {
        difference: |_, _| panic!("coincident particles are not handed to the formula"),
        ..gravity()
    }
}

fn population_of(bodies: &[(f64, f64, f64)]) -> Population {
    let mut population = Population::new();
    for &(x, y, mass) in bodies {
        population.create_particle(at(x, y), at(0.0, 0.0), mass.to_bits()).unwrap();
    }
    population
}

fn copy_of(population: &Population) -> Population {
    let copy = population.duplicate();
    assert_eq!(copy.particles, population.particles);
    assert_eq!(copy.next_id, population.next_id);
    copy
}

fn scattered() -> Population {
    let mut bodies = Vec::new();
    for i in 0..23 {
        let t = i as f64;
        bodies.push((100.0 * (t * 0.7).sin() + t, 80.0 * (t * 1.3).cos() - t, 1.0e10 + 3.0e9 * t));
    }
    let mut population = population_of(&bodies);
    for (i, particle) in population.particles.iter_mut().enumerate() {
        particle.velocity = at(0.01 * i as f64, -0.02 * i as f64);
    }
    population
}

fn all_worlds(population: &Population, threads: usize) -> Vec<World> {
    vec![
        World::new(WorldType::Sequential, threads, copy_of(population)).unwrap(),
        World::new(WorldType::Rayon, threads, copy_of(population)).unwrap(),
        World::new(WorldType::Threads, threads, copy_of(population)).unwrap(),
    ]
}

#[test]
fn two_bodies_fall_towards_each_other() {
    let population = population_of(&[(0.0, 0.0, 5.0), (10.0, 0.0, 3.0)]);
    for mut world in all_worlds(&population, 2) {
        world.update(1.0f64.to_bits(), &gravity());
        let after = world.get_particles();
        assert_eq!(after.len(), 2);
        let a0 = 6.6743e-11 * 3.0 / 100.0;
        let a1 = 6.6743e-11 * 5.0 / 100.0;
        let left = vector(after[0].position);
        let right = vector(after[1].position);
        assert!((vector(after[0].velocity).x - a0).abs() <= 1e-9 * a0);
        assert!((vector(after[1].velocity).x + a1).abs() <= 1e-9 * a1);
        assert!((left.x - a0).abs() <= 1e-9 * a0);
        assert!((right.x - (10.0 - a1)).abs() <= 1e-12);
        assert_eq!(left.y, 0.0);
        assert_eq!(right.y, 0.0);
        assert!(left.x > 0.0 && right.x < 10.0);
        let centre = (5.0 * left.x + 3.0 * right.x) / 8.0;
        assert!((centre - 30.0 / 8.0).abs() <= 1e-12);
        assert!(((left.x + right.x) / 2.0 - 5.0).abs() <= 1e-9);
        assert_eq!(after[0].id, 0);
        assert_eq!(after[1].id, 1);
        assert_eq!(after[0].mass, 5.0f64.to_bits());
        assert_eq!(after[1].mass, 3.0f64.to_bits());
    }
}

#[test]
fn two_body_velocity_has_exact_expected_bits() {
    let population = population_of(&[(0.0, 0.0, 5.0), (10.0, 0.0, 3.0)]);
    let mut world = SequentialWorld::new(population);
    world.update(1.0f64.to_bits(), &gravity());
    let expected = NEG_G * 3.0 * -10.0 / 10.0f64.powi(3);
    let after = world.get_particles();
    assert_eq!(f64::from_bits(after[0].velocity.x), expected);
    assert_eq!(f64::from_bits(after[0].position.x), expected);
}

#[test]
fn three_equal_bodies_move_equally_towards_the_centroid() {
    let h = 3.0f64.sqrt() / 2.0;
    let bodies = [(0.0, 0.0, 1.0e12), (1000.0, 0.0, 1.0e12), (500.0, 1000.0 * h, 1.0e12)];
    let population = population_of(&bodies);
    let centroid = DVec2::new(500.0, 1000.0 * h / 3.0);
    for threads in 1..5 {
        for mut world in all_worlds(&population, threads) {
            world.update(1.0f64.to_bits(), &gravity());
            let after = world.get_particles();
            let mut moved = Vec::new();
            for (i, particle) in after.iter().enumerate() {
                let start = DVec2::new(bodies[i].0, bodies[i].1);
                let step = vector(particle.position) - start;
                let inward = (centroid - start).normalize();
                assert!(step.length() > 0.0);
                assert!((step.normalize().dot(inward) - 1.0).abs() < 1e-9);
                moved.push(step.length());
            }
            assert!((moved[0] - moved[1]).abs() <= 1e-9 * moved[0]);
            assert!((moved[0] - moved[2]).abs() <= 1e-9 * moved[0]);
        }
    }
}

#[test]
fn strategies_give_the_same_step() {
    let population = scattered();
    let dt = 0.5f64.to_bits();
    let mut baseline = SequentialWorld::new(copy_of(&population));
    baseline.update(dt, &gravity());
    let expected = baseline.get_particles();
    assert_ne!(expected, population.get_particles());
    let mut parallel = RayonWorld::new(copy_of(&population));
    parallel.update(dt, &gravity());
    assert_eq!(parallel.get_particles(), expected);
    for threads in [1usize, 2, 3, 4, 7, 23, 24, 100] {
        let mut pool = WorkerThreadsWorld::new(threads, copy_of(&population)).unwrap();
        pool.update(dt, &gravity());
        assert_eq!(pool.get_particles(), expected);
    }
}

#[test]
fn pool_step_reads_nothing_written_in_the_same_step() {
    let population = population_of(&[(0.0, 0.0, 1.0e12), (1.0, 0.0, 1.0e14), (0.0, 2.0, 1.0e13)]);
    let dt = 1.0f64.to_bits();
    let before = population.get_particles();
    let mut baseline = SequentialWorld::new(copy_of(&population));
    baseline.update(dt, &gravity());
    let expected = baseline.get_particles();

    // What particle 0 would become if it saw particle 1 already moved.
    let mut leaked = before.clone();
    leaked[1] = expected[1];
    let mut wrong = before[0];
    wrong.advance(&leaked, dt, &gravity());
    assert_ne!(wrong.position, expected[0].position);

    for threads in 1..5 {
        let mut pool = WorkerThreadsWorld::new(threads, copy_of(&population)).unwrap();
        pool.update(dt, &gravity());
        assert_eq!(pool.get_particles(), expected);
    }

    // The phases by hand, the writes in the opposite order of the workers.
    let mut pool = WorkerThreadsWorld::new(3, copy_of(&population)).unwrap();
    let results: Vec<Vec<Vec2>> = (0..3).map(|w| compute(&before, w, 3, dt, &gravity())).collect();
    for worker in (0..3).rev() {
        pool.commit(worker, &results[worker], dt, &gravity());
    }
    assert_eq!(pool.get_particles(), expected);
}

#[test]
fn workers_on_real_threads_agree_with_the_baseline() {
    let population = scattered();
    let dt = 0.25f64.to_bits();
    let mut baseline = SequentialWorld::new(copy_of(&population));
    baseline.update(dt, &gravity());
    baseline.update(dt, &gravity());
    let expected = baseline.get_particles();
    for workers in [1usize, 2, 5, 8, 40] {
        let pool = RwLock::new(WorkerThreadsWorld::new(workers, copy_of(&population)).unwrap());
        for _ in 0..2 {
            let snapshot = pool.read().get_particles();
            (0..workers).into_par_iter().for_each(|worker| {
                let increments = compute(&snapshot, worker, workers, dt, &gravity());
                pool.write().commit(worker, &increments, dt, &gravity());
            });
        }
        assert_eq!(pool.read().get_particles(), expected);
    }
}

#[test]
fn a_particle_is_never_its_own_source() {
    let mut population = population_of(&[(1.0, 1.0, 2.0), (1.0, 1.0, 3.0), (4.0, 5.0, 6.0)]);
    let subject = population.particles[0];
    let twin = Particle { id: 0, velocity: at(9.0, 9.0), position: at(7.0, 7.0), mass: 1.0f64.to_bits() };
    population.particles.push(twin);

    let start = population_of(&[(1.0, 1.0, 2.0), (2.0, 1.0, 3.0), (4.0, 5.0, 6.0)]);
    let mut with_twin = start.get_particles();
    with_twin.push(Particle { id: 1, position: at(1.5, 1.0), mass: 1.0e15f64.to_bits(), ..with_twin[1] });
    let alone = with_twin[1].net_acceleration(&start.particles, &gravity());
    assert_eq!(with_twin[1].net_acceleration(&with_twin, &gravity()), alone);
    assert_ne!(with_twin[0].net_acceleration(&with_twin, &gravity()), start.particles[0].net_acceleration(&start.particles, &gravity()));
    let net = subject.net_acceleration(&population.particles, &gravity());
    let expected = sum(sum(at(0.0, 0.0), at(0.0, 0.0)), pull(&subject, &population.particles[2]));
    assert_eq!(net, expected);
}

#[test]
fn coincident_particles_do_not_pull_each_other() {
    let mut world = SequentialWorld::new(population_of(&[(3.0, 4.0, 2.0), (3.0, 4.0, 5.0)]));
    world.update(1.0f64.to_bits(), &gravity());
    let after = world.get_particles();
    assert_eq!(after[0].position, at(3.0, 4.0));
    assert_eq!(after[1].position, at(3.0, 4.0));
    assert_eq!(after[0].velocity, at(0.0, 0.0));

    let here = Particle { id: 0, velocity: at(0.0, 0.0), position: at(0.0, 0.0), mass: 2.0f64.to_bits() };
    let there = Particle { id: 1, position: at(-0.0, 0.0), ..here };
    assert_ne!(here.position, there.position);
    assert!(Particle::is_same_place(here.position, there.position));
    assert!(Particle::is_same_place(at(-0.0, 1.5), at(0.0, 1.5)));
    assert!(!Particle::is_same_place(at(0.0, 1.5), at(0.0, -1.5)));
    assert!(!Particle::is_same_place(at(1.0, 0.0), at(0.0, 0.0)));
    assert!(vector(pull(&here, &there)).is_nan());
    assert_eq!(here.acceleration(&there, &gravity()), at(0.0, 0.0));
    assert_eq!(here.acceleration(&Particle { id: 6, ..there }, &never_called()), at(0.0, 0.0));
    let lost: Gravity = Physics { quotient: |_, _| at(f64::NAN, 1.0), ..gravity() };
    let far_away = Particle { id: 9, position: at(5.0, 5.0), ..here };
    assert_eq!(here.acceleration(&far_away, &lost), at(0.0, 0.0));
    assert_eq!(here.acceleration(&here, &gravity()), at(0.0, 0.0));
    assert_eq!(here.acceleration(&Particle { id: 5, ..here }, &never_called()), at(0.0, 0.0));
    let far = Particle { id: 2, position: at(10.0, 0.0), mass: 3.0f64.to_bits(), ..here };
    assert_eq!(here.acceleration(&far, &gravity()), pull(&here, &far));
    assert_eq!(here.attraction(&far, &gravity()), pull(&here, &far));
    assert_eq!(far.attraction(&here, &gravity()), pull(&far, &here));
    assert!(vector(here.attraction(&here, &gravity())).is_nan());
    assert_eq!(NEG_G_BITS, (-6.67430e-11f64).to_bits());
    assert_eq!(NEGATIVE_ZERO_BITS, (-0.0f64).to_bits());
    let towards = vector(here.acceleration(&far, &gravity()));
    let expected = 6.6743e-11 * 3.0 / 100.0;
    assert!((towards.x - expected).abs() <= 1e-12 * expected);
    assert_eq!(towards.y, 0.0);
    let back = vector(far.acceleration(&here, &gravity()));
    assert!((back.x * 3.0 + towards.x * 2.0).abs() <= 1e-12 * expected);
}

#[test]
fn pulls_of_two_particles_balance() {
    let a = Particle { id: 0, velocity: at(0.0, 0.0), position: at(-3.0, 2.0), mass: 4.0e10f64.to_bits() };
    let b = Particle { id: 1, velocity: at(0.0, 0.0), position: at(9.0, 7.0), mass: 2.5e12f64.to_bits() };
    let on_a = vector(a.acceleration(&b, &gravity())) * 4.0e10;
    let on_b = vector(b.acceleration(&a, &gravity())) * 2.5e12;
    assert!(on_a.length() > 0.0);
    assert!((on_a.length() - on_b.length()).abs() <= 1e-12 * on_a.length());
    assert!((on_a + on_b).length() <= 1e-12 * on_a.length());
    let towards_b = (vector(b.position) - vector(a.position)).normalize();
    assert!((on_a.normalize().dot(towards_b) - 1.0).abs() <= 1e-12);
    let expected = 6.6743e-11 * 2.5e12 / 169.0;
    assert!((vector(a.acceleration(&b, &gravity())).length() - expected).abs() <= 1e-12 * expected);
}

#[test]
fn nan_patterns_are_told_from_numbers() {
    for value in [0.0f64, -0.0, 1.0, -1.0, f64::MAX, f64::MIN, f64::MIN_POSITIVE, f64::INFINITY, f64::NEG_INFINITY, 5e-324] {
        assert!(!Particle::is_nan_bits(value.to_bits()));
    }
    for pattern in [
        f64::NAN.to_bits(),
        (-f64::NAN).to_bits(),
        POSITIVE_INFINITY_BITS + 1,
        GREATEST_POSITIVE_BITS,
        NEGATIVE_INFINITY_BITS + 1,
        u64::MAX,
    ] {
        assert!(f64::from_bits(pattern).is_nan());
        assert!(Particle::is_nan_bits(pattern));
    }
    assert_eq!(POSITIVE_INFINITY_BITS, f64::INFINITY.to_bits());
    assert_eq!(NEGATIVE_INFINITY_BITS, f64::NEG_INFINITY.to_bits());
    assert!(!Particle::is_nan_bits(GREATEST_POSITIVE_BITS + 1));
}

#[test]
fn invalid_mass_is_rejected_and_nothing_changes() {
    let mut world = World::new(WorldType::Sequential, 0, Population::new()).unwrap();
    assert_eq!(world.create_particle(at(0.0, 0.0), at(0.0, 0.0), 1.0f64.to_bits()), Ok(0));
    let before = world.get_particles();
    for mass in [0.0f64, -0.0, -1.0, -1.0e-300, f64::NAN, f64::INFINITY, f64::NEG_INFINITY] {
        let outcome = world.create_particle(at(1.0, 1.0), at(0.0, 0.0), mass.to_bits());
        assert_eq!(outcome, Err(SpawnError::InvalidMass));
        assert_eq!(world.get_particles(), before);
        assert_eq!(world.next_id(), 1);
    }
    assert!(!Particle::has_valid_mass(POSITIVE_INFINITY_BITS));
    assert!(Particle::has_valid_mass(POSITIVE_INFINITY_BITS - 1));
    assert!(Particle::has_valid_mass(f64::MIN_POSITIVE.to_bits()));
    assert!(Particle::has_valid_mass(1));
    assert_eq!(world.create_particle(at(1.0, 1.0), at(2.0, 3.0), 7.5f64.to_bits()), Ok(1));
    let after = world.get_particles();
    assert_eq!(after.len(), 2);
    assert_eq!(
        after[1],
        Particle { id: 1, velocity: at(2.0, 3.0), position: at(1.0, 1.0), mass: 7.5f64.to_bits() }
    );
}

#[test]
fn a_population_is_seeded_from_sound_particles_only() {
    let body = |id: usize, mass: f64| Particle { id, velocity: at(0.0, 0.0), position: at(1.0, 2.0), mass: mass.to_bits() };
    let sound = vec![body(4, 1.0), body(0, 2.0), body(9, 3.0), body(2, 4.0)];
    let mut population = Population::from_particles(sound.clone()).unwrap();
    assert_eq!(population.particles, sound);
    assert_eq!(population.next_id, 10);
    assert_eq!(population.create_particle(at(0.0, 0.0), at(0.0, 0.0), 1.0f64.to_bits()), Ok(10));
    let empty = Population::from_particles(Vec::new()).unwrap();
    assert_eq!(empty.next_id, 0);
    assert_eq!(empty.len(), 0);
    assert!(Population::from_particles(vec![body(1, 1.0), body(2, 1.0), body(1, 5.0)]).is_none());
    assert!(Population::from_particles(vec![body(1, 1.0), body(2, 0.0)]).is_none());
    assert!(Population::from_particles(vec![body(1, -1.0)]).is_none());
    assert!(Population::from_particles(vec![body(usize::MAX, 1.0)]).is_none());
    assert_eq!(Population::from_particles(vec![body(usize::MAX - 1, 1.0)]).unwrap().next_id, usize::MAX);
}

#[test]
fn ids_run_out_at_the_machine_limit() {
    let mut population = Population { particles: Vec::new(), next_id: usize::MAX };
    let outcome = population.create_particle(at(0.0, 0.0), at(0.0, 0.0), 1.0f64.to_bits());
    assert_eq!(outcome, Err(SpawnError::IdsExhausted));
    assert_eq!(population.len(), 0);
    assert_eq!(population.next_id, usize::MAX);
}

#[test]
fn concurrent_spawns_get_distinct_ids() {
    let world = Mutex::new(World::new(WorldType::Threads, 4, Population::new()).unwrap());
    let count = 500usize;
    (0..count).into_par_iter().for_each(|i| {
        let outcome = world.lock().create_particle(at(i as f64, 0.0), at(0.0, 0.0), 1.0f64.to_bits());
        assert!(outcome.is_ok());
    });
    let particles = world.lock().get_particles();
    assert_eq!(particles.len(), count);
    let mut ids: Vec<usize> = particles.iter().map(|p| p.id).collect();
    ids.sort();
    ids.dedup();
    assert_eq!(ids, (0..count).collect::<Vec<usize>>());
    for (index, particle) in particles.iter().enumerate() {
        assert_eq!(particle.id, index);
    }
}

#[test]
fn reset_clears_particles_and_keeps_the_counter() {
    let mut world = World::new(WorldType::Rayon, 0, population_of(&[(0.0, 0.0, 1.0), (1.0, 0.0, 1.0)])).unwrap();
    world.reset();
    assert!(world.get_particles().is_empty());
    assert_eq!(world.world_type(), WorldType::Rayon);
    assert_eq!(world.create_particle(at(0.0, 0.0), at(0.0, 0.0), 1.0f64.to_bits()), Ok(2));
}

#[test]
fn workers_deal_the_indices_out_in_turn() {
    let population = scattered();
    let snapshot = population.get_particles();
    // With these operations the change of velocity of a particle is its
    // own position, and each position holds the particle's index.
    let label: Gravity = Physics {
        difference: |a, _| a,
        length: |_| 0,
        cube: |_| 0,
        product: |_, _| 0,
        scale: |v, _| v,
        quotient: |v, _| v,
        sum: |_, b| b,
    };
    let snapshot: Vec<Particle> = snapshot
        .iter()
        .enumerate()
        .map(|(i, particle)| Particle { position: Vec2 { x: i as u64, y: 9 }, ..*particle })
        .collect();
    let workers = 4;
    let mut seen = vec![0usize; snapshot.len()];
    for worker in 0..workers {
        let increments = compute(&snapshot, worker, workers, 9, &label);
        let expected: Vec<u64> = (worker..snapshot.len()).step_by(workers).map(|i| i as u64).collect();
        let got: Vec<u64> = increments.iter().map(|v| v.x).collect();
        assert_eq!(got, expected);
        assert!(increments.iter().all(|v| v.y == 9));
        for v in &increments {
            seen[v.x as usize] += 1;
        }
    }
    assert!(seen.iter().all(|&times| times == 1));
    assert_eq!(compute(&snapshot, 23, 24, 9, &label).len(), 0);
    assert_eq!(compute(&snapshot, 22, 24, 9, &label).len(), 1);
    assert_eq!(compute(&Vec::new(), 0, 1, 9, &label).len(), 0);
}

#[test]
fn commit_writes_own_indices_only() {
    let population = scattered();
    let before = population.get_particles();
    let mut particles = population.get_particles();
    let increments = vec![at(1.0, 2.0), at(-3.0, 0.5), at(0.25, 0.0)];
    let dt = 2.0f64.to_bits();
    commit(&mut particles, 1, 5, &increments, dt, &gravity());
    for (i, particle) in particles.iter().enumerate() {
        if i % 5 == 1 && i / 5 < 3 {
            let velocity = vector(before[i].velocity) + vector(increments[i / 5]);
            let position = vector(before[i].position) + velocity * 2.0;
            assert_eq!(particle.velocity, bits(velocity));
            assert_eq!(particle.position, bits(position));
            assert_eq!(particle.id, before[i].id);
            assert_eq!(particle.mass, before[i].mass);
        } else {
            assert_eq!(*particle, before[i]);
        }
    }
    assert_ne!(particles[1], before[1]);
    assert_ne!(particles[11], before[11]);
    assert_eq!(particles[16], before[16]);

    let mut short = before[..4].to_vec();
    commit(&mut short, 3, 4, &increments, dt, &gravity());
    assert_eq!(short[3].velocity, bits(vector(before[3].velocity) + DVec2::new(1.0, 2.0)));
    assert_eq!(short[..3], before[..3]);
    let mut untouched = before.clone();
    commit(&mut untouched, 30, 31, &increments, dt, &gravity());
    assert_eq!(untouched, before);
}

#[test]
fn a_pool_without_workers_is_refused() {
    assert!(matches!(WorkerThreadsWorld::new(0, Population::new()), Err(PoolError::NoWorkers)));
    assert!(matches!(World::new(WorldType::Threads, 0, Population::new()), Err(PoolError::NoWorkers)));
    let pool = WorkerThreadsWorld::new(3, scattered()).unwrap();
    assert_eq!(pool.num_threads, 3);
    assert_eq!(pool.get_particles(), scattered().get_particles());
}

#[test]
fn an_empty_world_steps_without_effect() {
    for mut world in all_worlds(&Population::new(), 3) {
        world.update(1.0f64.to_bits(), &gravity());
        assert!(world.get_particles().is_empty());
        assert_eq!(world.next_id(), 0);
    }
}

#[test]
fn switching_strategy_keeps_particles_and_counter() {
    let mut world = World::new(WorldType::Threads, 2, scattered()).unwrap();
    let particles = world.get_particles();
    assert_eq!(world.world_type(), WorldType::Threads);
    assert_eq!(world.change_world_algorithm(WorldType::Rayon, 2), Ok(()));
    assert_eq!(world.world_type(), WorldType::Rayon);
    assert_eq!(world.get_particles(), particles);
    assert_eq!(world.change_world_algorithm(WorldType::Sequential, 0), Ok(()));
    assert_eq!(world.world_type(), WorldType::Sequential);
    assert_eq!(world.change_world_algorithm(WorldType::Threads, 0), Err(PoolError::NoWorkers));
    assert_eq!(world.world_type(), WorldType::Sequential);
    assert_eq!(world.get_particles(), particles);
    assert_eq!(world.change_world_algorithm(WorldType::Threads, 5), Ok(()));
    assert!(matches!(&world, World::Threads(pool) if pool.num_threads == 5));
    assert_eq!(world.get_particles(), particles);
    assert_eq!(world.next_id(), 23);
    assert_eq!(world.create_particle(at(0.0, 0.0), at(0.0, 0.0), 1.0f64.to_bits()), Ok(23));
}

#[test]
fn strategies_follow_each_other_in_a_cycle() {
    assert_eq!(WorldType::Threads.following(), WorldType::Rayon);
    assert_eq!(WorldType::Rayon.following(), WorldType::Sequential);
    assert_eq!(WorldType::Sequential.following(), WorldType::Threads);
}

#[test]
fn velocity_moves_first_and_position_follows_the_new_velocity() {
    let mut particle = Particle { id: 7, velocity: at(1.0, 2.0), position: at(3.0, 4.0), mass: 9.0f64.to_bits() };
    particle.integrate(at(0.5, -1.0), 2.0f64.to_bits(), &gravity());
    assert_eq!(
        particle,
        Particle { id: 7, velocity: at(1.5, 1.0), position: at(6.0, 6.0), mass: 9.0f64.to_bits() }
    );
    let source = Particle { id: 8, velocity: at(0.0, 0.0), position: at(6.0, 14.0), mass: 1.0e12f64.to_bits() };
    let snapshot = vec![particle, source];
    let a = NEG_G * 1.0e12 * -8.0 / 8.0f64.powi(3);
    assert!((a - 6.6743e-11 * 1.0e12 / 64.0).abs() < 1e-12);
    let increment = particle.velocity_increment(&snapshot, 0.5f64.to_bits(), &gravity());
    assert_eq!(vector(increment), DVec2::new(0.0, a * 0.5));
    particle.advance(&snapshot, 0.5f64.to_bits(), &gravity());
    assert_eq!(vector(particle.velocity), DVec2::new(1.5, 1.0 + a * 0.5));
    assert_eq!(vector(particle.position), DVec2::new(6.0 + 1.5 * 0.5, 6.0 + (1.0 + a * 0.5) * 0.5));
    assert_eq!(particle.id, 7);
    assert_eq!(particle.mass, 9.0f64.to_bits());
}

#[test]
fn a_worker_cycles_through_the_phases_of_a_step() {
    let events = [
        Event::Released { stop: false },
        Event::ReadDone,
        Event::WriteDone,
        Event::Arrived { leader: true },
    ];
    let phases = [Phase::Compute, Phase::Commit, Phase::Rendezvous, Phase::Idle];
    let mut phase = Phase::Idle;
    for (i, event) in events.iter().enumerate() {
        let turn = phase.turn(*event);
        assert_eq!(turn, Turn { phase: phases[i], signal: i == 3 });
        phase = turn.phase;
    }
    assert_eq!(
        Phase::Rendezvous.turn(Event::Arrived { leader: false }),
        Turn { phase: Phase::Idle, signal: false }
    );
    assert_eq!(
        Phase::Idle.turn(Event::Released { stop: true }),
        Turn { phase: Phase::Stopped, signal: false }
    );
    let stopped = Turn { phase: Phase::Stopped, signal: false };
    assert_eq!(Phase::Compute.turn(Event::Failed), stopped);
    assert_eq!(Phase::Compute.turn(Event::WriteDone), stopped);
    assert_eq!(Phase::Idle.turn(Event::ReadDone), stopped);
    assert_eq!(Phase::Commit.turn(Event::Arrived { leader: true }), stopped);
    assert_eq!(Phase::Stopped.turn(Event::Released { stop: false }), stopped);
    assert_eq!(Phase::Stopped.turn(Event::Arrived { leader: true }), stopped);
}

#[test]
fn benchmark_finishes_after_the_asked_number_of_steps() {
    let mut benchmark = Benchmark::new(3);
    assert_eq!(benchmark.status, BenchmarkStatus::Paused);
    assert_eq!(benchmark.get_average_time(), None);
    benchmark.start();
    assert_eq!(benchmark.status, BenchmarkStatus::Running);
    benchmark.increase_elapsed_time(100);
    benchmark.increase_elapsed_time(250);
    assert_eq!(benchmark.status, BenchmarkStatus::Running);
    assert_eq!(benchmark.get_average_time(), Some(175));
    benchmark.increase_elapsed_time(51);
    assert_eq!(benchmark.status, BenchmarkStatus::Finished);
    assert_eq!(benchmark.elapsed_time, 401);
    assert_eq!(benchmark.number_iterations, 3);
    assert_eq!(benchmark.get_average_time(), Some(133));
    let mut immediate = Benchmark::new(0);
    immediate.increase_elapsed_time(5);
    assert_eq!(immediate.status, BenchmarkStatus::Finished);
}
