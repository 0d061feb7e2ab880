use vstd::prelude::*;
use crate::particle::{physics_total, Particle, Physics, Vec2};
use crate::population::{spawn_outcome, spawned, Population, SpawnError};
use crate::world::{
    stepped, PoolError, RayonWorld, SequentialWorld, WorkerThreadsWorld, WorldType,
};

verus! {

/// A simulation under one of the three stepping strategies. Whatever the
/// strategy, a step means the same thing.
pub enum World {
    Threads(WorkerThreadsWorld),
    Rayon(RayonWorld),
    Sequential(SequentialWorld),
}

/// Whether a world of the kind `kind` can be set up with `num_threads` workers.
pub open spec fn strategy_outcome(kind: WorldType, num_threads: usize) -> Result<(), PoolError> {
    if kind == WorldType::Threads && num_threads == 0 {
        Err(PoolError::NoWorkers)
    } else {
        Ok(())
    }
}

impl World {
    /// The particles and the id counter, whatever the strategy.
    pub open spec fn population(&self) -> Population {
        match self {
            World::Threads(world) => world.population,
            World::Rayon(world) => world.population,
            World::Sequential(world) => world.population,
        }
    }

    /// The strategy in use.
    pub open spec fn kind(&self) -> WorldType {
        match self {
            World::Threads(_) => WorldType::Threads,
            World::Rayon(_) => WorldType::Rayon,
            World::Sequential(_) => WorldType::Sequential,
        }
    }

    /// The population is well formed, and a pool has at least one worker.
    pub open spec fn wf(&self) -> bool {
        match self {
            World::Threads(world) => world.wf(),
            World::Rayon(world) => world.population.wf(),
            World::Sequential(world) => world.population.wf(),
        }
    }

    /// A world of the kind `kind` over `population`. `num_threads` matters to
    /// a pool only, which is refused when it has no worker.
    pub fn new(kind: WorldType, num_threads: usize, population: Population) -> (outcome: Result<
        World,
        PoolError,
    >)
        requires
            population.wf(),
        ensures
            outcome.is_ok() == strategy_outcome(kind, num_threads).is_ok(),
            outcome.is_err() ==> outcome == Err::<World, PoolError>(PoolError::NoWorkers),
            outcome.is_ok() ==> {
                &&& outcome.unwrap().wf()
                &&& outcome.unwrap().kind() == kind
                &&& outcome.unwrap().population() == population
                &&& kind == WorldType::Threads ==> outcome.unwrap() == World::Threads(
                    WorkerThreadsWorld { population, num_threads },
                )
            },
    {
        match kind {
            WorldType::Threads => match WorkerThreadsWorld::new(num_threads, population) {
                Ok(world) => Ok(World::Threads(world)),
                Err(error) => Err(error),
            },
            WorldType::Rayon => Ok(World::Rayon(RayonWorld::new(population))),
            WorldType::Sequential => Ok(World::Sequential(SequentialWorld::new(population))),
        }
    }

    /// The strategy in use.
    pub fn world_type(&self) -> (kind: WorldType)
        ensures
            kind == self.kind(),
    {
        match self {
            World::Threads(_) => WorldType::Threads,
            World::Rayon(_) => WorldType::Rayon,
            World::Sequential(_) => WorldType::Sequential,
        }
    }

    /// Advances the simulation by one step of size `dt`. The outcome is
    /// described in the same words for every strategy.
    pub fn update<
        D: Fn(Vec2, Vec2) -> Vec2 + Sync,
        L: Fn(Vec2) -> u64 + Sync,
        C: Fn(u64) -> u64 + Sync,
        M: Fn(u64, u64) -> u64 + Sync,
        S: Fn(Vec2, u64) -> Vec2 + Sync,
        Q: Fn(Vec2, u64) -> Vec2 + Sync,
        A: Fn(Vec2, Vec2) -> Vec2 + Sync,
    >(&mut self, dt: u64, physics: &Physics<D, L, C, M, S, Q, A>)
        requires
            old(self).wf(),
            physics_total(*physics),
        ensures
            final(self).wf(),
            final(self).kind() == old(self).kind(),
            final(self).pool_size() == old(self).pool_size(),
            final(self).population().next_id == old(self).population().next_id,
            stepped(
                *physics,
                old(self).population().particles@,
                dt,
                final(self).population().particles@,
            ),
    {
        match self {
            World::Threads(world) => world.update(dt, physics),
            World::Rayon(world) => world.update(dt, physics),
            World::Sequential(world) => world.update(dt, physics),
        }
    }

    /// Adds one particle: see `Population::create_particle`.
    pub fn create_particle(&mut self, position: Vec2, velocity: Vec2, mass: u64) -> (outcome:
        Result<usize, SpawnError>)
        requires
            old(self).wf(),
        ensures
            final(self).wf(),
            final(self).kind() == old(self).kind(),
            final(self).pool_size() == old(self).pool_size(),
            outcome == spawn_outcome(old(self).population().next_id, mass),
            final(self).population().particles@ == match outcome {
                Ok(id) => old(self).population().particles@.push(
                    spawned(id, position, velocity, mass),
                ),
                Err(_) => old(self).population().particles@,
            },
            final(self).population().next_id == match outcome {
                Ok(id) => id + 1,
                Err(_) => old(self).population().next_id as int,
            },
    {
        match self {
            World::Threads(world) => world.create_particle(position, velocity, mass),
            World::Rayon(world) => world.create_particle(position, velocity, mass),
            World::Sequential(world) => world.create_particle(position, velocity, mass),
        }
    }

    /// A copy of every live particle, in order.
    pub fn get_particles(&self) -> (snapshot: Vec<Particle>)
        ensures
            snapshot@ == self.population().particles@,
    {
        match self {
            World::Threads(world) => world.get_particles(),
            World::Rayon(world) => world.get_particles(),
            World::Sequential(world) => world.get_particles(),
        }
    }

    /// Removes every particle. Strategy and id counter stay as they are.
    pub fn reset(&mut self)
        requires
            old(self).wf(),
        ensures
            final(self).wf(),
            final(self).kind() == old(self).kind(),
            final(self).pool_size() == old(self).pool_size(),
            final(self).population().particles@ == Seq::<Particle>::empty(),
            final(self).population().next_id == old(self).population().next_id,
    {
        match self {
            World::Threads(world) => world.population.reset(),
            World::Rayon(world) => world.population.reset(),
            World::Sequential(world) => world.population.reset(),
        }
    }

    /// Replaces the strategy. The new world starts from a copy of the live
    /// particles and the same id counter; the old one is dropped. A pool
    /// without workers is refused, and then nothing changes.
    pub fn change_world_algorithm(
        &mut self,
        new_algorithm: WorldType,
        num_threads: usize,
    ) -> (outcome: Result<(), PoolError>)
        requires
            old(self).wf(),
        ensures
            outcome == strategy_outcome(new_algorithm, num_threads),
            outcome.is_err() ==> *final(self) == *old(self),
            outcome.is_ok() ==> {
                &&& final(self).wf()
                &&& final(self).kind() == new_algorithm
                &&& final(self).population().particles@ == old(self).population().particles@
                &&& final(self).population().next_id == old(self).population().next_id
                &&& new_algorithm == WorldType::Threads ==> final(self).pool_size() == num_threads
            },
    {
        if matches!(new_algorithm, WorldType::Threads) && num_threads == 0 {
            return Err(PoolError::NoWorkers);
        }
        let population = self.duplicate_population();
        match World::new(new_algorithm, num_threads, population) {
            Ok(world) => {
                *self = world;
                Ok(())
            },
            Err(error) => Err(error),
        }
    }

    /// A copy of the particles and the id counter.
    pub fn duplicate_population(&self) -> (copy: Population)
        ensures
            copy.particles@ == self.population().particles@,
            copy.next_id == self.population().next_id,
            self.wf() ==> copy.wf(),
    {
        match self {
            World::Threads(world) => world.population.duplicate(),
            World::Rayon(world) => world.population.duplicate(),
            World::Sequential(world) => world.population.duplicate(),
        }
    }

    /// The number of workers of a pool; zero under the other strategies.
    pub open spec fn pool_size(&self) -> usize {
        match self {
            World::Threads(world) => world.num_threads,
            _ => 0,
        }
    }

    /// The id that the next particle will get.
    pub fn next_id(&self) -> (id: usize)
        ensures
            id == self.population().next_id,
    {
        match self {
            World::Threads(world) => world.population.next_id,
            World::Rayon(world) => world.population.next_id,
            World::Sequential(world) => world.population.next_id,
        }
    }
}

} // verus!
