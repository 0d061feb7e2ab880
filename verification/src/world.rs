use rayon::iter::{IntoParallelRefMutIterator, ParallelIterator};
use vstd::prelude::*;
use crate::particle::{
    advanced_from, increment_gives, integrated, lemma_advance_unique, physics_deterministic,
    physics_total, Particle, Physics, Vec2,
};
use crate::population::{
    lemma_identities_keep_wf, same_identities, spawn_outcome, spawned, Population, SpawnError,
};
use crate::worker::{
    assigned_index, commit, committed, committed_at, compute, computed, lemma_owner_of_index,
    lemma_slots_ordered,
};

verus! {

/// `after` is `before` one step later: every particle was advanced against
/// the whole of `before`, and against nothing newer.
pub open spec fn stepped<
    D: Fn(Vec2, Vec2) -> Vec2,
    L: Fn(Vec2) -> u64,
    C: Fn(u64) -> u64,
    M: Fn(u64, u64) -> u64,
    S: Fn(Vec2, u64) -> Vec2,
    Q: Fn(Vec2, u64) -> Vec2,
    A: Fn(Vec2, Vec2) -> Vec2,
>(
    physics: Physics<D, L, C, M, S, Q, A>,
    before: Seq<Particle>,
    dt: u64,
    after: Seq<Particle>,
) -> bool {
    &&& after.len() == before.len()
    &&& forall|i: int|
        0 <= i < before.len() ==> advanced_from(
            physics,
            before[i],
            before,
            dt,
            #[trigger] after[i],
        )
}

/// A step changes neither ids nor masses.
pub proof fn lemma_stepped_keeps_identities<
    D: Fn(Vec2, Vec2) -> Vec2,
    L: Fn(Vec2) -> u64,
    C: Fn(u64) -> u64,
    M: Fn(u64, u64) -> u64,
    S: Fn(Vec2, u64) -> Vec2,
    Q: Fn(Vec2, u64) -> Vec2,
    A: Fn(Vec2, Vec2) -> Vec2,
>(physics: Physics<D, L, C, M, S, Q, A>, before: Seq<Particle>, dt: u64, after: Seq<Particle>)
    requires
        stepped(physics, before, dt, after),
    ensures
        same_identities(before, after),
{
    assert forall|i: int| 0 <= i < before.len() implies (#[trigger] after[i]).id == before[i].id
        && after[i].mass == before[i].mass by {
        assert(advanced_from(physics, before[i], before, dt, after[i]));
        let increment = choose|increment: Vec2|
            {
                &&& increment_gives(physics, before[i], before, dt, increment)
                &&& #[trigger] integrated(physics, before[i], increment, dt, after[i])
            };
        assert(integrated(physics, before[i], increment, dt, after[i]));
    }
}

/// The strategies agree: when each operation of the physics answers one
/// question in one way only, any two outcomes of a step from the same state
/// are the same state. Every strategy promises `stepped`, so all of them end
/// in that one state.
pub proof fn lemma_strategies_agree<
    D: Fn(Vec2, Vec2) -> Vec2,
    L: Fn(Vec2) -> u64,
    C: Fn(u64) -> u64,
    M: Fn(u64, u64) -> u64,
    S: Fn(Vec2, u64) -> Vec2,
    Q: Fn(Vec2, u64) -> Vec2,
    A: Fn(Vec2, Vec2) -> Vec2,
>(
    physics: Physics<D, L, C, M, S, Q, A>,
    before: Seq<Particle>,
    dt: u64,
    one: Seq<Particle>,
    other: Seq<Particle>,
)
    requires
        physics_deterministic(physics),
        stepped(physics, before, dt, one),
        stepped(physics, before, dt, other),
    ensures
        one == other,
{
    assert forall|i: int| 0 <= i < before.len() implies one[i] == other[i] by {
        assert(advanced_from(physics, before[i], before, dt, one[i]));
        assert(advanced_from(physics, before[i], before, dt, other[i]));
        lemma_advance_unique(physics, before[i], before, dt, one[i], other[i]);
    }
    assert(one =~= other);
}

/// Why a pool of workers could not be set up.
#[derive(Clone, Copy, Debug, PartialEq, Eq, Structural)]
pub enum PoolError {
    /// A pool needs at least one worker.
    NoWorkers,
}

/// The three ways to carry out a step.
#[derive(Clone, Copy, Debug, PartialEq, Eq, Structural)]
pub enum WorldType {
    Threads,
    Rayon,
    Sequential,
}

impl WorldType {
    /// The strategy that follows this one when the user cycles through them.
    pub fn following(self) -> (next: WorldType)
        ensures
            next == match self {
                WorldType::Threads => WorldType::Rayon,
                WorldType::Rayon => WorldType::Sequential,
                WorldType::Sequential => WorldType::Threads,
            },
    {
        match self {
            WorldType::Threads => WorldType::Rayon,
            WorldType::Rayon => WorldType::Sequential,
            WorldType::Sequential => WorldType::Threads,
        }
    }
}

/// Steps the particles one after the other on the calling thread.
pub struct SequentialWorld {
    pub population: Population,
}

impl SequentialWorld {
    /// A world over `population`.
    pub fn new(population: Population) -> (world: SequentialWorld)
        ensures
            world.population == population,
    {
        SequentialWorld { population }
    }

    /// Adds one particle: see `Population::create_particle`.
    pub fn create_particle(&mut self, position: Vec2, velocity: Vec2, mass: u64) -> (outcome:
        Result<usize, SpawnError>)
        requires
            old(self).population.wf(),
        ensures
            final(self).population.wf(),
            outcome == spawn_outcome(old(self).population.next_id, mass),
            final(self).population.particles@ == match outcome {
                Ok(id) => old(self).population.particles@.push(
                    spawned(id, position, velocity, mass),
                ),
                Err(_) => old(self).population.particles@,
            },
            final(self).population.next_id == match outcome {
                Ok(id) => id + 1,
                Err(_) => old(self).population.next_id as int,
            },
    {
        self.population.create_particle(position, velocity, mass)
    }

    /// A copy of every live particle, in order.
    pub fn get_particles(&self) -> (snapshot: Vec<Particle>)
        ensures
            snapshot@ == self.population.particles@,
    {
        self.population.get_particles()
    }

    /// Advances every particle by one step of size `dt`, in order, each
    /// against the state that held when the call began.
    pub fn update<
        D: Fn(Vec2, Vec2) -> Vec2,
        L: Fn(Vec2) -> u64,
        C: Fn(u64) -> u64,
        M: Fn(u64, u64) -> u64,
        S: Fn(Vec2, u64) -> Vec2,
        Q: Fn(Vec2, u64) -> Vec2,
        A: Fn(Vec2, Vec2) -> Vec2,
    >(&mut self, dt: u64, physics: &Physics<D, L, C, M, S, Q, A>)
        requires
            old(self).population.wf(),
            physics_total(*physics),
        ensures
            final(self).population.wf(),
            final(self).population.next_id == old(self).population.next_id,
            stepped(
                *physics,
                old(self).population.particles@,
                dt,
                final(self).population.particles@,
            ),
    {
        let snapshot = self.population.get_particles();
        let mut i: usize = 0;
        while i < self.population.particles.len()
            invariant
                physics_total(*physics),
                self.population.next_id == old(self).population.next_id,
                snapshot@ == old(self).population.particles@,
                self.population.particles@.len() == snapshot@.len(),
                i <= snapshot@.len(),
                forall|j: int|
                    0 <= j < i ==> advanced_from(
                        *physics,
                        snapshot@[j],
                        snapshot@,
                        dt,
                        #[trigger] self.population.particles@[j],
                    ),
                forall|j: int|
                    i <= j < snapshot@.len() ==> #[trigger] self.population.particles@[j]
                        == snapshot@[j],
            decreases snapshot@.len() - i,
        {
            let mut particle = self.population.particles[i];
            particle.advance(&snapshot, dt, physics);
            self.population.particles.set(i, particle);
            i += 1;
        }
        proof {
            lemma_stepped_keeps_identities(*physics, snapshot@, dt, self.population.particles@);
            lemma_identities_keep_wf(
                snapshot@,
                self.population.particles@,
                self.population.next_id,
            );
        }
    }
}

/// Hands every particle of `particles` to rayon's `par_iter_mut().for_each`,
/// which runs the given operation once on each item, on whatever threads its
/// pool offers. The operation is `Particle::advance` against `snapshot`, so
/// every item ends as that function leaves it; the length cannot change.
#[verifier::external_body]
fn advance_each_in_parallel<
    D: Fn(Vec2, Vec2) -> Vec2 + Sync,
    L: Fn(Vec2) -> u64 + Sync,
    C: Fn(u64) -> u64 + Sync,
    M: Fn(u64, u64) -> u64 + Sync,
    S: Fn(Vec2, u64) -> Vec2 + Sync,
    Q: Fn(Vec2, u64) -> Vec2 + Sync,
    A: Fn(Vec2, Vec2) -> Vec2 + Sync,
>(
    particles: &mut Vec<Particle>,
    snapshot: &Vec<Particle>,
    dt: u64,
    physics: &Physics<D, L, C, M, S, Q, A>,
)
    requires
        physics_total(*physics),
    ensures
        final(particles)@.len() == old(particles)@.len(),
        forall|i: int|
            0 <= i < old(particles)@.len() ==> advanced_from(
                *physics,
                old(particles)@[i],
                snapshot@,
                dt,
                #[trigger] final(particles)@[i],
            ),
{
    particles.par_iter_mut().for_each(|particle| particle.advance(snapshot, dt, physics));
}

/// Steps the particles on a fork-join pool that lives for one call.
pub struct RayonWorld {
    pub population: Population,
}

impl RayonWorld {
    /// A world over `population`.
    pub fn new(population: Population) -> (world: RayonWorld)
        ensures
            world.population == population,
    {
        RayonWorld { population }
    }

    /// Adds one particle: see `Population::create_particle`.
    pub fn create_particle(&mut self, position: Vec2, velocity: Vec2, mass: u64) -> (outcome:
        Result<usize, SpawnError>)
        requires
            old(self).population.wf(),
        ensures
            final(self).population.wf(),
            outcome == spawn_outcome(old(self).population.next_id, mass),
            final(self).population.particles@ == match outcome {
                Ok(id) => old(self).population.particles@.push(
                    spawned(id, position, velocity, mass),
                ),
                Err(_) => old(self).population.particles@,
            },
            final(self).population.next_id == match outcome {
                Ok(id) => id + 1,
                Err(_) => old(self).population.next_id as int,
            },
    {
        self.population.create_particle(position, velocity, mass)
    }

    /// A copy of every live particle, in order.
    pub fn get_particles(&self) -> (snapshot: Vec<Particle>)
        ensures
            snapshot@ == self.population.particles@,
    {
        self.population.get_particles()
    }

    /// Advances every particle by one step of size `dt`, each against the
    /// state that held when the call began; the work is spread over threads.
    pub fn update<
        D: Fn(Vec2, Vec2) -> Vec2 + Sync,
        L: Fn(Vec2) -> u64 + Sync,
        C: Fn(u64) -> u64 + Sync,
        M: Fn(u64, u64) -> u64 + Sync,
        S: Fn(Vec2, u64) -> Vec2 + Sync,
        Q: Fn(Vec2, u64) -> Vec2 + Sync,
        A: Fn(Vec2, Vec2) -> Vec2 + Sync,
    >(&mut self, dt: u64, physics: &Physics<D, L, C, M, S, Q, A>)
        requires
            old(self).population.wf(),
            physics_total(*physics),
        ensures
            final(self).population.wf(),
            final(self).population.next_id == old(self).population.next_id,
            stepped(
                *physics,
                old(self).population.particles@,
                dt,
                final(self).population.particles@,
            ),
    {
        let snapshot = self.population.get_particles();
        advance_each_in_parallel(&mut self.population.particles, &snapshot, dt, physics);
        proof {
            lemma_stepped_keeps_identities(*physics, snapshot@, dt, self.population.particles@);
            lemma_identities_keep_wf(
                snapshot@,
                self.population.particles@,
                self.population.next_id,
            );
        }
    }
}

/// The state that a pool of `num_threads` persistent workers shares: the
/// particles, and the number of workers that deal the indices out among
/// themselves. In every step each worker computes its increments from the
/// snapshot taken at the start of the step (`worker::compute`) and then
/// moves its own particles on (`commit`); what one worker writes, no worker
/// reads before the next step.
pub struct WorkerThreadsWorld {
    pub population: Population,
    pub num_threads: usize,
}

impl WorkerThreadsWorld {
    /// The population is well formed and there is at least one worker.
    pub open spec fn wf(&self) -> bool {
        &&& self.population.wf()
        &&& self.num_threads > 0
    }

    /// A pool state for `num_threads` workers over `population`. A pool
    /// without workers is refused.
    pub fn new(num_threads: usize, population: Population) -> (outcome: Result<
        WorkerThreadsWorld,
        PoolError,
    >)
        requires
            population.wf(),
        ensures
            num_threads == 0 ==> outcome == Err::<WorkerThreadsWorld, PoolError>(
                PoolError::NoWorkers,
            ),
            num_threads > 0 ==> outcome == Ok::<WorkerThreadsWorld, PoolError>(
                WorkerThreadsWorld { population, num_threads },
            ),
            outcome.is_ok() ==> outcome.unwrap().wf(),
    {
        if num_threads == 0 {
            Err(PoolError::NoWorkers)
        } else {
            Ok(WorkerThreadsWorld { population, num_threads })
        }
    }

    /// Adds one particle: see `Population::create_particle`.
    pub fn create_particle(&mut self, position: Vec2, velocity: Vec2, mass: u64) -> (outcome:
        Result<usize, SpawnError>)
        requires
            old(self).wf(),
        ensures
            final(self).wf(),
            final(self).num_threads == old(self).num_threads,
            outcome == spawn_outcome(old(self).population.next_id, mass),
            final(self).population.particles@ == match outcome {
                Ok(id) => old(self).population.particles@.push(
                    spawned(id, position, velocity, mass),
                ),
                Err(_) => old(self).population.particles@,
            },
            final(self).population.next_id == match outcome {
                Ok(id) => id + 1,
                Err(_) => old(self).population.next_id as int,
            },
    {
        self.population.create_particle(position, velocity, mass)
    }

    /// A copy of every live particle, in order.
    pub fn get_particles(&self) -> (snapshot: Vec<Particle>)
        ensures
            snapshot@ == self.population.particles@,
    {
        self.population.get_particles()
    }

    /// The write phase of worker `worker`: see `worker::commit`.
    pub fn commit<
        D: Fn(Vec2, Vec2) -> Vec2,
        L: Fn(Vec2) -> u64,
        C: Fn(u64) -> u64,
        M: Fn(u64, u64) -> u64,
        S: Fn(Vec2, u64) -> Vec2,
        Q: Fn(Vec2, u64) -> Vec2,
        A: Fn(Vec2, Vec2) -> Vec2,
    >(
        &mut self,
        worker: usize,
        increments: &Vec<Vec2>,
        dt: u64,
        physics: &Physics<D, L, C, M, S, Q, A>,
    )
        requires
            old(self).wf(),
            physics_total(*physics),
            worker < old(self).num_threads,
        ensures
            final(self).wf(),
            final(self).num_threads == old(self).num_threads,
            final(self).population.next_id == old(self).population.next_id,
            committed(
                *physics,
                old(self).population.particles@,
                worker,
                old(self).num_threads,
                increments@,
                dt,
                final(self).population.particles@,
            ),
    {
        let ghost before = self.population.particles@;
        commit(&mut self.population.particles, worker, self.num_threads, increments, dt, physics);
        proof {
            assert forall|i: int| 0 <= i < before.len() implies (
            #[trigger] self.population.particles@[i]).id == before[i].id
                && self.population.particles@[i].mass == before[i].mass by {
                assert(committed_at(
                    *physics,
                    before[i],
                    i,
                    worker,
                    self.num_threads,
                    increments@,
                    dt,
                    self.population.particles@[i],
                ));
            }
            lemma_identities_keep_wf(
                before,
                self.population.particles@,
                self.population.next_id,
            );
        }
    }

    /// One whole step, with the phases of all workers run in turn on the
    /// calling thread: a snapshot is taken, every worker computes from it,
    /// then every worker writes.
    pub fn update<
        D: Fn(Vec2, Vec2) -> Vec2,
        L: Fn(Vec2) -> u64,
        C: Fn(u64) -> u64,
        M: Fn(u64, u64) -> u64,
        S: Fn(Vec2, u64) -> Vec2,
        Q: Fn(Vec2, u64) -> Vec2,
        A: Fn(Vec2, Vec2) -> Vec2,
    >(&mut self, dt: u64, physics: &Physics<D, L, C, M, S, Q, A>)
        requires
            old(self).wf(),
            physics_total(*physics),
        ensures
            final(self).wf(),
            final(self).num_threads == old(self).num_threads,
            final(self).population.next_id == old(self).population.next_id,
            stepped(
                *physics,
                old(self).population.particles@,
                dt,
                final(self).population.particles@,
            ),
    {
        let ghost before = self.population.particles@;
        let snapshot = self.population.get_particles();
        let workers = self.num_threads;
        let mut results: Vec<Vec<Vec2>> = Vec::new();
        let mut worker: usize = 0;
        while worker < workers
            invariant
                physics_total(*physics),
                *self == *old(self),
                before == snapshot@,
                0 < workers,
                worker <= workers,
                results@.len() == worker,
                forall|w: int|
                    0 <= w < worker ==> computed(
                        *physics,
                        before,
                        w as usize,
                        workers,
                        dt,
                        (#[trigger] results@[w])@,
                    ),
            decreases workers - worker,
        {
            let increments = compute(&snapshot, worker, workers, dt, physics);
            results.push(increments);
            worker += 1;
        }
        let mut worker: usize = 0;
        while worker < workers
            invariant
                self.wf(),
                physics_total(*physics),
                workers == self.num_threads,
                self.population.next_id == old(self).population.next_id,
                worker <= workers,
                results@.len() == workers,
                forall|w: int|
                    0 <= w < workers ==> computed(
                        *physics,
                        before,
                        w as usize,
                        workers,
                        dt,
                        (#[trigger] results@[w])@,
                    ),
                all_committed(
                    *physics,
                    before,
                    views_of(results@),
                    workers_below(worker as int),
                    workers,
                    dt,
                    self.population.particles@,
                ),
            decreases workers - worker,
        {
            let ghost earlier = self.population.particles@;
            self.commit(worker, &results[worker], dt, physics);
            proof {
                lemma_commit_extends(
                    *physics,
                    before,
                    dt,
                    views_of(results@),
                    workers_below(worker as int),
                    worker,
                    workers,
                    earlier,
                    self.population.particles@,
                );
                assert(workers_below(worker as int).insert(worker as int) =~= workers_below(
                    worker + 1,
                ));
            }
            worker += 1;
        }
        proof {
            lemma_all_committed_is_stepped(
                *physics,
                before,
                dt,
                views_of(results@),
                workers_below(workers as int),
                workers,
                self.population.particles@,
            );
        }
    }
}

/// The increments of every worker, worker by worker.
pub open spec fn views_of(results: Seq<Vec<Vec2>>) -> Seq<Seq<Vec2>> {
    Seq::new(results.len(), |w: int| results[w]@)
}

/// The workers numbered below `bound`.
pub open spec fn workers_below(bound: int) -> Set<int> {
    Set::new(|w: int| 0 <= w < bound)
}

/// `current` is `before` with the write phases of the workers in `done`
/// finished and those of the others not begun: an index whose worker is done
/// was moved on by the increment of its slot, every other index is as it was.
pub open spec fn all_committed<
    D: Fn(Vec2, Vec2) -> Vec2,
    L: Fn(Vec2) -> u64,
    C: Fn(u64) -> u64,
    M: Fn(u64, u64) -> u64,
    S: Fn(Vec2, u64) -> Vec2,
    Q: Fn(Vec2, u64) -> Vec2,
    A: Fn(Vec2, Vec2) -> Vec2,
>(
    physics: Physics<D, L, C, M, S, Q, A>,
    before: Seq<Particle>,
    results: Seq<Seq<Vec2>>,
    done: Set<int>,
    workers: usize,
    dt: u64,
    current: Seq<Particle>,
) -> bool {
    &&& current.len() == before.len()
    &&& forall|i: int|
        0 <= i < before.len() ==> (if done.contains(i % (workers as int)) {
            integrated(
                physics,
                before[i],
                results[i % (workers as int)][i / (workers as int)],
                dt,
                #[trigger] current[i],
            )
        } else {
            current[i] == before[i]
        })
}

/// The write phases may come in any order. Whichever workers have written
/// already, the write phase of one more extends what is committed, as long as
/// that worker computed its increments from the state before the step: no
/// write of this step reaches what another worker has read.
pub proof fn lemma_commit_extends<
    D: Fn(Vec2, Vec2) -> Vec2,
    L: Fn(Vec2) -> u64,
    C: Fn(u64) -> u64,
    M: Fn(u64, u64) -> u64,
    S: Fn(Vec2, u64) -> Vec2,
    Q: Fn(Vec2, u64) -> Vec2,
    A: Fn(Vec2, Vec2) -> Vec2,
>(
    physics: Physics<D, L, C, M, S, Q, A>,
    before: Seq<Particle>,
    dt: u64,
    results: Seq<Seq<Vec2>>,
    done: Set<int>,
    worker: usize,
    workers: usize,
    earlier: Seq<Particle>,
    later: Seq<Particle>,
)
    requires
        worker < workers,
        results.len() == workers,
        !done.contains(worker as int),
        computed(physics, before, worker, workers, dt, results[worker as int]),
        all_committed(physics, before, results, done, workers, dt, earlier),
        committed(physics, earlier, worker, workers, results[worker as int], dt, later),
    ensures
        all_committed(physics, before, results, done.insert(worker as int), workers, dt, later),
{
    assert forall|i: int| 0 <= i < before.len() implies (if done.insert(worker as int).contains(
        i % (workers as int),
    ) {
        integrated(
            physics,
            before[i],
            results[i % (workers as int)][i / (workers as int)],
            dt,
            #[trigger] later[i],
        )
    } else {
        later[i] == before[i]
    }) by {
        assert(committed_at(
            physics,
            earlier[i],
            i,
            worker,
            workers,
            results[worker as int],
            dt,
            later[i],
        ));
        lemma_owner_of_index(i, workers);
        if i % (workers as int) == worker {
            lemma_slots_ordered(
                worker,
                workers,
                i / (workers as int),
                results[worker as int].len() as int,
            );
        }
    }
}

/// When every worker has written, the step is complete: each particle was
/// advanced against the state before the step.
pub proof fn lemma_all_committed_is_stepped<
    D: Fn(Vec2, Vec2) -> Vec2,
    L: Fn(Vec2) -> u64,
    C: Fn(u64) -> u64,
    M: Fn(u64, u64) -> u64,
    S: Fn(Vec2, u64) -> Vec2,
    Q: Fn(Vec2, u64) -> Vec2,
    A: Fn(Vec2, Vec2) -> Vec2,
>(
    physics: Physics<D, L, C, M, S, Q, A>,
    before: Seq<Particle>,
    dt: u64,
    results: Seq<Seq<Vec2>>,
    done: Set<int>,
    workers: usize,
    after: Seq<Particle>,
)
    requires
        0 < workers,
        results.len() == workers,
        forall|w: int|
            0 <= w < workers ==> computed(
                physics,
                before,
                w as usize,
                workers,
                dt,
                #[trigger] results[w],
            ),
        forall|w: int| 0 <= w < workers ==> done.contains(w),
        all_committed(physics, before, results, done, workers, dt, after),
    ensures
        stepped(physics, before, dt, after),
{
    assert forall|i: int| 0 <= i < before.len() implies advanced_from(
        physics,
        before[i],
        before,
        dt,
        #[trigger] after[i],
    ) by {
        lemma_owner_of_index(i, workers);
        let w = i % (workers as int);
        let slot = i / (workers as int);
        assert(computed(physics, before, w as usize, workers, dt, results[w]));
        lemma_slots_ordered(w as usize, workers, slot, results[w].len() as int);
        assert(assigned_index(w as usize, workers, slot) == i);
        assert(increment_gives(physics, before[i], before, dt, results[w][slot]));
        assert(integrated(physics, before[i], results[w][slot], dt, after[i]));
    }
}

} // verus!
