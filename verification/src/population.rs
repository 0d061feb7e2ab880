use vstd::prelude::*;
use crate::particle::{is_valid_mass, Particle, Vec2};

verus! {

/// Why a particle could not be created.
#[derive(Clone, Copy, Debug, PartialEq, Eq, Structural)]
pub enum SpawnError {
    /// The mass is zero, negative, infinite or not a number.
    InvalidMass,
    /// Every identity that the machine can represent has been handed out.
    IdsExhausted,
}

/// The live particles of a simulation, in creation order, together with the
/// counter that names the next one.
pub struct Population {
    pub particles: Vec<Particle>,
    pub next_id: usize,
}

/// No two positions of `particles` hold the same id.
pub open spec fn ids_distinct(particles: Seq<Particle>) -> bool {
    forall|i: int, j: int|
        0 <= i < j < particles.len() ==> (#[trigger] particles[i]).id != (
        #[trigger] particles[j]).id
}

/// Every id in `particles` lies below `bound`.
pub open spec fn ids_below(particles: Seq<Particle>, bound: usize) -> bool {
    forall|i: int| 0 <= i < particles.len() ==> (#[trigger] particles[i]).id < bound
}

/// Every mass in `particles` is a positive finite number.
pub open spec fn masses_valid(particles: Seq<Particle>) -> bool {
    forall|i: int| 0 <= i < particles.len() ==> is_valid_mass((#[trigger] particles[i]).mass)
}

/// Ids and masses agree position by position.
pub open spec fn same_identities(before: Seq<Particle>, after: Seq<Particle>) -> bool {
    &&& after.len() == before.len()
    &&& forall|i: int|
        0 <= i < before.len() ==> (#[trigger] after[i]).id == before[i].id && after[i].mass
            == before[i].mass
}

/// What a successful spawn appends.
pub open spec fn spawned(id: usize, position: Vec2, velocity: Vec2, mass: u64) -> Particle {
    Particle { id, velocity, position, mass }
}

/// What a spawn answers: the counter's value for a valid mass, as long as
/// the counter can still move on.
pub open spec fn spawn_outcome(next_id: usize, mass: u64) -> Result<usize, SpawnError> {
    if !is_valid_mass(mass) {
        Err(SpawnError::InvalidMass)
    } else if next_id == usize::MAX {
        Err(SpawnError::IdsExhausted)
    } else {
        Ok(next_id)
    }
}

/// `particles` can seed a population: no id twice, every mass valid, and
/// room left for the counter above every id.
pub open spec fn can_seed(particles: Seq<Particle>) -> bool {
    &&& ids_distinct(particles)
    &&& masses_valid(particles)
    &&& ids_below(particles, usize::MAX)
}

/// `bound` is the least counter that lies above every id in `particles`.
pub open spec fn is_least_bound(particles: Seq<Particle>, bound: usize) -> bool {
    &&& ids_below(particles, bound)
    &&& bound == 0 || exists|i: int|
        0 <= i < particles.len() && #[trigger] particles[i].id + 1 == bound
}

impl Population {
    /// Ids are unique and were all handed out by the counter; masses are valid.
    pub open spec fn wf(&self) -> bool {
        &&& ids_distinct(self.particles@)
        &&& ids_below(self.particles@, self.next_id)
        &&& masses_valid(self.particles@)
    }

    /// An empty population whose first particle will be number zero.
    pub fn new() -> (population: Population)
        ensures
            population.wf(),
            population.particles@ == Seq::<Particle>::empty(),
            population.next_id == 0,
    {
        Population { particles: Vec::new(), next_id: 0 }
    }

    /// A population seeded with `particles`, in their order; the counter
    /// starts just above the greatest id. Particles that share an id, or hold
    /// an invalid mass or the last id of the machine, are refused.
    pub fn from_particles(particles: Vec<Particle>) -> (outcome: Option<Population>)
        ensures
            outcome.is_some() == can_seed(particles@),
            outcome.is_some() ==> {
                &&& outcome.unwrap().wf()
                &&& outcome.unwrap().particles@ == particles@
                &&& is_least_bound(particles@, outcome.unwrap().next_id)
            },
    {
        let mut next_id: usize = 0;
        let mut i: usize = 0;
        while i < particles.len()
            invariant
                i <= particles.len(),
                can_seed(particles@.take(i as int)),
                is_least_bound(particles@.take(i as int), next_id),
            decreases particles.len() - i,
        {
            let ghost seen = particles@.take(i as int);
            let ghost more = particles@.take(i + 1);
            let particle = particles[i];
            if !Particle::has_valid_mass(particle.mass) || particle.id == usize::MAX {
                proof {
                    assert(particles@[i as int] == particle);
                }
                return None;
            }
            let mut j: usize = 0;
            while j < i
                invariant
                    j <= i < particles.len(),
                    particle == particles@[i as int],
                    forall|k: int| 0 <= k < j ==> (#[trigger] particles@[k]).id != particle.id,
                decreases i - j,
            {
                if particles[j].id == particle.id {
                    return None;
                }
                j += 1;
            }
            proof {
                assert forall|k: int| 0 <= k < more.len() implies more[k] == particles@[k] by {}
                assert forall|k: int| 0 <= k < seen.len() implies seen[k] == particles@[k] by {}
                if next_id != 0 {
                    let w = choose|w: int|
                        0 <= w < seen.len() && #[trigger] seen[w].id + 1 == next_id;
                    assert(more[w].id + 1 == next_id);
                }
                assert(more[i as int].id + 1 == particle.id + 1);
            }
            if particle.id >= next_id {
                next_id = particle.id + 1;
            }
            i += 1;
        }
        proof {
            assert(particles@.take(i as int) == particles@);
        }
        Some(Population { particles, next_id })
    }

    /// Number of live particles.
    pub fn len(&self) -> (count: usize)
        ensures
            count == self.particles@.len(),
    {
        self.particles.len()
    }

    /// Adds one particle and returns its id, which is the counter's value; the
    /// counter then moves on. An invalid mass is rejected and nothing changes.
    pub fn create_particle(&mut self, position: Vec2, velocity: Vec2, mass: u64) -> (outcome:
        Result<usize, SpawnError>)
        requires
            old(self).wf(),
        ensures
            final(self).wf(),
            outcome == spawn_outcome(old(self).next_id, mass),
            final(self).particles@ == match outcome {
                Ok(id) => old(self).particles@.push(spawned(id, position, velocity, mass)),
                Err(_) => old(self).particles@,
            },
            final(self).next_id == match outcome {
                Ok(id) => id + 1,
                Err(_) => old(self).next_id as int,
            },
    {
        if !Particle::has_valid_mass(mass) {
            return Err(SpawnError::InvalidMass);
        }
        if self.next_id == usize::MAX {
            return Err(SpawnError::IdsExhausted);
        }
        let id = self.next_id;
        self.particles.push(Particle { id, velocity, position, mass });
        self.next_id = id + 1;
        Ok(id)
    }

    /// A copy of every live particle, in order.
    pub fn get_particles(&self) -> (snapshot: Vec<Particle>)
        ensures
            snapshot@ == self.particles@,
    {
        let mut snapshot: Vec<Particle> = Vec::new();
        let mut i: usize = 0;
        while i < self.particles.len()
            invariant
                i <= self.particles.len(),
                snapshot@ == self.particles@.take(i as int),
            decreases self.particles.len() - i,
        {
            snapshot.push(self.particles[i]);
            i += 1;
        }
        snapshot
    }

    /// A population with the same particles and the same counter.
    pub fn duplicate(&self) -> (copy: Population)
        ensures
            copy.particles@ == self.particles@,
            copy.next_id == self.next_id,
            self.wf() ==> copy.wf(),
    {
        Population { particles: self.get_particles(), next_id: self.next_id }
    }

    /// Removes every particle. The counter is kept, so no id is used twice.
    pub fn reset(&mut self)
        requires
            old(self).wf(),
        ensures
            final(self).wf(),
            final(self).particles@ == Seq::<Particle>::empty(),
            final(self).next_id == old(self).next_id,
    {
        self.particles.clear();
    }
}

/// A step keeps a population well formed, since ids and masses stay.
pub proof fn lemma_identities_keep_wf(before: Seq<Particle>, after: Seq<Particle>, bound: usize)
    requires
        same_identities(before, after),
        ids_distinct(before),
        ids_below(before, bound),
        masses_valid(before),
    ensures
        ids_distinct(after),
        ids_below(after, bound),
        masses_valid(after),
{
    assert forall|i: int, j: int| 0 <= i < j < after.len() implies (#[trigger] after[i]).id != (
    #[trigger] after[j]).id by {
        assert(after[i].id == before[i].id);
        assert(after[j].id == before[j].id);
    }
    assert forall|i: int| 0 <= i < after.len() implies (#[trigger] after[i]).id < bound by {
        assert(after[i].id == before[i].id);
    }
    assert forall|i: int| 0 <= i < after.len() implies is_valid_mass(
        (#[trigger] after[i]).mass,
    ) by {
        assert(after[i].mass == before[i].mass);
    }
}

/// Spawns in a row lose nothing and repeat nothing: the particles that they
/// append carry the ids from the counter on, one each, so the population
/// grows by their number and every id in it, old and new, is held once.
pub proof fn lemma_spawns_give_distinct_ids(
    particles: Seq<Particle>,
    next_id: usize,
    added: Seq<Particle>,
)
    requires
        ids_distinct(particles),
        ids_below(particles, next_id),
        masses_valid(particles),
        next_id + added.len() <= usize::MAX,
        forall|k: int|
            0 <= k < added.len() ==> (#[trigger] added[k]).id == next_id + k && is_valid_mass(
                added[k].mass,
            ),
    ensures
        (particles + added).len() == particles.len() + added.len(),
        ids_distinct(particles + added),
        ids_below(particles + added, (next_id + added.len()) as usize),
        masses_valid(particles + added),
{
    let all = particles + added;
    assert forall|i: int| 0 <= i < all.len() implies (#[trigger] all[i]).id < next_id
        + added.len() && is_valid_mass(all[i].mass) && (i >= particles.len() ==> all[i].id
        == next_id + (i - particles.len())) && (i < particles.len() ==> all[i].id < next_id) by {
        if i < particles.len() {
            assert(all[i] == particles[i]);
        } else {
            assert(all[i] == added[i - particles.len()]);
        }
    }
    assert forall|i: int, j: int| 0 <= i < j < all.len() implies (#[trigger] all[i]).id != (
    #[trigger] all[j]).id by {
        if j < particles.len() {
            assert(all[i] == particles[i]);
            assert(all[j] == particles[j]);
        }
    }
}

} // verus!
