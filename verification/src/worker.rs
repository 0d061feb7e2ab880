use vstd::prelude::*;
use vstd::arithmetic::div_mod::{lemma_fundamental_div_mod, lemma_fundamental_div_mod_converse};
use crate::particle::{increment_gives, integrated, physics_total, Particle, Physics, Vec2};

verus! {

/// The index that worker `worker` of `workers` handles in its slot `slot`:
/// the workers deal the indices out in turn, so no index has two owners.
pub open spec fn assigned_index(worker: usize, workers: usize, slot: int) -> int {
    worker + slot * workers
}

/// `count` is the number of indices below `len` that belong to `worker`.
pub open spec fn is_assigned_count(len: int, worker: usize, workers: usize, count: int) -> bool {
    &&& 0 <= count
    &&& count > 0 ==> assigned_index(worker, workers, count - 1) < len
    &&& assigned_index(worker, workers, count) >= len
}

/// `increments` is what worker `worker` computes in its read phase: one
/// change of velocity for each of its indices, in rising order, each computed
/// for that particle from the snapshot.
pub open spec fn computed<
    D: Fn(Vec2, Vec2) -> Vec2,
    L: Fn(Vec2) -> u64,
    C: Fn(u64) -> u64,
    M: Fn(u64, u64) -> u64,
    S: Fn(Vec2, u64) -> Vec2,
    Q: Fn(Vec2, u64) -> Vec2,
    A: Fn(Vec2, Vec2) -> Vec2,
>(
    physics: Physics<D, L, C, M, S, Q, A>,
    snapshot: Seq<Particle>,
    worker: usize,
    workers: usize,
    dt: u64,
    increments: Seq<Vec2>,
) -> bool {
    &&& is_assigned_count(snapshot.len() as int, worker, workers, increments.len() as int)
    &&& forall|slot: int|
        0 <= slot < increments.len() ==> increment_gives(
            physics,
            snapshot[assigned_index(worker, workers, slot)],
            snapshot,
            dt,
            #[trigger] increments[slot],
        )
}

/// What index `i` may hold after worker `worker` has written: one of its own
/// indices is moved on by the increment of its slot, as far as `increments`
/// reaches; every other index is left alone.
pub open spec fn committed_at<
    D: Fn(Vec2, Vec2) -> Vec2,
    L: Fn(Vec2) -> u64,
    C: Fn(u64) -> u64,
    M: Fn(u64, u64) -> u64,
    S: Fn(Vec2, u64) -> Vec2,
    Q: Fn(Vec2, u64) -> Vec2,
    A: Fn(Vec2, Vec2) -> Vec2,
>(
    physics: Physics<D, L, C, M, S, Q, A>,
    before: Particle,
    i: int,
    worker: usize,
    workers: usize,
    increments: Seq<Vec2>,
    dt: u64,
    after: Particle,
) -> bool {
    if i % (workers as int) == worker && i / (workers as int) < increments.len() {
        integrated(physics, before, increments[i / (workers as int)], dt, after)
    } else {
        after == before
    }
}

/// `after` is `before` once worker `worker` has finished its write phase.
pub open spec fn committed<
    D: Fn(Vec2, Vec2) -> Vec2,
    L: Fn(Vec2) -> u64,
    C: Fn(u64) -> u64,
    M: Fn(u64, u64) -> u64,
    S: Fn(Vec2, u64) -> Vec2,
    Q: Fn(Vec2, u64) -> Vec2,
    A: Fn(Vec2, Vec2) -> Vec2,
>(
    physics: Physics<D, L, C, M, S, Q, A>,
    before: Seq<Particle>,
    worker: usize,
    workers: usize,
    increments: Seq<Vec2>,
    dt: u64,
    after: Seq<Particle>,
) -> bool {
    &&& after.len() == before.len()
    &&& forall|i: int|
        0 <= i < before.len() ==> committed_at(
            physics,
            before[i],
            i,
            worker,
            workers,
            increments,
            dt,
            #[trigger] after[i],
        )
}

/// An index built from a worker and a slot splits back into the two.
pub proof fn lemma_slot_of_assigned(worker: usize, workers: usize, slot: int)
    requires
        worker < workers,
    ensures
        assigned_index(worker, workers, slot) % (workers as int) == worker,
        assigned_index(worker, workers, slot) / (workers as int) == slot,
{
    lemma_fundamental_div_mod_converse(
        assigned_index(worker, workers, slot),
        workers as int,
        slot,
        worker as int,
    );
}

/// Every index belongs to the worker named by its remainder, in the slot named
/// by its quotient.
pub proof fn lemma_owner_of_index(i: int, workers: usize)
    requires
        0 <= i,
        0 < workers,
    ensures
        0 <= i % (workers as int) < workers,
        0 <= i / (workers as int),
        i == (i % (workers as int)) + (i / (workers as int)) * workers,
{
    lemma_fundamental_div_mod(i, workers as int);
    let q = i / (workers as int);
    let w = workers as int;
    assert(w * q == q * w) by (nonlinear_arith);
    assert(q >= 0) by (nonlinear_arith)
        requires
            i == q * w + i % w,
            0 <= i % w < w,
            0 <= i,
            0 < w,
    ;
}

/// A worker starts at its own number and moves on by the number of workers.
proof fn lemma_assigned_step(worker: usize, workers: usize, slot: int)
    ensures
        assigned_index(worker, workers, 0) == worker,
        assigned_index(worker, workers, slot + 1) == assigned_index(worker, workers, slot)
            + workers,
{
    let w = workers as int;
    assert(0 * w == 0) by (nonlinear_arith);
    assert((slot + 1) * w == slot * w + w) by (nonlinear_arith);
}

/// Slots and indices of one worker rise together.
pub proof fn lemma_slots_ordered(worker: usize, workers: usize, a: int, b: int)
    requires
        0 < workers,
    ensures
        a < b <==> assigned_index(worker, workers, a) < assigned_index(worker, workers, b),
        a <= b ==> assigned_index(worker, workers, b) - assigned_index(worker, workers, a) == (b
            - a) * workers,
{
    let w = workers as int;
    assert(a < b ==> a * w < b * w) by (nonlinear_arith)
        requires
            0 < w,
    ;
    assert(a >= b ==> a * w >= b * w) by (nonlinear_arith)
        requires
            0 < w,
    ;
    assert(b * w - a * w == (b - a) * w) by (nonlinear_arith);
}

/// The read phase of one worker: a change of velocity for each of its
/// indices, computed from `snapshot` alone. Nothing is written.
pub fn compute<
    D: Fn(Vec2, Vec2) -> Vec2,
    L: Fn(Vec2) -> u64,
    C: Fn(u64) -> u64,
    M: Fn(u64, u64) -> u64,
    S: Fn(Vec2, u64) -> Vec2,
    Q: Fn(Vec2, u64) -> Vec2,
    A: Fn(Vec2, Vec2) -> Vec2,
>(
    snapshot: &Vec<Particle>,
    worker: usize,
    workers: usize,
    dt: u64,
    physics: &Physics<D, L, C, M, S, Q, A>,
) -> (increments: Vec<Vec2>)
    requires
        physics_total(*physics),
        worker < workers,
    ensures
        computed(*physics, snapshot@, worker, workers, dt, increments@),
{
    let mut increments: Vec<Vec2> = Vec::new();
    let mut i: usize = worker;
    let mut more: bool = worker < snapshot.len();
    proof {
        lemma_assigned_step(worker, workers, 0);
    }
    while more
        invariant
            physics_total(*physics),
            worker < workers,
            more ==> i == assigned_index(worker, workers, increments.len() as int) && i
                < snapshot.len(),
            !more ==> assigned_index(worker, workers, increments.len() as int) >= snapshot.len(),
            increments.len() > 0 ==> assigned_index(worker, workers, increments.len() - 1)
                < snapshot.len(),
            forall|slot: int|
                0 <= slot < increments.len() ==> increment_gives(
                    *physics,
                    snapshot@[assigned_index(worker, workers, slot)],
                    snapshot@,
                    dt,
                    #[trigger] increments@[slot],
                ),
        decreases (if more { snapshot.len() - i } else { 0 }),
    {
        let increment = snapshot[i].velocity_increment(snapshot, dt, physics);
        proof {
            lemma_assigned_step(worker, workers, increments.len() as int);
        }
        increments.push(increment);
        if snapshot.len() - i <= workers {
            more = false;
        } else {
            i += workers;
        }
    }
    increments
}

/// The write phase of one worker: each of its indices is moved on by the
/// increment of its slot. Indices of other workers are not touched, whatever
/// `increments` holds.
pub fn commit<
    D: Fn(Vec2, Vec2) -> Vec2,
    L: Fn(Vec2) -> u64,
    C: Fn(u64) -> u64,
    M: Fn(u64, u64) -> u64,
    S: Fn(Vec2, u64) -> Vec2,
    Q: Fn(Vec2, u64) -> Vec2,
    A: Fn(Vec2, Vec2) -> Vec2,
>(
    particles: &mut Vec<Particle>,
    worker: usize,
    workers: usize,
    increments: &Vec<Vec2>,
    dt: u64,
    physics: &Physics<D, L, C, M, S, Q, A>,
)
    requires
        physics_total(*physics),
        worker < workers,
    ensures
        committed(*physics, old(particles)@, worker, workers, increments@, dt, final(particles)@),
{
    let ghost before = particles@;
    let mut slot: usize = 0;
    let mut i: usize = worker;
    let mut more: bool = worker < particles.len();
    proof {
        lemma_assigned_step(worker, workers, 0);
    }
    while more && slot < increments.len()
        invariant
            physics_total(*physics),
            worker < workers,
            particles@.len() == before.len(),
            slot <= increments.len(),
            more ==> i == assigned_index(worker, workers, slot as int) && i < particles.len(),
            !more ==> assigned_index(worker, workers, slot as int) >= before.len(),
            forall|j: int|
                0 <= j < before.len() ==> (if j % (workers as int) == worker && j / (
                workers as int) < slot {
                    integrated(
                        *physics,
                        before[j],
                        increments@[j / (workers as int)],
                        dt,
                        #[trigger] particles@[j],
                    )
                } else {
                    particles@[j] == before[j]
                }),
        decreases increments.len() - slot,
    {
        let ghost earlier = particles@;
        let mut particle = particles[i];
        particle.integrate(increments[slot], dt, physics);
        particles.set(i, particle);
        proof {
            lemma_slot_of_assigned(worker, workers, slot as int);
            lemma_assigned_step(worker, workers, slot as int);
            assert forall|j: int| 0 <= j < before.len() implies (if j % (workers as int) == worker
                && j / (workers as int) < slot + 1 {
                integrated(
                    *physics,
                    before[j],
                    increments@[j / (workers as int)],
                    dt,
                    #[trigger] particles@[j],
                )
            } else {
                particles@[j] == before[j]
            }) by {
                lemma_owner_of_index(j, workers);
                if j != i {
                    assert(particles@[j] == earlier[j]);
                }
            }
        }
        slot += 1;
        if particles.len() - i <= workers {
            more = false;
        } else {
            i += workers;
        }
    }
    proof {
        if !more {
            lemma_exhausted_from(before.len() as int, worker, workers, slot as int);
        }
    }
}

/// Once a worker's next index lies past the end, every index it owns below
/// the end has a slot below the next one.
proof fn lemma_exhausted_from(len: int, worker: usize, workers: usize, slot: int)
    requires
        worker < workers,
        assigned_index(worker, workers, slot) >= len,
    ensures
        forall|j: int|
            0 <= j < len && j % (workers as int) == worker ==> #[trigger] (j / (workers as int))
                < slot,
{
    assert forall|j: int| 0 <= j < len && j % (workers as int) == worker implies #[trigger] (j / (
    workers as int)) < slot by {
        lemma_owner_of_index(j, workers);
        lemma_slots_ordered(worker, workers, j / (workers as int), slot);
    }
}

} // verus!
