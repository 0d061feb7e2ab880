use vstd::prelude::*;

verus! {

/// Bit pattern of positive infinity in binary64. Every positive finite number
/// has a pattern strictly between zero and this one.
pub const POSITIVE_INFINITY_BITS: u64 = 0x7FF0_0000_0000_0000;

/// The greatest bit pattern with the sign bit clear.
pub const GREATEST_POSITIVE_BITS: u64 = 0x7FFF_FFFF_FFFF_FFFF;

/// Bit pattern of negative zero in binary64.
pub const NEGATIVE_ZERO_BITS: u64 = 0x8000_0000_0000_0000;

/// Bit pattern of negative infinity in binary64.
pub const NEGATIVE_INFINITY_BITS: u64 = 0xFFF0_0000_0000_0000;

/// A vector in the plane; each coordinate is a binary64 bit pattern.
#[derive(Clone, Copy, Debug, PartialEq, Eq, Structural)]
pub struct Vec2 {
    pub x: u64,
    pub y: u64,
}

/// A point mass with a stable identity.
#[derive(Clone, Copy, Debug, PartialEq, Eq, Structural)]
pub struct Particle {
    pub id: usize,
    pub velocity: Vec2,
    pub position: Vec2,
    pub mass: u64,
}

/// A mass is valid when it is a positive finite number: sign bit clear, not
/// zero, not infinite and not a NaN.
pub open spec fn is_valid_mass(mass: u64) -> bool {
    0 < mass < POSITIVE_INFINITY_BITS
}

/// The particles of `particles` whose id differs from `id`, in their order.
pub open spec fn others_of(id: usize, particles: Seq<Particle>) -> Seq<Particle> {
    particles.filter(|p: Particle| p.id != id)
}

/// Bit pattern of the gravitational constant with a minus sign, -6.67430e-11.
pub const NEG_G_BITS: u64 = 0xBDD2_589E_FFED_8ACC;

/// The arithmetic on reals and on vectors, which the library leaves to its
/// caller. The library fixes which operation is applied to what, and in
/// which order; every formula in it is written with these seven.
pub struct Physics<D, L, C, M, S, Q, A> {
    /// `difference(a, b)`: the vector `a - b`.
    pub difference: D,
    /// `length(v)`: the Euclidean length of `v`.
    pub length: L,
    /// `cube(x)`: the real `x` to the third power.
    pub cube: C,
    /// `product(x, y)`: the real `x * y`.
    pub product: M,
    /// `scale(v, s)`: the vector `v` times the real `s`.
    pub scale: S,
    /// `quotient(v, s)`: the vector `v` divided by the real `s`.
    pub quotient: Q,
    /// `sum(a, b)`: the vector `a + b`.
    pub sum: A,
}

/// The values through which the law of gravitation passes on its way from
/// two particles to an acceleration.
pub struct Attraction {
    /// From the source to the subject: `r`.
    pub separation: Vec2,
    /// `-G` times the mass of the source.
    pub strength: u64,
    /// `-G M r`.
    pub numerator: Vec2,
    /// `|r|`.
    pub distance: u64,
    /// `|r|` to the third power.
    pub cubed: u64,
}

/// `raw` is `-G M r / |r|^3`, computed by way of `steps`: the acceleration of
/// magnitude `G M / |r|^2` that points from `subject` to `source`, where `r`
/// is the position of `subject` less that of `source` and `M` the mass of
/// `source`.
pub open spec fn attraction_steps<
    D: Fn(Vec2, Vec2) -> Vec2,
    L: Fn(Vec2) -> u64,
    C: Fn(u64) -> u64,
    M: Fn(u64, u64) -> u64,
    S: Fn(Vec2, u64) -> Vec2,
    Q: Fn(Vec2, u64) -> Vec2,
    A: Fn(Vec2, Vec2) -> Vec2,
>(
    physics: Physics<D, L, C, M, S, Q, A>,
    subject: Particle,
    source: Particle,
    steps: Attraction,
    raw: Vec2,
) -> bool {
    &&& physics.difference.ensures((subject.position, source.position), steps.separation)
    &&& physics.product.ensures((NEG_G_BITS, source.mass), steps.strength)
    &&& physics.scale.ensures((steps.separation, steps.strength), steps.numerator)
    &&& physics.length.ensures((steps.separation,), steps.distance)
    &&& physics.cube.ensures((steps.distance,), steps.cubed)
    &&& physics.quotient.ensures((steps.numerator, steps.cubed), raw)
}

/// `raw` is what the law of gravitation yields for `subject` and `source`.
pub open spec fn attraction_gives<
    D: Fn(Vec2, Vec2) -> Vec2,
    L: Fn(Vec2) -> u64,
    C: Fn(u64) -> u64,
    M: Fn(u64, u64) -> u64,
    S: Fn(Vec2, u64) -> Vec2,
    Q: Fn(Vec2, u64) -> Vec2,
    A: Fn(Vec2, Vec2) -> Vec2,
>(physics: Physics<D, L, C, M, S, Q, A>, subject: Particle, source: Particle, raw: Vec2) -> bool {
    exists|steps: Attraction| #[trigger] attraction_steps(physics, subject, source, steps, raw)
}

/// The vector whose coordinates are both positive zero.
pub open spec fn zero() -> Vec2 {
    Vec2 { x: 0, y: 0 }
}

/// Whether the bit pattern is a NaN: all exponent bits set and a fraction
/// that is not zero, with either sign.
pub open spec fn is_nan(bits: u64) -> bool {
    ||| POSITIVE_INFINITY_BITS < bits <= GREATEST_POSITIVE_BITS
    ||| NEGATIVE_INFINITY_BITS < bits
}

/// Whether a coordinate of `v` is a NaN.
pub open spec fn has_nan(v: Vec2) -> bool {
    is_nan(v.x) || is_nan(v.y)
}

/// Whether the bit pattern is a zero, of either sign.
pub open spec fn is_zero(bits: u64) -> bool {
    bits == 0 || bits == NEGATIVE_ZERO_BITS
}

/// Whether the two vectors are the same point: each coordinate has the same
/// bit pattern in both, or is a zero in both.
pub open spec fn same_place(a: Vec2, b: Vec2) -> bool {
    &&& a.x == b.x || (is_zero(a.x) && is_zero(b.x))
    &&& a.y == b.y || (is_zero(a.y) && is_zero(b.y))
}

/// `acceleration` is what `source` imparts on `subject`: nothing where the
/// two are at one place, nothing where the formula yields no number, and
/// else what the formula yields.
pub open spec fn acceleration_gives<
    D: Fn(Vec2, Vec2) -> Vec2,
    L: Fn(Vec2) -> u64,
    C: Fn(u64) -> u64,
    M: Fn(u64, u64) -> u64,
    S: Fn(Vec2, u64) -> Vec2,
    Q: Fn(Vec2, u64) -> Vec2,
    A: Fn(Vec2, Vec2) -> Vec2,
>(
    physics: Physics<D, L, C, M, S, Q, A>,
    subject: Particle,
    source: Particle,
    acceleration: Vec2,
) -> bool {
    if same_place(subject.position, source.position) {
        acceleration == zero()
    } else {
        exists|raw: Vec2|
            {
                &&& #[trigger] attraction_gives(physics, subject, source, raw)
                &&& acceleration == if has_nan(raw) {
                    zero()
                } else {
                    raw
                }
            }
    }
}

/// The seven operations accept every input.
pub open spec fn physics_total<
    D: Fn(Vec2, Vec2) -> Vec2,
    L: Fn(Vec2) -> u64,
    C: Fn(u64) -> u64,
    M: Fn(u64, u64) -> u64,
    S: Fn(Vec2, u64) -> Vec2,
    Q: Fn(Vec2, u64) -> Vec2,
    A: Fn(Vec2, Vec2) -> Vec2,
>(physics: Physics<D, L, C, M, S, Q, A>) -> bool {
    &&& forall|a: Vec2, b: Vec2| physics.difference.requires((a, b))
    &&& forall|v: Vec2| physics.length.requires((v,))
    &&& forall|x: u64| physics.cube.requires((x,))
    &&& forall|x: u64, y: u64| physics.product.requires((x, y))
    &&& forall|v: Vec2, s: u64| physics.scale.requires((v, s))
    &&& forall|v: Vec2, s: u64| physics.quotient.requires((v, s))
    &&& forall|a: Vec2, b: Vec2| physics.sum.requires((a, b))
}

/// `total` is the net acceleration of `subject` due to `sources`: start from
/// zero and add the acceleration due to each source, first to last.
pub open spec fn net_gives<
    D: Fn(Vec2, Vec2) -> Vec2,
    L: Fn(Vec2) -> u64,
    C: Fn(u64) -> u64,
    M: Fn(u64, u64) -> u64,
    S: Fn(Vec2, u64) -> Vec2,
    Q: Fn(Vec2, u64) -> Vec2,
    A: Fn(Vec2, Vec2) -> Vec2,
>(
    physics: Physics<D, L, C, M, S, Q, A>,
    subject: Particle,
    sources: Seq<Particle>,
    total: Vec2,
) -> bool
    decreases sources.len(),
{
    if sources.len() == 0 {
        total == zero()
    } else {
        exists|partial: Vec2, one: Vec2|
            {
                &&& net_gives(physics, subject, sources.drop_last(), partial)
                &&& acceleration_gives(physics, subject, sources.last(), one)
                &&& #[trigger] physics.sum.ensures((partial, one), total)
            }
    }
}

/// `increment` is the change of velocity of `subject` over a step of size
/// `dt`: its net acceleration due to the members of `snapshot` with another
/// id, scaled by `dt`.
pub open spec fn increment_gives<
    D: Fn(Vec2, Vec2) -> Vec2,
    L: Fn(Vec2) -> u64,
    C: Fn(u64) -> u64,
    M: Fn(u64, u64) -> u64,
    S: Fn(Vec2, u64) -> Vec2,
    Q: Fn(Vec2, u64) -> Vec2,
    A: Fn(Vec2, Vec2) -> Vec2,
>(
    physics: Physics<D, L, C, M, S, Q, A>,
    subject: Particle,
    snapshot: Seq<Particle>,
    dt: u64,
    increment: Vec2,
) -> bool {
    exists|net: Vec2|
        {
            &&& net_gives(physics, subject, others_of(subject.id, snapshot), net)
            &&& #[trigger] physics.scale.ensures((net, dt), increment)
        }
}

/// `after` is `before` moved on by one step: the velocity takes the
/// increment first, and the position then moves by the new velocity scaled
/// by `dt`. Identity and mass stay.
pub open spec fn integrated<
    D: Fn(Vec2, Vec2) -> Vec2,
    L: Fn(Vec2) -> u64,
    C: Fn(u64) -> u64,
    M: Fn(u64, u64) -> u64,
    S: Fn(Vec2, u64) -> Vec2,
    Q: Fn(Vec2, u64) -> Vec2,
    A: Fn(Vec2, Vec2) -> Vec2,
>(
    physics: Physics<D, L, C, M, S, Q, A>,
    before: Particle,
    increment: Vec2,
    dt: u64,
    after: Particle,
) -> bool {
    &&& after.id == before.id
    &&& after.mass == before.mass
    &&& physics.sum.ensures((before.velocity, increment), after.velocity)
    &&& exists|travel: Vec2|
        {
            &&& physics.scale.ensures((after.velocity, dt), travel)
            &&& #[trigger] physics.sum.ensures((before.position, travel), after.position)
        }
}

/// `after` is `before` advanced by one step against `snapshot`.
pub open spec fn advanced_from<
    D: Fn(Vec2, Vec2) -> Vec2,
    L: Fn(Vec2) -> u64,
    C: Fn(u64) -> u64,
    M: Fn(u64, u64) -> u64,
    S: Fn(Vec2, u64) -> Vec2,
    Q: Fn(Vec2, u64) -> Vec2,
    A: Fn(Vec2, Vec2) -> Vec2,
>(
    physics: Physics<D, L, C, M, S, Q, A>,
    before: Particle,
    snapshot: Seq<Particle>,
    dt: u64,
    after: Particle,
) -> bool {
    exists|increment: Vec2|
        {
            &&& increment_gives(physics, before, snapshot, dt, increment)
            &&& #[trigger] integrated(physics, before, increment, dt, after)
        }
}

impl Particle {
    /// Whether the mass is a positive finite number.
    pub fn has_valid_mass(mass: u64) -> (valid: bool)
        ensures
            valid == is_valid_mass(mass),
    {
        0 < mass && mass < POSITIVE_INFINITY_BITS
    }

    /// Whether the bit pattern is a NaN.
    pub fn is_nan_bits(bits: u64) -> (nan: bool)
        ensures
            nan == is_nan(bits),
    {
        (POSITIVE_INFINITY_BITS < bits && bits <= GREATEST_POSITIVE_BITS) || NEGATIVE_INFINITY_BITS
            < bits
    }

    /// Whether the two vectors are the same point, the two zeros being one
    /// number.
    pub fn is_same_place(a: Vec2, b: Vec2) -> (same: bool)
        ensures
            same == same_place(a, b),
    {
        (a.x == b.x || ((a.x == 0 || a.x == NEGATIVE_ZERO_BITS) && (b.x == 0 || b.x
            == NEGATIVE_ZERO_BITS))) && (a.y == b.y || ((a.y == 0 || a.y == NEGATIVE_ZERO_BITS)
            && (b.y == 0 || b.y == NEGATIVE_ZERO_BITS)))
    }

    /// The law of gravitation for this particle and `rhs`, with nothing done
    /// about the case that the two are at one place: `-G M r / |r|^3`.
    pub fn attraction<
        D: Fn(Vec2, Vec2) -> Vec2,
        L: Fn(Vec2) -> u64,
        C: Fn(u64) -> u64,
        M: Fn(u64, u64) -> u64,
        S: Fn(Vec2, u64) -> Vec2,
        Q: Fn(Vec2, u64) -> Vec2,
        A: Fn(Vec2, Vec2) -> Vec2,
    >(&self, rhs: &Particle, physics: &Physics<D, L, C, M, S, Q, A>) -> (raw: Vec2)
        requires
            physics_total(*physics),
        ensures
            attraction_gives(*physics, *self, *rhs, raw),
    {
        let separation = (physics.difference)(self.position, rhs.position);
        let strength = (physics.product)(NEG_G_BITS, rhs.mass);
        let numerator = (physics.scale)(separation, strength);
        let distance = (physics.length)(separation);
        let cubed = (physics.cube)(distance);
        let raw = (physics.quotient)(numerator, cubed);
        proof {
            let steps = Attraction { separation, strength, numerator, distance, cubed };
            assert(attraction_steps(*physics, *self, *rhs, steps, raw));
        }
        raw
    }

    /// The acceleration that `rhs` imparts on this particle. Where the two
    /// are at one place, or the formula yields no number, it is zero: such
    /// a source contributes nothing to the step.
    pub fn acceleration<
        D: Fn(Vec2, Vec2) -> Vec2,
        L: Fn(Vec2) -> u64,
        C: Fn(u64) -> u64,
        M: Fn(u64, u64) -> u64,
        S: Fn(Vec2, u64) -> Vec2,
        Q: Fn(Vec2, u64) -> Vec2,
        A: Fn(Vec2, Vec2) -> Vec2,
    >(&self, rhs: &Particle, physics: &Physics<D, L, C, M, S, Q, A>) -> (acceleration: Vec2)
        requires
            physics_total(*physics),
        ensures
            acceleration_gives(*physics, *self, *rhs, acceleration),
            !has_nan(acceleration),
    {
        if Particle::is_same_place(self.position, rhs.position) {
            return Vec2 { x: 0, y: 0 };
        }
        let raw = self.attraction(rhs, physics);
        if Particle::is_nan_bits(raw.x) || Particle::is_nan_bits(raw.y) {
            Vec2 { x: 0, y: 0 }
        } else {
            raw
        }
    }

    /// The net acceleration of this particle due to `particles`: the
    /// accelerations due to all members with another id, added up in order
    /// from zero. A particle never acts on itself.
    pub fn net_acceleration<
        D: Fn(Vec2, Vec2) -> Vec2,
        L: Fn(Vec2) -> u64,
        C: Fn(u64) -> u64,
        M: Fn(u64, u64) -> u64,
        S: Fn(Vec2, u64) -> Vec2,
        Q: Fn(Vec2, u64) -> Vec2,
        A: Fn(Vec2, Vec2) -> Vec2,
    >(&self, particles: &Vec<Particle>, physics: &Physics<D, L, C, M, S, Q, A>) -> (total: Vec2)
        requires
            physics_total(*physics),
        ensures
            net_gives(*physics, *self, others_of(self.id, particles@), total),
    {
        let ghost differs = |p: Particle| p.id != self.id;
        let mut total = Vec2 { x: 0, y: 0 };
        let mut i: usize = 0;
        while i < particles.len()
            invariant
                physics_total(*physics),
                i <= particles.len(),
                differs == (|p: Particle| p.id != self.id),
                net_gives(*physics, *self, particles@.take(i as int).filter(differs), total),
            decreases particles.len() - i,
        {
            proof {
                reveal(Seq::filter);
                assert(particles@.take(i + 1).drop_last() == particles@.take(i as int));
            }
            if particles[i].id != self.id {
                let ghost sources = particles@.take(i as int).filter(differs);
                let one = self.acceleration(&particles[i], physics);
                let next = (physics.sum)(total, one);
                proof {
                    let longer = particles@.take(i + 1).filter(differs);
                    assert(longer == sources.push(particles@[i as int]));
                    assert(longer.drop_last() == sources);
                    assert(longer.last() == particles@[i as int]);
                    assert(physics.sum.ensures((total, one), next));
                }
                total = next;
            }
            i += 1;
        }
        proof {
            assert(particles@.take(i as int) == particles@);
        }
        total
    }

    /// The change of velocity of this particle over a step of size `dt`,
    /// computed from `snapshot` alone.
    pub fn velocity_increment<
        D: Fn(Vec2, Vec2) -> Vec2,
        L: Fn(Vec2) -> u64,
        C: Fn(u64) -> u64,
        M: Fn(u64, u64) -> u64,
        S: Fn(Vec2, u64) -> Vec2,
        Q: Fn(Vec2, u64) -> Vec2,
        A: Fn(Vec2, Vec2) -> Vec2,
    >(
        &self,
        snapshot: &Vec<Particle>,
        dt: u64,
        physics: &Physics<D, L, C, M, S, Q, A>,
    ) -> (increment: Vec2)
        requires
            physics_total(*physics),
        ensures
            increment_gives(*physics, *self, snapshot@, dt, increment),
    {
        let net = self.net_acceleration(snapshot, physics);
        (physics.scale)(net, dt)
    }

    /// Moves this particle on by one step: `velocity += increment`, then
    /// `position += velocity * dt` with the new velocity.
    pub fn integrate<
        D: Fn(Vec2, Vec2) -> Vec2,
        L: Fn(Vec2) -> u64,
        C: Fn(u64) -> u64,
        M: Fn(u64, u64) -> u64,
        S: Fn(Vec2, u64) -> Vec2,
        Q: Fn(Vec2, u64) -> Vec2,
        A: Fn(Vec2, Vec2) -> Vec2,
    >(&mut self, increment: Vec2, dt: u64, physics: &Physics<D, L, C, M, S, Q, A>)
        requires
            physics_total(*physics),
        ensures
            integrated(*physics, *old(self), increment, dt, *final(self)),
    {
        let velocity = (physics.sum)(self.velocity, increment);
        let travel = (physics.scale)(velocity, dt);
        let position = (physics.sum)(self.position, travel);
        self.velocity = velocity;
        self.position = position;
        proof {
            assert(physics.scale.ensures((self.velocity, dt), travel));
            assert(physics.sum.ensures((old(self).position, travel), self.position));
        }
    }

    /// Advances this particle by one step against `snapshot`.
    pub fn advance<
        D: Fn(Vec2, Vec2) -> Vec2,
        L: Fn(Vec2) -> u64,
        C: Fn(u64) -> u64,
        M: Fn(u64, u64) -> u64,
        S: Fn(Vec2, u64) -> Vec2,
        Q: Fn(Vec2, u64) -> Vec2,
        A: Fn(Vec2, Vec2) -> Vec2,
    >(&mut self, snapshot: &Vec<Particle>, dt: u64, physics: &Physics<D, L, C, M, S, Q, A>)
        requires
            physics_total(*physics),
        ensures
            advanced_from(*physics, *old(self), snapshot@, dt, *final(self)),
    {
        let increment = self.velocity_increment(snapshot, dt, physics);
        self.integrate(increment, dt, physics);
    }
}

/// A particle never acts on itself: none of its sources carries its id. And
/// nothing else is left out: every particle with another id is a source,
/// wherever it stands, also at the very position of the subject.
pub proof fn lemma_sources_exclude_self_only(id: usize, particles: Seq<Particle>)
    ensures
        forall|k: int|
            0 <= k < others_of(id, particles).len() ==> (#[trigger] others_of(
                id,
                particles,
            )[k]).id != id,
        forall|i: int|
            0 <= i < particles.len() && particles[i].id != id ==> others_of(id, particles).contains(
                #[trigger] particles[i],
            ),
        forall|k: int|
            0 <= k < others_of(id, particles).len() ==> particles.contains(
                #[trigger] others_of(id, particles)[k],
            ),
{
    let differs = |p: Particle| p.id != id;
    assert forall|k: int| 0 <= k < others_of(id, particles).len() implies (#[trigger] others_of(
        id,
        particles,
    )[k]).id != id && particles.contains(others_of(id, particles)[k]) by {
        particles.lemma_filter_pred(differs, k);
        particles.lemma_filter_contains_rev(differs, others_of(id, particles)[k]);
    }
    assert forall|i: int| 0 <= i < particles.len() && particles[i].id != id implies others_of(
        id,
        particles,
    ).contains(#[trigger] particles[i]) by {
        particles.lemma_filter_contains(differs, i);
    }
}

/// Each of the seven operations answers one question in one way only.
pub open spec fn physics_deterministic<
    D: Fn(Vec2, Vec2) -> Vec2,
    L: Fn(Vec2) -> u64,
    C: Fn(u64) -> u64,
    M: Fn(u64, u64) -> u64,
    S: Fn(Vec2, u64) -> Vec2,
    Q: Fn(Vec2, u64) -> Vec2,
    A: Fn(Vec2, Vec2) -> Vec2,
>(physics: Physics<D, L, C, M, S, Q, A>) -> bool {
    &&& forall|a: Vec2, b: Vec2, m: Vec2, n: Vec2|
        #[trigger] physics.difference.ensures((a, b), m) && #[trigger] physics.difference.ensures(
            (a, b),
            n,
        ) ==> m == n
    &&& forall|v: Vec2, m: u64, n: u64|
        #[trigger] physics.length.ensures((v,), m) && #[trigger] physics.length.ensures((v,), n)
            ==> m == n
    &&& forall|x: u64, m: u64, n: u64|
        #[trigger] physics.cube.ensures((x,), m) && #[trigger] physics.cube.ensures((x,), n) ==> m
            == n
    &&& forall|x: u64, y: u64, m: u64, n: u64|
        #[trigger] physics.product.ensures((x, y), m) && #[trigger] physics.product.ensures(
            (x, y),
            n,
        ) ==> m == n
    &&& forall|v: Vec2, s: u64, m: Vec2, n: Vec2|
        #[trigger] physics.quotient.ensures((v, s), m) && #[trigger] physics.quotient.ensures(
            (v, s),
            n,
        ) ==> m == n
    &&& forall|a: Vec2, b: Vec2, m: Vec2, n: Vec2|
        #[trigger] physics.sum.ensures((a, b), m) && #[trigger] physics.sum.ensures((a, b), n)
            ==> m == n
    &&& forall|v: Vec2, s: u64, m: Vec2, n: Vec2|
        #[trigger] physics.scale.ensures((v, s), m) && #[trigger] physics.scale.ensures((v, s), n)
            ==> m == n
}

/// With such operations the law of gravitation yields one value.
pub proof fn lemma_attraction_unique<
    D: Fn(Vec2, Vec2) -> Vec2,
    L: Fn(Vec2) -> u64,
    C: Fn(u64) -> u64,
    M: Fn(u64, u64) -> u64,
    S: Fn(Vec2, u64) -> Vec2,
    Q: Fn(Vec2, u64) -> Vec2,
    A: Fn(Vec2, Vec2) -> Vec2,
>(
    physics: Physics<D, L, C, M, S, Q, A>,
    subject: Particle,
    source: Particle,
    one: Vec2,
    other: Vec2,
)
    requires
        physics_deterministic(physics),
        attraction_gives(physics, subject, source, one),
        attraction_gives(physics, subject, source, other),
    ensures
        one == other,
{
    let a = choose|steps: Attraction| #[trigger]
        attraction_steps(physics, subject, source, steps, one);
    let b = choose|steps: Attraction| #[trigger]
        attraction_steps(physics, subject, source, steps, other);
    assert(a.separation == b.separation);
    assert(a.strength == b.strength);
    assert(a.numerator == b.numerator);
    assert(a.distance == b.distance);
    assert(a.cubed == b.cubed);
}

/// With such operations an acceleration is one value.
pub proof fn lemma_acceleration_unique<
    D: Fn(Vec2, Vec2) -> Vec2,
    L: Fn(Vec2) -> u64,
    C: Fn(u64) -> u64,
    M: Fn(u64, u64) -> u64,
    S: Fn(Vec2, u64) -> Vec2,
    Q: Fn(Vec2, u64) -> Vec2,
    A: Fn(Vec2, Vec2) -> Vec2,
>(
    physics: Physics<D, L, C, M, S, Q, A>,
    subject: Particle,
    source: Particle,
    one: Vec2,
    other: Vec2,
)
    requires
        physics_deterministic(physics),
        acceleration_gives(physics, subject, source, one),
        acceleration_gives(physics, subject, source, other),
    ensures
        one == other,
{
    if !same_place(subject.position, source.position) {
        let r1 = choose|raw: Vec2|
            {
                &&& #[trigger] attraction_gives(physics, subject, source, raw)
                &&& one == if has_nan(raw) {
                    zero()
                } else {
                    raw
                }
            };
        let r2 = choose|raw: Vec2|
            {
                &&& #[trigger] attraction_gives(physics, subject, source, raw)
                &&& other == if has_nan(raw) {
                    zero()
                } else {
                    raw
                }
            };
        lemma_attraction_unique(physics, subject, source, r1, r2);
    }
}

/// Two particles at one place impart nothing on each other, and no
/// acceleration ever holds a NaN.
pub proof fn lemma_acceleration_is_a_number<
    D: Fn(Vec2, Vec2) -> Vec2,
    L: Fn(Vec2) -> u64,
    C: Fn(u64) -> u64,
    M: Fn(u64, u64) -> u64,
    S: Fn(Vec2, u64) -> Vec2,
    Q: Fn(Vec2, u64) -> Vec2,
    A: Fn(Vec2, Vec2) -> Vec2,
>(physics: Physics<D, L, C, M, S, Q, A>, subject: Particle, source: Particle, acceleration: Vec2)
    requires
        acceleration_gives(physics, subject, source, acceleration),
    ensures
        !has_nan(acceleration),
        same_place(subject.position, source.position) ==> acceleration == zero(),
        same_place(subject.position, source.position) ==> acceleration_gives(
            physics,
            source,
            subject,
            zero(),
        ),
{
}

/// With such operations a net acceleration is one value.
pub proof fn lemma_net_unique<
    D: Fn(Vec2, Vec2) -> Vec2,
    L: Fn(Vec2) -> u64,
    C: Fn(u64) -> u64,
    M: Fn(u64, u64) -> u64,
    S: Fn(Vec2, u64) -> Vec2,
    Q: Fn(Vec2, u64) -> Vec2,
    A: Fn(Vec2, Vec2) -> Vec2,
>(
    physics: Physics<D, L, C, M, S, Q, A>,
    subject: Particle,
    sources: Seq<Particle>,
    one: Vec2,
    other: Vec2,
)
    requires
        physics_deterministic(physics),
        net_gives(physics, subject, sources, one),
        net_gives(physics, subject, sources, other),
    ensures
        one == other,
    decreases sources.len(),
{
    if sources.len() > 0 {
        let (first_partial, first_pull) = choose|partial: Vec2, pulled: Vec2|
            {
                &&& net_gives(physics, subject, sources.drop_last(), partial)
                &&& acceleration_gives(physics, subject, sources.last(), pulled)
                &&& #[trigger] physics.sum.ensures((partial, pulled), one)
            };
        let (second_partial, second_pull) = choose|partial: Vec2, pulled: Vec2|
            {
                &&& net_gives(physics, subject, sources.drop_last(), partial)
                &&& acceleration_gives(physics, subject, sources.last(), pulled)
                &&& #[trigger] physics.sum.ensures((partial, pulled), other)
            };
        lemma_net_unique(physics, subject, sources.drop_last(), first_partial, second_partial);
        lemma_acceleration_unique(physics, subject, sources.last(), first_pull, second_pull);
    }
}

/// With such operations a particle has one successor.
pub proof fn lemma_advance_unique<
    D: Fn(Vec2, Vec2) -> Vec2,
    L: Fn(Vec2) -> u64,
    C: Fn(u64) -> u64,
    M: Fn(u64, u64) -> u64,
    S: Fn(Vec2, u64) -> Vec2,
    Q: Fn(Vec2, u64) -> Vec2,
    A: Fn(Vec2, Vec2) -> Vec2,
>(
    physics: Physics<D, L, C, M, S, Q, A>,
    before: Particle,
    snapshot: Seq<Particle>,
    dt: u64,
    one: Particle,
    other: Particle,
)
    requires
        physics_deterministic(physics),
        advanced_from(physics, before, snapshot, dt, one),
        advanced_from(physics, before, snapshot, dt, other),
    ensures
        one == other,
{
    let i1 = choose|increment: Vec2|
        {
            &&& increment_gives(physics, before, snapshot, dt, increment)
            &&& #[trigger] integrated(physics, before, increment, dt, one)
        };
    let i2 = choose|increment: Vec2|
        {
            &&& increment_gives(physics, before, snapshot, dt, increment)
            &&& #[trigger] integrated(physics, before, increment, dt, other)
        };
    lemma_increment_unique(physics, before, snapshot, dt, i1, i2);
    lemma_integrate_unique(physics, before, i1, dt, one, other);
}

/// With such operations a change of velocity is one value.
pub proof fn lemma_increment_unique<
    D: Fn(Vec2, Vec2) -> Vec2,
    L: Fn(Vec2) -> u64,
    C: Fn(u64) -> u64,
    M: Fn(u64, u64) -> u64,
    S: Fn(Vec2, u64) -> Vec2,
    Q: Fn(Vec2, u64) -> Vec2,
    A: Fn(Vec2, Vec2) -> Vec2,
>(
    physics: Physics<D, L, C, M, S, Q, A>,
    subject: Particle,
    snapshot: Seq<Particle>,
    dt: u64,
    one: Vec2,
    other: Vec2,
)
    requires
        physics_deterministic(physics),
        increment_gives(physics, subject, snapshot, dt, one),
        increment_gives(physics, subject, snapshot, dt, other),
    ensures
        one == other,
{
    let sources = others_of(subject.id, snapshot);
    let n1 = choose|net: Vec2|
        {
            &&& net_gives(physics, subject, sources, net)
            &&& #[trigger] physics.scale.ensures((net, dt), one)
        };
    let n2 = choose|net: Vec2|
        {
            &&& net_gives(physics, subject, sources, net)
            &&& #[trigger] physics.scale.ensures((net, dt), other)
        };
    lemma_net_unique(physics, subject, sources, n1, n2);
}

/// With such operations a particle and an increment give one successor.
pub proof fn lemma_integrate_unique<
    D: Fn(Vec2, Vec2) -> Vec2,
    L: Fn(Vec2) -> u64,
    C: Fn(u64) -> u64,
    M: Fn(u64, u64) -> u64,
    S: Fn(Vec2, u64) -> Vec2,
    Q: Fn(Vec2, u64) -> Vec2,
    A: Fn(Vec2, Vec2) -> Vec2,
>(
    physics: Physics<D, L, C, M, S, Q, A>,
    before: Particle,
    increment: Vec2,
    dt: u64,
    one: Particle,
    other: Particle,
)
    requires
        physics_deterministic(physics),
        integrated(physics, before, increment, dt, one),
        integrated(physics, before, increment, dt, other),
    ensures
        one == other,
{
    assert(one.velocity == other.velocity);
    let t1 = choose|travel: Vec2|
        {
            &&& physics.scale.ensures((one.velocity, dt), travel)
            &&& #[trigger] physics.sum.ensures((before.position, travel), one.position)
        };
    let t2 = choose|travel: Vec2|
        {
            &&& physics.scale.ensures((other.velocity, dt), travel)
            &&& #[trigger] physics.sum.ensures((before.position, travel), other.position)
        };
    assert(t1 == t2);
    assert(one.position == other.position);
}

} // verus!
