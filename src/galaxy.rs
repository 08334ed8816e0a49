//! The particle store and the integrator that advances it by one time step.

use vstd::prelude::*;
use vstd::arithmetic::div_mod::lemma_div_nonincreasing;
use crate::physics::{
    abs, calc_gravitational_force, clamp_accel, clamped, gravitational_force, in_range, Point2D,
    ACCEL_LIMIT, COORD_LIMIT, SCALE,
};
use crate::scene::Tickable;
use rand::Rng;

verus! {

/// Largest absolute value of a velocity component, in fixed-point units;
/// speeds saturate here.
pub const SPEED_LIMIT: i64 = 9_223_372_036_854_775_807;

/// Number of particles in a newly created world.
pub const SEED_COUNT: usize = 6;

/// Distance in pixels between the world's edges and the region where a new
/// world's particles are placed.
pub const SEED_MARGIN: u32 = 100;

/// Bound on each velocity component of a new world's particles, in
/// fixed-point units: a ten-thousandth of a pixel per second.
pub const SEED_SPEED: i64 = 100;

/// Why a world could not be made.
#[derive(Clone, Copy, Debug, PartialEq, Eq, Structural)]
pub enum WorldError {
    /// A side is not longer than twice `SEED_MARGIN`, leaving no room to
    /// place particles.
    TooSmall,
    /// A side has length zero.
    Empty,
    /// A particle lies beyond `COORD_LIMIT` or has a velocity component of
    /// `i64::MIN`.
    ParticleOutOfRange,
}

/// One simulated body.
#[derive(Clone, Copy, Debug, PartialEq, Eq, Structural)]
pub struct Particle {
    pub position: Point2D,
    pub velocity: Point2D,
}

/// The position lies within the coordinate range and no velocity component
/// is beyond `SPEED_LIMIT`, so that each can be negated.
pub open spec fn valid_particle(p: Particle) -> bool {
    in_range(p.position) && -SPEED_LIMIT <= p.velocity.x && -SPEED_LIMIT <= p.velocity.y
}

/// The positions of the particles, in order.
pub open spec fn positions(ps: Seq<Particle>) -> Seq<Point2D> {
    ps.map_values(|p: Particle| p.position)
}

/// `a / d`, rounded toward zero.
pub open spec fn div_toward_zero(a: int, d: int) -> int {
    if a >= 0 {
        a / d
    } else {
        -((-a) / d)
    }
}

/// `v` limited to `[-SPEED_LIMIT, SPEED_LIMIT]`.
pub open spec fn saturate(v: int) -> int {
    if v > SPEED_LIMIT {
        SPEED_LIMIT as int
    } else if v < -SPEED_LIMIT {
        -SPEED_LIMIT
    } else {
        v
    }
}

/// The sum of the clamped pulls felt at `p` toward the first `k` points of
/// `snapshot`.
pub open spec fn accel_sum(p: Point2D, snapshot: Seq<Point2D>, mass: int, k: int) -> (int, int)
    decreases k,
{
    if k <= 0 {
        (0, 0)
    } else {
        let before = accel_sum(p, snapshot, mass, k - 1);
        let pull = gravitational_force(p, snapshot[k - 1], mass);
        (before.0 + clamped(pull.0), before.1 + clamped(pull.1))
    }
}

/// The acceleration felt at `p`: each pull toward a point of `snapshot`
/// (`p` itself included) is clamped per component, then all are summed.
pub open spec fn total_accel(p: Point2D, snapshot: Seq<Point2D>, mass: int) -> (int, int) {
    accel_sum(p, snapshot, mass, snapshot.len() as int)
}

/// Position and velocity along one axis after a step of `1 / rate` seconds
/// under acceleration `acc`, the world spanning `[0, bound]` on that axis: the
/// velocity takes the acceleration first, then the position would move by
/// the new velocity; where that would leave the world, the position stays and
/// the velocity is reversed.
pub open spec fn axis_step(pos: int, vel: int, acc: int, rate: int, bound: int) -> (int, int) {
    let v = saturate(vel + div_toward_zero(acc, rate));
    let tentative = pos + div_toward_zero(v, rate);
    if 0 <= tentative <= bound {
        (tentative, v)
    } else {
        (pos, -v)
    }
}

/// The particle `p` after one step, pulled toward the positions in `snapshot`,
/// in a world of `width` by `height` pixels.
pub open spec fn advanced(
    p: Particle,
    snapshot: Seq<Point2D>,
    rate: int,
    mass: int,
    width: int,
    height: int,
) -> Particle {
    let acc = total_accel(p.position, snapshot, mass);
    let sx = axis_step(p.position.x as int, p.velocity.x as int, acc.0, rate, width * SCALE);
    let sy = axis_step(p.position.y as int, p.velocity.y as int, acc.1, rate, height * SCALE);
    Particle {
        position: Point2D { x: sx.0 as i64, y: sy.0 as i64 },
        velocity: Point2D { x: sx.1 as i64, y: sy.1 as i64 },
    }
}

/// Every particle of `ps` after one step, each pulled toward the positions
/// that all of them held before the step.
pub open spec fn stepped(ps: Seq<Particle>, rate: int, mass: int, width: int, height: int) -> Seq<
    Particle,
> {
    Seq::new(ps.len(), |i: int| advanced(ps[i], positions(ps), rate, mass, width, height))
}

/// A particle of a new world in a `width` by `height` world: placed on a
/// whole pixel at least `SEED_MARGIN` pixels inside the edges (the far
/// edge's margin exclusive), nearly at rest.
pub open spec fn seeded(p: Particle, width: int, height: int) -> bool {
    &&& p.position.x % SCALE == 0
    &&& p.position.y % SCALE == 0
    &&& SEED_MARGIN * SCALE <= p.position.x < (width - SEED_MARGIN) * SCALE
    &&& SEED_MARGIN * SCALE <= p.position.y < (height - SEED_MARGIN) * SCALE
    &&& -SEED_SPEED <= p.velocity.x < SEED_SPEED
    &&& -SEED_SPEED <= p.velocity.y < SEED_SPEED
}

/// `count` particles at rest on a diagonal through the pixel `(x, y)`: the
/// `j`-th lies `j - count / 2` pixels from it along both axes.
pub open spec fn cluster(x: int, y: int, count: int) -> Seq<Particle> {
    Seq::new(
        count as nat,
        |j: int|
            Particle {
                position: Point2D {
                    x: ((x + j - count / 2) * SCALE) as i64,
                    y: ((y + j - count / 2) * SCALE) as i64,
                },
                velocity: Point2D { x: 0, y: 0 },
            },
    )
}

/// A cluster spawned at the pixel `(x, y)` holds exactly `count` particles,
/// each at rest and at most `count / 2` pixels from `(x, y)` along either
/// axis.
pub proof fn lemma_cluster_near_center(x: i32, y: i32, count: u32)
    ensures
        cluster(x as int, y as int, count as int).len() == count,
        forall|j: int|
            0 <= j < count ==> {
                let p = #[trigger] cluster(x as int, y as int, count as int)[j];
                &&& p.velocity == Point2D { x: 0, y: 0 }
                &&& abs(p.position.x - x * SCALE) <= (count / 2) * SCALE
                &&& abs(p.position.y - y * SCALE) <= (count / 2) * SCALE
            },
{
}

/// Relies on rand::thread_rng and rand::Rng::gen_range: a value drawn
/// uniformly from `[low, high)`; gen_range panics unless `low < high`.
#[verifier::external_body]
fn draw_between(low: i64, high: i64) -> (r: i64)
    requires
        low < high,
    ensures
        low <= r < high,
{
    rand::thread_rng().gen_range(low, high)
}

/// The particles of a world and the world's size in pixels.
pub struct Galaxy {
    particles: Vec<Particle>,
    width: u32,
    height: u32,
}

impl View for Galaxy {
    type V = Seq<Particle>;

    closed spec fn view(&self) -> Seq<Particle> {
        self.particles@
    }
}

impl Galaxy {
    /// The world's width in pixels.
    pub closed spec fn spec_width(&self) -> nat {
        self.width as nat
    }

    /// The world's height in pixels.
    pub closed spec fn spec_height(&self) -> nat {
        self.height as nat
    }

    /// A world of `width` by `height` pixels holding `SEED_COUNT` particles,
    /// placed at random whole pixels at least `SEED_MARGIN` inside the edges,
    /// with random velocities below `SEED_SPEED` units either way. Fails
    /// with `TooSmall` where a side is not longer than `2 * SEED_MARGIN`.
    pub fn new(width: u32, height: u32) -> (r: Result<Galaxy, WorldError>)
        ensures
            width <= 2 * SEED_MARGIN || height <= 2 * SEED_MARGIN ==> r == Err::<
                Galaxy,
                WorldError,
            >(WorldError::TooSmall),
            width > 2 * SEED_MARGIN && height > 2 * SEED_MARGIN ==> (match r {
                Ok(g) => {
                    &&& g.spec_width() == width
                    &&& g.spec_height() == height
                    &&& g@.len() == SEED_COUNT
                    &&& g.well_formed()
                    &&& forall|i: int|
                        0 <= i < g@.len() ==> seeded(#[trigger] g@[i], width as int, height as int)
                },
                Err(_) => false,
            }),
    {
        if width <= 2 * SEED_MARGIN || height <= 2 * SEED_MARGIN {
            return Err(WorldError::TooSmall);
        }
        let mut particles: Vec<Particle> = Vec::new();
        let mut i: usize = 0;
        while i < SEED_COUNT
            invariant
                i <= SEED_COUNT,
                particles@.len() == i,
                width > 2 * SEED_MARGIN,
                height > 2 * SEED_MARGIN,
                forall|j: int|
                    0 <= j < i ==> seeded(#[trigger] particles@[j], width as int, height as int),
            decreases SEED_COUNT - i,
        {
            let px: i64 = draw_between(SEED_MARGIN as i64, (width - SEED_MARGIN) as i64);
            let py: i64 = draw_between(SEED_MARGIN as i64, (height - SEED_MARGIN) as i64);
            let vx: i64 = draw_between(-SEED_SPEED, SEED_SPEED);
            let vy: i64 = draw_between(-SEED_SPEED, SEED_SPEED);
            particles.push(
                Particle {
                    position: Point2D { x: px * SCALE, y: py * SCALE },
                    velocity: Point2D { x: vx, y: vy },
                },
            );
            i += 1;
        }
        Ok(Galaxy { particles, width, height })
    }

    /// A world of `width` by `height` pixels holding `particles`, in order.
    /// Fails with `Empty` where a side is zero, else with
    /// `ParticleOutOfRange` where a particle is not valid.
    pub fn with_particles(width: u32, height: u32, particles: Vec<Particle>) -> (r: Result<
        Galaxy,
        WorldError,
    >)
        ensures
            width == 0 || height == 0 ==> r == Err::<Galaxy, WorldError>(WorldError::Empty),
            width > 0 && height > 0 && (exists|i: int|
                0 <= i < particles@.len() && !valid_particle(#[trigger] particles@[i]))
                ==> r == Err::<Galaxy, WorldError>(WorldError::ParticleOutOfRange),
            width > 0 && height > 0 && (forall|i: int|
                0 <= i < particles@.len() ==> valid_particle(#[trigger] particles@[i]))
                ==> (match r {
                Ok(g) => g@ == particles@ && g.spec_width() == width && g.spec_height() == height
                    && g.well_formed(),
                Err(_) => false,
            }),
    {
        if width == 0 || height == 0 {
            return Err(WorldError::Empty);
        }
        let mut i: usize = 0;
        while i < particles.len()
            invariant
                i <= particles@.len(),
                width > 0,
                height > 0,
                forall|j: int| 0 <= j < i ==> valid_particle(#[trigger] particles@[j]),
            decreases particles@.len() - i,
        {
            let p = particles[i];
            if !(-COORD_LIMIT <= p.position.x && p.position.x <= COORD_LIMIT && -COORD_LIMIT
                <= p.position.y && p.position.y <= COORD_LIMIT && -SPEED_LIMIT <= p.velocity.x
                && -SPEED_LIMIT <= p.velocity.y) {
                return Err(WorldError::ParticleOutOfRange);
            }
            i += 1;
        }
        Ok(Galaxy { particles, width, height })
    }

    /// Appends `count` particles at rest on a diagonal through the pixel
    /// `(x, y)`, as `cluster` describes; the particles already there are
    /// kept as they are.
    pub fn spawn_cluster(&mut self, x: i32, y: i32, count: u32)
        requires
            old(self).well_formed(),
        ensures
            final(self)@ == old(self)@ + cluster(x as int, y as int, count as int),
            final(self).well_formed(),
            final(self).spec_width() == old(self).spec_width(),
            final(self).spec_height() == old(self).spec_height(),
    {
        let ghost before = self@;
        let half: i64 = (count / 2) as i64;
        let mut j: u32 = 0;
        while j < count
            invariant
                j <= count,
                half == count / 2,
                self@ == before + cluster(x as int, y as int, count as int).take(j as int),
                self.width == old(self).width,
                self.height == old(self).height,
                before == old(self)@,
                old(self).well_formed(),
                forall|i: int| 0 <= i < self@.len() ==> valid_particle(#[trigger] self@[i]),
            decreases count - j,
        {
            let offset: i64 = j as i64 - half;
            let p = Particle {
                position: Point2D { x: (x as i64 + offset) * SCALE, y: (y as i64 + offset) * SCALE },
                velocity: Point2D { x: 0, y: 0 },
            };
            self.particles.push(p);
            j += 1;
            proof {
                assert(self@ =~= before + cluster(x as int, y as int, count as int).take(j as int));
            }
        }
        proof {
            assert(cluster(x as int, y as int, count as int).take(count as int) =~= cluster(
                x as int,
                y as int,
                count as int,
            ));
        }
    }

    /// Number of particles.
    pub fn len(&self) -> (r: usize)
        ensures
            r == self@.len(),
    {
        self.particles.len()
    }

    /// The particles, in order.
    pub fn particles(&self) -> (r: &Vec<Particle>)
        ensures
            r@ == self@,
    {
        &self.particles
    }

    /// The world's width in pixels.
    pub fn width(&self) -> (r: u32)
        ensures
            r == self.spec_width(),
    {
        self.width
    }

    /// The world's height in pixels.
    pub fn height(&self) -> (r: u32)
        ensures
            r == self.spec_height(),
    {
        self.height
    }

    /// The pixel of each particle's position, each coordinate divided by
    /// `SCALE` and rounded toward zero.
    pub fn pixel_positions(&self) -> (r: Vec<(i64, i64)>)
        ensures
            r@.len() == self@.len(),
            forall|i: int|
                0 <= i < r@.len() ==> #[trigger] r@[i] == (
                    div_toward_zero(self@[i].position.x as int, SCALE as int) as i64,
                    div_toward_zero(self@[i].position.y as int, SCALE as int) as i64,
                ),
    {
        let mut r: Vec<(i64, i64)> = Vec::new();
        let mut i: usize = 0;
        while i < self.particles.len()
            invariant
                i <= self@.len(),
                r@.len() == i,
                forall|k: int|
                    0 <= k < i ==> #[trigger] r@[k] == (
                        div_toward_zero(self@[k].position.x as int, SCALE as int) as i64,
                        div_toward_zero(self@[k].position.y as int, SCALE as int) as i64,
                    ),
            decreases self@.len() - i,
        {
            let p = self.particles[i].position;
            r.push((pixel_of(p.x), pixel_of(p.y)));
            i += 1;
        }
        r
    }

    /// A copy of the positions of all particles.
    pub fn snapshot(&self) -> (r: Vec<Point2D>)
        ensures
            r@ == positions(self@),
    {
        let mut r: Vec<Point2D> = Vec::new();
        let mut i: usize = 0;
        while i < self.particles.len()
            invariant
                i <= self@.len(),
                r@ == positions(self@).take(i as int),
            decreases self@.len() - i,
        {
            r.push(self.particles[i].position);
            i += 1;
            proof {
                assert(r@ =~= positions(self@).take(i as int));
            }
        }
        proof {
            assert(r@ =~= positions(self@));
        }
        r
    }
}

fn pixel_of(v: i64) -> (r: i64)
    ensures
        r as int == div_toward_zero(v as int, SCALE as int),
{
    if v >= 0 {
        v / SCALE
    } else {
        -((-(v as i128) / SCALE as i128) as i64)
    }
}

fn sum_of_pulls(p: Point2D, snapshot: &Vec<Point2D>, mass: u32) -> (r: (i128, i128))
    requires
        in_range(p),
        forall|j: int| 0 <= j < snapshot@.len() ==> in_range(#[trigger] snapshot@[j]),
    ensures
        (r.0 as int, r.1 as int) == total_accel(p, snapshot@, mass as int),
        abs(r.0 as int) <= snapshot@.len() * ACCEL_LIMIT,
        abs(r.1 as int) <= snapshot@.len() * ACCEL_LIMIT,
{
    let mut acc_x: i128 = 0;
    let mut acc_y: i128 = 0;
    let mut j: usize = 0;
    while j < snapshot.len()
        invariant
            j <= snapshot@.len(),
            (acc_x as int, acc_y as int) == accel_sum(p, snapshot@, mass as int, j as int),
            abs(acc_x as int) <= j * ACCEL_LIMIT,
            abs(acc_y as int) <= j * ACCEL_LIMIT,
            in_range(p),
            forall|k: int| 0 <= k < snapshot@.len() ==> in_range(#[trigger] snapshot@[k]),
        decreases snapshot@.len() - j,
    {
        let pull = calc_gravitational_force(p, snapshot[j], mass);
        acc_x = acc_x + clamp_accel(pull.0) as i128;
        acc_y = acc_y + clamp_accel(pull.1) as i128;
        j += 1;
    }
    (acc_x, acc_y)
}

fn step_axis(pos: i64, vel: i64, acc: i128, rate: u32, bound: i128) -> (r: (i64, i64))
    requires
        -COORD_LIMIT <= pos <= COORD_LIMIT,
        -SPEED_LIMIT <= vel,
        abs(acc as int) <= 0x1_0000_0000_0000_0000_0000_0000,
        rate > 0,
        0 <= bound <= COORD_LIMIT,
    ensures
        (r.0 as int, r.1 as int) == axis_step(pos as int, vel as int, acc as int, rate as int, bound as int),
        -COORD_LIMIT <= r.0 <= COORD_LIMIT,
        -SPEED_LIMIT <= r.1,
{
    let d: i128 = rate as i128;
    let dv: i128 = if acc >= 0 {
        proof {
            lemma_div_nonincreasing(acc as int, d as int);
        }
        acc / d
    } else {
        proof {
            lemma_div_nonincreasing(-acc as int, d as int);
        }
        -((-acc) / d)
    };
    let raw_v: i128 = vel as i128 + dv;
    let v: i64 = if raw_v > SPEED_LIMIT as i128 {
        SPEED_LIMIT
    } else if raw_v < -(SPEED_LIMIT as i128) {
        -SPEED_LIMIT
    } else {
        raw_v as i64
    };
    let dp: i128 = if v >= 0 {
        proof {
            lemma_div_nonincreasing(v as int, d as int);
        }
        (v as i128) / d
    } else {
        proof {
            lemma_div_nonincreasing(-v as int, d as int);
        }
        -((-(v as i128)) / d)
    };
    let tentative: i128 = pos as i128 + dp;
    if 0 <= tentative && tentative <= bound {
        (tentative as i64, v)
    } else {
        (pos, -v)
    }
}

fn advance_particle(
    p: Particle,
    snapshot: &Vec<Point2D>,
    rate: u32,
    mass: u32,
    width: u32,
    height: u32,
) -> (r: Particle)
    requires
        valid_particle(p),
        forall|j: int| 0 <= j < snapshot@.len() ==> in_range(#[trigger] snapshot@[j]),
        rate > 0,
    ensures
        r == advanced(p, snapshot@, rate as int, mass as int, width as int, height as int),
        valid_particle(r),
{
    let count: usize = snapshot.len();
    assert(count * ACCEL_LIMIT <= 0x1_0000_0000_0000_0000_0000_0000);
    let acc = sum_of_pulls(p.position, snapshot, mass);
    let sx = step_axis(
        p.position.x,
        p.velocity.x,
        acc.0,
        rate,
        width as i128 * SCALE as i128,
    );
    let sy = step_axis(
        p.position.y,
        p.velocity.y,
        acc.1,
        rate,
        height as i128 * SCALE as i128,
    );
    Particle { position: Point2D { x: sx.0, y: sy.0 }, velocity: Point2D { x: sx.1, y: sy.1 } }
}

impl Tickable for Galaxy {
    open spec fn well_formed(&self) -> bool {
        forall|i: int| 0 <= i < self@.len() ==> valid_particle(#[trigger] self@[i])
    }

    /// Advances every particle by one step of `1 / steps_per_second` seconds.
    /// All pulls are computed from the positions held before the step began,
    /// so the order in which particles are updated does not matter.
    fn push_forward(&mut self, steps_per_second: u32, particle_mass: u32)
        ensures
            final(self)@ == stepped(
                old(self)@,
                steps_per_second as int,
                particle_mass as int,
                old(self).spec_width() as int,
                old(self).spec_height() as int,
            ),
            final(self).spec_width() == old(self).spec_width(),
            final(self).spec_height() == old(self).spec_height(),
    {
        let snapshot = self.snapshot();
        let n = self.particles.len();
        let mut i: usize = 0;
        while i < n
            invariant
                n == old(self)@.len(),
                n == self@.len(),
                i <= n,
                snapshot@ == positions(old(self)@),
                self.width == old(self).width,
                self.height == old(self).height,
                old(self).well_formed(),
                forall|j: int|
                    0 <= j < i ==> #[trigger] self@[j] == advanced(
                        old(self)@[j],
                        snapshot@,
                        steps_per_second as int,
                        particle_mass as int,
                        self.width as int,
                        self.height as int,
                    ),
                forall|j: int| i <= j < n ==> #[trigger] self@[j] == old(self)@[j],
                forall|j: int| 0 <= j < i ==> valid_particle(#[trigger] self@[j]),
                steps_per_second > 0,
            decreases n - i,
        {
            let p = self.particles[i];
            let np = advance_particle(
                p,
                &snapshot,
                steps_per_second,
                particle_mass,
                self.width,
                self.height,
            );
            self.particles[i] = np;
            i += 1;
        }
        proof {
            assert(self@ =~= stepped(
                old(self)@,
                steps_per_second as int,
                particle_mass as int,
                old(self).spec_width() as int,
                old(self).spec_height() as int,
            ));
        }
    }
}

} // verus!
