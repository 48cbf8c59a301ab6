//! Particles and trail: what the events of the simulation look like.
use crate::consts::{SPEED_LIMIT, TAME_SPEED};
use crate::events::{Color, Event, EventQueue};
use crate::rng::uniform;
use crate::seqs::{lemma_filter_step, lemma_take_all};
use crate::ship::{heading, heading_of};
use crate::units::{FULL_TURN, LIMIT, SECOND, UNIT, in_limit, lemma_product_bound, wrapped};
use crate::vec2::{Vec2, moved_of, stretch_of, sum_of};
use std::collections::VecDeque;
use vstd::prelude::*;

verus! {

/// Particles in the flash of the base gun.
pub const MUZZLE_FLASH_COUNT: usize = 2;

/// Particles in the plume of a missile launch.
pub const MISSILE_LAUNCH_COUNT: usize = 5;

/// Particles in the flash of the beam.
pub const LASER_FLASH_COUNT: usize = 10;

/// Particles in the jet of a reverse boost.
pub const REVERSE_BOOST_COUNT: usize = 3;

/// Particles in the fountain over a picked-up power-up.
pub const TEXT_EFFECT_COUNT: usize = 20;

/// Time a point of the trail lasts.
pub const EFFECT_TRAIL_LIFE: i64 = 500_000;

/// Longest life a particle starts with.
pub const PARTICLE_SPAN: i64 = 1_000_000;

/// How far from the origin an event of a running game can be.
pub const EVENT_REACH: i64 = 442_000_000;

/// How far from the origin a particle of a running game can appear.
pub const PARTICLE_HOME: i64 = 443_000_000;

/// A speck of light.
#[derive(Clone, Copy, Debug, PartialEq, Eq, Structural)]
pub struct Particle {
    pub pos: Vec2,
    pub vel: Vec2,
    pub life: i64,
    pub color: Color,
    pub size: i64,
}

/// A point of the trail, fading out.
#[derive(Clone, Copy, Debug, PartialEq, Eq, Structural)]
pub struct TrailPoint {
    pub pos: Vec2,
    pub life: i64,
}

/// All particles and the trail.
pub struct EffectSystem {
    pub particles: Vec<Particle>,
    pub trail: VecDeque<TrailPoint>,
}

/// What kind of burst a particle belongs to.
#[derive(Clone, Copy, Debug, PartialEq, Eq, Structural)]
pub enum Burst {
    /// A round burst of one colour.
    Explosion { pos: Vec2, color: Color },
    /// The flash of the base gun, along `dir`.
    MuzzleFlash { pos: Vec2, dir: Vec2 },
    /// The plume of a missile launch, along `dir`.
    MissileLaunch { pos: Vec2, dir: Vec2 },
    /// The flash of the beam, along `dir`.
    LaserFlash { pos: Vec2, dir: Vec2 },
    /// The jet of a reverse boost, about the heading `rot`.
    ReverseBoost { pos: Vec2, rot: i64 },
    /// The fountain over a picked-up power-up.
    TextEffect { pos: Vec2, color: Color },
}

/// `v` is `base` plus a scatter of less than `spread` each way.
pub open spec fn scattered(v: Vec2, base: Vec2, spread: int) -> bool {
    base.x - spread <= v.x < base.x + spread && base.y - spread <= v.y < base.y + spread
}

/// The particle `p` can come from a burst `b`: it has the position, colour,
/// life and size of the burst, and a velocity within its scatter.
pub open spec fn fits(p: Particle, b: Burst) -> bool {
    match b {
        Burst::Explosion { pos, color } => {
            &&& p.pos == pos
            &&& p.color == color
            &&& scattered(p.vel, Vec2 { x: 0, y: 0 }, 200_000)
            &&& 300_000 <= p.life < 600_000
            &&& 2_000 <= p.size < 5_000
        },
        Burst::MuzzleFlash { pos, dir } => {
            &&& p.pos == pos
            &&& p.color == Color::SkyBlue
            &&& scattered(p.vel, stretch_of(dir, 100_000, UNIT as int), 50_000)
            &&& p.life == 200_000
            &&& p.size == 1_500
        },
        Burst::MissileLaunch { pos, dir } => {
            &&& p.pos == pos
            &&& p.color == Color::Orange
            &&& scattered(p.vel, stretch_of(dir, 150_000, UNIT as int), 50_000)
            &&& p.life == 300_000
            &&& p.size == 2_000
        },
        Burst::LaserFlash { pos, dir } => {
            &&& p.pos == sum_of(pos, stretch_of(dir, 30_000, UNIT as int))
            &&& p.color == Color::Crimson
            &&& scattered(p.vel, stretch_of(dir, 300_000, UNIT as int), 100_000)
            &&& p.life == 300_000
            &&& p.size == 4_000
        },
        Burst::ReverseBoost { pos, rot } => {
            exists|angle: int|
                {
                    &&& rot - 500_000 <= angle < rot + 500_000
                    &&& p.pos == sum_of(
                        pos,
                        stretch_of(
                            #[trigger] heading_of(angle % (FULL_TURN as int)),
                            25_000,
                            UNIT as int,
                        ),
                    )
                    &&& scattered(
                        p.vel,
                        stretch_of(heading_of(angle % (FULL_TURN as int)), 400_000, UNIT as int),
                        100_000,
                    )
                    &&& p.color == Color::Violet
                    &&& p.life == 400_000
                    &&& p.size == 3_000
                }
        },
        Burst::TextEffect { pos, color } => {
            &&& p.pos == pos
            &&& p.color == color
            &&& -50_000 <= p.vel.x < 50_000
            &&& -100_000 <= p.vel.y < -50_000
            &&& p.life == 1_000_000
            &&& p.size == 3_000
        },
    }
}

/// `after` is `before` with `n` particles of the burst `b` appended.
pub open spec fn burst_added(before: Seq<Particle>, after: Seq<Particle>, n: int, b: Burst) -> bool {
    &&& after.len() == before.len() + n
    &&& after.take(before.len() as int) == before
    &&& forall|i: int| before.len() <= i < after.len() ==> fits(#[trigger] after[i], b)
}

/// The burst an event is shown as, and its number of particles.
pub open spec fn burst_of(e: Event) -> (Burst, int) {
    match e {
        Event::Explosion { pos, color, count } => (Burst::Explosion { pos, color }, count as int),
        Event::PowerUpSpawn { pos } => (
            Burst::TextEffect { pos, color: Color::Gold },
            TEXT_EFFECT_COUNT as int,
        ),
        Event::LaserFired { pos, dir } => (Burst::LaserFlash { pos, dir }, LASER_FLASH_COUNT as int),
        Event::GameOver => (Burst::Explosion { pos: Vec2 { x: 0, y: 0 }, color: Color::White }, 0),
    }
}

/// `after` is `before` with the bursts of `events` appended, one after the
/// other, oldest event first.
pub open spec fn bursts_added(before: Seq<Particle>, after: Seq<Particle>, events: Seq<Event>) -> bool
    decreases events.len(),
{
    if events.len() == 0 {
        after == before
    } else {
        let (b, n) = burst_of(events.last());
        &&& after.len() >= before.len() + n
        &&& bursts_added(before, after.take(after.len() - n), events.drop_last())
        &&& forall|i: int| after.len() - n <= i < after.len() ==> fits(#[trigger] after[i], b)
    }
}

/// The particle `p` after `dt` clock ticks.
pub open spec fn drifted(p: Particle, dt: int) -> Particle {
    Particle { pos: moved_of(p.pos, p.vel, dt), life: (p.life - dt) as i64, ..p }
}

/// The trail point `t` after `dt` clock ticks.
pub open spec fn dimmed(t: TrailPoint, dt: int) -> TrailPoint {
    TrailPoint { life: (t.life - dt) as i64, ..t }
}

/// The particles after `dt` clock ticks: each has drifted, and those whose
/// life has run out are gone.
pub open spec fn particles_after(particles: Seq<Particle>, dt: int) -> Seq<Particle> {
    particles.map_values(|p: Particle| drifted(p, dt)).filter(|p: Particle| p.life > 0)
}

/// The trail after `dt` clock ticks: each point has faded, and those that
/// have faded out are gone.
pub open spec fn trail_dimmed(trail: Seq<TrailPoint>, dt: int) -> Seq<TrailPoint> {
    trail.map_values(|t: TrailPoint| dimmed(t, dt)).filter(|t: TrailPoint| t.life > 0)
}

impl Particle {
    /// Every stored quantity is within the limits the arithmetic needs.
    pub open spec fn wf(self) -> bool {
        &&& self.pos.bounded(2 * LIMIT)
        &&& self.vel.bounded(SPEED_LIMIT as int)
        &&& in_limit(self.life as int)
    }
}

impl Particle {
    /// The particle is where one can be in a running game: it has time left,
    /// is no faster than anything gets, and has drifted no further from
    /// where particles appear than its age allows.
    pub open spec fn tame(self) -> bool {
        &&& self.wf()
        &&& 0 <= self.life <= PARTICLE_SPAN
        &&& self.vel.bounded(TAME_SPEED as int)
        &&& self.pos.x * SECOND <= PARTICLE_HOME * SECOND + TAME_SPEED * (PARTICLE_SPAN - self.life)
        &&& self.pos.x * SECOND >= -PARTICLE_HOME * SECOND - TAME_SPEED * (PARTICLE_SPAN
            - self.life)
        &&& self.pos.y * SECOND <= PARTICLE_HOME * SECOND + TAME_SPEED * (PARTICLE_SPAN - self.life)
        &&& self.pos.y * SECOND >= -PARTICLE_HOME * SECOND - TAME_SPEED * (PARTICLE_SPAN
            - self.life)
    }
}

/// A tame particle that is still lit after a step is tame.
pub proof fn lemma_drift_tame(p: Particle, dt: int)
    requires
        p.tame(),
        0 <= dt <= LIMIT,
        drifted(p, dt).life > 0,
    ensures
        drifted(p, dt).tame(),
{
    assert(dt < p.life <= SECOND);
    lemma_product_bound(p.vel.x as int, dt, TAME_SPEED as int, dt);
    lemma_product_bound(p.vel.y as int, dt, TAME_SPEED as int, dt);
}

/// The burst `b` is where one can be in a running game.
pub open spec fn burst_home(b: Burst) -> bool {
    match b {
        Burst::Explosion { pos, color } => pos.bounded(EVENT_REACH as int),
        Burst::MuzzleFlash { pos, dir } => pos.bounded(EVENT_REACH as int) && dir.bounded(
            UNIT as int,
        ),
        Burst::MissileLaunch { pos, dir } => pos.bounded(EVENT_REACH as int) && dir.bounded(
            UNIT as int,
        ),
        Burst::LaserFlash { pos, dir } => pos.bounded(EVENT_REACH as int) && dir.bounded(UNIT as int),
        Burst::ReverseBoost { pos, rot } => false,
        Burst::TextEffect { pos, color } => pos.bounded(EVENT_REACH as int),
    }
}

/// The event `e` is where one can be in a running game.
pub open spec fn event_home(e: Event) -> bool {
    match e {
        Event::Explosion { pos, color, count } => pos.bounded(EVENT_REACH as int),
        Event::PowerUpSpawn { pos } => pos.bounded(EVENT_REACH as int),
        Event::LaserFired { pos, dir } => pos.bounded(EVENT_REACH as int) && dir.bounded(
            UNIT as int,
        ),
        Event::GameOver => true,
    }
}

/// Every event of the sequence is where one can be in a running game.
pub open spec fn events_home(events: Seq<Event>) -> bool {
    forall|i: int| 0 <= i < events.len() ==> event_home(#[trigger] events[i])
}

/// The positions an event names are on record within the limits, and its
/// directions no longer than a unit.
pub open spec fn event_wf(e: Event) -> bool {
    match e {
        Event::Explosion { pos, color, count } => pos.bounded(LIMIT as int),
        Event::PowerUpSpawn { pos } => pos.bounded(LIMIT as int),
        Event::LaserFired { pos, dir } => pos.bounded(LIMIT as int) && dir.bounded(UNIT as int),
        Event::GameOver => true,
    }
}

/// Every event of the sequence is well formed.
pub open spec fn events_wf(events: Seq<Event>) -> bool {
    forall|i: int| 0 <= i < events.len() ==> event_wf(#[trigger] events[i])
}

/// A burst appended to what shows a sequence of events shows the sequence
/// with the event of that burst appended.
pub proof fn lemma_bursts_extend(
    before: Seq<Particle>,
    mid: Seq<Particle>,
    after: Seq<Particle>,
    events: Seq<Event>,
    e: Event,
)
    requires
        bursts_added(before, mid, events),
        burst_added(mid, after, burst_of(e).1, burst_of(e).0),
        burst_of(e).1 >= 0,
    ensures
        bursts_added(before, after, events.push(e)),
{
    let n = burst_of(e).1;
    assert(events.push(e).drop_last() =~= events);
}

/// What shows a sequence of events is no shorter than what it started from.
pub proof fn lemma_bursts_len(before: Seq<Particle>, after: Seq<Particle>, events: Seq<Event>)
    requires
        bursts_added(before, after, events),
    ensures
        after.len() >= before.len(),
    decreases events.len(),
{
    if events.len() > 0 {
        let n = burst_of(events.last()).1;
        lemma_bursts_len(before, after.take(after.len() - n), events.drop_last());
    }
}

/// A burst of `count` particles that a step of the simulation has set off.
pub struct Blast {
    pub burst: Burst,
    pub count: int,
}

/// `after` is `before` with the bursts of `log` appended, one after the
/// other, oldest first.
pub open spec fn blasts_added(before: Seq<Particle>, after: Seq<Particle>, log: Seq<Blast>) -> bool
    decreases log.len(),
{
    if log.len() == 0 {
        after == before
    } else {
        let b = log.last();
        &&& b.count >= 0
        &&& after.len() >= before.len() + b.count
        &&& blasts_added(before, after.take(after.len() - b.count), log.drop_last())
        &&& forall|i: int| after.len() - b.count <= i < after.len() ==> fits(#[trigger] after[i], b.burst)
    }
}

/// What holds a log of bursts is no shorter than what it started from.
pub proof fn lemma_blasts_len(before: Seq<Particle>, after: Seq<Particle>, log: Seq<Blast>)
    requires
        blasts_added(before, after, log),
    ensures
        after.len() >= before.len(),
    decreases log.len(),
{
    if log.len() > 0 {
        lemma_blasts_len(before, after.take(after.len() - log.last().count), log.drop_last());
    }
}

/// One more burst appended to what holds a log of bursts holds the log with
/// that burst appended.
pub proof fn lemma_blasts_extend(
    before: Seq<Particle>,
    mid: Seq<Particle>,
    after: Seq<Particle>,
    log: Seq<Blast>,
    b: Blast,
)
    requires
        blasts_added(before, mid, log),
        burst_added(mid, after, b.count, b.burst),
        b.count >= 0,
    ensures
        blasts_added(before, after, log.push(b)),
{
    lemma_blasts_len(before, mid, log);
    assert(log.push(b).drop_last() =~= log);
    assert(log.push(b).last() == b);
    assert(after.take(after.len() - b.count) == mid);
}

/// Two logs of bursts held one after the other are held as one log.
pub proof fn lemma_blasts_concat(
    before: Seq<Particle>,
    mid: Seq<Particle>,
    after: Seq<Particle>,
    first: Seq<Blast>,
    second: Seq<Blast>,
)
    requires
        blasts_added(before, mid, first),
        blasts_added(mid, after, second),
    ensures
        blasts_added(before, after, first + second),
    decreases second.len(),
{
    if second.len() == 0 {
        assert(first + second =~= first);
    } else {
        let b = second.last();
        let inner = after.take(after.len() - b.count);
        lemma_blasts_concat(before, mid, inner, first, second.drop_last());
        lemma_blasts_len(before, mid, first);
        lemma_blasts_len(mid, inner, second.drop_last());
        assert((first + second).drop_last() =~= first + second.drop_last());
        assert((first + second).last() == b);
    }
}

/// A particle of an explosion of the given colour at `pos`, with a drawn
/// velocity, life and size.
pub fn create_explosion_particle(pos: Vec2, color: Color) -> (p: Particle)
    ensures
        fits(p, Burst::Explosion { pos, color }),
{
    let vx: i64 = uniform(-200_000, 200_000);
    let vy: i64 = uniform(-200_000, 200_000);
    let life: i64 = uniform(300_000, 600_000);
    let size: i64 = uniform(2_000, 5_000);
    Particle { pos, vel: Vec2 { x: vx, y: vy }, life, color, size }
}

/// A particle with velocity `base` plus a drawn scatter of less than `spread`
/// each way.
fn scatter_particle(
    pos: Vec2,
    base: Vec2,
    spread: i64,
    life: i64,
    color: Color,
    size: i64,
) -> (p: Particle)
    requires
        base.bounded(LIMIT as int),
        0 < spread <= 1_000_000,
    ensures
        p.pos == pos,
        p.color == color,
        p.life == life,
        p.size == size,
        scattered(p.vel, base, spread as int),
{
    let jx: i64 = uniform(-spread, spread);
    let jy: i64 = uniform(-spread, spread);
    Particle { pos, vel: Vec2 { x: base.x + jx, y: base.y + jy }, life, color, size }
}

impl EffectSystem {
    /// Every particle and trail point is within the limits the arithmetic
    /// needs.
    pub open spec fn wf(self) -> bool {
        &&& forall|i: int| 0 <= i < self.particles@.len() ==> (#[trigger] self.particles@[i]).wf()
        &&& forall|i: int|
            0 <= i < self.trail@.len() ==> in_limit((#[trigger] self.trail@[i]).life as int)
    }

    /// Every particle is where one can be in a running game.
    pub open spec fn tame(self) -> bool {
        &&& self.wf()
        &&& forall|i: int|
            0 <= i < self.particles@.len() ==> (#[trigger] self.particles@[i]).tame()
    }

    /// This state is `before` with the bursts of `events` appended, and the
    /// same trail.
    pub open spec fn shows(self, before: EffectSystem, events: Seq<Event>) -> bool {
        bursts_added(before.particles@, self.particles@, events) && self.trail@ == before.trail@
    }

    /// This state is `before` with `n` particles of the burst `b` appended,
    /// and the same trail.
    pub open spec fn grew(self, before: EffectSystem, n: int, b: Burst) -> bool {
        burst_added(before.particles@, self.particles@, n, b) && self.trail@ == before.trail@
    }

    /// No particles and no trail.
    pub fn new() -> (e: EffectSystem)
        ensures
            e.particles@.len() == 0,
            e.trail@.len() == 0,
            e.wf(),
    {
        EffectSystem { particles: Vec::new(), trail: VecDeque::new() }
    }

    /// Drops every particle and the trail.
    pub fn clear(&mut self)
        ensures
            final(self).particles@.len() == 0,
            final(self).trail@.len() == 0,
            final(self).wf(),
    {
        self.particles.clear();
        self.trail.clear();
    }

    /// Appends the point `pos` to the trail.
    pub fn add_trail_point(&mut self, pos: Vec2)
        ensures
            final(self).trail@ == old(self).trail@.push(
                TrailPoint { pos, life: EFFECT_TRAIL_LIFE },
            ),
            final(self).particles@ == old(self).particles@,
            old(self).wf() ==> final(self).wf(),
    {
        self.trail.push_back(TrailPoint { pos, life: EFFECT_TRAIL_LIFE });
    }

    /// Appends one particle of the burst `b`.
    fn emit(
        &mut self,
        p: Particle,
        Ghost(b): Ghost<Burst>,
        Ghost(start): Ghost<Seq<Particle>>,
        Ghost(i): Ghost<int>,
    )
        requires
            fits(p, b),
            i >= 0,
            burst_added(start, old(self).particles@, i, b),
        ensures
            burst_added(start, final(self).particles@, i + 1, b),
            final(self).trail@ == old(self).trail@,
            final(self).particles@ == old(self).particles@.push(p),
            old(self).tame() && burst_home(b) ==> final(self).tame(),
            old(self).wf() && p.wf() ==> final(self).wf(),
    {
        self.particles.push(p);
        assert(self.particles@.take(start.len() as int) =~= old(self).particles@.take(
            start.len() as int,
        ));
    }

    /// Moves every particle for `dt` clock ticks and fades the trail; what
    /// has run out of life is dropped.
    pub fn update(&mut self, dt: i64)
        requires
            old(self).wf(),
            0 <= dt <= LIMIT,
        ensures
            final(self).particles@ == particles_after(old(self).particles@, dt as int),
            final(self).trail@ == trail_dimmed(old(self).trail@, dt as int),
            old(self).tame() ==> final(self).tame(),
            final(self).particles@.len() <= old(self).particles@.len(),
    {
        let ghost moved = self.particles@.map_values(|p: Particle| drifted(p, dt as int));
        let ghost lit = |p: Particle| p.life > 0;
        let mut kept: Vec<Particle> = Vec::new();
        let n: usize = self.particles.len();
        let mut i: usize = 0;
        while i < n
            invariant
                0 <= i <= n,
                n == self.particles@.len(),
                moved.len() == n,
                0 <= dt <= LIMIT,
                self.wf(),
                forall|j: int|
                    0 <= j < n ==> moved[j] == drifted(#[trigger] self.particles@[j], dt as int),
                lit == |p: Particle| p.life > 0,
                kept@ == moved.take(i as int).filter(lit),
                kept@.len() <= i,
                self.tame() ==> forall|j: int|
                    0 <= j < kept@.len() ==> (#[trigger] kept@[j]).tame(),
                forall|j: int| 0 <= j < kept@.len() ==> in_limit((#[trigger] kept@[j]).life as int),
            decreases n - i,
        {
            let mut p: Particle = self.particles[i];
            p.pos = p.pos.moved(p.vel, dt);
            p.life = p.life - dt;
            proof {
                lemma_filter_step(moved, lit, i as int);
                if self.tame() && p.life > 0 {
                    lemma_drift_tame(self.particles@[i as int], dt as int);
                }
            }
            if p.life > 0 {
                kept.push(p);
            }
            i = i + 1;
        }
        proof {
            lemma_take_all(moved);
        }
        self.particles = kept;

        let ghost faded = self.trail@.map_values(|t: TrailPoint| dimmed(t, dt as int));
        let ghost glowing = |t: TrailPoint| t.life > 0;
        let mut left: VecDeque<TrailPoint> = VecDeque::new();
        let m: usize = self.trail.len();
        let mut k: usize = 0;
        while k < m
            invariant
                0 <= k <= m,
                m == self.trail@.len(),
                faded.len() == m,
                0 <= dt <= LIMIT,
                forall|j: int| 0 <= j < m ==> in_limit((#[trigger] self.trail@[j]).life as int),
                forall|j: int| 0 <= j < m ==> faded[j] == dimmed(#[trigger] self.trail@[j], dt as int),
                glowing == |t: TrailPoint| t.life > 0,
                left@ == faded.take(k as int).filter(glowing),
                forall|j: int| 0 <= j < left@.len() ==> in_limit((#[trigger] left@[j]).life as int),
            decreases m - k,
        {
            let mut t: TrailPoint = self.trail[k];
            t.life = t.life - dt;
            proof {
                lemma_filter_step(faded, glowing, k as int);
            }
            if t.life > 0 {
                left.push_back(t);
            }
            k = k + 1;
        }
        proof {
            lemma_take_all(faded);
        }
        self.trail = left;
    }

    /// Appends an explosion of `count` particles of the given colour at
    /// `pos`.
    pub fn create_explosion(&mut self, pos: Vec2, color: Color, count: usize)
        ensures
            final(self).grew(*old(self), count as int, Burst::Explosion { pos, color }),
            old(self).wf() && pos.bounded(LIMIT as int) ==> final(self).wf(),
            old(self).tame() && pos.bounded(EVENT_REACH as int) ==> final(self).tame(),
    {
        let ghost start = self.particles@;
        let ghost b = Burst::Explosion { pos, color };
        let mut i: usize = 0;
        assert(self.particles@.take(start.len() as int) =~= start);
        while i < count
            invariant
                0 <= i <= count,
                b == (Burst::Explosion { pos, color }),
                burst_added(start, self.particles@, i as int, b),
                self.trail@ == old(self).trail@,
                start == old(self).particles@,
                old(self).wf() && pos.bounded(LIMIT as int) ==> self.wf(),
                old(self).tame() && pos.bounded(EVENT_REACH as int) ==> self.tame(),
            decreases count - i,
        {
            let p: Particle = create_explosion_particle(pos, color);
            self.emit(p, Ghost(b), Ghost(start), Ghost(i as int));
            i = i + 1;
        }
    }

    /// Appends the flash of the base gun at `pos`, along `dir`.
    pub fn create_muzzle_flash(&mut self, pos: Vec2, dir: Vec2)
        requires
            dir.bounded(UNIT as int),
        ensures
            final(self).grew(
                *old(self),
                MUZZLE_FLASH_COUNT as int,
                Burst::MuzzleFlash { pos, dir },
            ),
            old(self).wf() && pos.bounded(LIMIT as int) ==> final(self).wf(),
            old(self).tame() && pos.bounded(EVENT_REACH as int) ==> final(self).tame(),
    {
        let ghost start = self.particles@;
        let ghost b = Burst::MuzzleFlash { pos, dir };
        let base: Vec2 = dir.stretch(100_000, UNIT);
        let mut i: usize = 0;
        assert(self.particles@.take(start.len() as int) =~= start);
        while i < MUZZLE_FLASH_COUNT
            invariant
                0 <= i <= MUZZLE_FLASH_COUNT,
                b == (Burst::MuzzleFlash { pos, dir }),
                base == stretch_of(dir, 100_000, UNIT as int),
                base.bounded(100_000),
                burst_added(start, self.particles@, i as int, b),
                self.trail@ == old(self).trail@,
                start == old(self).particles@,
                old(self).wf() && pos.bounded(LIMIT as int) ==> self.wf(),
                old(self).tame() && pos.bounded(EVENT_REACH as int) ==> self.tame(),
                dir.bounded(UNIT as int),
            decreases MUZZLE_FLASH_COUNT - i,
        {
            let p: Particle = scatter_particle(pos, base, 50_000, 200_000, Color::SkyBlue, 1_500);
            self.emit(p, Ghost(b), Ghost(start), Ghost(i as int));
            i = i + 1;
        }
    }

    /// Appends the plume of a missile launch at `pos`, along `dir`.
    pub fn create_missile_launch(&mut self, pos: Vec2, dir: Vec2)
        requires
            dir.bounded(UNIT as int),
        ensures
            final(self).grew(
                *old(self),
                MISSILE_LAUNCH_COUNT as int,
                Burst::MissileLaunch { pos, dir },
            ),
            old(self).wf() && pos.bounded(LIMIT as int) ==> final(self).wf(),
            old(self).tame() && pos.bounded(EVENT_REACH as int) ==> final(self).tame(),
    {
        let ghost start = self.particles@;
        let ghost b = Burst::MissileLaunch { pos, dir };
        let base: Vec2 = dir.stretch(150_000, UNIT);
        let mut i: usize = 0;
        assert(self.particles@.take(start.len() as int) =~= start);
        while i < MISSILE_LAUNCH_COUNT
            invariant
                0 <= i <= MISSILE_LAUNCH_COUNT,
                b == (Burst::MissileLaunch { pos, dir }),
                base == stretch_of(dir, 150_000, UNIT as int),
                base.bounded(150_000),
                burst_added(start, self.particles@, i as int, b),
                self.trail@ == old(self).trail@,
                start == old(self).particles@,
                old(self).wf() && pos.bounded(LIMIT as int) ==> self.wf(),
                old(self).tame() && pos.bounded(EVENT_REACH as int) ==> self.tame(),
                dir.bounded(UNIT as int),
            decreases MISSILE_LAUNCH_COUNT - i,
        {
            let p: Particle = scatter_particle(pos, base, 50_000, 300_000, Color::Orange, 2_000);
            self.emit(p, Ghost(b), Ghost(start), Ghost(i as int));
            i = i + 1;
        }
    }

    /// Appends the flash of the beam fired from `pos` along `dir`.
    pub fn create_laser_flash(&mut self, pos: Vec2, dir: Vec2)
        requires
            pos.bounded(LIMIT as int),
            dir.bounded(UNIT as int),
        ensures
            final(self).grew(*old(self), LASER_FLASH_COUNT as int, Burst::LaserFlash { pos, dir }),
            old(self).wf() ==> final(self).wf(),
            old(self).tame() && pos.bounded(EVENT_REACH as int) ==> final(self).tame(),
    {
        let ghost start = self.particles@;
        let ghost b = Burst::LaserFlash { pos, dir };
        let base: Vec2 = dir.stretch(300_000, UNIT);
        let from: Vec2 = pos.plus(dir.stretch(30_000, UNIT));
        let mut i: usize = 0;
        assert(self.particles@.take(start.len() as int) =~= start);
        while i < LASER_FLASH_COUNT
            invariant
                0 <= i <= LASER_FLASH_COUNT,
                b == (Burst::LaserFlash { pos, dir }),
                base == stretch_of(dir, 300_000, UNIT as int),
                base.bounded(300_000),
                from == sum_of(pos, stretch_of(dir, 30_000, UNIT as int)),
                from.bounded(LIMIT + 30_000),
                dir.bounded(UNIT as int),
                burst_added(start, self.particles@, i as int, b),
                self.trail@ == old(self).trail@,
                start == old(self).particles@,
                old(self).wf() ==> self.wf(),
                old(self).tame() && pos.bounded(EVENT_REACH as int) ==> self.tame(),
            decreases LASER_FLASH_COUNT - i,
        {
            let p: Particle = scatter_particle(from, base, 100_000, 300_000, Color::Crimson, 4_000);
            self.emit(p, Ghost(b), Ghost(start), Ghost(i as int));
            i = i + 1;
        }
    }

    /// Appends the jet of a reverse boost at `pos`, about the heading `rot`.
    pub fn create_reverse_boost(&mut self, pos: Vec2, rot: i64)
        requires
            pos.bounded(LIMIT as int),
            in_limit(rot as int),
        ensures
            final(self).grew(
                *old(self),
                REVERSE_BOOST_COUNT as int,
                Burst::ReverseBoost { pos, rot },
            ),
            old(self).wf() ==> final(self).wf(),
    {
        let ghost start = self.particles@;
        let ghost b = Burst::ReverseBoost { pos, rot };
        let mut i: usize = 0;
        assert(self.particles@.take(start.len() as int) =~= start);
        while i < REVERSE_BOOST_COUNT
            invariant
                0 <= i <= REVERSE_BOOST_COUNT,
                pos.bounded(LIMIT as int),
                in_limit(rot as int),
                b == (Burst::ReverseBoost { pos, rot }),
                burst_added(start, self.particles@, i as int, b),
                self.trail@ == old(self).trail@,
                start == old(self).particles@,
                old(self).wf() ==> self.wf(),
            decreases REVERSE_BOOST_COUNT - i,
        {
            let angle: i64 = uniform(rot - 500_000, rot + 500_000);
            let boost_dir: Vec2 = heading(wrapped(angle, FULL_TURN));
            let from: Vec2 = pos.plus(boost_dir.stretch(25_000, UNIT));
            let base: Vec2 = boost_dir.stretch(400_000, UNIT);
            let p: Particle = scatter_particle(from, base, 100_000, 400_000, Color::Violet, 3_000);
            self.emit(p, Ghost(b), Ghost(start), Ghost(i as int));
            i = i + 1;
        }
    }

    /// Appends the fountain of the given colour over a power-up picked up at
    /// `pos`.
    pub fn create_text_effect(&mut self, pos: Vec2, color: Color)
        ensures
            final(self).grew(*old(self), TEXT_EFFECT_COUNT as int, Burst::TextEffect { pos, color }),
            old(self).wf() && pos.bounded(LIMIT as int) ==> final(self).wf(),
            old(self).tame() && pos.bounded(EVENT_REACH as int) ==> final(self).tame(),
    {
        let ghost start = self.particles@;
        let ghost b = Burst::TextEffect { pos, color };
        let mut i: usize = 0;
        assert(self.particles@.take(start.len() as int) =~= start);
        while i < TEXT_EFFECT_COUNT
            invariant
                0 <= i <= TEXT_EFFECT_COUNT,
                b == (Burst::TextEffect { pos, color }),
                burst_added(start, self.particles@, i as int, b),
                self.trail@ == old(self).trail@,
                start == old(self).particles@,
                old(self).wf() && pos.bounded(LIMIT as int) ==> self.wf(),
                old(self).tame() && pos.bounded(EVENT_REACH as int) ==> self.tame(),
            decreases TEXT_EFFECT_COUNT - i,
        {
            let vx: i64 = uniform(-50_000, 50_000);
            let vy: i64 = uniform(-100_000, -50_000);
            let p: Particle = Particle {
                pos,
                vel: Vec2 { x: vx, y: vy },
                life: 1_000_000,
                color,
                size: 3_000,
            };
            self.emit(p, Ghost(b), Ghost(start), Ghost(i as int));
            i = i + 1;
        }
    }

    /// Appends an explosion and keeps the log of bursts.
    pub(crate) fn explode(
        &mut self,
        pos: Vec2,
        color: Color,
        count: usize,
        Ghost(start): Ghost<Seq<Particle>>,
        Ghost(log): Ghost<Seq<Blast>>,
    )
        requires
            blasts_added(start, old(self).particles@, log),
        ensures
            blasts_added(
                start,
                final(self).particles@,
                log.push(Blast { burst: Burst::Explosion { pos, color }, count: count as int }),
            ),
            final(self).trail@ == old(self).trail@,
            old(self).wf() && pos.bounded(LIMIT as int) ==> final(self).wf(),
            old(self).tame() && pos.bounded(EVENT_REACH as int) ==> final(self).tame(),
    {
        let ghost mid = self.particles@;
        self.create_explosion(pos, color, count);
        proof {
            lemma_blasts_extend(
                start,
                mid,
                self.particles@,
                log,
                Blast { burst: Burst::Explosion { pos, color }, count: count as int },
            );
        }
    }

    /// Appends the fountain over a pick-up and keeps the log of bursts.
    pub(crate) fn sparkle(
        &mut self,
        pos: Vec2,
        color: Color,
        Ghost(start): Ghost<Seq<Particle>>,
        Ghost(log): Ghost<Seq<Blast>>,
    )
        requires
            blasts_added(start, old(self).particles@, log),
        ensures
            blasts_added(
                start,
                final(self).particles@,
                log.push(
                    Blast {
                        burst: Burst::TextEffect { pos, color },
                        count: TEXT_EFFECT_COUNT as int,
                    },
                ),
            ),
            final(self).trail@ == old(self).trail@,
            old(self).wf() && pos.bounded(LIMIT as int) ==> final(self).wf(),
            old(self).tame() && pos.bounded(EVENT_REACH as int) ==> final(self).tame(),
    {
        let ghost mid = self.particles@;
        self.create_text_effect(pos, color);
        proof {
            lemma_blasts_extend(
                start,
                mid,
                self.particles@,
                log,
                Blast { burst: Burst::TextEffect { pos, color }, count: TEXT_EFFECT_COUNT as int },
            );
        }
    }

    /// Shows every queued event, oldest first, and leaves the queue empty: an
    /// explosion as its burst, a pick-up as a golden fountain, a shot of the
    /// beam as its flash.
    pub fn process_events(&mut self, event_queue: &mut EventQueue)
        requires
            old(self).wf(),
            events_wf(old(event_queue)@),
        ensures
            final(event_queue)@.len() == 0,
            final(self).wf(),
            final(self).shows(*old(self), old(event_queue)@),
            old(self).tame() && events_home(old(event_queue)@) ==> final(self).tame(),
    {
        let ghost all = event_queue@;
        let ghost start = self.particles@;
        let ghost mut done: int = 0;
        loop
            invariant
                0 <= done <= all.len(),
                all == old(event_queue)@,
                events_wf(all),
                start == old(self).particles@,
                event_queue@ == all.skip(done),
                self.wf(),
                old(self).tame() && events_home(all) ==> self.tame(),
                self.trail@ == old(self).trail@,
                bursts_added(start, self.particles@, all.take(done)),
            ensures
                event_queue@.len() == 0,
                self.wf(),
                old(self).tame() && events_home(all) ==> self.tame(),
                self.trail@ == old(self).trail@,
                bursts_added(start, self.particles@, all),
            decreases all.len() - done,
        {
            let ghost mid = self.particles@;
            let next = event_queue.pop();
            match next {
                None => {
                    proof {
                        lemma_take_all(all);
                    }
                    break;
                },
                Some(event) => {
                    match event {
                        Event::Explosion { pos, color, count } => {
                            self.create_explosion(pos, color, count);
                        },
                        Event::PowerUpSpawn { pos } => {
                            self.create_text_effect(pos, Color::Gold);
                        },
                        Event::LaserFired { pos, dir } => {
                            self.create_laser_flash(pos, dir);
                        },
                        Event::GameOver => {
                            assert(self.particles@.take(mid.len() as int) =~= mid);
                        },
                    }
                    proof {
                        lemma_bursts_extend(start, mid, self.particles@, all.take(done), event);
                        assert(all.take(done).push(event) =~= all.take(done + 1));
                        done = done + 1;
                    }
                },
            }
        }
    }
}

} // verus!
