use rand::rngs::ThreadRng;
use vstd::prelude::*;
use crate::geom::{PointF, SUB, px_of, to_px};
use crate::player::Camera;
use crate::rng::gen_range;

verus! {

/// Lifetime an ember is born with.
pub const SPAWN_LIFETIME: u8 = 200;

/// Lifetime at which an ember is gone.
pub const DEAD_LIFETIME: u8 = 255;

/// Sub-units an ember rises per frame (0.7 px).
pub const DRIFT: i32 = 14;

/// Largest coordinate magnitude an ember is spawned at, in sub-units.
pub const SPAWN_BOUND: i32 = 1_100_000;

/// Largest coordinate magnitude an ember reaches, in sub-units.
pub const PARTICLE_BOUND: i32 = 2_000_000;

/// Side of the camera's view, in pixels.
pub const VIEW_PX: i32 = 64;

#[derive(Clone, Copy, Debug, PartialEq, Eq, Structural)]
pub enum ParticleColor {
    Gray,
    Yellow,
    Red,
}

/// A drifting mote: position in sub-units, lifetime counter, color, and
/// whether it is a light source.
#[derive(Clone, Copy, Debug, PartialEq, Eq, Structural)]
pub struct Particle {
    pub pos: PointF,
    pub lifetime: u8,
    pub color: ParticleColor,
    pub light: bool,
}

/// A visible mote, in screen pixels.
#[derive(Clone, Copy, Debug, PartialEq, Eq, Structural)]
pub struct Dot {
    pub x: i32,
    pub y: i32,
    pub color: ParticleColor,
}

/// A live mote whose coordinates leave room for the rest of its rise.
pub open spec fn particle_wf(p: Particle) -> bool {
    &&& p.lifetime < DEAD_LIFETIME
    &&& -PARTICLE_BOUND <= p.pos.x <= PARTICLE_BOUND
    &&& -PARTICLE_BOUND + DRIFT * (DEAD_LIFETIME - p.lifetime) <= p.pos.y <= PARTICLE_BOUND
}

pub open spec fn field_wf(ps: Seq<Particle>) -> bool {
    forall|i: int| 0 <= i < ps.len() ==> particle_wf(#[trigger] ps[i])
}

/// A mote one frame older: one more on the counter, `DRIFT` higher.
pub open spec fn aged(p: Particle) -> Particle {
    Particle {
        pos: PointF { x: p.pos.x, y: (p.pos.y - DRIFT) as i32 },
        lifetime: (p.lifetime + 1) as u8,
        ..p
    }
}

pub open spec fn age_all(ps: Seq<Particle>) -> Seq<Particle> {
    ps.map_values(|p: Particle| aged(p))
}

/// The motes of `ps` whose lifetime has not reached `DEAD_LIFETIME`, in
/// order.
pub open spec fn survivors(ps: Seq<Particle>) -> Seq<Particle>
    decreases ps.len(),
{
    if ps.len() == 0 {
        ps
    } else if ps.last().lifetime < DEAD_LIFETIME {
        survivors(ps.drop_last()).push(ps.last())
    } else {
        survivors(ps.drop_last())
    }
}

/// The mote lies inside the camera's 64x64 view (left and top edges
/// excluded).
pub open spec fn visible(p: PointF, cam: Camera) -> bool {
    &&& p.x > cam.x * SUB && p.x <= (cam.x + VIEW_PX) * SUB
    &&& p.y > cam.y * SUB && p.y <= (cam.y + VIEW_PX) * SUB
}

pub open spec fn dot_of(p: Particle, cam: Camera) -> Dot {
    Dot {
        x: (px_of(p.pos.x as int) - cam.x) as i32,
        y: (px_of(p.pos.y as int) - cam.y) as i32,
        color: p.color,
    }
}

/// The dots drawn for `ps`: one per visible mote, in order.
pub open spec fn dots_of(ps: Seq<Particle>, cam: Camera) -> Seq<Dot>
    decreases ps.len(),
{
    if ps.len() == 0 {
        Seq::empty()
    } else if visible(ps.last().pos, cam) {
        dots_of(ps.drop_last(), cam).push(dot_of(ps.last(), cam))
    } else {
        dots_of(ps.drop_last(), cam)
    }
}

/// A fresh ember at (`x` + `jitter` px, `y` + 2 px).
pub open spec fn ember(x: int, y: int, jitter: int, light: bool, color: ParticleColor) -> Particle {
    Particle {
        pos: PointF { x: (x + jitter * SUB) as i32, y: (y + 2 * SUB) as i32 },
        lifetime: SPAWN_LIFETIME,
        color,
        light,
    }
}

/// What survives a frame: every mote has aged by exactly one, whether on
/// screen or not; a mote whose counter reached 255 this frame is gone, every
/// other one is kept; and nothing that remains has a lifetime of 255 or more,
/// so nothing so old is ever drawn.
pub proof fn lemma_survivors(ps: Seq<Particle>)
    ensures
        forall|i: int| 0 <= i < ps.len() ==> (#[trigger] age_all(ps)[i]).lifetime == ps[i].lifetime + 1
            || ps[i].lifetime == 255,
        forall|q: Particle| #[trigger] survivors(ps).contains(q) ==> ps.contains(q) && q.lifetime < 255,
        forall|i: int| 0 <= i < ps.len() && ps[i].lifetime < 255 ==> #[trigger] survivors(ps).contains(ps[i]),
    decreases ps.len(),
{
    if ps.len() > 0 {
        let init = ps.drop_last();
        lemma_survivors(init);
        assert forall|q: Particle| #[trigger] survivors(ps).contains(q) implies ps.contains(q)
            && q.lifetime < 255 by {
            if survivors(init).contains(q) {
                let j = choose|j: int| 0 <= j < init.len() && init[j] == q;
                assert(ps[j] == q);
            } else {
                assert(q == ps.last());
                assert(ps[ps.len() - 1] == q);
            }
        }
        assert forall|i: int| 0 <= i < ps.len() && ps[i].lifetime < 255 implies #[trigger] survivors(ps).contains(ps[i]) by {
            if i < ps.len() - 1 {
                assert(init[i] == ps[i]);
                assert(survivors(init).contains(init[i]));
                if ps.last().lifetime < DEAD_LIFETIME {
                    let j = choose|j: int| 0 <= j < survivors(init).len() && survivors(init)[j] == ps[i];
                    assert(survivors(ps)[j] == ps[i]);
                }
            } else {
                assert(survivors(ps)[survivors(ps).len() - 1] == ps[i]);
            }
        }
    }
}

/// Makes the ember at (`x` + `jitter` px, `y` + 2 px).
pub fn make_ember(x: i32, y: i32, jitter: i32, light: bool, color: ParticleColor) -> (p: Particle)
    requires
        -SPAWN_BOUND <= x <= SPAWN_BOUND,
        -SPAWN_BOUND <= y <= SPAWN_BOUND,
        -1 <= jitter <= 1,
    ensures
        p == ember(x as int, y as int, jitter as int, light, color),
        particle_wf(p),
{
    Particle {
        pos: PointF { x: x + jitter * SUB, y: y + 2 * SUB },
        lifetime: SPAWN_LIFETIME,
        color,
        light,
    }
}

/// Adds an ember at (`x`, `y` + 2 px), shifted by a random whole pixel left,
/// right or not at all.
pub fn spawn_particles(
    particles: &mut Vec<Particle>,
    rand: &mut ThreadRng,
    emit_light: bool,
    x: i32,
    y: i32,
    color: ParticleColor,
)
    requires
        -SPAWN_BOUND <= x <= SPAWN_BOUND,
        -SPAWN_BOUND <= y <= SPAWN_BOUND,
    ensures
        exists|j: int|
            -1 <= j <= 1 && final(particles)@ == old(particles)@.push(
                #[trigger] ember(x as int, y as int, j, emit_light, color),
            ),
        particle_wf(final(particles)@.last()),
{
    let jitter = gen_range(rand, -1, 2);
    let p = make_ember(x, y, jitter, emit_light, color);
    particles.push(p);
    assert(final(particles)@ == old(particles)@.push(ember(x as int, y as int, jitter as int, emit_light, color)));
}

/// Whether an emission is bright, from its two draws: the odds `r`, drawn
/// from [20, 30), and `k`, drawn from [0, r). One emission in `r` is bright.
pub fn bright_from_roll(r: i32, k: i32) -> (b: bool)
    requires
        20 <= r < 30,
        0 <= k < r,
    ensures
        b == (k == 0),
{
    k == 0
}

/// Rolls an emission's one-in-R chance of being bright: R is drawn from
/// [20, 30), then a number below R; `bright_from_roll` decides.
pub fn roll_bright(rand: &mut ThreadRng) -> bool {
    let r = gen_range(rand, 20, 30);
    let k = gen_range(rand, 0, r);
    bright_from_roll(r, k)
}

/// Bright embers are yellow, plain ones gray.
pub open spec fn ember_color(light: bool) -> ParticleColor {
    if light {
        ParticleColor::Yellow
    } else {
        ParticleColor::Gray
    }
}

/// `p` is a fresh ember at (`x`, `y`): shifted by at most a pixel across,
/// bright and yellow or plain and gray.
pub open spec fn ember_at(p: Particle, x: int, y: int) -> bool {
    exists|j: int, light: bool|
        -1 <= j <= 1 && p == #[trigger] ember(x, y, j, light, ember_color(light))
}

/// `p` is a fresh red light-giving ember at (`x`, `y`).
pub open spec fn red_ember_at(p: Particle, x: int, y: int) -> bool {
    exists|j: int| -1 <= j <= 1 && p == #[trigger] ember(x, y, j, true, ParticleColor::Red)
}

/// Adds one ember at (`x`, `y`): bright (yellow, a light source) on a
/// one-in-R roll, else a plain gray one.
pub fn emit_ember(particles: &mut Vec<Particle>, rand: &mut ThreadRng, x: i32, y: i32)
    requires
        -SPAWN_BOUND <= x <= SPAWN_BOUND,
        -SPAWN_BOUND <= y <= SPAWN_BOUND,
    ensures
        final(particles)@ == old(particles)@.push(final(particles)@.last()),
        ember_at(final(particles)@.last(), x as int, y as int),
        particle_wf(final(particles)@.last()),
{
    let ghost before = particles@;
    let bright = roll_bright(rand);
    let color = if bright { ParticleColor::Yellow } else { ParticleColor::Gray };
    spawn_particles(particles, rand, bright, x, y, color);
    proof {
        let j = choose|j: int|
            -1 <= j <= 1 && particles@ == before.push(
                #[trigger] ember(x as int, y as int, j, bright, color),
            );
        assert(color == ember_color(bright));
        assert(particles@.last() == ember(x as int, y as int, j, bright, ember_color(bright)));
    }
}

/// Ages every mote by one frame, then removes those whose lifetime reached
/// 255, keeping the order of the rest.
pub fn age_particles(particles: &mut Vec<Particle>)
    requires
        field_wf(old(particles)@),
    ensures
        final(particles)@ == survivors(age_all(old(particles)@)),
        field_wf(final(particles)@),
        final(particles).len() <= old(particles).len(),
{
    let ghost orig = particles@;
    let mut i: usize = 0;
    while i < particles.len()
        invariant
            particles.len() == orig.len(),
            i <= particles.len(),
            field_wf(orig),
            forall|k: int| 0 <= k < i ==> particles@[k] == aged(orig[k]),
            forall|k: int| i <= k < particles.len() ==> particles@[k] == orig[k],
        decreases particles.len() - i,
    {
        let p = particles[i];
        let q = Particle {
            pos: PointF { x: p.pos.x, y: p.pos.y - DRIFT },
            lifetime: p.lifetime + 1,
            ..p
        };
        particles.set(i, q);
        i = i + 1;
    }
    let ghost aged_all = particles@;
    assert(aged_all =~= age_all(orig));
    let mut kept: Vec<Particle> = Vec::new();
    let mut j: usize = 0;
    while j < particles.len()
        invariant
            particles@ == aged_all,
            aged_all == age_all(orig),
            field_wf(orig),
            j <= particles.len(),
            kept@ == survivors(aged_all.subrange(0, j as int)),
            field_wf(kept@),
            kept.len() <= j,
        decreases particles.len() - j,
    {
        assert(aged_all.subrange(0, j as int + 1).drop_last() =~= aged_all.subrange(0, j as int));
        let p = particles[j];
        if p.lifetime < DEAD_LIFETIME {
            assert(particle_wf(orig[j as int]));
            kept.push(p);
        }
        j = j + 1;
    }
    assert(aged_all.subrange(0, aged_all.len() as int) =~= aged_all);
    *particles = kept;
}

/// The dots to draw for the motes inside the camera's view.
pub fn visible_dots(particles: &Vec<Particle>, cam: Camera) -> (dots: Vec<Dot>)
    requires
        field_wf(particles@),
        0 <= cam.x <= 944,
        0 <= cam.y <= 944,
    ensures
        dots@ == dots_of(particles@, cam),
{
    let mut dots: Vec<Dot> = Vec::new();
    let mut i: usize = 0;
    while i < particles.len()
        invariant
            i <= particles.len(),
            field_wf(particles@),
            0 <= cam.x <= 944,
            0 <= cam.y <= 944,
            dots@ == dots_of(particles@.subrange(0, i as int), cam),
        decreases particles.len() - i,
    {
        assert(particles@.subrange(0, i as int + 1).drop_last() =~= particles@.subrange(0, i as int));
        let p = particles[i];
        assert(particle_wf(particles@[i as int]));
        if is_visible(p.pos, cam) {
            dots.push(Dot { x: to_px(p.pos.x) - cam.x, y: to_px(p.pos.y) - cam.y, color: p.color });
        }
        i = i + 1;
    }
    assert(particles@.subrange(0, particles.len() as int) =~= particles@);
    dots
}

/// Whether a point lies inside the camera's view.
pub fn is_visible(p: PointF, cam: Camera) -> (r: bool)
    requires
        0 <= cam.x <= 944,
        0 <= cam.y <= 944,
    ensures
        r == visible(p, cam),
{
    p.x > cam.x * SUB && p.x <= (cam.x + VIEW_PX) * SUB && p.y > cam.y * SUB && p.y <= (cam.y
        + VIEW_PX) * SUB
}

} // verus!
