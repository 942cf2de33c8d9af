use rand::rngs::ThreadRng;
use vstd::prelude::*;
use crate::candle::{ProgressBar, PROGRESS_FULL, minigame_fold, update_candles};
use crate::geom::{PointF, SUB, overlaps, px_of, trunc_div};
use crate::ghost::{
    Specter, Stereo, ghost_box, ghost_step, on_cue_line, stereo, stereo_of, update_ghost, CUE_COOLDOWN,
    SPAWN_REACH, SPEED_START,
};
use crate::grid::{Candle, GhostSpawn, WorldGrid, candle_on_empty, candle_wf, gen_map, tile_aligned};
use crate::light::{LightBlob, MAX_LIGHT, light_blobs, mask_of};
use crate::particles::{
    Dot, Particle, ParticleColor, age_all, age_particles, dots_of, emit_ember, ember_at, field_wf,
    particle_wf, red_ember_at, spawn_particles, survivors, visible_dots,
};
use crate::player::{
    Camera, Input, Player, camera_of, player_box, player_rect, player_step, pos_in_bounds, update_player,
    walking, WALK_LAST,
};

verus! {

/// Frames of the jumpscare, in fifths: the strip advances one picture every
/// five frames and the scene ends once the count passes this.
pub const JUMPSCARE_TICKS: u32 = 150;

/// Pictures in the jumpscare strip.
pub const JUMPSCARE_PICTURES: u32 = 5;

/// The scene that runs, or none.
#[derive(Clone, Copy, Debug, PartialEq, Eq, Structural)]
pub enum SceneState {
    /// Nothing runs; the dispatcher waits.
    Idle,
    Exploration,
    Jumpscare,
    Exit,
}

/// Everything one exploration frame hands to the renderer and the mixer.
pub struct FrameView {
    pub cam: Camera,
    pub bars: Vec<ProgressBar>,
    pub dots: Vec<Dot>,
    pub lights: Vec<LightBlob>,
    /// The pursuit cue sounded this frame.
    pub cue: bool,
    pub stereo: Stereo,
    /// Where the ghost is drawn, in world pixels.
    pub ghost_at: (i32, i32),
}

/// How an exploration frame ended.
pub enum StepOutcome {
    /// The platform asked to quit; nothing was simulated.
    Quit,
    /// The ghost caught the player; the frame stopped at the check.
    Caught,
    /// The frame ran to its end.
    Frame(FrameView),
}

/// The exploration scene's world.
pub struct World {
    pub map: WorldGrid,
    pub candles: Vec<Candle>,
    pub player: Player,
    pub specter: Specter,
    pub particles: Vec<Particle>,
    /// Frame timer in half-frames: it advances by one each frame.
    pub timer: u64,
    /// Progress of the candle being lit, in hundredths.
    pub progress: u32,
}

/// The exploration scene: its world, and whether the minimap is shown in
/// place of it. The minimap is a view only: the world runs the same under it.
pub struct Scene {
    pub world: World,
    pub show_map: bool,
}

/// The jumpscare scene: a strip of pictures on a fixed count.
pub struct Jumpscare {
    pub ticks: u32,
}

/// Embers come out on frames whose whole timer value is even.
pub open spec fn emission_frame(timer: u64) -> bool {
    (timer / 2) % 2 == 0
}

pub open spec fn next_timer(t: u64) -> u64 {
    if t == u64::MAX {
        0
    } else {
        (t + 1) as u64
    }
}

/// Where a walking player drops its ember: 4 px across (11 when facing
/// right) and 2 px down, in sub-units.
pub open spec fn player_site(p: Player) -> (int, int) {
    (p.pos.x + (if p.hflip { 11int } else { 4int }) * SUB, p.pos.y + 2 * SUB)
}

/// Where a lit candle drops its ember: at its wick, in sub-units.
pub open spec fn candle_site(c: Candle) -> (int, int) {
    ((c.dst.x + 2) * SUB, c.dst.y * SUB)
}

/// The sites of the lit candles of `cs`, in order.
pub open spec fn candle_sites(cs: Seq<Candle>) -> Seq<(int, int)>
    decreases cs.len(),
{
    if cs.len() == 0 {
        Seq::empty()
    } else if cs.last().lit {
        candle_sites(cs.drop_last()).push(candle_site(cs.last()))
    } else {
        candle_sites(cs.drop_last())
    }
}

/// The sites that drop an ember this frame: none off an emission frame;
/// on one, the player if walking, then every lit candle.
pub open spec fn emission_sites(timer: u64, walk: bool, p: Player, cs: Seq<Candle>) -> Seq<(int, int)> {
    if !emission_frame(timer) {
        Seq::empty()
    } else {
        (if walk { seq![player_site(p)] } else { Seq::empty() }) + candle_sites(cs)
    }
}

/// `es` holds one fresh ember per site, in order.
pub open spec fn embers_match(es: Seq<Particle>, sites: Seq<(int, int)>) -> bool {
    &&& es.len() == sites.len()
    &&& forall|i: int| 0 <= i < es.len() ==> ember_at(#[trigger] es[i], sites[i].0, sites[i].1)
}

pub proof fn lemma_embers_match_concat(a: Seq<Particle>, b: Seq<Particle>, sa: Seq<(int, int)>, sb: Seq<(int, int)>)
    requires
        embers_match(a, sa),
        embers_match(b, sb),
    ensures
        embers_match(a + b, sa + sb),
{
    assert forall|i: int| 0 <= i < (a + b).len() implies ember_at(#[trigger] (a + b)[i], (sa + sb)[i].0, (sa + sb)[i].1) by {
        if i >= a.len() {
            assert(ember_at(b[i - a.len()], sb[i - a.len()].0, sb[i - a.len()].1));
        }
    }
}

/// The ghost sounds its cue: on a cue line with the cooldown run out.
pub open spec fn cue_fires(g: Specter) -> bool {
    on_cue_line(g.pos) && g.alpha == 0
}

/// The ghost after its cue check.
pub open spec fn after_cue(g: Specter) -> Specter {
    if cue_fires(g) {
        Specter { alpha: CUE_COOLDOWN, ..g }
    } else {
        g
    }
}

/// The player's box meets the ghost's, as the frame's check sees them.
pub open spec fn caught(w0: World, w1: World) -> bool {
    overlaps(player_box(w1.player.pos), ghost_box(w0.specter.pos))
}

/// The ghost after its pursuit step, at the speed the candles left it.
pub open spec fn chased(w0: World, w1: World) -> Specter {
    ghost_step(Specter { spd: w1.specter.spd, ..w0.specter }, w1.player.pos)
}

/// The red ember the ghost drops on a cue line: one or none.
pub open spec fn tail_len(w0: World, w1: World) -> int {
    if on_cue_line(chased(w0, w1).pos) {
        1
    } else {
        0
    }
}

/// The embers after ageing, before the ghost's.
pub open spec fn aged_part(w0: World, w1: World) -> Seq<Particle> {
    w1.particles@.subrange(0, w1.particles@.len() - tail_len(w0, w1))
}

pub open spec fn candle_fold(w0: World, w1: World, input: Input) -> (Seq<Candle>, int, int, Seq<ProgressBar>) {
    minigame_fold(w0.candles@, w0.progress as int, w0.specter.spd as int, player_box(w1.player.pos), input.interact)
}

/// What one exploration frame does to the world. Quitting changes nothing.
/// Otherwise the player moves; the candles run their minigame; the emitting
/// sites drop one ember each; then, caught, the frame stops; not caught,
/// every ember ages and the dead go, the ghost closes in and checks its cue,
/// drops a red ember on a cue line, and the timer advances.
pub open spec fn world_stepped(w0: World, w1: World, input: Input) -> bool {
    &&& w1.map == w0.map
    &&& input.quit ==> world_kept(w0, w1)
    &&& !input.quit ==> {
        &&& world_moved(w0, w1, input)
        &&& caught(w0, w1) ==> world_stopped(w0, w1, input)
        &&& !caught(w0, w1) ==> world_ran(w0, w1, input)
    }
}

/// Nothing of the world changed.
pub open spec fn world_kept(w0: World, w1: World) -> bool {
    &&& w1.player == w0.player
    &&& w1.candles@ == w0.candles@
    &&& w1.specter == w0.specter
    &&& w1.particles@ == w0.particles@
    &&& w1.timer == w0.timer
    &&& w1.progress == w0.progress
}

/// The player moved and the candles ran their minigame.
pub open spec fn world_moved(w0: World, w1: World, input: Input) -> bool {
    let f = candle_fold(w0, w1, input);
    &&& w1.player == player_step(w0.player, input)
    &&& w1.candles@ == f.0
    &&& w1.progress as int == f.1
    &&& w1.specter.spd as int == f.2
}

/// The sites that dropped embers in the frame from `w0` to `w1`.
pub open spec fn sites_of(w0: World, w1: World, input: Input) -> Seq<(int, int)> {
    emission_sites(w0.timer, walking(input), w1.player, w1.candles@)
}

/// A caught frame: the embers were dropped, and the frame stopped there.
pub open spec fn world_stopped(w0: World, w1: World, input: Input) -> bool {
    &&& w1.specter == (Specter { spd: w1.specter.spd, ..w0.specter })
    &&& w1.timer == w0.timer
    &&& w0.particles.len() <= w1.particles.len()
    &&& w1.particles@.subrange(0, w0.particles.len() as int) == w0.particles@
    &&& embers_match(
        w1.particles@.subrange(w0.particles.len() as int, w1.particles.len() as int),
        sites_of(w0, w1, input),
    )
}

/// A frame run to its end: the embers were dropped and aged, the ghost
/// moved and checked its cue, and the timer advanced.
pub open spec fn world_ran(w0: World, w1: World, input: Input) -> bool {
    &&& w1.specter == after_cue(chased(w0, w1))
    &&& w1.timer == next_timer(w0.timer)
    &&& tail_len(w0, w1) <= w1.particles.len()
    &&& tail_len(w0, w1) == 1 ==> red_ember_at(
        w1.particles@.last(),
        chased(w0, w1).pos.x + 2 * SUB,
        chased(w0, w1).pos.y + SUB,
    )
    &&& exists|emitted: Seq<Particle>|
        #[trigger] embers_match(emitted, sites_of(w0, w1, input)) && aged_part(w0, w1) == survivors(
            age_all(w0.particles@ + emitted),
        )
}

/// What a frame that ran to its end hands out, for the worlds before and
/// after it and the light sizes given.
pub open spec fn view_of_frame(w0: World, w1: World, input: Input, player_light: int, candle_light: int, v: FrameView) -> bool {
    let g = chased(w0, w1);
    &&& v.cam == camera_of(w1.player.pos)
    &&& v.bars@ == candle_fold(w0, w1, input).3
    &&& v.dots@ == dots_of(aged_part(w0, w1), v.cam)
    &&& v.lights@ == mask_of(w1.player, aged_part(w0, w1), w1.candles@, v.cam, player_light, candle_light)
    &&& v.cue == cue_fires(g)
    &&& v.stereo == stereo_of(
        w1.specter.pos.x - w1.player.pos.x,
        (w1.specter.pos.x - w1.player.pos.x) + (w1.specter.pos.y - w1.player.pos.y),
    )
    &&& v.ghost_at.0 as int == trunc_div(px_of(w1.specter.pos.x as int), 8) * 8
    &&& v.ghost_at.1 as int == trunc_div(px_of(w1.specter.pos.y as int), 8) * 8
}

impl World {
    pub open spec fn wf(&self) -> bool {
        &&& self.map.wf()
        &&& pos_in_bounds(self.player.pos)
        &&& self.specter.wf()
        &&& field_wf(self.particles@)
        &&& 0 <= self.player.anim <= WALK_LAST
        &&& self.progress < PROGRESS_FULL
        &&& forall|k: int| 0 <= k < self.candles.len() ==> candle_wf(#[trigger] self.candles@[k])
    }

    /// A freshly generated world, with the ghost placed on the player until
    /// `place_ghost` moves it off by the spawn offset that the returned draws
    /// give.
    pub fn generate(rand: &mut ThreadRng) -> (r: (World, GhostSpawn))
        ensures
            r.0.wf(),
            r.1.valid(),
            tile_aligned(r.0.player.pos),
            8 <= r.0.candles.len() <= 11,
            r.0.particles.len() == 0,
            r.0.specter.spd == SPEED_START,
            r.0.specter.pos == r.0.player.pos,
            r.0.timer == 0,
            r.0.progress == 0,
            forall|k: int|
                0 <= k < r.0.candles.len() ==> !r.0.candles@[k].lit && candle_on_empty(
                    r.0.map@,
                    #[trigger] r.0.candles@[k],
                ),
    {
        let mut pos = PointF { x: 0, y: 0 };
        let mut map = WorldGrid::new();
        let mut candles: Vec<Candle> = Vec::new();
        let spawn = gen_map(&mut pos, &mut map, &mut candles, rand);
        let specter = Specter::spawn(pos, 0, 0);
        let w = World {
            map,
            candles,
            player: Player { pos, hflip: false, anim: 0 },
            specter,
            particles: Vec::new(),
            timer: 0,
            progress: 0,
        };
        (w, spawn)
    }

    /// Moves the ghost to the player's position plus the spawn offset, in
    /// sub-units.
    pub fn place_ghost(&mut self, off_x: i32, off_y: i32)
        requires
            old(self).wf(),
            -SPAWN_REACH <= off_x <= SPAWN_REACH,
            -SPAWN_REACH <= off_y <= SPAWN_REACH,
        ensures
            final(self).wf(),
            final(self).specter.pos == (PointF {
                x: (old(self).player.pos.x + off_x) as i32,
                y: (old(self).player.pos.y + off_y) as i32,
            }),
            final(self).specter.spd == old(self).specter.spd,
            final(self).player == old(self).player,
    {
        self.specter.pos = PointF { x: self.player.pos.x + off_x, y: self.player.pos.y + off_y };
    }

    /// One ember per lit candle, at its wick.
    fn emit_candle_embers(&mut self, rand: &mut ThreadRng)
        requires
            old(self).wf(),
        ensures
            final(self).wf(),
            old(self).particles.len() <= final(self).particles.len(),
            final(self).particles@.subrange(0, old(self).particles.len() as int) == old(self).particles@,
            embers_match(
                final(self).particles@.subrange(old(self).particles.len() as int, final(self).particles.len() as int),
                candle_sites(old(self).candles@),
            ),
            final(self).candles == old(self).candles,
            final(self).map == old(self).map,
            final(self).player == old(self).player,
            final(self).specter == old(self).specter,
            final(self).timer == old(self).timer,
            final(self).progress == old(self).progress,
    {
        let ghost start = self.particles@;
        let mut i: usize = 0;
        while i < self.candles.len()
            invariant
                self.wf(),
                i <= self.candles.len(),
                start.len() <= self.particles.len(),
                self.particles@.subrange(0, start.len() as int) == start,
                embers_match(
                    self.particles@.subrange(start.len() as int, self.particles.len() as int),
                    candle_sites(self.candles@.subrange(0, i as int)),
                ),
                self.candles == old(self).candles,
                self.map == old(self).map,
                self.player == old(self).player,
                self.specter == old(self).specter,
                self.timer == old(self).timer,
                self.progress == old(self).progress,
            decreases self.candles.len() - i,
        {
            assert(self.candles@.subrange(0, i as int + 1).drop_last() =~= self.candles@.subrange(0, i as int));
            let c = self.candles[i];
            assert(candle_wf(self.candles@[i as int]));
            if c.lit {
                let ghost before = self.particles@;
                emit_ember(&mut self.particles, rand, (c.dst.x + 2) * SUB, c.dst.y * SUB);
                assert(self.particles@.subrange(0, start.len() as int) =~= before.subrange(0, start.len() as int));
                assert forall|k: int| 0 <= k < self.particles.len() implies particle_wf(#[trigger] self.particles@[k]) by {
                    if k < before.len() {
                        assert(self.particles@[k] == before[k]);
                    }
                }
                let ghost es0 = before.subrange(start.len() as int, before.len() as int);
                let ghost es1 = self.particles@.subrange(start.len() as int, self.particles.len() as int);
                assert(es1 =~= es0.push(self.particles@.last()));
                proof {
                    let sites = candle_sites(self.candles@.subrange(0, i as int + 1));
                    assert(sites == candle_sites(self.candles@.subrange(0, i as int)).push(candle_site(c)));
                    assert forall|k: int| 0 <= k < es1.len() implies ember_at(#[trigger] es1[k], sites[k].0, sites[k].1) by {
                        if k < es0.len() {
                            assert(es1[k] == es0[k]);
                        }
                    }
                }
            } else {
                assert(candle_sites(self.candles@.subrange(0, i as int + 1)) == candle_sites(self.candles@.subrange(0, i as int)));
            }
            i = i + 1;
        }
        assert(self.candles@.subrange(0, self.candles.len() as int) =~= self.candles@);
    }

    /// One frame of exploration. Quitting stops everything. Otherwise the
    /// player moves and the camera follows; the candles run their minigame;
    /// on an emission frame a walking player and every lit candle drop an
    /// ember; then, if the player's box meets the ghost's, the frame stops
    /// there, caught. If not, all embers age and the dead are removed, the
    /// light mask is built, the ghost closes in (dropping a red ember and
    /// maybe sounding its cue on a cue line), and the timer advances.
    #[verifier::rlimit(60)]
    pub fn step(
        &mut self,
        input: &Input,
        rand: &mut ThreadRng,
        player_light: i32,
        candle_light: i32,
    ) -> (out: StepOutcome)
        requires
            old(self).wf(),
            0 <= player_light <= MAX_LIGHT,
            0 <= candle_light <= MAX_LIGHT,
        ensures
            final(self).wf(),
            world_stepped(*old(self), *final(self), *input),
            out is Quit <==> input.quit,
            out is Caught <==> !input.quit && caught(*old(self), *final(self)),
            out matches StepOutcome::Frame(v) ==> view_of_frame(
                *old(self),
                *final(self),
                *input,
                player_light as int,
                candle_light as int,
                v,
            ),
            old(self).specter.spd <= final(self).specter.spd,
    {
        if input.quit {
            return StepOutcome::Quit;
        }
        let ghost w0 = *self;
        let ghost start_ps = self.particles@;
        let cam = update_player(input, &mut self.player);
        let walk = input.left || input.right || input.up || input.down;
        let emit = (self.timer / 2) % 2 == 0;
        let prect = player_rect(self.player.pos);
        let bars = update_candles(&mut self.candles, &mut self.progress, &mut self.specter, prect, input.interact);
        if emit && walk {
            let offset: i32 = if self.player.hflip { 11 } else { 4 };
            let ghost before = self.particles@;
            emit_ember(
                &mut self.particles,
                rand,
                self.player.pos.x + offset * SUB,
                self.player.pos.y + 2 * SUB,
            );
            assert forall|k: int| 0 <= k < self.particles.len() implies particle_wf(#[trigger] self.particles@[k]) by {
                if k < before.len() {
                    assert(self.particles@[k] == before[k]);
                }
            }
        }
        let ghost after_player = self.particles@;
        let ghost player_sites: Seq<(int, int)> = if emit && walk { seq![player_site(self.player)] } else { Seq::empty() };
        assert(after_player.subrange(0, start_ps.len() as int) =~= start_ps);
        assert(embers_match(after_player.subrange(start_ps.len() as int, after_player.len() as int), player_sites)) by {
            if emit && walk {
                assert(after_player.subrange(start_ps.len() as int, after_player.len() as int) =~= seq![after_player.last()]);
            } else {
                assert(after_player.subrange(start_ps.len() as int, after_player.len() as int) =~= Seq::<Particle>::empty());
            }
        }
        if emit {
            self.emit_candle_embers(rand);
        }
        let ghost mid = self.particles@;
        let ghost emitted = mid.subrange(start_ps.len() as int, mid.len() as int);
        let ghost sites = sites_of(w0, *self, *input);
        proof {
            if emit {
                let a = after_player.subrange(start_ps.len() as int, after_player.len() as int);
                let b = mid.subrange(after_player.len() as int, mid.len() as int);
                assert(emitted =~= a + b);
                lemma_embers_match_concat(a, b, player_sites, candle_sites(self.candles@));
                assert(sites =~= player_sites + candle_sites(self.candles@));
            } else {
                assert(emitted =~= Seq::<Particle>::empty());
                assert(sites =~= Seq::<(int, int)>::empty());
            }
            assert(mid.subrange(0, start_ps.len() as int) =~= start_ps);
            assert(mid =~= start_ps + emitted);
        }
        if prect.has_intersection(self.specter.rect()) {
            proof {
                assert(self.particles@.subrange(start_ps.len() as int, self.particles.len() as int) == emitted);
                assert(caught(w0, *self));
                assert(sites == sites_of(w0, *self, *input));
                assert(world_moved(w0, *self, *input));
                assert(world_stopped(w0, *self, *input));
                assert(world_stepped(w0, *self, *input));
            }
            return StepOutcome::Caught;
        }
        assert(!caught(w0, *self));
        age_particles(&mut self.particles);
        let ghost aged = self.particles@;
        let dots = visible_dots(&self.particles, cam);
        let lights = light_blobs(&self.player, &self.particles, &self.candles, cam, player_light, candle_light);

        let target = self.player.pos;
        update_ghost(&mut self.specter, &target);
        let ghost g1 = self.specter;
        if self.specter.on_cue_line() {
            spawn_particles(
                &mut self.particles,
                rand,
                true,
                self.specter.pos.x + 2 * SUB,
                self.specter.pos.y + SUB,
                ParticleColor::Red,
            );
            assert forall|k: int| 0 <= k < self.particles.len() implies particle_wf(#[trigger] self.particles@[k]) by {
                if k < aged.len() {
                    assert(self.particles@[k] == aged[k]);
                }
            }
            assert(self.particles@.subrange(0, aged.len() as int) =~= aged);
        } else {
            assert(self.particles@.subrange(0, aged.len() as int) =~= aged);
        }
        let cue = self.specter.trigger_cue();
        let st = stereo(self.specter.pos, self.player.pos);
        let ghost_at = self.specter.draw_pos();
        self.timer = if self.timer == u64::MAX { 0 } else { self.timer + 1 };
        proof {
            assert(g1 == chased(w0, *self));
            assert(aged_part(w0, *self) == aged);
            assert(sites == sites_of(w0, *self, *input));
            assert(embers_match(emitted, sites_of(w0, *self, *input)));
            assert(w0.particles@ + emitted == mid);
            assert(aged_part(w0, *self) == survivors(age_all(w0.particles@ + emitted)));
            assert(world_moved(w0, *self, *input));
            assert(world_ran(w0, *self, *input));
            assert(world_stepped(w0, *self, *input));
        }
        StepOutcome::Frame(FrameView { cam, bars, dots, lights, cue, stereo: st, ghost_at })
    }
}

impl Scene {
    pub open spec fn wf(&self) -> bool {
        self.world.wf()
    }

    /// One frame of the exploration scene: the world's step, then the
    /// minimap toggle. Returns the scene to run next, and what to draw when
    /// the frame ran to its end. The minimap flag plays no part in the
    /// world's step.
    pub fn frame(
        &mut self,
        input: &Input,
        rand: &mut ThreadRng,
        player_light: i32,
        candle_light: i32,
    ) -> (r: (SceneState, Option<FrameView>))
        requires
            old(self).wf(),
            0 <= player_light <= MAX_LIGHT,
            0 <= candle_light <= MAX_LIGHT,
        ensures
            final(self).wf(),
            world_stepped(old(self).world, final(self).world, *input),
            r.0 == SceneState::Exit <==> input.quit,
            r.0 == SceneState::Jumpscare <==> !input.quit && caught(old(self).world, final(self).world),
            r.0 == SceneState::Exploration <==> !input.quit && !caught(old(self).world, final(self).world),
            r.0 == SceneState::Exploration ==> final(self).show_map == (old(self).show_map != input.toggle_map),
            r.0 != SceneState::Exploration ==> final(self).show_map == old(self).show_map,
            r.1 is Some <==> r.0 == SceneState::Exploration,
            r.1 matches Some(v) ==> view_of_frame(
                old(self).world,
                final(self).world,
                *input,
                player_light as int,
                candle_light as int,
                v,
            ),
    {
        match self.world.step(input, rand, player_light, candle_light) {
            StepOutcome::Quit => (SceneState::Exit, None),
            StepOutcome::Caught => (SceneState::Jumpscare, None),
            StepOutcome::Frame(v) => {
                if input.toggle_map {
                    self.show_map = !self.show_map;
                }
                (SceneState::Exploration, Some(v))
            },
        }
    }
}

impl Jumpscare {
    pub fn new() -> (j: Jumpscare)
        ensures
            j.ticks == 0,
    {
        Jumpscare { ticks: 0 }
    }

    /// One frame of the jumpscare: the picture of the strip to show, and the
    /// scene to run next. Quitting ends everything; once the count passes
    /// `JUMPSCARE_TICKS` exploration starts again.
    pub fn frame(&mut self, quit: bool) -> (r: (SceneState, u32))
        requires
            old(self).ticks <= JUMPSCARE_TICKS,
        ensures
            quit ==> r.0 == SceneState::Exit && final(self).ticks == old(self).ticks,
            !quit ==> final(self).ticks == old(self).ticks + 1,
            !quit ==> r.1 == (if old(self).ticks / 5 > 4 { 4 } else { old(self).ticks / 5 }),
            !quit ==> (r.0 == SceneState::Exploration <==> final(self).ticks > JUMPSCARE_TICKS),
            !quit && final(self).ticks <= JUMPSCARE_TICKS ==> r.0 == SceneState::Jumpscare,
            r.1 < JUMPSCARE_PICTURES,
    {
        if quit {
            return (SceneState::Exit, 0);
        }
        let pic = if self.ticks / 5 > 4 { 4 } else { self.ticks / 5 };
        self.ticks = self.ticks + 1;
        if self.ticks > JUMPSCARE_TICKS {
            (SceneState::Exploration, pic)
        } else {
            (SceneState::Jumpscare, pic)
        }
    }
}

} // verus!
