use vstd::prelude::*;
use crate::geom::{PointF, Rect, SUB, px_of, to_px};
use crate::player::{pos_in_bounds, clamp};

verus! {

/// Starting speed, in halves: 1.0.
pub const SPEED_START: i32 = 2;

/// Highest speed, in halves: 4.0.
pub const SPEED_MAX: i32 = 8;

/// Largest ghost coordinate magnitude, in sub-units. A ghost that starts
/// within reach of the world and pursues a player inside it never leaves it.
pub const GHOST_BOUND: i32 = 1_000_000;

/// Largest spawn offset from the player on either axis, in sub-units
/// (128 px).
pub const SPAWN_REACH: i32 = 2560;

/// Value the cue cooldown (also the ghost's flash alpha) is set to when the
/// cue sounds.
pub const CUE_COOLDOWN: u8 = 255;

/// The ghost that pursues the player: position in sub-units, speed in halves of a unit (the ghost
/// moves `spd` sub-units, a tenth of a pixel per unit of speed, along each
/// axis per frame), and the cue cooldown that doubles as its flash alpha.
#[derive(Clone, Copy, Debug, PartialEq, Eq, Structural)]
pub struct Specter {
    pub pos: PointF,
    pub spd: i32,
    pub alpha: u8,
}

/// Channel levels and volume of the pursuit cue.
#[derive(Clone, Copy, Debug, PartialEq, Eq, Structural)]
pub struct Stereo {
    pub left: u8,
    pub right: u8,
    pub volume: i32,
}

pub open spec fn sign(v: int) -> int {
    if v > 0 {
        1
    } else if v < 0 {
        -1
    } else {
        0
    }
}

/// One axis of pursuit: a step of `spd` toward `target`.
pub open spec fn chase_axis(g: int, target: int, spd: int) -> int {
    g + sign(target - g) * spd
}

/// The ghost after one frame of pursuit of a player at `p`: each axis toward
/// the player's position plus (8, 5) pixels, and the cooldown one lower.
pub open spec fn ghost_step(g: Specter, p: PointF) -> Specter {
    Specter {
        pos: PointF {
            x: chase_axis(g.pos.x as int, p.x + 8 * SUB, g.spd as int) as i32,
            y: chase_axis(g.pos.y as int, p.y + 5 * SUB, g.spd as int) as i32,
        },
        spd: g.spd,
        alpha: if g.alpha > 0 { (g.alpha - 1) as u8 } else { 0 },
    }
}

/// The speed after one lit candle.
pub open spec fn bumped(spd: int) -> int {
    if spd < SPEED_MAX { spd + 1 } else { spd }
}

/// The speed after `n` lit candles in a scene.
pub open spec fn speed_after(n: nat) -> int
    decreases n,
{
    if n == 0 {
        SPEED_START as int
    } else {
        bumped(speed_after((n - 1) as nat))
    }
}

/// The ghost's collision box, 8x8 pixels at its position.
pub open spec fn ghost_box(p: PointF) -> Rect {
    Rect { x: px_of(p.x as int) as i32, y: px_of(p.y as int) as i32, w: 8, h: 8 }
}

/// The ghost stands on a cue line: its pixel position is a multiple of 8 on
/// at least one axis.
pub open spec fn on_cue_line(p: PointF) -> bool {
    px_of(p.x as int) % 8 == 0 || px_of(p.y as int) % 8 == 0
}

/// Levels from the horizontal displacement `dx` and the diagonal sum `s`,
/// both in sub-units: the pan is `dx` clamped to 32 pixels either way;
/// the volume falls by one per pixel of `|s|`, to silence at 128.
pub open spec fn stereo_of(dx: int, s: int) -> Stereo {
    let c = clamp(dx, -32 * SUB, 32 * SUB);
    let abs_s = if s < 0 { -s } else { s };
    let d = abs_s / (SUB as int);
    Stereo {
        left: (if (640 - c) * 255 / 640 > 255 { 255 } else { (640 - c) * 255 / 640 }) as u8,
        right: (if c <= 0 { 0 } else { c * 255 / 640 }) as u8,
        volume: (128 - (if d > 128 { 128 } else { d })) as i32,
    }
}

/// Over a scene the ghost's speed never falls, stays within [1.0, 4.0], and
/// after six lit candles is 4.0 and stays there.
pub proof fn lemma_speed_ramp(n: nat)
    ensures
        SPEED_START <= speed_after(n) <= SPEED_MAX,
        speed_after(n) <= speed_after(n + 1),
        n >= 6 ==> speed_after(n) == SPEED_MAX,
        n >= 6 ==> speed_after(n + 1) == speed_after(n),
    decreases n,
{
    if n > 0 {
        lemma_speed_ramp((n - 1) as nat);
    }
    reveal_with_fuel(speed_after, 7);
}

impl Specter {
    pub open spec fn wf(&self) -> bool {
        &&& SPEED_START <= self.spd <= SPEED_MAX
        &&& -GHOST_BOUND <= self.pos.x <= GHOST_BOUND
        &&& -GHOST_BOUND <= self.pos.y <= GHOST_BOUND
    }

    /// A fresh ghost at `player` plus the spawn offset, at starting speed and
    /// with no cue pending.
    pub fn spawn(player: PointF, off_x: i32, off_y: i32) -> (g: Specter)
        requires
            pos_in_bounds(player),
            -SPAWN_REACH <= off_x <= SPAWN_REACH,
            -SPAWN_REACH <= off_y <= SPAWN_REACH,
        ensures
            g.wf(),
            g.pos == (PointF { x: (player.x + off_x) as i32, y: (player.y + off_y) as i32 }),
            g.spd == SPEED_START,
            g.alpha == 0,
    {
        Specter {
            pos: PointF { x: player.x + off_x, y: player.y + off_y },
            spd: SPEED_START,
            alpha: 0,
        }
    }

    /// Raises the speed by a half, up to 4.0.
    pub fn speed_up(&mut self)
        requires
            old(self).wf(),
        ensures
            final(self).wf(),
            *final(self) == (Specter { spd: bumped(old(self).spd as int) as i32, ..*old(self) }),
    {
        if self.spd < SPEED_MAX {
            self.spd = self.spd + 1;
        }
    }

    /// Whether the ghost's position lies on a cue line.
    pub fn on_cue_line(&self) -> (r: bool)
        ensures
            r == on_cue_line(self.pos),
    {
        to_px(self.pos.x) % 8 == 0 || to_px(self.pos.y) % 8 == 0
    }

    /// Sounds the cue when the ghost is on a cue line and the cooldown has
    /// run out; the cooldown then restarts at 255. Returns whether it sounded.
    pub fn trigger_cue(&mut self) -> (fired: bool)
        ensures
            fired == (on_cue_line(old(self).pos) && old(self).alpha == 0),
            *final(self) == (if fired {
                Specter { alpha: CUE_COOLDOWN, ..*old(self) }
            } else {
                *old(self)
            }),
    {
        if self.on_cue_line() && self.alpha == 0 {
            self.alpha = CUE_COOLDOWN;
            true
        } else {
            false
        }
    }

    /// The position the ghost is drawn at, in pixels: snapped down to a
    /// multiple of 8 on each axis.
    pub fn draw_pos(&self) -> (r: (i32, i32))
        ensures
            r.0 as int == crate::geom::trunc_div(px_of(self.pos.x as int), 8) * 8,
            r.1 as int == crate::geom::trunc_div(px_of(self.pos.y as int), 8) * 8,
    {
        (to_px(self.pos.x) / 8 * 8, to_px(self.pos.y) / 8 * 8)
    }

    /// The ghost's collision box.
    pub fn rect(&self) -> (r: Rect)
        ensures
            r == ghost_box(self.pos),
    {
        Rect::new(to_px(self.pos.x), to_px(self.pos.y), 8, 8)
    }
}

/// Moves the ghost one frame toward the player at `player`, and lets the cue
/// cooldown fall by one.
pub fn update_ghost(ghost: &mut Specter, player: &PointF)
    requires
        old(ghost).wf(),
        pos_in_bounds(*player),
    ensures
        final(ghost).wf(),
        *final(ghost) == ghost_step(*old(ghost), *player),
{
    let tx = player.x + 8 * SUB;
    let ty = player.y + 5 * SUB;
    if ghost.pos.x < tx {
        ghost.pos.x = ghost.pos.x + ghost.spd;
    } else if ghost.pos.x > tx {
        ghost.pos.x = ghost.pos.x - ghost.spd;
    }
    if ghost.pos.y < ty {
        ghost.pos.y = ghost.pos.y + ghost.spd;
    } else if ghost.pos.y > ty {
        ghost.pos.y = ghost.pos.y - ghost.spd;
    }
    if ghost.alpha > 0 {
        ghost.alpha = ghost.alpha - 1;
    }
}

/// The pursuit cue's levels for a ghost at `g` and a player at `p`.
pub fn stereo(g: PointF, p: PointF) -> (r: Stereo)
    requires
        -GHOST_BOUND <= g.x <= GHOST_BOUND,
        -GHOST_BOUND <= g.y <= GHOST_BOUND,
        pos_in_bounds(p),
    ensures
        r == stereo_of(g.x - p.x, (g.x - p.x) + (g.y - p.y)),
{
    let dx = g.x as i64 - p.x as i64;
    let dy = g.y as i64 - p.y as i64;
    let c = if dx < -640 { -640 } else if dx > 640 { 640 } else { dx };
    let l = (640 - c) * 255 / 640;
    let left: u8 = if l > 255 { 255 } else { l as u8 };
    let right: u8 = if c <= 0 { 0 } else { (c * 255 / 640) as u8 };
    let s = dx + dy;
    let abs_s = if s < 0 { -s } else { s };
    let d = abs_s / (SUB as i64);
    let volume = 128 - (if d > 128 { 128 } else { d as i32 });
    Stereo { left, right, volume }
}

} // verus!
