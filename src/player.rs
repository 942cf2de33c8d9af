use vstd::prelude::*;
use crate::geom::{PointF, Rect, SUB, px_of};

verus! {

/// Sub-units the player moves per frame along each held axis (half a pixel).
pub const PLAYER_STEP: i32 = 10;

/// Lowest player coordinate on either axis (-5 px).
pub const PLAYER_MIN: i32 = -100;

/// Highest player coordinate on either axis (1019 px).
pub const PLAYER_MAX: i32 = 20380;

/// Highest camera offset on either axis, in pixels.
pub const CAMERA_MAX: i32 = 944;

/// Animation phases are counted in fifths of a sprite frame. Idle phases run
/// over `0..=IDLE_LAST`, walking ones over `WALK_FIRST..=WALK_LAST`.
pub const IDLE_LAST: i32 = 15;

pub const WALK_FIRST: i32 = 20;

pub const WALK_LAST: i32 = 35;

/// The keys that the scene reads in one frame.
#[derive(Clone, Copy, Debug, PartialEq, Eq, Structural)]
pub struct Input {
    pub left: bool,
    pub right: bool,
    pub up: bool,
    pub down: bool,
    /// The interact key is held.
    pub interact: bool,
    /// The minimap key went down this frame.
    pub toggle_map: bool,
    /// The platform asked to quit.
    pub quit: bool,
}

/// The player avatar: position in sub-units, facing (`hflip` when facing
/// right), and animation phase in fifths of a frame.
#[derive(Clone, Copy, Debug, PartialEq, Eq, Structural)]
pub struct Player {
    pub pos: PointF,
    pub hflip: bool,
    pub anim: i32,
}

/// The camera's top-left corner in world pixels.
#[derive(Clone, Copy, Debug, PartialEq, Eq, Structural)]
pub struct Camera {
    pub x: i32,
    pub y: i32,
}

pub open spec fn clamp(v: int, lo: int, hi: int) -> int {
    if v < lo {
        lo
    } else if v > hi {
        hi
    } else {
        v
    }
}

pub open spec fn walking(inp: Input) -> bool {
    inp.left || inp.right || inp.up || inp.down
}

/// One axis of movement: the first key wins over the second.
pub open spec fn axis_move(v: int, minus: bool, plus: bool) -> int {
    if minus {
        v - PLAYER_STEP
    } else if plus {
        v + PLAYER_STEP
    } else {
        v
    }
}

/// The animation phase after one frame.
pub open spec fn anim_step(a: int, walk: bool) -> int {
    if walk {
        let b = if a < WALK_FIRST { WALK_FIRST as int } else { a };
        if b + 1 > WALK_LAST { WALK_FIRST as int } else { b + 1 }
    } else {
        let b = if a >= WALK_FIRST { 0 } else { a };
        if b + 1 > IDLE_LAST { 0 } else { b + 1 }
    }
}

/// The player after one frame of input.
pub open spec fn player_step(p: Player, inp: Input) -> Player {
    Player {
        pos: PointF {
            x: clamp(axis_move(p.pos.x as int, inp.left, inp.right), PLAYER_MIN as int, PLAYER_MAX as int) as i32,
            y: clamp(axis_move(p.pos.y as int, inp.up, inp.down), PLAYER_MIN as int, PLAYER_MAX as int) as i32,
        },
        hflip: if inp.left { false } else if inp.right { true } else { p.hflip },
        anim: anim_step(p.anim as int, walking(inp)) as i32,
    }
}

/// One camera axis: the player coordinate `v` (sub-units) plus a bias of
/// `bias` pixels, less half the 64-pixel view, clamped to the world.
pub open spec fn camera_axis(v: int, bias: int) -> int {
    let w = v + bias * (SUB as int) - 32 * (SUB as int);
    if w <= 0 {
        0
    } else if w / (SUB as int) > CAMERA_MAX {
        CAMERA_MAX as int
    } else {
        w / (SUB as int)
    }
}

/// The camera that follows a player at `p`.
pub open spec fn camera_of(p: PointF) -> Camera {
    Camera { x: camera_axis(p.x as int, 8) as i32, y: camera_axis(p.y as int, 5) as i32 }
}

pub open spec fn pos_in_bounds(p: PointF) -> bool {
    PLAYER_MIN <= p.x <= PLAYER_MAX && PLAYER_MIN <= p.y <= PLAYER_MAX
}

pub open spec fn camera_in_bounds(c: Camera) -> bool {
    0 <= c.x <= CAMERA_MAX && 0 <= c.y <= CAMERA_MAX
}

/// The player's collision box: 6x5 pixels at (+5, +5) from its position.
pub open spec fn player_box(p: PointF) -> Rect {
    Rect { x: (px_of(p.x as int) + 5) as i32, y: (px_of(p.y as int) + 5) as i32, w: 6, h: 5 }
}

/// The player after each of `inputs` in turn.
pub open spec fn player_after(p: Player, inputs: Seq<Input>) -> Player
    decreases inputs.len(),
{
    if inputs.len() == 0 {
        p
    } else {
        player_step(player_after(p, inputs.drop_last()), inputs.last())
    }
}

/// Whatever keys are held, frame after frame, the player stays within
/// [-5, 1019] pixels on both axes and its camera within [0, 944].
pub proof fn lemma_player_stays_in_world(p: Player, inputs: Seq<Input>)
    requires
        pos_in_bounds(p.pos),
    ensures
        pos_in_bounds(player_after(p, inputs).pos),
        camera_in_bounds(camera_of(player_after(p, inputs).pos)),
    decreases inputs.len(),
{
    if inputs.len() > 0 {
        lemma_player_stays_in_world(p, inputs.drop_last());
    }
    lemma_camera_in_bounds(player_after(p, inputs).pos);
}

/// Every camera offset lies within [0, 944] pixels.
pub proof fn lemma_camera_in_bounds(p: PointF)
    ensures
        camera_in_bounds(camera_of(p)),
{
}

fn clamp_i64(v: i64, lo: i64, hi: i64) -> (r: i64)
    requires
        lo <= hi,
    ensures
        r == clamp(v as int, lo as int, hi as int),
{
    if v < lo {
        lo
    } else if v > hi {
        hi
    } else {
        v
    }
}

fn camera_axis_exec(v: i32, bias: i32) -> (r: i32)
    requires
        -64 <= bias <= 64,
    ensures
        r == camera_axis(v as int, bias as int),
{
    let sub = SUB as i64;
    assert(sub == 20);
    let w = v as i64 + bias as i64 * sub - 32 * sub;
    if w <= 0 {
        0
    } else if w / (SUB as i64) > CAMERA_MAX as i64 {
        CAMERA_MAX
    } else {
        (w / (SUB as i64)) as i32
    }
}

/// The camera for a player at `p`.
pub fn camera_for(p: PointF) -> (c: Camera)
    ensures
        c == camera_of(p),
        camera_in_bounds(c),
{
    Camera { x: camera_axis_exec(p.x, 8), y: camera_axis_exec(p.y, 5) }
}

/// Moves, turns and animates the player for one frame of input, clamps it to
/// the world, and returns the camera that follows it.
pub fn update_player(input: &Input, player: &mut Player) -> (cam: Camera)
    ensures
        *final(player) == player_step(*old(player), *input),
        pos_in_bounds(final(player).pos),
        cam == camera_of(final(player).pos),
        camera_in_bounds(cam),
{
    let walk = input.left || input.right || input.up || input.down;
    let mut x = player.pos.x as i64;
    if input.left {
        x = x - PLAYER_STEP as i64;
        player.hflip = false;
    } else if input.right {
        x = x + PLAYER_STEP as i64;
        player.hflip = true;
    }
    let mut y = player.pos.y as i64;
    if input.up {
        y = y - PLAYER_STEP as i64;
    } else if input.down {
        y = y + PLAYER_STEP as i64;
    }

    let a = player.anim;
    if walk {
        let b = if a < WALK_FIRST { WALK_FIRST } else { a };
        player.anim = if b >= WALK_LAST { WALK_FIRST } else { b + 1 };
    } else {
        let b = if a >= WALK_FIRST { 0 } else { a };
        player.anim = if b >= IDLE_LAST { 0 } else { b + 1 };
    }

    player.pos.x = clamp_i64(x, PLAYER_MIN as i64, PLAYER_MAX as i64) as i32;
    player.pos.y = clamp_i64(y, PLAYER_MIN as i64, PLAYER_MAX as i64) as i32;
    camera_for(player.pos)
}

impl Player {
    /// The sprite frame of the animation phase.
    pub fn sprite_frame(&self) -> (f: i32)
        requires
            0 <= self.anim,
        ensures
            f == self.anim / 5,
    {
        self.anim / 5
    }
}

/// The player's collision box.
pub fn player_rect(p: PointF) -> (r: Rect)
    requires
        pos_in_bounds(p),
    ensures
        r == player_box(p),
{
    Rect::new(crate::geom::to_px(p.x) + 5, crate::geom::to_px(p.y) + 5, 6, 5)
}

} // verus!
