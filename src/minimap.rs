use vstd::prelude::*;
use crate::geom::{PointF, px_of, to_px};
use crate::grid::{Candle, candle_wf, TILE_WALL};
use crate::player::pos_in_bounds;

verus! {

/// The minimap's color for a tile value. Value 2 is reserved: generation
/// never produces it, yet it keeps a color of its own.
pub open spec fn tile_color_of(t: u8) -> (u8, u8, u8) {
    if t == TILE_WALL {
        (0, 94, 41)
    } else if t == 2 {
        (94, 25, 0)
    } else {
        (0, 0, 0)
    }
}

/// The minimap's color for a tile value.
pub fn tile_color(t: u8) -> (c: (u8, u8, u8))
    ensures
        c == tile_color_of(t),
{
    if t == TILE_WALL {
        (0, 94, 41)
    } else if t == 2 {
        (94, 25, 0)
    } else {
        (0, 0, 0)
    }
}

/// Marker color of an unlit candle.
pub const CANDLE_MARK: (u8, u8, u8) = (219, 227, 0);

/// Marker color of the player.
pub const PLAYER_MARK: (u8, u8, u8) = (230, 11, 0);

/// The minimap cells of the unlit candles, in order.
pub open spec fn unlit_marks(cs: Seq<Candle>) -> Seq<(i32, i32)>
    decreases cs.len(),
{
    if cs.len() == 0 {
        Seq::empty()
    } else if !cs.last().lit {
        unlit_marks(cs.drop_last()).push(((cs.last().dst.x / 16) as i32, (cs.last().dst.y / 16) as i32))
    } else {
        unlit_marks(cs.drop_last())
    }
}

/// The minimap cells where the unlit candles are marked.
pub fn candle_marks(candles: &Vec<Candle>) -> (r: Vec<(i32, i32)>)
    requires
        forall|k: int| 0 <= k < candles.len() ==> candle_wf(#[trigger] candles@[k]),
    ensures
        r@ == unlit_marks(candles@),
{
    let mut r: Vec<(i32, i32)> = Vec::new();
    let mut i: usize = 0;
    while i < candles.len()
        invariant
            i <= candles.len(),
            forall|k: int| 0 <= k < candles.len() ==> candle_wf(#[trigger] candles@[k]),
            r@ == unlit_marks(candles@.subrange(0, i as int)),
        decreases candles.len() - i,
    {
        assert(candles@.subrange(0, i as int + 1).drop_last() =~= candles@.subrange(0, i as int));
        let c = candles[i];
        if !c.lit {
            r.push((c.dst.x / 16, c.dst.y / 16));
        }
        i = i + 1;
    }
    assert(candles@.subrange(0, candles.len() as int) =~= candles@);
    r
}

/// The minimap cell of the player: the tile under the corner of its box.
pub fn player_mark(p: PointF) -> (r: (i32, i32))
    requires
        pos_in_bounds(p),
    ensures
        r.0 == (px_of(p.x as int) + 5) / 16,
        r.1 == (px_of(p.y as int) + 5) / 16,
{
    ((to_px(p.x) + 5) / 16, (to_px(p.y) + 5) / 16)
}

} // verus!
