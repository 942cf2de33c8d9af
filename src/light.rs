use vstd::prelude::*;
use crate::geom::{Rect, overlaps, px_of, to_px};
use crate::grid::{Candle, candle_wf};
use crate::particles::{Particle, field_wf, particle_wf, visible, is_visible};
use crate::player::{Camera, Player, pos_in_bounds, camera_in_bounds};

verus! {

/// Side of the light blob of a bright mote, in pixels.
pub const MOTE_LIGHT: i32 = 6;

/// Largest blob side accepted, in pixels.
pub const MAX_LIGHT: i32 = 128;

/// One additive light blob on the 64x64 mask: its square in screen pixels.
#[derive(Clone, Copy, Debug, PartialEq, Eq, Structural)]
pub struct LightBlob {
    pub x: i32,
    pub y: i32,
    pub size: i32,
}

/// The view's own rectangle, in screen pixels.
pub open spec fn view_rect() -> Rect {
    Rect { x: 0, y: 0, w: 64, h: 64 }
}

/// The blob centred on the player.
pub open spec fn player_blob(p: Player, cam: Camera, size: int) -> LightBlob {
    LightBlob {
        x: (px_of(p.pos.x as int) + 8 - cam.x - size / 2) as i32,
        y: (px_of(p.pos.y as int) + 5 - cam.y - size / 2) as i32,
        size: size as i32,
    }
}

pub open spec fn mote_blob(m: Particle, cam: Camera) -> LightBlob {
    LightBlob {
        x: (px_of(m.pos.x as int) - cam.x - MOTE_LIGHT / 2) as i32,
        y: (px_of(m.pos.y as int) - cam.y - MOTE_LIGHT / 2) as i32,
        size: MOTE_LIGHT,
    }
}

pub open spec fn candle_blob(c: Candle, cam: Camera, size: int) -> LightBlob {
    LightBlob {
        x: (c.dst.x + 3 - cam.x - size / 2) as i32,
        y: (c.dst.y + 2 - cam.y - size / 2) as i32,
        size: size as i32,
    }
}

pub open spec fn blob_rect(b: LightBlob) -> Rect {
    Rect { x: b.x, y: b.y, w: b.size, h: b.size }
}

/// Blobs of the bright motes inside the view, in order.
pub open spec fn mote_blobs(ps: Seq<Particle>, cam: Camera) -> Seq<LightBlob>
    decreases ps.len(),
{
    if ps.len() == 0 {
        Seq::empty()
    } else if ps.last().light && visible(ps.last().pos, cam) {
        mote_blobs(ps.drop_last(), cam).push(mote_blob(ps.last(), cam))
    } else {
        mote_blobs(ps.drop_last(), cam)
    }
}

/// Blobs of the lit candles whose light reaches into the view, in order.
pub open spec fn candle_blobs(cs: Seq<Candle>, cam: Camera, size: int) -> Seq<LightBlob>
    decreases cs.len(),
{
    if cs.len() == 0 {
        Seq::empty()
    } else if cs.last().lit && overlaps(blob_rect(candle_blob(cs.last(), cam, size)), view_rect()) {
        candle_blobs(cs.drop_last(), cam, size).push(candle_blob(cs.last(), cam, size))
    } else {
        candle_blobs(cs.drop_last(), cam, size)
    }
}

/// The whole mask, in drawing order: the player's blob, then the bright
/// motes', then the lit candles'.
pub open spec fn mask_of(
    p: Player,
    ps: Seq<Particle>,
    cs: Seq<Candle>,
    cam: Camera,
    player_size: int,
    candle_size: int,
) -> Seq<LightBlob> {
    seq![player_blob(p, cam, player_size)] + mote_blobs(ps, cam) + candle_blobs(cs, cam, candle_size)
}

/// The light blobs of one frame, drawn additively onto a dark 64x64 mask
/// that is then multiplied onto the scene. `player_size` and `candle_size`
/// are the frame's flickering blob sides.
pub fn light_blobs(
    player: &Player,
    particles: &Vec<Particle>,
    candles: &Vec<Candle>,
    cam: Camera,
    player_size: i32,
    candle_size: i32,
) -> (r: Vec<LightBlob>)
    requires
        pos_in_bounds(player.pos),
        field_wf(particles@),
        forall|k: int| 0 <= k < candles.len() ==> candle_wf(#[trigger] candles@[k]),
        camera_in_bounds(cam),
        0 <= player_size <= MAX_LIGHT,
        0 <= candle_size <= MAX_LIGHT,
    ensures
        r@ == mask_of(*player, particles@, candles@, cam, player_size as int, candle_size as int),
{
    let mut r: Vec<LightBlob> = Vec::new();
    r.push(
        LightBlob {
            x: to_px(player.pos.x) + 8 - cam.x - player_size / 2,
            y: to_px(player.pos.y) + 5 - cam.y - player_size / 2,
            size: player_size,
        },
    );
    let mut i: usize = 0;
    while i < particles.len()
        invariant
            i <= particles.len(),
            field_wf(particles@),
            camera_in_bounds(cam),
            r@ == seq![player_blob(*player, cam, player_size as int)] + mote_blobs(
                particles@.subrange(0, i as int),
                cam,
            ),
        decreases particles.len() - i,
    {
        assert(particles@.subrange(0, i as int + 1).drop_last() =~= particles@.subrange(0, i as int));
        let m = particles[i];
        assert(particle_wf(particles@[i as int]));
        if m.light && is_visible(m.pos, cam) {
            r.push(
                LightBlob {
                    x: to_px(m.pos.x) - cam.x - MOTE_LIGHT / 2,
                    y: to_px(m.pos.y) - cam.y - MOTE_LIGHT / 2,
                    size: MOTE_LIGHT,
                },
            );
        }
        i = i + 1;
    }
    assert(particles@.subrange(0, particles.len() as int) =~= particles@);
    let ghost head = r@;
    let mut j: usize = 0;
    while j < candles.len()
        invariant
            j <= candles.len(),
            forall|k: int| 0 <= k < candles.len() ==> candle_wf(#[trigger] candles@[k]),
            camera_in_bounds(cam),
            0 <= candle_size <= MAX_LIGHT,
            r@ == head + candle_blobs(candles@.subrange(0, j as int), cam, candle_size as int),
        decreases candles.len() - j,
    {
        assert(candles@.subrange(0, j as int + 1).drop_last() =~= candles@.subrange(0, j as int));
        let c = candles[j];
        assert(candle_wf(candles@[j as int]));
        let b = LightBlob {
            x: c.dst.x + 3 - cam.x - candle_size / 2,
            y: c.dst.y + 2 - cam.y - candle_size / 2,
            size: candle_size,
        };
        if c.lit && Rect::new(b.x, b.y, b.size, b.size).has_intersection(Rect::new(0, 0, 64, 64)) {
            r.push(b);
            assert(r@ =~= head + candle_blobs(candles@.subrange(0, j as int + 1), cam, candle_size as int));
        }
        j = j + 1;
    }
    assert(candles@.subrange(0, candles.len() as int) =~= candles@);
    r
}

} // verus!
