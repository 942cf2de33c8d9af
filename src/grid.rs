use rand::rngs::ThreadRng;
use vstd::prelude::*;
use crate::geom::{PointF, Rect, SUB};
use crate::rng::gen_range;
use vstd::arithmetic::div_mod::lemma_mod_multiples_basic;

verus! {

/// Tiles per side of the square world.
pub const GRID_DIM: usize = 64;

/// Cells in the world.
pub const GRID_CELLS: usize = 4096;

/// Pixels per tile side.
pub const TILE_PX: i32 = 16;

/// A walkable cell.
pub const TILE_EMPTY: u8 = 0;

/// A wall cell.
pub const TILE_WALL: u8 = 1;

/// Random cells drawn for one candle before the placement falls back to a
/// scan of the grid.
pub const CANDLE_TRIES: u32 = 4096;

/// The world: `GRID_DIM` x `GRID_DIM` tiles, row-major.
pub struct WorldGrid {
    tiles: Vec<u8>,
}

/// A candle: its 8x8 rectangle in world pixels, and whether it has been lit.
#[derive(Clone, Copy, Debug, PartialEq, Eq, Structural)]
pub struct Candle {
    pub dst: Rect,
    pub lit: bool,
}

/// A candle's rectangle has room for its progress bar, and lies near enough
/// to the world for the arithmetic on it.
pub open spec fn candle_wf(c: Candle) -> bool {
    &&& 2 <= c.dst.w <= 1024 && 0 <= c.dst.h <= 1024
    &&& 0 <= c.dst.x <= 50_000 && 0 <= c.dst.y <= 50_000
}

/// Where in the row-major grid the tile at (`x`, `y`) lives.
pub open spec fn cell_index(x: int, y: int) -> int {
    x + y * (GRID_DIM as int)
}

pub open spec fn in_grid(x: int, y: int) -> bool {
    0 <= x < GRID_DIM as int && 0 <= y < GRID_DIM as int
}

/// The rectangle of a candle standing on tile (`x`, `y`).
pub open spec fn candle_rect(x: int, y: int) -> Rect {
    Rect { x: (x * 16) as i32, y: (y * 16) as i32, w: 8, h: 8 }
}

/// The candle stands, unlit, on an empty tile of `tiles`.
pub open spec fn candle_on_empty(tiles: Seq<u8>, c: Candle) -> bool {
    exists|x: int, y: int|
        #![trigger cell_index(x, y)]
        in_grid(x, y) && c.dst == candle_rect(x, y) && tiles[cell_index(x, y)] == TILE_EMPTY
}

impl View for WorldGrid {
    type V = Seq<u8>;

    closed spec fn view(&self) -> Seq<u8> {
        self.tiles@
    }
}

impl WorldGrid {
    pub open spec fn wf(&self) -> bool {
        &&& self@.len() == GRID_CELLS as int
        &&& forall|i: int| 0 <= i < self@.len() ==> self@[i] <= TILE_WALL
    }

    /// A grid of empty tiles.
    pub fn new() -> (g: WorldGrid)
        ensures
            g.wf(),
            forall|i: int| 0 <= i < GRID_CELLS as int ==> g@[i] == TILE_EMPTY,
    {
        let mut tiles: Vec<u8> = Vec::new();
        let mut i: usize = 0;
        while i < GRID_CELLS
            invariant
                i <= GRID_CELLS,
                tiles@.len() == i,
                forall|k: int| 0 <= k < i ==> tiles@[k] == TILE_EMPTY,
            decreases GRID_CELLS - i,
        {
            tiles.push(TILE_EMPTY);
            i = i + 1;
        }
        WorldGrid { tiles }
    }

    /// The tile at (`x`, `y`).
    pub fn tile(&self, x: usize, y: usize) -> (t: u8)
        requires
            self.wf(),
            in_grid(x as int, y as int),
        ensures
            t == self@[cell_index(x as int, y as int)],
    {
        self.tiles[x + y * GRID_DIM]
    }

    /// Sets the tile at (`x`, `y`).
    pub fn set_tile(&mut self, x: usize, y: usize, t: u8)
        requires
            old(self).wf(),
            in_grid(x as int, y as int),
            t <= TILE_WALL,
        ensures
            final(self).wf(),
            final(self)@ == old(self)@.update(cell_index(x as int, y as int), t),
    {
        self.tiles.set(x + y * GRID_DIM, t);
    }

    /// The first empty tile in row-major order, as (x, y).
    pub fn first_empty(&self) -> (r: Option<(usize, usize)>)
        requires
            self.wf(),
        ensures
            r is None ==> forall|i: int| 0 <= i < GRID_CELLS as int ==> self@[i] != TILE_EMPTY,
            r matches Some((x, y)) ==> in_grid(x as int, y as int) && self@[cell_index(
                x as int,
                y as int,
            )] == TILE_EMPTY,
    {
        let mut y: usize = 0;
        while y < GRID_DIM
            invariant
                self.wf(),
                y <= GRID_DIM,
                forall|i: int| 0 <= i < (y * GRID_DIM) as int ==> self@[i] != TILE_EMPTY,
            decreases GRID_DIM - y,
        {
            let mut x: usize = 0;
            while x < GRID_DIM
                invariant
                    self.wf(),
                    y < GRID_DIM,
                    x <= GRID_DIM,
                    forall|i: int| 0 <= i < (y * GRID_DIM + x) as int ==> self@[i] != TILE_EMPTY,
                decreases GRID_DIM - x,
            {
                if self.tiles[x + y * GRID_DIM] == TILE_EMPTY {
                    return Some((x, y));
                }
                x = x + 1;
            }
            y = y + 1;
        }
        None
    }
}


/// The draws that place the ghost: per axis an angle in whole degrees and a
/// distance in pixels. The ghost stands at `player + sin(angle) * distance`
/// on each axis, an offset that is computed outside the library.
#[derive(Clone, Copy, Debug, PartialEq, Eq, Structural)]
pub struct GhostSpawn {
    pub angle_x: i32,
    pub dist_x: i32,
    pub angle_y: i32,
    pub dist_y: i32,
}

impl GhostSpawn {
    pub open spec fn valid(&self) -> bool {
        &&& 0 <= self.angle_x < 360 && 0 <= self.angle_y < 360
        &&& self.dist_x % 16 == 0 && 64 <= self.dist_x < 128
        &&& self.dist_y % 16 == 0 && 64 <= self.dist_y < 128
    }
}

/// A position on the corner of some tile of the world.
pub open spec fn tile_aligned(p: PointF) -> bool {
    let side = (TILE_PX as int) * (SUB as int);
    &&& (p.x as int) % side == 0 && 0 <= p.x < (GRID_DIM as int) * side
    &&& (p.y as int) % side == 0 && 0 <= p.y < (GRID_DIM as int) * side
}

/// The candle that a drawn tile (`x`, `y`) gives: an unlit one on it when the
/// tile is empty, none on a wall.
pub fn candle_from_draw(map: &WorldGrid, x: usize, y: usize) -> (r: Option<Candle>)
    requires
        map.wf(),
        in_grid(x as int, y as int),
    ensures
        r == (if map@[cell_index(x as int, y as int)] == TILE_EMPTY {
            Some(Candle { dst: candle_rect(x as int, y as int), lit: false })
        } else {
            None
        }),
{
    if map.tile(x, y) == TILE_EMPTY {
        Some(Candle { dst: Rect::new(x as i32 * TILE_PX, y as i32 * TILE_PX, 8, 8), lit: false })
    } else {
        None
    }
}

/// Draws one candle's tile: random cells until an empty one comes up, at most
/// `CANDLE_TRIES` of them; then the first empty cell in row-major order; on a
/// grid with no empty cell at all, the last drawn cell is cleared for it.
fn place_candle(map: &mut WorldGrid, rand: &mut ThreadRng) -> (c: Candle)
    requires
        old(map).wf(),
    ensures
        final(map).wf(),
        !c.lit,
        candle_wf(c),
        candle_on_empty(final(map)@, c),
        forall|i: int|
            0 <= i < GRID_CELLS as int && old(map)@[i] == TILE_EMPTY ==> final(map)@[i]
                == TILE_EMPTY,
{
    let mut tries: u32 = 0;
    let mut x: usize = 0;
    let mut y: usize = 0;
    while tries < CANDLE_TRIES
        invariant
            map.wf(),
            tries <= CANDLE_TRIES,
            in_grid(x as int, y as int),
        decreases CANDLE_TRIES - tries,
    {
        x = gen_range(rand, 0, GRID_DIM as i32) as usize;
        y = gen_range(rand, 0, GRID_DIM as i32) as usize;
        if let Some(c) = candle_from_draw(map, x, y) {
            assert(map@[cell_index(x as int, y as int)] == TILE_EMPTY);
            return c;
        }
        tries = tries + 1;
    }
    match map.first_empty() {
        Some((ex, ey)) => {
            x = ex;
            y = ey;
        },
        None => {
            map.set_tile(x, y, TILE_EMPTY);
        },
    }
    let c = Candle { dst: Rect::new(x as i32 * TILE_PX, y as i32 * TILE_PX, 8, 8), lit: false };
    assert(c.dst == candle_rect(x as int, y as int));
    assert(map@[cell_index(x as int, y as int)] == TILE_EMPTY);
    c
}

/// Generates a scene's world: every tile an independent fair choice between
/// empty and wall, the player on a random tile corner, and between 8 and 11
/// unlit candles appended to `candles`, each on a tile that is empty. Returns
/// the draws that place the ghost.
pub fn gen_map(
    player: &mut PointF,
    map: &mut WorldGrid,
    candles: &mut Vec<Candle>,
    rand: &mut ThreadRng,
) -> (spawn: GhostSpawn)
    requires
        old(candles).len() + 11 <= usize::MAX,
    ensures
        final(map).wf(),
        tile_aligned(*final(player)),
        spawn.valid(),
        8 <= final(candles).len() - old(candles).len() <= 11,
        final(candles)@.subrange(0, old(candles).len() as int) == old(candles)@,
        forall|k: int|
            old(candles).len() <= k < final(candles).len() ==> !(#[trigger] final(candles)@[k]).lit
                && candle_wf(final(candles)@[k]) && candle_on_empty(final(map)@, final(candles)@[k]),
{
    let mut tiles: Vec<u8> = Vec::new();
    let mut i: usize = 0;
    while i < GRID_CELLS
        invariant
            i <= GRID_CELLS,
            tiles@.len() == i,
            forall|k: int| 0 <= k < i ==> tiles@[k] <= TILE_WALL,
        decreases GRID_CELLS - i,
    {
        let t = gen_range(rand, 0, 2) as u8;
        tiles.push(t);
        i = i + 1;
    }
    *map = WorldGrid { tiles };

    let px = gen_range(rand, 0, GRID_DIM as i32);
    let py = gen_range(rand, 0, GRID_DIM as i32);
    *player = PointF { x: px * TILE_PX * SUB, y: py * TILE_PX * SUB };
    proof {
        lemma_mod_multiples_basic(px as int, 320);
        lemma_mod_multiples_basic(py as int, 320);
    }

    let spawn = GhostSpawn {
        angle_x: gen_range(rand, 0, 360),
        dist_x: gen_range(rand, 4, 8) * TILE_PX,
        angle_y: gen_range(rand, 0, 360),
        dist_y: gen_range(rand, 4, 8) * TILE_PX,
    };

    let n = gen_range(rand, 8, 12) as usize;
    let ghost start: int = candles.len() as int;
    let mut k: usize = 0;
    while k < n
        invariant
            map.wf(),
            8 <= n <= 11,
            k <= n,
            start == old(candles).len() as int,
            candles.len() == start + k,
            candles@.subrange(0, start as int) == old(candles)@,
            forall|j: int|
                start <= j < candles.len() ==> !(#[trigger] candles@[j]).lit && candle_wf(candles@[j]) && candle_on_empty(
                    map@,
                    candles@[j],
                ),
        decreases n - k,
    {
        let ghost before = map@;
        let c = place_candle(map, rand);
        assert forall|j: int| start <= j < candles.len() implies candle_on_empty(
            map@,
            #[trigger] candles@[j],
        ) by {
            let (x, y) = choose|x: int, y: int|
                #![trigger cell_index(x, y)]
                in_grid(x, y) && candles@[j].dst == candle_rect(x, y) && before[cell_index(x, y)]
                    == TILE_EMPTY;
            assert(map@[cell_index(x, y)] == TILE_EMPTY);
        }
        candles.push(c);
        assert(candles@.subrange(0, start as int) =~= old(candles)@);
        k = k + 1;
    }
    spawn
}

} // verus!
