use vstd::prelude::*;
use crate::geom::{Rect, overlaps};
use crate::grid::{Candle, candle_wf};
use crate::ghost::{Specter, bumped, speed_after};

verus! {

/// Progress is counted in hundredths; one frame of holding adds one.
/// A candle is lit on the frame the count reaches `PROGRESS_FULL`.
pub const PROGRESS_FULL: u32 = 100;

/// A progress bar to draw above a candle that is being lit, in world pixels:
/// the red background is `width` wide, the green part `filled`.
/// `completed` tells that this frame lit the candle.
#[derive(Clone, Copy, Debug, PartialEq, Eq, Structural)]
pub struct ProgressBar {
    pub x: i32,
    pub y: i32,
    pub width: i32,
    pub filled: i32,
    pub completed: bool,
}

/// The player is lighting `c` this frame.
pub open spec fn engaged(c: Candle, player: Rect, interact: bool) -> bool {
    overlaps(c.dst, player) && !c.lit && interact
}

/// One candle's frame: the candle, the shared progress and the ghost's
/// speed after it. Progress accumulates while the player holds the interact
/// key inside the candle; on reaching full the candle is lit, progress
/// restarts and the ghost speeds up. Letting go of the key drops progress
/// to nothing.
pub open spec fn candle_step(c: Candle, progress: int, spd: int, player: Rect, interact: bool) -> (
    Candle,
    int,
    int,
) {
    if engaged(c, player, interact) {
        if progress + 1 >= PROGRESS_FULL {
            (Candle { lit: true, ..c }, 0, bumped(spd))
        } else {
            (c, progress + 1, spd)
        }
    } else if !interact {
        (c, 0, spd)
    } else {
        (c, progress, spd)
    }
}

/// The bar drawn for a candle engaged with `progress` hundredths.
pub open spec fn bar_of(c: Candle, progress: int) -> ProgressBar {
    ProgressBar {
        x: c.dst.x,
        y: (c.dst.y - 8) as i32,
        width: (c.dst.w - 2) as i32,
        filled: (progress * (c.dst.w - 2) / 100) as i32,
        completed: progress >= PROGRESS_FULL,
    }
}

/// All candles in order, each after the one before: the candles, the
/// progress, the speed, and the bars to draw.
pub open spec fn minigame_fold(
    cs: Seq<Candle>,
    progress: int,
    spd: int,
    player: Rect,
    interact: bool,
) -> (Seq<Candle>, int, int, Seq<ProgressBar>)
    decreases cs.len(),
{
    if cs.len() == 0 {
        (Seq::empty(), progress, spd, Seq::empty())
    } else {
        let prev = minigame_fold(cs.drop_last(), progress, spd, player, interact);
        let st = candle_step(cs.last(), prev.1, prev.2, player, interact);
        let bars = if engaged(cs.last(), player, interact) {
            prev.3.push(bar_of(cs.last(), prev.1 + 1))
        } else {
            prev.3
        };
        (prev.0.push(st.0), st.1, st.2, bars)
    }
}

/// `n` frames of holding the interact key at one candle.
pub open spec fn hold_frames(c: Candle, progress: int, spd: int, player: Rect, n: nat) -> (
    Candle,
    int,
    int,
)
    decreases n,
{
    if n == 0 {
        (c, progress, spd)
    } else {
        let prev = hold_frames(c, progress, spd, player, (n - 1) as nat);
        candle_step(prev.0, prev.1, prev.2, player, true)
    }
}

/// Holding the key inside an unlit candle from no progress: after fewer
/// than 100 frames the candle is still unlit with one hundredth per frame;
/// the 100th frame lights it, restarts progress and speeds up the ghost.
pub proof fn lemma_hundred_frames_light(c: Candle, spd: int, player: Rect, n: nat)
    requires
        overlaps(c.dst, player),
        !c.lit,
        n <= 100,
    ensures
        n < 100 ==> hold_frames(c, 0, spd, player, n) == (c, n as int, spd),
        n == 100 ==> hold_frames(c, 0, spd, player, n) == (Candle { lit: true, ..c }, 0int, bumped(spd)),
    decreases n,
{
    if n > 0 {
        lemma_hundred_frames_light(c, spd, player, (n - 1) as nat);
    }
}

/// Letting go of the key, at any progress, leaves nothing of it: a later
/// hold starts again from zero.
pub proof fn lemma_release_resets(c: Candle, progress: int, spd: int, player: Rect)
    ensures
        candle_step(c, progress, spd, player, false) == (c, 0int, spd),
{
}

/// How many of `bars` lit their candle.
pub open spec fn completions(bars: Seq<ProgressBar>) -> nat
    decreases bars.len(),
{
    if bars.len() == 0 {
        0
    } else {
        completions(bars.drop_last()) + if bars.last().completed { 1nat } else { 0nat }
    }
}

/// A frame of the minigame with a single candle is that candle's own step,
/// so a run of frames at one candle follows `hold_frames`.
pub proof fn lemma_single_candle_frame(c: Candle, progress: int, spd: int, player: Rect, interact: bool)
    ensures
        ({
            let f = minigame_fold(seq![c], progress, spd, player, interact);
            let st = candle_step(c, progress, spd, player, interact);
            f.0 == seq![st.0] && f.1 == st.1 && f.2 == st.2
        }),
{
    reveal_with_fuel(minigame_fold, 2);
    assert(seq![c].drop_last() =~= Seq::<Candle>::empty());
    assert(seq![c].last() == c);
    assert(Seq::<Candle>::empty().push(candle_step(c, progress, spd, player, interact).0) =~= seq![
        candle_step(c, progress, spd, player, interact).0,
    ]);
}

/// Each candle a frame lights moves the ghost one step along its speed
/// ramp: from the speed after `n` lit candles, a frame that lights `k` more
/// leaves the speed after `n + k`.
pub proof fn lemma_frame_ramps_speed(cs: Seq<Candle>, progress: int, n: nat, player: Rect, interact: bool)
    ensures
        ({
            let f = minigame_fold(cs, progress, speed_after(n), player, interact);
            f.2 == speed_after(n + completions(f.3))
        }),
    decreases cs.len(),
{
    if cs.len() > 0 {
        lemma_frame_ramps_speed(cs.drop_last(), progress, n, player, interact);
        let prev = minigame_fold(cs.drop_last(), progress, speed_after(n), player, interact);
        let k = completions(prev.3);
        if engaged(cs.last(), player, interact) {
            let b = bar_of(cs.last(), prev.1 + 1);
            assert(prev.3.push(b).drop_last() =~= prev.3);
            if prev.1 + 1 >= PROGRESS_FULL {
                assert(speed_after(n + k + 1) == bumped(speed_after(n + k)));
            }
        }
    }
}

/// Runs one frame of the minigame over every candle in order, for a player
/// whose box is `player`, with the interact key held or not. The ghost
/// speeds up once for each candle lit. Returns the bars to draw.
pub fn update_candles(
    candles: &mut Vec<Candle>,
    progress: &mut u32,
    ghost: &mut Specter,
    player: Rect,
    interact: bool,
) -> (bars: Vec<ProgressBar>)
    requires
        *old(progress) < PROGRESS_FULL,
        old(ghost).wf(),
        forall|k: int| 0 <= k < old(candles).len() ==> candle_wf(#[trigger] old(candles)@[k]),
    ensures
        ({
            let f = minigame_fold(old(candles)@, *old(progress) as int, old(ghost).spd as int, player, interact);
            &&& final(candles)@ == f.0
            &&& *final(progress) as int == f.1
            &&& final(ghost).spd as int == f.2
            &&& bars@ == f.3
        }),
        *final(progress) < PROGRESS_FULL,
        final(ghost).wf(),
        final(ghost).pos == old(ghost).pos,
        final(ghost).alpha == old(ghost).alpha,
        old(ghost).spd <= final(ghost).spd,
        forall|k: int| 0 <= k < final(candles).len() ==> candle_wf(#[trigger] final(candles)@[k]),
{
    let ghost old_cs = candles@;
    let ghost prog0 = *progress as int;
    let ghost s0 = ghost.spd as int;
    let mut bars: Vec<ProgressBar> = Vec::new();
    let mut i: usize = 0;
    while i < candles.len()
        invariant
            candles.len() == old_cs.len(),
            i <= candles.len(),
            forall|k: int| 0 <= k < old_cs.len() ==> candle_wf(#[trigger] old_cs[k]),
            ({
                let f = minigame_fold(old_cs.subrange(0, i as int), prog0, s0, player, interact);
                &&& candles@.subrange(0, i as int) == f.0
                &&& *progress as int == f.1
                &&& ghost.spd as int == f.2
                &&& bars@ == f.3
            }),
            forall|k: int| i <= k < candles.len() ==> candles@[k] == old_cs[k],
            forall|k: int| 0 <= k < candles.len() ==> candle_wf(#[trigger] candles@[k]),
            *progress < PROGRESS_FULL,
            ghost.wf(),
            ghost.pos == old(ghost).pos,
            ghost.alpha == old(ghost).alpha,
            s0 <= ghost.spd,
        decreases candles.len() - i,
    {
        let ghost before = candles@;
        assert(old_cs.subrange(0, i as int + 1).drop_last() =~= old_cs.subrange(0, i as int));
        let c = candles[i];
        if player.has_intersection(c.dst) && !c.lit && interact {
            *progress = *progress + 1;
            let w2 = (c.dst.w - 2) as i64;
            let pr = *progress as i64;
            assert(0 <= pr * w2 <= 100 * 1022) by (nonlinear_arith)
                requires
                    0 <= pr <= 100,
                    0 <= w2 <= 1022,
            ;
            bars.push(
                ProgressBar {
                    x: c.dst.x,
                    y: c.dst.y - 8,
                    width: c.dst.w - 2,
                    filled: (pr * w2 / 100) as i32,
                    completed: *progress >= PROGRESS_FULL,
                },
            );
            if *progress >= PROGRESS_FULL {
                ghost.speed_up();
                *progress = 0;
                candles.set(i, Candle { lit: true, ..c });
            }
        } else if !interact {
            *progress = 0;
        }
        proof {
            assert(overlaps(player, c.dst) == overlaps(c.dst, player));
        }
        assert(candles@.subrange(0, i as int + 1) =~= candles@.subrange(0, i as int).push(candles@[i as int]));
        assert(old_cs.subrange(0, i as int + 1).last() == old_cs[i as int]);
        i = i + 1;
    }
    assert(old_cs.subrange(0, old_cs.len() as int) =~= old_cs);
    assert(candles@.subrange(0, candles.len() as int) =~= candles@);
    bars
}

} // verus!
