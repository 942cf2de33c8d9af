use vstd::prelude::*;

verus! {

/// Sub-units per pixel.
pub const SUB: i32 = 20;

/// A point in world space, in sub-units (`SUB` to a pixel).
#[derive(Clone, Copy, Debug, PartialEq, Eq, Structural)]
pub struct PointF {
    pub x: i32,
    pub y: i32,
}

/// An axis-aligned rectangle in whole pixels.
#[derive(Clone, Copy, Debug, PartialEq, Eq, Structural)]
pub struct Rect {
    pub x: i32,
    pub y: i32,
    pub w: i32,
    pub h: i32,
}

/// Two rectangles intersect when both are non-empty and they share an
/// interior point.
pub open spec fn overlaps(a: Rect, b: Rect) -> bool {
    &&& a.w > 0 && a.h > 0 && b.w > 0 && b.h > 0
    &&& a.x < b.x + b.w && b.x < a.x + a.w
    &&& a.y < b.y + b.h && b.y < a.y + a.h
}

/// A pixel coordinate from sub-units, truncated toward zero as a float-to-int
/// cast would.
pub open spec fn px_of(v: int) -> int {
    if v >= 0 {
        v / (SUB as int)
    } else {
        -((-v) / (SUB as int))
    }
}

/// Integer division rounding toward zero, as Rust's `/` does.
pub open spec fn trunc_div(a: int, b: int) -> int {
    if a >= 0 {
        a / b
    } else {
        -((-a) / b)
    }
}

/// Truncating conversion from sub-units to whole pixels.
pub fn to_px(v: i32) -> (r: i32)
    ensures
        r == px_of(v as int),
{
    v / SUB
}

impl Rect {
    pub fn new(x: i32, y: i32, w: i32, h: i32) -> (r: Rect)
        ensures
            r == (Rect { x, y, w, h }),
    {
        Rect { x, y, w, h }
    }

    /// Whether the two rectangles intersect.
    pub fn has_intersection(&self, other: Rect) -> (r: bool)
        ensures
            r == overlaps(*self, other),
    {
        let (ax, ay, aw, ah) = (self.x as i64, self.y as i64, self.w as i64, self.h as i64);
        let (bx, by, bw, bh) = (other.x as i64, other.y as i64, other.w as i64, other.h as i64);
        aw > 0 && ah > 0 && bw > 0 && bh > 0 && ax < bx + bw && bx < ax + aw && ay < by + bh
            && by < ay + ah
    }
}

} // verus!
