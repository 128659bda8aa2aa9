//! Screen rectangles and the pixel arithmetic of one axis of a grid.
//!
//! A grid splits the span `lo..hi` of an axis into `n` slots of equal
//! extent; the remainder of the division is left unused at the far edge.
use vstd::prelude::*;

verus! {

/// A screen rectangle in pixels.
#[derive(Clone, Copy, Debug, PartialEq, Eq, Structural)]
pub struct Rect {
    pub left: i32,
    pub top: i32,
    pub right: i32,
    pub bottom: i32,
}

impl Rect {
    /// Horizontal extent; negative for an inverted rectangle.
    pub open spec fn spec_width(self) -> int {
        self.right - self.left
    }

    /// Vertical extent; negative for an inverted rectangle.
    pub open spec fn spec_height(self) -> int {
        self.bottom - self.top
    }

    /// A rectangle that can carry a grid: not inverted, and with extents
    /// that fit the pixel type.
    pub open spec fn spec_is_area(self) -> bool {
        &&& 0 <= self.spec_width() <= i32::MAX
        &&& 0 <= self.spec_height() <= i32::MAX
    }

    pub fn width(self) -> (w: i64)
        ensures
            w == self.spec_width(),
    {
        let hi: i64 = self.right as i64;
        let lo: i64 = self.left as i64;
        hi - lo
    }

    pub fn height(self) -> (h: i64)
        ensures
            h == self.spec_height(),
    {
        let hi: i64 = self.bottom as i64;
        let lo: i64 = self.top as i64;
        hi - lo
    }

    pub fn is_area(self) -> (b: bool)
        ensures
            b == self.spec_is_area(),
    {
        let w: i64 = self.width();
        let h: i64 = self.height();
        0 <= w && w <= 2147483647 && 0 <= h && h <= 2147483647
    }
}

/// Extent of one slot when `lo..hi` is split into `n` slots.
pub open spec fn slot_extent(lo: int, hi: int, n: int) -> int {
    (hi - lo) / n
}

/// Where slot `k` starts.
pub open spec fn slot_start(lo: int, hi: int, n: int, k: int) -> int {
    lo + k * slot_extent(lo, hi, n)
}

/// The middle pixel of slot `k`.
pub open spec fn slot_middle(lo: int, hi: int, n: int, k: int) -> int {
    slot_start(lo, hi, n, k) + slot_extent(lo, hi, n) / 2
}

/// Half of `a`, rounded toward zero.
pub open spec fn half_toward_zero(a: int) -> int {
    if a >= 0 {
        a / 2
    } else {
        -((-a) / 2)
    }
}

/// Where something of extent `size` starts when it is centered in slot `k`
/// and then pushed back inside `lo..hi`. `None` when `size` is no extent or
/// is larger than the span.
pub open spec fn centered_start(lo: int, hi: int, n: int, k: int, size: int) -> Option<int> {
    let wanted = slot_start(lo, hi, n, k) + half_toward_zero(slot_extent(lo, hi, n) - size);
    let last = hi - size;
    if size < 0 || lo > last {
        None
    } else if wanted < lo {
        Some(lo)
    } else if wanted > last {
        Some(last)
    } else {
        Some(wanted)
    }
}

/// Slots tile the span from its start: slot `k` of `n` lies inside
/// `lo..hi`, whatever the remainder of the division.
pub proof fn slot_in_span(lo: int, hi: int, n: int, k: int)
    requires
        lo <= hi,
        0 < n,
        0 <= k < n,
    ensures
        0 <= slot_extent(lo, hi, n) <= hi - lo,
        lo <= slot_start(lo, hi, n, k),
        slot_start(lo, hi, n, k) + slot_extent(lo, hi, n) <= hi,
        slot_start(lo, hi, n, k) <= slot_middle(lo, hi, n, k) <= hi,
{
    let w = hi - lo;
    let e = w / n;
    assert(0 <= e && e * n <= w && e <= w) by (nonlinear_arith)
        requires
            0 <= w,
            0 < n,
            e == w / n,
    ;
    assert(0 <= k * e && (k + 1) * e <= e * n) by (nonlinear_arith)
        requires
            0 <= e,
            0 <= k < n,
    ;
    assert((k + 1) * e == k * e + e) by (nonlinear_arith);
}

pub fn axis_slot_extent(lo: i32, hi: i32, n: u32) -> (e: i32)
    requires
        0 <= hi - lo <= i32::MAX,
        n > 0,
    ensures
        e == slot_extent(lo as int, hi as int, n as int),
{
    proof {
        slot_in_span(lo as int, hi as int, n as int, 0);
    }
    let span: i64 = hi as i64 - lo as i64;
    let e: i64 = span / (n as i64);
    e as i32
}

pub fn axis_slot_start(lo: i32, hi: i32, n: u32, k: u32) -> (x: i32)
    requires
        0 <= hi - lo <= i32::MAX,
        k < n,
    ensures
        x == slot_start(lo as int, hi as int, n as int, k as int),
{
    let e: i32 = axis_slot_extent(lo, hi, n);
    proof {
        slot_in_span(lo as int, hi as int, n as int, k as int);
        assert(0 <= (k as int) * (e as int) <= (hi - lo)) by (nonlinear_arith)
            requires
                0 <= e,
                0 <= k,
                lo + (k as int) * (e as int) + e <= hi,
        ;
    }
    let off: i64 = (k as i64) * (e as i64);
    let x: i64 = lo as i64 + off;
    x as i32
}

pub fn axis_slot_middle(lo: i32, hi: i32, n: u32, k: u32) -> (x: i32)
    requires
        0 <= hi - lo <= i32::MAX,
        k < n,
    ensures
        x == slot_middle(lo as int, hi as int, n as int, k as int),
{
    let e: i32 = axis_slot_extent(lo, hi, n);
    let s: i32 = axis_slot_start(lo, hi, n, k);
    proof {
        slot_in_span(lo as int, hi as int, n as int, k as int);
    }
    s + e / 2
}

pub fn axis_centered_start(lo: i32, hi: i32, n: u32, k: u32, size: i64) -> (r: Option<i32>)
    requires
        0 <= hi - lo <= i32::MAX,
        k < n,
        -0x1_0000_0000 <= size <= 0x1_0000_0000,
    ensures
        match r {
            Some(x) => centered_start(lo as int, hi as int, n as int, k as int, size as int)
                == Some(x as int),
            None => centered_start(lo as int, hi as int, n as int, k as int, size as int) is None,
        },
{
    let last: i64 = hi as i64 - size;
    let lo64: i64 = lo as i64;
    if size < 0 || lo64 > last {
        return None;
    }
    let e: i32 = axis_slot_extent(lo, hi, n);
    let s: i32 = axis_slot_start(lo, hi, n, k);
    let slack: i64 = e as i64 - size;
    let half: i64 = if slack >= 0 {
        slack / 2
    } else {
        -((-slack) / 2)
    };
    let wanted: i64 = s as i64 + half;
    let at: i64 = if wanted < lo64 {
        lo64
    } else if wanted > last {
        last
    } else {
        wanted
    };
    Some(at as i32)
}

} // verus!
