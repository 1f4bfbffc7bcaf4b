use vstd::prelude::*;

verus! {

pub open spec fn min3(a: int, b: int, c: int) -> int {
    if a <= b && a <= c {
        a
    } else if b <= c {
        b
    } else {
        c
    }
}

pub open spec fn max3(a: int, b: int, c: int) -> int {
    if a >= b && a >= c {
        a
    } else if b >= c {
        b
    } else {
        c
    }
}

/// `v` clamped into `[0, hi]`.
pub open spec fn clamp_to(v: int, hi: int) -> int {
    if v < 0 {
        0
    } else if v > hi {
        hi
    } else {
        v
    }
}

/// The size in pixels of a frame drawn in a terminal of `columns` x `rows`
/// cells: each cell holds two pixels stacked vertically.
pub fn frame_size(columns: u16, rows: u16) -> (size: (usize, usize))
    ensures
        size.0 == columns,
        size.1 == 2 * rows,
{
    (columns as usize, rows as usize * 2)
}

/// An axis-aligned rectangle of pixels, bounds included.
#[derive(Clone, Copy, Debug, PartialEq, Eq, Structural)]
pub struct PixelRect {
    pub min_x: usize,
    pub max_x: usize,
    pub min_y: usize,
    pub max_y: usize,
}

fn clamp_pixel(v: isize, hi: usize) -> (r: usize)
    ensures
        r == clamp_to(v as int, hi as int),
{
    if v < 0 {
        0
    } else if v as usize > hi {
        hi
    } else {
        v as usize
    }
}

/// The rectangle of pixels of a `width` x `height` screen to scan for a
/// triangle whose corners fall on pixels `a`, `b` and `c`: the bounding box of
/// the corners, clamped to the screen.
pub fn rendering_rectangle(
    a: (isize, isize),
    b: (isize, isize),
    c: (isize, isize),
    width: usize,
    height: usize,
) -> (r: PixelRect)
    requires
        width >= 1,
        height >= 1,
    ensures
        r.min_x == clamp_to(min3(a.0 as int, b.0 as int, c.0 as int), width - 1),
        r.max_x == clamp_to(max3(a.0 as int, b.0 as int, c.0 as int), width - 1),
        r.min_y == clamp_to(min3(a.1 as int, b.1 as int, c.1 as int), height - 1),
        r.max_y == clamp_to(max3(a.1 as int, b.1 as int, c.1 as int), height - 1),
        r.min_x <= r.max_x < width,
        r.min_y <= r.max_y < height,
{
    let lo_x: isize = if a.0 <= b.0 && a.0 <= c.0 {
        a.0
    } else if b.0 <= c.0 {
        b.0
    } else {
        c.0
    };
    let hi_x: isize = if a.0 >= b.0 && a.0 >= c.0 {
        a.0
    } else if b.0 >= c.0 {
        b.0
    } else {
        c.0
    };
    let lo_y: isize = if a.1 <= b.1 && a.1 <= c.1 {
        a.1
    } else if b.1 <= c.1 {
        b.1
    } else {
        c.1
    };
    let hi_y: isize = if a.1 >= b.1 && a.1 >= c.1 {
        a.1
    } else if b.1 >= c.1 {
        b.1
    } else {
        c.1
    };
    PixelRect {
        min_x: clamp_pixel(lo_x, width - 1),
        max_x: clamp_pixel(hi_x, width - 1),
        min_y: clamp_pixel(lo_y, height - 1),
        max_y: clamp_pixel(hi_y, height - 1),
    }
}

/// The scan rectangle is the bounding box of the corners, clamped to the
/// screen: each bound is the clamped coordinate of some corner and lies on
/// the right side of the clamped coordinates of all three.
pub proof fn lemma_rendering_rectangle_bounds_corners(
    a: (isize, isize),
    b: (isize, isize),
    c: (isize, isize),
    width: usize,
    height: usize,
)
    requires
        width >= 1,
        height >= 1,
    ensures
        ({
            let w = width - 1;
            let h = height - 1;
            let min_x = clamp_to(min3(a.0 as int, b.0 as int, c.0 as int), w);
            let max_x = clamp_to(max3(a.0 as int, b.0 as int, c.0 as int), w);
            let min_y = clamp_to(min3(a.1 as int, b.1 as int, c.1 as int), h);
            let max_y = clamp_to(max3(a.1 as int, b.1 as int, c.1 as int), h);
            &&& min_x <= clamp_to(a.0 as int, w) && min_x <= clamp_to(b.0 as int, w)
                && min_x <= clamp_to(c.0 as int, w)
            &&& min_x == clamp_to(a.0 as int, w) || min_x == clamp_to(b.0 as int, w)
                || min_x == clamp_to(c.0 as int, w)
            &&& max_x >= clamp_to(a.0 as int, w) && max_x >= clamp_to(b.0 as int, w)
                && max_x >= clamp_to(c.0 as int, w)
            &&& max_x == clamp_to(a.0 as int, w) || max_x == clamp_to(b.0 as int, w)
                || max_x == clamp_to(c.0 as int, w)
            &&& min_y <= clamp_to(a.1 as int, h) && min_y <= clamp_to(b.1 as int, h)
                && min_y <= clamp_to(c.1 as int, h)
            &&& min_y == clamp_to(a.1 as int, h) || min_y == clamp_to(b.1 as int, h)
                || min_y == clamp_to(c.1 as int, h)
            &&& max_y >= clamp_to(a.1 as int, h) && max_y >= clamp_to(b.1 as int, h)
                && max_y >= clamp_to(c.1 as int, h)
            &&& max_y == clamp_to(a.1 as int, h) || max_y == clamp_to(b.1 as int, h)
                || max_y == clamp_to(c.1 as int, h)
        }),
{
}

/// Where the bounding box of the corners meets the screen, the scan rectangle
/// holds exactly the screen pixels of the box: column `x` of the screen lies
/// in it when some corner is at or left of `x` and some corner at or right of
/// it, and likewise row `y`.
pub proof fn lemma_rendering_rectangle_holds_box_pixels(
    a: (isize, isize),
    b: (isize, isize),
    c: (isize, isize),
    width: usize,
    height: usize,
    x: int,
    y: int,
)
    requires
        width >= 1,
        height >= 1,
        0 <= x < width,
        0 <= y < height,
    ensures
        ({
            let w = width - 1;
            let h = height - 1;
            let min_x = clamp_to(min3(a.0 as int, b.0 as int, c.0 as int), w);
            let max_x = clamp_to(max3(a.0 as int, b.0 as int, c.0 as int), w);
            let min_y = clamp_to(min3(a.1 as int, b.1 as int, c.1 as int), h);
            let max_y = clamp_to(max3(a.1 as int, b.1 as int, c.1 as int), h);
            &&& (a.0 <= w || b.0 <= w || c.0 <= w) && (a.0 >= 0 || b.0 >= 0 || c.0 >= 0) ==> (
            (min_x <= x && x <= max_x) <==> ((a.0 <= x || b.0 <= x || c.0 <= x) && (a.0 >= x
                || b.0 >= x || c.0 >= x)))
            &&& (a.1 <= h || b.1 <= h || c.1 <= h) && (a.1 >= 0 || b.1 >= 0 || c.1 >= 0) ==> (
            (min_y <= y && y <= max_y) <==> ((a.1 <= y || b.1 <= y || c.1 <= y) && (a.1 >= y
                || b.1 >= y || c.1 >= y)))
        }),
{
}

} // verus!
