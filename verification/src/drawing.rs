//! Raster spans of the drawing helpers: the horizontal runs that fill a
//! box, a circle or a box with rounded corners.

use crate::render::Rect;
use vstd::prelude::*;

verus! {

/// `root` is the integer square root of `n`: the largest integer whose
/// square is at most `n`.
pub open spec fn is_isqrt(n: int, root: int) -> bool {
    &&& 0 <= root
    &&& root * root <= n
    &&& n < (root + 1) * (root + 1)
}

/// Integer square root, floor(sqrt(n)).
pub fn isqrt(n: u32) -> (root: u32)
    ensures
        is_isqrt(n as int, root as int),
{
    let mut low: u64 = 0;
    let mut high: u64 = 65536;
    assert(high * high > n) by (nonlinear_arith)
        requires high == 65536, n <= u32::MAX;
    while high - low > 1
        invariant
            low < high <= 65536,
            low * low <= n,
            n < high * high,
        decreases high - low,
    {
        let middle = low + (high - low) / 2;
        assert(middle * middle <= 65536 * 65536) by (nonlinear_arith)
            requires middle <= 65536;
        if middle * middle <= n as u64 {
            low = middle;
        } else {
            high = middle;
        }
    }
    assert(high == low + 1);
    low as u32
}

/// The integer square root is unique: two roots of the same number are equal.
pub proof fn lemma_isqrt_unique(n: int, a: int, b: int)
    requires
        is_isqrt(n, a),
        is_isqrt(n, b),
    ensures
        a == b,
{
    if a < b {
        assert((a + 1) * (a + 1) <= b * b) by (nonlinear_arith)
            requires 0 <= a < b;
    } else if b < a {
        assert((b + 1) * (b + 1) <= a * a) by (nonlinear_arith)
            requires 0 <= b < a;
    }
}

/// The rectangle filled by a box with corners `(x0, y0)` and `(x1, y1)`,
/// both included; nothing when the corners are out of order.
pub fn filled_box_rect(x0: i16, y0: i16, x1: i16, y1: i16) -> (area: Option<Rect>)
    requires
        x1 >= x0 ==> x1 - x0 + 1 <= i16::MAX,
        y1 >= y0 ==> y1 - y0 + 1 <= i16::MAX,
    ensures
        area is None <==> (x1 < x0 || y1 < y0),
        area matches Some(r) ==> r.x == x0 && r.y == y0 && r.width == x1 - x0 + 1 && r.height
            == y1 - y0 + 1,
{
    if x1 < x0 || y1 < y0 {
        return None;
    }
    Some(
        Rect {
            x: x0 as i32,
            y: y0 as i32,
            width: (x1 - x0 + 1) as u32,
            height: (y1 - y0 + 1) as u32,
        },
    )
}

/// The runs `(x_left, x_right, y)` of a filled circle: one per row from
/// `center_y - radius` to `center_y + radius`, each as wide as the circle at
/// that row (the integer square root of `radius² - dy²` on each side).
pub fn circle_spans(center_x: i16, center_y: i16, radius: i16) -> (spans: Vec<(i16, i16, i16)>)
    requires
        radius > i16::MIN,
        radius >= 0 ==> i16::MIN <= center_x - radius && center_x + radius <= i16::MAX,
        radius >= 0 ==> i16::MIN <= center_y - radius && center_y + radius <= i16::MAX,
    ensures
        spans.len() == (if radius >= 0 { 2 * radius + 1 } else { 0 }),
        forall|k: int|
            #![trigger spans[k]]
            0 <= k < spans.len() ==> {
                let dy = k - radius;
                let half = center_x - spans[k].0;
                &&& spans[k].2 == center_y + dy
                &&& spans[k].1 == center_x + half
                &&& is_isqrt(radius * radius - dy * dy, half)
            },
{
    let mut spans: Vec<(i16, i16, i16)> = Vec::new();
    if radius < 0 {
        return spans;
    }
    let r: i32 = radius as i32;
    let mut dy: i32 = -r;
    while dy <= r
        invariant
            r == radius,
            0 <= r,
            -r <= dy <= r + 1,
            spans.len() == dy + r,
            i16::MIN <= center_x - r && center_x + r <= i16::MAX,
            i16::MIN <= center_y - r && center_y + r <= i16::MAX,
            forall|k: int|
            #![trigger spans[k]]
                0 <= k < spans.len() ==> {
                    let dy = k - radius;
                    let half = center_x - spans[k].0;
                    &&& spans[k].2 == center_y + dy
                    &&& spans[k].1 == center_x + half
                    &&& is_isqrt(radius * radius - dy * dy, half)
                },
        decreases r + 1 - dy,
    {
        assert(0 <= r * r - dy * dy <= r * r <= 32767 * 32767) by (nonlinear_arith)
            requires -r <= dy <= r, r <= 32767;
        let inside: i32 = r * r - dy * dy;
        let half = isqrt(inside as u32);
        assert(half <= r) by (nonlinear_arith)
            requires half * half <= inside, inside <= r * r, 0 <= r, 0 <= half;
        let half = half as i32;
        spans.push(((center_x as i32 - half) as i16, (center_x as i32 + half) as i16, (center_y as i32 + dy) as i16));
        dy += 1;
    }
    spans
}

/// The inset of a rounded box's row at distance `relative` from the row
/// where the corner arc ends: `radius` minus the arc's half width there.
pub open spec fn corner_inset(radius: int, relative: int, inset: int) -> bool {
    if relative == 0 {
        inset == 0
    } else {
        is_isqrt(radius * radius - relative * relative, radius - inset)
    }
}

/// Distance of row `y` from the straight middle part of a rounded box with
/// rows `y0..=y1` and corner radius `radius`.
pub open spec fn corner_distance(y0: int, y1: int, radius: int, y: int) -> int {
    if y < y0 + radius {
        y0 + radius - y
    } else if y > y1 - radius {
        y - (y1 - radius)
    } else {
        0
    }
}

/// Corner radius actually used for a box: the requested radius, at least 0
/// and at most half the box's width and half its height.
pub open spec fn clamped_radius(x0: int, y0: int, x1: int, y1: int, radius: int) -> int {
    let r0 = if radius < 0 { 0 } else { radius };
    let r1 = if r0 > (x1 - x0) / 2 { (x1 - x0) / 2 } else { r0 };
    if r1 > (y1 - y0) / 2 { (y1 - y0) / 2 } else { r1 }
}

/// The runs `(x_left, x_right, y)` of a filled box with rounded corners:
/// one per row from `y0` to `y1`, inset on both sides by the corner arc.
pub fn rounded_box_spans(x0: i16, y0: i16, x1: i16, y1: i16, radius: i16) -> (spans: Vec<
    (i16, i16, i16),
>)
    requires
        x1 >= x0 ==> x1 - x0 <= i16::MAX,
        y1 >= y0 ==> y1 - y0 <= i16::MAX,
    ensures
        (x1 < x0 || y1 < y0) ==> spans.len() == 0,
        !(x1 < x0 || y1 < y0) ==> spans.len() == y1 - y0 + 1,
        forall|k: int|
            #![trigger spans[k]]
            0 <= k < spans.len() ==> {
                let r = clamped_radius(x0 as int, y0 as int, x1 as int, y1 as int, radius as int);
                let y = y0 + k;
                let inset = spans[k].0 - x0;
                &&& spans[k].2 == y
                &&& spans[k].1 == x1 - inset
                &&& corner_inset(r, corner_distance(y0 as int, y1 as int, r, y), inset)
            },
{
    let mut spans: Vec<(i16, i16, i16)> = Vec::new();
    if x1 < x0 || y1 < y0 {
        return spans;
    }
    let half_w: i32 = (x1 as i32 - x0 as i32) / 2;
    let half_h: i32 = (y1 as i32 - y0 as i32) / 2;
    let mut r: i32 = if radius < 0 { 0 } else { radius as i32 };
    if r > half_w {
        r = half_w;
    }
    if r > half_h {
        r = half_h;
    }
    assert(r == clamped_radius(x0 as int, y0 as int, x1 as int, y1 as int, radius as int));
    let top: i32 = y0 as i32;
    let bottom: i32 = y1 as i32;
    let mut y: i32 = top;
    while y <= bottom
        invariant
            top == y0,
            bottom == y1,
            top <= bottom,
            x0 <= x1,
            x1 - x0 <= i16::MAX,
            top <= y <= bottom + 1,
            0 <= r,
            2 * r <= x1 - x0,
            2 * r <= y1 - y0,
            r == clamped_radius(x0 as int, y0 as int, x1 as int, y1 as int, radius as int),
            spans.len() == y - top,
            forall|k: int|
            #![trigger spans[k]]
                0 <= k < spans.len() ==> {
                    let y = y0 + k;
                    let inset = spans[k].0 - x0;
                    &&& spans[k].2 == y
                    &&& spans[k].1 == x1 - inset
                    &&& corner_inset(r as int, corner_distance(y0 as int, y1 as int, r as int, y), inset)
                },
        decreases bottom + 1 - y,
    {
        let relative: i32 = if y < top + r {
            top + r - y
        } else if y > bottom - r {
            y - (bottom - r)
        } else {
            0
        };
        assert(0 <= relative <= r);
        let inset: i32 = if relative == 0 {
            0
        } else {
            assert(0 <= r * r - relative * relative <= r * r <= 32767 * 32767) by (nonlinear_arith)
                requires 0 <= relative <= r, r <= 32767;
            let inside: i32 = r * r - relative * relative;
            let half = isqrt(inside as u32);
            assert(half <= r) by (nonlinear_arith)
                requires half * half <= inside, inside <= r * r, 0 <= r, 0 <= half;
            r - half as i32
        };
        assert(0 <= inset <= r);
        spans.push(((x0 as i32 + inset) as i16, (x1 as i32 - inset) as i16, y as i16));
        y += 1;
    }
    spans
}

/// The strokes of a small arrow centred on `(center_x, center_y)` that points
/// along `(direction_x, direction_y)`: the shaft from `center - 5 * direction`
/// to the tip `center + 5 * direction`, then two head strokes from the tip to
/// `center + direction` plus and minus `3 * (-direction_y, direction_x)`.
/// Each stroke is `(x0, y0, x1, y1)`.
pub fn arrow_segments(center_x: i16, center_y: i16, direction_x: i16, direction_y: i16) -> (strokes: [(
    i16,
    i16,
    i16,
    i16,
); 3])
    requires
        i16::MIN <= 5 * direction_x <= i16::MAX,
        i16::MIN <= 5 * direction_y <= i16::MAX,
        i16::MIN <= center_x - 5 * direction_x <= i16::MAX,
        i16::MIN <= center_y - 5 * direction_y <= i16::MAX,
        i16::MIN <= center_x + 5 * direction_x <= i16::MAX,
        i16::MIN <= center_y + 5 * direction_y <= i16::MAX,
        i16::MIN <= center_x + direction_x - 3 * direction_y <= i16::MAX,
        i16::MIN <= center_y + direction_y + 3 * direction_x <= i16::MAX,
        i16::MIN <= center_x + direction_x + 3 * direction_y <= i16::MAX,
        i16::MIN <= center_y + direction_y - 3 * direction_x <= i16::MAX,
    ensures
        strokes[0] == (
            (center_x - 5 * direction_x) as i16,
            (center_y - 5 * direction_y) as i16,
            (center_x + 5 * direction_x) as i16,
            (center_y + 5 * direction_y) as i16,
        ),
        strokes[1] == (
            (center_x + 5 * direction_x) as i16,
            (center_y + 5 * direction_y) as i16,
            (center_x + direction_x - 3 * direction_y) as i16,
            (center_y + direction_y + 3 * direction_x) as i16,
        ),
        strokes[2] == (
            (center_x + 5 * direction_x) as i16,
            (center_y + 5 * direction_y) as i16,
            (center_x + direction_x + 3 * direction_y) as i16,
            (center_y + direction_y - 3 * direction_x) as i16,
        ),
{
    let (cx, cy, dx, dy) = (center_x as i32, center_y as i32, direction_x as i32, direction_y as i32);
    let start_x = cx - dx * 5;
    let start_y = cy - dy * 5;
    let end_x = cx + dx * 5;
    let end_y = cy + dy * 5;
    let base_x = end_x - dx * 4;
    let base_y = end_y - dy * 4;
    let perpendicular_x = -dy * 3;
    let perpendicular_y = dx * 3;
    [
        (start_x as i16, start_y as i16, end_x as i16, end_y as i16),
        (
            end_x as i16,
            end_y as i16,
            (base_x + perpendicular_x) as i16,
            (base_y + perpendicular_y) as i16,
        ),
        (
            end_x as i16,
            end_y as i16,
            (base_x - perpendicular_x) as i16,
            (base_y - perpendicular_y) as i16,
        ),
    ]
}

} // verus!
