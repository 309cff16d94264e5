//! Straight lines on a pixel grid.

use vstd::prelude::*;

use crate::ui::canvas;
use crate::ui::canvas::{MapImage, Pixel};

verus! {

/// `n * k / m`, rounded to the nearest integer, halves upwards.
pub open spec fn rounded(n: int, m: int, k: int) -> int {
    (2 * (n * k) + m) / (2 * m)
}

/// The distance of two integers.
pub open spec fn distance(a: int, b: int) -> int {
    if a < b {
        b - a
    } else {
        a - b
    }
}

/// The integer `d` away from `a`, in the direction of `b`.
pub open spec fn towards(a: int, b: int, d: int) -> int {
    if a < b {
        a + d
    } else {
        a - d
    }
}

/// How many steps a line takes: as many as its longer side has.
pub open spec fn steps(x0: int, y0: int, x1: int, y1: int) -> int {
    if distance(x0, x1) >= distance(y0, y1) {
        distance(x0, x1)
    } else {
        distance(y0, y1)
    }
}

/// The point of a line after `k` steps: `k` pixels along the longer side, and
/// as far along the shorter one as the ideal line is there, rounded.
pub open spec fn line_point(x0: int, y0: int, x1: int, y1: int, k: int) -> (int, int) {
    let dx = distance(x0, x1);
    let dy = distance(y0, y1);
    if dx == 0 && dy == 0 {
        (x0, y0)
    } else if dx >= dy {
        (towards(x0, x1, k), towards(y0, y1, rounded(dy, dx, k)))
    } else {
        (towards(x0, x1, rounded(dx, dy, k)), towards(y0, y1, k))
    }
}

/// The points of a line, from its start to its end.
pub open spec fn line(x0: int, y0: int, x1: int, y1: int) -> Seq<(int, int)> {
    Seq::new((steps(x0, y0, x1, y1) + 1) as nat, |k: int| line_point(x0, y0, x1, y1, k))
}

/// Bounds of the quotient in [`rounded`].
proof fn rounded_bounds(n: int, m: int, k: int)
    requires
        m > 0,
    ensures
        2 * (m * rounded(n, m, k)) <= 2 * (n * k) + m,
        2 * (n * k) + m < 2 * (m * rounded(n, m, k)) + 2 * m,
{
    let a = 2 * (n * k) + m;
    let d = 2 * m;
    let q = a / d;
    vstd::arithmetic::div_mod::lemma_fundamental_div_mod(a, d);
    assert(d * q == 2 * (m * q)) by (nonlinear_arith)
        requires
            d == 2 * m,
    ;
    assert(0 <= a % d < d) by {
        vstd::arithmetic::div_mod::lemma_mod_bound(a, d);
    }
}

/// An integer within the bounds of a rounded quotient is that quotient.
proof fn rounded_is(n: int, m: int, k: int, r: int)
    requires
        m > 0,
        2 * (m * r) <= 2 * (n * k) + m,
        2 * (n * k) + m < 2 * (m * r) + 2 * m,
    ensures
        rounded(n, m, k) == r,
{
    rounded_bounds(n, m, k);
    let q = rounded(n, m, k);
    assert(m * q < m * r + m);
    assert(m * r < m * q + m);
    assert(q == r) by (nonlinear_arith)
        requires
            m > 0,
            m * q < m * r + m,
            m * r < m * q + m,
    ;
}

/// A rounded position on the shorter side stays between its ends.
proof fn rounded_in_range(n: int, m: int, k: int)
    requires
        0 <= n <= m,
        0 < m,
        0 <= k <= m,
    ensures
        0 <= rounded(n, m, k) <= n,
        rounded(n, m, 0) == 0,
        rounded(n, m, m) == n,
{
    rounded_bounds(n, m, k);
    let q = rounded(n, m, k);
    assert(0 <= n * k <= n * m) by (nonlinear_arith)
        requires
            0 <= n,
            0 <= k <= m,
    ;
    assert(m * n == n * m) by (nonlinear_arith);
    assert(q > -1) by (nonlinear_arith)
        requires
            0 < m,
            0 <= n * k,
            2 * (n * k) + m < 2 * (m * q) + 2 * m,
    ;
    assert(q < n + 1) by (nonlinear_arith)
        requires
            0 < m,
            n * k <= n * m,
            2 * (m * q) <= 2 * (n * k) + m,
    ;
    assert(n * 0 == 0);
    assert(m * 0 == 0);
    rounded_is(n, m, 0, 0);
    rounded_is(n, m, m, n);
}

/// The error term that decides the next step, after `k` steps along the longer
/// side `m` and `r` along the shorter side `n`.
spec fn error_term(n: int, m: int, k: int, r: int) -> int {
    m * (r + 1) - n * (k + 1)
}

/// The error term tells both steps: along the longer side always, along the
/// shorter side exactly when the rounded position moves on.
proof fn error_term_decides(n: int, m: int, k: int)
    requires
        0 <= n <= m,
        0 < m,
        0 <= k,
    ensures
        ({
            let r = rounded(n, m, k);
            let e = error_term(n, m, k, r);
            let s = rounded(n, m, k + 1);
            &&& 2 * e >= -n
            &&& 2 * e <= m ==> s == r + 1
            &&& 2 * e > m ==> s == r
            &&& error_term(n, m, k + 1, s) == e - n + if s == r {
                0
            } else {
                m
            }
            &&& -2 * m <= e <= 2 * m
        }),
{
    let r = rounded(n, m, k);
    let e = error_term(n, m, k, r);
    rounded_bounds(n, m, k);
    assert(m * (r + 1) == m * r + m) by (nonlinear_arith);
    assert(m * (r + 2) == m * r + 2 * m) by (nonlinear_arith);
    assert(n * (k + 1) == n * k + n) by (nonlinear_arith);
    assert(n * (k + 2) == n * k + 2 * n) by (nonlinear_arith);
    if 2 * e <= m {
        rounded_is(n, m, k + 1, r + 1);
    } else {
        rounded_is(n, m, k + 1, r);
    }
}

/// Where a line starts and ends, and that it never leaves the box around both.
pub proof fn line_in_box(x0: int, y0: int, x1: int, y1: int, k: int)
    requires
        0 <= k <= steps(x0, y0, x1, y1),
    ensures
        line_point(x0, y0, x1, y1, 0) == (x0, y0),
        line_point(x0, y0, x1, y1, steps(x0, y0, x1, y1)) == (x1, y1),
        ({
            let p = line_point(x0, y0, x1, y1, k);
            &&& (x0 <= p.0 <= x1 || x1 <= p.0 <= x0)
            &&& (y0 <= p.1 <= y1 || y1 <= p.1 <= y0)
            &&& k < steps(x0, y0, x1, y1) ==> p != (x1, y1)
        }),
{
    let dx = distance(x0, x1);
    let dy = distance(y0, y1);
    if dx == 0 && dy == 0 {
    } else if dx >= dy {
        rounded_in_range(dy, dx, k);
    } else {
        rounded_in_range(dx, dy, k);
    }
}

/// Consecutive points of a line touch: neither coordinate changes by more than
/// one.
pub proof fn line_is_connected(x0: int, y0: int, x1: int, y1: int, k: int)
    requires
        0 <= k < steps(x0, y0, x1, y1),
    ensures
        ({
            let p = line_point(x0, y0, x1, y1, k);
            let q = line_point(x0, y0, x1, y1, k + 1);
            distance(p.0, q.0) <= 1 && distance(p.1, q.1) <= 1
        }),
{
    let dx = distance(x0, x1);
    let dy = distance(y0, y1);
    if dx >= dy {
        error_term_decides(dy, dx, k);
    } else {
        error_term_decides(dx, dy, k);
    }
}

/// No point of a line is more than half a pixel away from the ideal line,
/// measured along the shorter side.
pub proof fn line_is_near_the_ideal(n: int, m: int, k: int)
    requires
        0 <= n <= m,
        0 < m,
        0 <= k <= m,
    ensures
        distance(2 * (m * rounded(n, m, k)), 2 * (n * k)) <= m,
{
    rounded_bounds(n, m, k);
}

/// The points as pairs of integers.
pub open spec fn as_points(v: Seq<(i32, i32)>) -> Seq<(int, int)> {
    v.map_values(|p: (i32, i32)| (p.0 as int, p.1 as int))
}

/// The points that are on an image of the given size.
pub open spec fn clipped(points: Seq<(int, int)>, w: int, h: int) -> Seq<(int, int)> {
    points.filter(|p: (int, int)| 0 <= p.0 < w && 0 <= p.1 < h)
}

/// Whether `new` is `old` with the given points in one color, as far as they
/// are on the image.
pub open spec fn painted(
    old_img: MapImage,
    new_img: MapImage,
    points: Seq<(int, int)>,
    color: Pixel,
) -> bool {
    &&& canvas::image_size(new_img) == canvas::image_size(old_img)
    &&& forall|x: int, y: int|
        old_img.has(x, y) ==> #[trigger] new_img.at(x, y) == if points.contains((x, y)) {
            color
        } else {
            old_img.at(x, y)
        }
}

/// Where a line walk stands after `k` steps.
spec fn walk_at(x0: int, y0: int, x1: int, y1: int, k: int, x: int, y: int, err: int) -> bool {
    let dx = distance(x0, x1);
    let dy = distance(y0, y1);
    &&& (x, y) == line_point(x0, y0, x1, y1, k)
    &&& if dx == 0 && dy == 0 {
        err == 0
    } else if dx >= dy {
        err == error_term(dy, dx, k, rounded(dy, dx, k))
    } else {
        err == -error_term(dx, dy, k, rounded(dx, dy, k))
    }
}

/// A walk starts at the first point with the difference of the sides as its
/// error.
proof fn walk_starts(x0: int, y0: int, x1: int, y1: int)
    ensures
        walk_at(x0, y0, x1, y1, 0, x0, y0, distance(x0, x1) - distance(y0, y1)),
{
    let dx = distance(x0, x1);
    let dy = distance(y0, y1);
    line_in_box(x0, y0, x1, y1, 0);
    if dx == 0 && dy == 0 {
    } else if dx >= dy {
        rounded_in_range(dy, dx, 0);
        assert(error_term(dy, dx, 0, 0) == dx - dy);
    } else {
        rounded_in_range(dx, dy, 0);
        assert(error_term(dx, dy, 0, 0) == dy - dx);
    }
}

/// What one turn of a walk does.
proof fn walk_goes_on(x0: int, y0: int, x1: int, y1: int, k: int, x: int, y: int, err: int)
    requires
        walk_at(x0, y0, x1, y1, k, x, y, err),
        0 <= k < steps(x0, y0, x1, y1),
    ensures
        ({
            let dx = distance(x0, x1);
            let dy = distance(y0, y1);
            let step_x = 2 * err >= -dy;
            let step_y = 2 * err <= dx;
            walk_at(
                x0,
                y0,
                x1,
                y1,
                k + 1,
                if step_x {
                    towards(x, x + x1 - x0, 1)
                } else {
                    x
                },
                if step_y {
                    towards(y, y + y1 - y0, 1)
                } else {
                    y
                },
                err - (if step_x {
                    dy
                } else {
                    0
                }) + (if step_y {
                    dx
                } else {
                    0
                }),
            )
        }),
        -2 * (distance(x0, x1) + distance(y0, y1)) <= err <= 2 * (distance(x0, x1) + distance(
            y0,
            y1,
        )),
{
    let dx = distance(x0, x1);
    let dy = distance(y0, y1);
    if dx >= dy {
        error_term_decides(dy, dx, k);
    } else {
        error_term_decides(dx, dy, k);
    }
}

/// Draws a line and records which pixels of the image it touched, from its
/// start to its end.
pub fn plot_line_collect(
    img: &mut MapImage,
    pixels: &mut Vec<(i32, i32)>,
    x0: i32,
    y0: i32,
    x1: i32,
    y1: i32,
    color: Pixel,
)
    ensures
        painted(*old(img), *final(img), line(x0 as int, y0 as int, x1 as int, y1 as int), color),
        as_points(final(pixels)@) == as_points(old(pixels)@) + clipped(
            line(x0 as int, y0 as int, x1 as int, y1 as int),
            old(img).w(),
            old(img).h(),
        ),
{
    let w: i64 = img.width() as i64;
    let h: i64 = img.height() as i64;
    let dx: i64 = if x0 < x1 {
        x1 as i64 - x0 as i64
    } else {
        x0 as i64 - x1 as i64
    };
    let dy: i64 = if y0 < y1 {
        y1 as i64 - y0 as i64
    } else {
        y0 as i64 - y1 as i64
    };
    let ghost all = line(x0 as int, y0 as int, x1 as int, y1 as int);
    let ghost n = steps(x0 as int, y0 as int, x1 as int, y1 as int);
    let mut x: i32 = x0;
    let mut y: i32 = y0;
    let mut err: i64 = dx - dy;
    let ghost mut k: int = 0;
    proof {
        walk_starts(x0 as int, y0 as int, x1 as int, y1 as int);
        assert(all.take(0) =~= Seq::empty());
        assert(clipped(all.take(0), w as int, h as int) =~= Seq::empty()) by {
            reveal(Seq::filter);
        }
        assert(as_points(pixels@) =~= as_points(old(pixels)@) + clipped(
            all.take(0),
            w as int,
            h as int,
        ));
    }
    loop
        invariant_except_break
            painted(*old(img), *img, all.take(k), color),
            as_points(pixels@) == as_points(old(pixels)@) + clipped(
                all.take(k),
                w as int,
                h as int,
            ),
        invariant
            w == old(img).w(),
            h == old(img).h(),
            dx == distance(x0 as int, x1 as int),
            dy == distance(y0 as int, y1 as int),
            all == line(x0 as int, y0 as int, x1 as int, y1 as int),
            n == steps(x0 as int, y0 as int, x1 as int, y1 as int),
            0 <= k <= n,
            walk_at(x0 as int, y0 as int, x1 as int, y1 as int, k, x as int, y as int, err as int),
        ensures
            painted(*old(img), *img, all, color),
            as_points(pixels@) == as_points(old(pixels)@) + clipped(all, w as int, h as int),
        decreases n - k,
    {
        proof {
            one_more_point(*old(img), *img, all, k, color);
            clip_one_more(all, k, w as int, h as int);
        }
        let ghost before = *img;
        let ghost listed = pixels@;
        if x >= 0 && y >= 0 && (x as i64) < w && (y as i64) < h {
            img.set_pixel(x as u32, y as u32, color);
            pixels.push((x, y));
            assert(as_points(pixels@) =~= as_points(listed).push((x as int, y as int)));
        }
        assert(all[k] == (x as int, y as int));
        assert(painted(*old(img), *img, all.take(k + 1), color));
        assert(as_points(pixels@) =~= as_points(old(pixels)@) + clipped(
            all.take(k + 1),
            w as int,
            h as int,
        ));
        proof {
            line_in_box(x0 as int, y0 as int, x1 as int, y1 as int, k);
        }
        if x == x1 && y == y1 {
            assert(k == n);
            assert(all.take(k + 1) =~= all);
            break;
        }
        proof {
            walk_goes_on(
                x0 as int,
                y0 as int,
                x1 as int,
                y1 as int,
                k,
                x as int,
                y as int,
                err as int,
            );
            line_in_box(x0 as int, y0 as int, x1 as int, y1 as int, k + 1);
        }
        let e2: i64 = 2 * err;
        if e2 >= -dy {
            err = err - dy;
            x = if x0 < x1 {
                x + 1
            } else {
                x - 1
            };
        }
        if e2 <= dx {
            err = err + dx;
            y = if y0 < y1 {
                y + 1
            } else {
                y - 1
            };
        }
        proof {
            k = k + 1;
        }
    }
}

/// Painting one more point of a line.
proof fn one_more_point(
    old_img: MapImage,
    img: MapImage,
    points: Seq<(int, int)>,
    k: int,
    color: Pixel,
)
    requires
        0 <= k < points.len(),
        painted(old_img, img, points.take(k), color),
    ensures
        forall|x: int, y: int|
            #![trigger points.take(k + 1).contains((x, y))]
            points.take(k + 1).contains((x, y)) <==> points.take(k).contains((x, y)) || (x, y)
                == points[k],
{
    let a = points.take(k);
    let b = points.take(k + 1);
    assert(b =~= a.push(points[k]));
    assert forall|x: int, y: int|
        #![trigger b.contains((x, y))]
        b.contains((x, y)) <==> a.contains((x, y)) || (x, y) == points[k] by {
        if b.contains((x, y)) {
            let i = choose|i: int| 0 <= i < b.len() && b[i] == (x, y);
            if i < k {
                assert(a[i] == (x, y));
            }
        }
        if a.contains((x, y)) {
            let i = choose|i: int| 0 <= i < a.len() && a[i] == (x, y);
            assert(b[i] == (x, y));
        }
        if (x, y) == points[k] {
            assert(b[k] == (x, y));
        }
    }
}

/// Clipping one more point of a line.
proof fn clip_one_more(points: Seq<(int, int)>, k: int, w: int, h: int)
    requires
        0 <= k < points.len(),
    ensures
        clipped(points.take(k + 1), w, h) == if 0 <= points[k].0 < w && 0 <= points[k].1 < h {
            clipped(points.take(k), w, h).push(points[k])
        } else {
            clipped(points.take(k), w, h)
        },
{
    reveal(Seq::filter);
    let b = points.take(k + 1);
    assert(b.drop_last() =~= points.take(k));
    assert(b.last() == points[k]);
}

/// Draws a line.
pub fn draw_line(img: &mut MapImage, x0: i32, y0: i32, x1: i32, y1: i32, color: Pixel)
    ensures
        painted(*old(img), *final(img), line(x0 as int, y0 as int, x1 as int, y1 as int), color),
{
    let mut touched: Vec<(i32, i32)> = Vec::new();
    plot_line_collect(img, &mut touched, x0, y0, x1, y1, color);
}

/// A line has a point for every step along its longer side, and one more.
pub proof fn lines_are_as_long_as_their_longer_side(x0: int, y0: int, x1: int, y1: int, k: int)
    ensures
        ({
            let n = line(x0, y0, x1, y1).len() as int - 1;
            &&& n >= x1 - x0 && n >= x0 - x1 && n >= y1 - y0 && n >= y0 - y1
            &&& n == x1 - x0 || n == x0 - x1 || n == y1 - y0 || n == y0 - y1
            &&& line(x0, y0, x1, y1)[0] == (x0, y0)
            &&& line(x0, y0, x1, y1)[n] == (x1, y1)
            &&& 0 <= k < n ==> {
                let p = line(x0, y0, x1, y1)[k];
                let q = line(x0, y0, x1, y1)[k + 1];
                &&& -1 <= q.0 - p.0 <= 1 && -1 <= q.1 - p.1 <= 1
            }
        }),
{
    line_in_box(x0, y0, x1, y1, 0);
    if 0 <= k < steps(x0, y0, x1, y1) {
        line_is_connected(x0, y0, x1, y1, k);
    }
}

/// A line is straight: no point of it is more than half a pixel away from the
/// ideal line, measured along the shorter side.
pub proof fn lines_are_straight(x0: int, y0: int, x1: int, y1: int, k: int)
    requires
        0 <= k < line(x0, y0, x1, y1).len(),
        x0 != x1 || y0 != y1,
    ensures
        ({
            let p = line(x0, y0, x1, y1)[k];
            let n = line(x0, y0, x1, y1).len() as int - 1;
            &&& -n <= 2 * ((p.0 - x0) * n - (x1 - x0) * k) <= n
            &&& -n <= 2 * ((p.1 - y0) * n - (y1 - y0) * k) <= n
        }),
{
    let dx = distance(x0, x1);
    let dy = distance(y0, y1);
    let n = steps(x0, y0, x1, y1);
    let p = line_point(x0, y0, x1, y1, k);
    let (a, b) = if dx >= dy {
        (k, rounded(dy, dx, k))
    } else {
        (rounded(dx, dy, k), k)
    };
    if dx >= dy {
        line_is_near_the_ideal(dy, dx, k);
    } else {
        line_is_near_the_ideal(dx, dy, k);
    }
    assert(n * b == b * n && n * a == a * n && dx * k == k * dx && dy * k == k * dy && k * n == n
        * k) by (nonlinear_arith);
    assert(-n <= 2 * (a * n - dx * k) <= n);
    assert(-n <= 2 * (b * n - dy * k) <= n);
    mirrored_distance(x0, x1, p.0, a, dx, n, k);
    mirrored_distance(y0, y1, p.1, b, dy, n, k);
}

proof fn mirrored_distance(from: int, to: int, at: int, d: int, whole: int, n: int, k: int)
    requires
        at == towards(from, to, d),
        whole == distance(from, to),
        -n <= 2 * (d * n - whole * k) <= n,
    ensures
        -n <= 2 * ((at - from) * n - (to - from) * k) <= n,
{
    assert((-d) * n == -(d * n) && (-whole) * k == -(whole * k)) by (nonlinear_arith);
    if from < to {
        assert(at - from == d && to - from == whole);
    } else {
        assert(at - from == -d && to - from == -whole);
    }
}

/// What is left of a line on an image is what is on the image, and all of it.
pub proof fn clipping_keeps_what_is_on_the_image(
    points: Seq<(int, int)>,
    w: int,
    h: int,
    p: (int, int),
)
    ensures
        clipped(points, w, h).contains(p) <==> points.contains(p) && 0 <= p.0 < w && 0 <= p.1 < h,
{
    let keep = |q: (int, int)| 0 <= q.0 < w && 0 <= q.1 < h;
    if points.contains(p) && keep(p) {
        let i = choose|i: int| 0 <= i < points.len() && points[i] == p;
        points.lemma_filter_contains(keep, i);
    }
    if clipped(points, w, h).contains(p) {
        let i = choose|i: int|
            0 <= i < clipped(points, w, h).len() && clipped(points, w, h)[i] == p;
        points.lemma_filter_pred(keep, i);
        points.lemma_filter_contains_rev(keep, p);
    }
}

/// Painting points gives them the color, as far as they are on the image, and
/// leaves every other pixel and the size of the image alone.
pub proof fn painting_paints_the_points(
    before: MapImage,
    after: MapImage,
    points: Seq<(int, int)>,
    color: Pixel,
    x: int,
    y: int,
)
    requires
        painted(before, after, points, color),
        0 <= x < before.w(),
        0 <= y < before.h(),
    ensures
        after.w() == before.w() && after.h() == before.h(),
        points.contains((x, y)) ==> after.at(x, y) == color,
        !points.contains((x, y)) ==> after.at(x, y) == before.at(x, y),
{
    assert(before.has(x, y));
}

} // verus!
