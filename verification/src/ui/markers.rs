//! The pixels of markers, glows and halos.
//!
//! Every function here lists pixels of the image in drawing order; what is
//! outside the image is left out.

use vstd::prelude::*;

use crate::config::MarkerStyle;

verus! {

/// Filtering one item more.
pub proof fn filter_one_more<A>(s: Seq<A>, k: int, keep: spec_fn(A) -> bool)
    requires
        0 <= k < s.len(),
    ensures
        s.take(k + 1).filter(keep) == if keep(s[k]) {
            s.take(k).filter(keep).push(s[k])
        } else {
            s.take(k).filter(keep)
        },
{
    reveal(Seq::filter);
    assert(s.take(k + 1).drop_last() =~= s.take(k));
    assert(s.take(k + 1).last() == s[k]);
}

/// Filtering nothing and filtering everything.
pub proof fn filter_ends<A>(s: Seq<A>, keep: spec_fn(A) -> bool)
    ensures
        s.take(0).filter(keep) == Seq::<A>::empty(),
        s.take(s.len() as int).filter(keep) == s.filter(keep),
{
    reveal(Seq::filter);
    assert(s.take(0) =~= Seq::empty());
    assert(s.take(s.len() as int) =~= s);
}

/// Whether a column and a row are on an image of the given size.
pub open spec fn on_image(x: int, y: int, w: int, h: int) -> bool {
    0 <= x < w && 0 <= y < h
}

// ---------------------------------------------------------------------------
// Glow
// ---------------------------------------------------------------------------

/// The soft glow around a point: offsets, and weights in hundredths.
pub const GLOW_RING: [(i32, i32, u8); 21] = [
    (0, 0, 100),
    (-1, 0, 60),
    (1, 0, 60),
    (0, -1, 60),
    (0, 1, 60),
    (-1, -1, 35),
    (1, -1, 35),
    (-1, 1, 35),
    (1, 1, 35),
    (0, -2, 25),
    (0, 2, 25),
    (-2, 0, 25),
    (2, 0, 25),
    (-2, -1, 15),
    (-2, 1, 15),
    (2, -1, 15),
    (2, 1, 15),
    (-1, -2, 15),
    (1, -2, 15),
    (-1, 2, 15),
    (1, 2, 15),
];

/// The glow around `(cx, cy)`: column, row and weight of each pixel.
pub open spec fn glow_points(cx: int, cy: int) -> Seq<(int, int, int)> {
    Seq::new(
        21,
        |i: int| (cx + GLOW_RING@[i].0, cy + GLOW_RING@[i].1, GLOW_RING@[i].2 as int),
    )
}

/// Cells as triples of integers.
pub open spec fn cells<A>(v: Seq<(u32, u32, A)>, value: spec_fn(A) -> int) -> Seq<(int, int, int)> {
    v.map_values(|c: (u32, u32, A)| (c.0 as int, c.1 as int, value(c.2)))
}

/// The pixels of the soft glow around a point, with their weights in
/// hundredths.
pub fn plot_glow(cx: i32, cy: i32, w: u32, h: u32) -> (out: Vec<(u32, u32, u8)>)
    ensures
        cells(out@, |a: u8| a as int) == glow_points(cx as int, cy as int).filter(
            |p: (int, int, int)| on_image(p.0, p.1, w as int, h as int),
        ),
{
    let ghost all = glow_points(cx as int, cy as int);
    let ghost keep = |p: (int, int, int)| on_image(p.0, p.1, w as int, h as int);
    let ghost value = |a: u8| a as int;
    let mut out: Vec<(u32, u32, u8)> = Vec::new();
    proof {
        filter_ends(all, keep);
        assert(cells(out@, value) =~= Seq::empty());
    }
    let mut i: usize = 0;
    while i < 21
        invariant
            i <= 21,
            all == glow_points(cx as int, cy as int),
            keep == (|p: (int, int, int)| on_image(p.0, p.1, w as int, h as int)),
            value == (|a: u8| a as int),
            cells(out@, value) == all.take(i as int).filter(keep),
        decreases 21 - i,
    {
        proof {
            filter_one_more(all, i as int, keep);
            assert(GLOW_RING@.len() == 21);
        }
        let (dx, dy, weight) = GLOW_RING[i];
        let x: i64 = cx as i64 + dx as i64;
        let y: i64 = cy as i64 + dy as i64;
        let ghost before = out@;
        if x >= 0 && y >= 0 && x < w as i64 && y < h as i64 {
            out.push((x as u32, y as u32, weight));
            assert(cells(out@, value) =~= cells(before, value).push(all[i as int]));
        }
        i = i + 1;
    }
    out
}

// ---------------------------------------------------------------------------
// Disks
// ---------------------------------------------------------------------------

/// The offsets of a square around a point, row by row.
pub open spec fn square(r: int) -> Seq<(int, int)> {
    Seq::new(
        ((2 * r + 1) * (2 * r + 1)) as nat,
        |i: int| (i % (2 * r + 1) - r, i / (2 * r + 1) - r),
    )
}

/// The square of the distance of an offset.
pub open spec fn norm2(o: (int, int)) -> int {
    o.0 * o.0 + o.1 * o.1
}

/// The offsets of a disk around `(cx, cy)` whose pixels are on the image, row
/// by row.
pub open spec fn disk_offsets(cx: int, cy: int, r: int, w: int, h: int) -> Seq<(int, int)> {
    square(r).filter(|o: (int, int)| norm2(o) <= r * r && on_image(cx + o.0, cy + o.1, w, h))
}

/// The pixels of a disk: column, row and square of the distance from the
/// center. A disk of radius zero has none.
pub open spec fn disk_points(cx: int, cy: int, r: int, w: int, h: int) -> Seq<(int, int, int)> {
    if r == 0 {
        Seq::empty()
    } else {
        disk_offsets(cx, cy, r, w, h).map_values(|o: (int, int)| (cx + o.0, cy + o.1, norm2(o)))
    }
}

/// The pixels of the disk around a point, with the squares of their distances.
pub fn plot_disk(cx: i32, cy: i32, radius: u8, w: u32, h: u32) -> (out: Vec<(u32, u32, u32)>)
    ensures
        cells(out@, |d: u32| d as int) == disk_points(
            cx as int,
            cy as int,
            radius as int,
            w as int,
            h as int,
        ),
{
    let mut out: Vec<(u32, u32, u32)> = Vec::new();
    let ghost value = |d: u32| d as int;
    if radius == 0 {
        assert(cells(out@, value) =~= Seq::empty());
        return out;
    }
    let r: i32 = radius as i32;
    let n: i32 = 2 * r + 1;
    let ghost all = square(r as int);
    let ghost keep = |o: (int, int)|
        norm2(o) <= r * r && on_image(cx + o.0, cy + o.1, w as int, h as int);
    let ghost place = |o: (int, int)| (cx + o.0, cy + o.1, norm2(o));
    proof {
        filter_ends(all, keep);
        assert(cells(out@, value) =~= Seq::<(int, int)>::empty().map_values(place));
    }
    assert(n * n <= 261_121) by (nonlinear_arith)
        requires
            3 <= n <= 511,
    ;
    assert(n * n == (2 * r + 1) * (2 * r + 1));
    let total: i32 = n * n;
    let mut i: i32 = 0;
    while i < total
        invariant
            0 <= i <= total,
            1 <= r <= 255,
            n == 2 * r + 1,
            total == n * n,
            total <= 261_121,
            all == square(r as int),
            all.len() == total,
            keep == (|o: (int, int)|
                norm2(o) <= r * r && on_image(cx + o.0, cy + o.1, w as int, h as int)),
            place == (|o: (int, int)| (cx + o.0, cy + o.1, norm2(o))),
            value == (|d: u32| d as int),
            cells(out@, value) == all.take(i as int).filter(keep).map_values(place),
        decreases total - i,
    {
        proof {
            filter_one_more(all, i as int, keep);
            vstd::arithmetic::div_mod::lemma_fundamental_div_mod(i as int, n as int);
            assert(0 <= i as int / n as int <= 2 * r) by (nonlinear_arith)
                requires
                    0 <= i < n * n,
                    n == 2 * r + 1,
                    n > 0,
            ;
        }
        let dx: i32 = i % n - r;
        let dy: i32 = i / n - r;
        assert(all[i as int] == (dx as int, dy as int));
        assert(0 <= dx * dx <= 65_025) by (nonlinear_arith)
            requires
                -255 <= dx <= 255,
        ;
        assert(0 <= dy * dy <= 65_025) by (nonlinear_arith)
            requires
                -255 <= dy <= 255,
        ;
        assert(0 <= r * r <= 65_025) by (nonlinear_arith)
            requires
                0 <= r <= 255,
        ;
        let d2: i32 = dx * dx + dy * dy;
        let x: i64 = cx as i64 + dx as i64;
        let y: i64 = cy as i64 + dy as i64;
        let ghost before = out@;
        let ghost kept = all.take(i as int).filter(keep);
        if d2 <= r * r && x >= 0 && y >= 0 && x < w as i64 && y < h as i64 {
            out.push((x as u32, y as u32, d2 as u32));
            proof {
                assert(keep(all[i as int]));
                assert(cells(out@, value) =~= cells(before, value).push(place(all[i as int])));
                assert(kept.push(all[i as int]).map_values(place) =~= kept.map_values(place).push(
                    place(all[i as int]),
                ));
            }
        }
        i = i + 1;
    }
    out
}

// ---------------------------------------------------------------------------
// Marker shapes
// ---------------------------------------------------------------------------

/// The largest integer from 0 to `n` whose square is at most `bound`, or -1
/// where there is none.
pub open spec fn root(bound: int, n: int) -> int
    decreases n + 1,
{
    if n < 0 {
        -1
    } else if n * n <= bound {
        n
    } else {
        root(bound, n - 1)
    }
}

proof fn root_is_largest(bound: int, n: int)
    requires
        n >= -1,
    ensures
        -1 <= root(bound, n) <= n,
        root(bound, n) >= 0 ==> root(bound, n) * root(bound, n) <= bound,
        forall|x: int| root(bound, n) < x <= n ==> #[trigger] (x * x) > bound,
    decreases n + 1,
{
    if n >= 0 && n * n > bound {
        root_is_largest(bound, n - 1);
    }
}

proof fn root_is(bound: int, n: int, x: int)
    requires
        0 <= x <= n,
        x * x <= bound,
        x < n ==> (x + 1) * (x + 1) > bound,
    ensures
        root(bound, n) == x,
{
    root_is_largest(bound, n);
    let q = root(bound, n);
    if q < x {
        assert(x * x > bound);
    }
    if q > x {
        assert((x + 1) * (x + 1) <= q * q) by (nonlinear_arith)
            requires
                0 <= x,
                x + 1 <= q,
        ;
    }
}

/// How far to the right a ring of radius `r` reaches `i` rows from its center:
/// the largest `x` with `x^2 + (i + 1)^2 <= r^2 + 1`.
pub open spec fn ring_reach(r: int, i: int) -> int {
    root(r * r + 1 - (i + 1) * (i + 1), r)
}

/// The eight mirror images of an offset around a point.
pub open spec fn mirrored(cx: int, cy: int, x: int, y: int) -> Seq<(int, int)> {
    seq![
        (cx + x, cy + y),
        (cx + y, cy + x),
        (cx - y, cy + x),
        (cx - x, cy + y),
        (cx - x, cy - y),
        (cx - y, cy - x),
        (cx + y, cy - x),
        (cx + x, cy - y),
    ]
}

/// The points of a ring from row `i` on, up to the diagonal.
pub open spec fn ring_from(cx: int, cy: int, r: int, i: int) -> Seq<(int, int)>
    decreases r + 1 - i,
{
    if 0 <= i <= r && ring_reach(r, i) >= i {
        mirrored(cx, cy, ring_reach(r, i), i) + ring_from(cx, cy, r, i + 1)
    } else {
        Seq::empty()
    }
}

/// The points of a marker around `(cx, cy)`, in drawing order.
pub open spec fn marker_points(style: MarkerStyle, cx: int, cy: int, r: int) -> Seq<(int, int)> {
    match style {
        MarkerStyle::Dot => Seq::empty(),
        MarkerStyle::Ring => ring_from(cx, cy, r, 0),
        MarkerStyle::Cross => Seq::new(
            (2 * (2 * r + 1)) as nat,
            |i: int|
                if i % 2 == 0 {
                    (cx + i / 2 - r, cy)
                } else {
                    (cx, cy + i / 2 - r)
                },
        ),
        MarkerStyle::X => Seq::new(
            (2 * (2 * r + 1)) as nat,
            |i: int|
                if i % 2 == 0 {
                    (cx + i / 2 - r, cy + i / 2 - r)
                } else {
                    (cx + i / 2 - r, cy - (i / 2 - r))
                },
        ),
    }
}

/// The points that are on an image of the given size.
pub open spec fn shown(points: Seq<(int, int)>, w: int, h: int) -> Seq<(int, int)> {
    points.filter(|p: (int, int)| on_image(p.0, p.1, w, h))
}

/// Pixels as pairs of integers.
pub open spec fn pairs(v: Seq<(u32, u32)>) -> Seq<(int, int)> {
    v.map_values(|p: (u32, u32)| (p.0 as int, p.1 as int))
}

/// Lists one more point, if it is on the image.
fn put(out: &mut Vec<(u32, u32)>, x: i64, y: i64, w: u32, h: u32)
    ensures
        pairs(final(out)@) == pairs(old(out)@) + shown(seq![(x as int, y as int)], w as int, h as int),
{
    let ghost keep = |p: (int, int)| on_image(p.0, p.1, w as int, h as int);
    let ghost one = seq![(x as int, y as int)];
    proof {
        filter_ends(one, keep);
        filter_one_more(one, 0, keep);
    }
    if x >= 0 && y >= 0 && x < w as i64 && y < h as i64 {
        out.push((x as u32, y as u32));
    }
    assert(pairs(out@) =~= pairs(old(out)@) + shown(one, w as int, h as int));
}

proof fn shown_together(a: Seq<(int, int)>, b: Seq<(int, int)>, w: int, h: int)
    ensures
        shown(a + b, w, h) == shown(a, w, h) + shown(b, w, h),
{
    let keep = |p: (int, int)| on_image(p.0, p.1, w, h);
    Seq::filter_distributes_over_add(a, b, keep);
}

/// Lists the eight mirror images of an offset.
fn put_mirrored(out: &mut Vec<(u32, u32)>, cx: i64, cy: i64, x: i64, y: i64, w: u32, h: u32)
    requires
        -0x1_0000_0000 <= cx <= 0x1_0000_0000,
        -0x1_0000_0000 <= cy <= 0x1_0000_0000,
        -1000 <= x <= 1000,
        -1000 <= y <= 1000,
    ensures
        pairs(final(out)@) == pairs(old(out)@) + shown(
            mirrored(cx as int, cy as int, x as int, y as int),
            w as int,
            h as int,
        ),
{
    let ghost before = pairs(out@);
    put(out, cx + x, cy + y, w, h);
    put(out, cx + y, cy + x, w, h);
    put(out, cx - y, cy + x, w, h);
    put(out, cx - x, cy + y, w, h);
    put(out, cx - x, cy - y, w, h);
    put(out, cx - y, cy - x, w, h);
    put(out, cx + y, cy - x, w, h);
    put(out, cx + x, cy - y, w, h);
    proof {
        let m = mirrored(cx as int, cy as int, x as int, y as int);
        let (wi, hi) = (w as int, h as int);
        shown_grows(m, 0, wi, hi);
        shown_grows(m, 1, wi, hi);
        shown_grows(m, 2, wi, hi);
        shown_grows(m, 3, wi, hi);
        shown_grows(m, 4, wi, hi);
        shown_grows(m, 5, wi, hi);
        shown_grows(m, 6, wi, hi);
        shown_grows(m, 7, wi, hi);
        assert(m.take(0) =~= Seq::empty());
        assert(shown(m.take(0), wi, hi) =~= Seq::empty()) by {
            reveal(Seq::filter);
        }
        assert(m.take(8) =~= m);
        assert(pairs(out@) =~= before + shown(m, wi, hi));
    }
}

/// Showing one point more.
proof fn shown_grows(points: Seq<(int, int)>, k: int, w: int, h: int)
    requires
        0 <= k < points.len(),
    ensures
        shown(points.take(k + 1), w, h) == shown(points.take(k), w, h) + shown(
            seq![points[k]],
            w,
            h,
        ),
{
    assert(points.take(k + 1) =~= points.take(k) + seq![points[k]]);
    shown_together(points.take(k), seq![points[k]], w, h);
}

/// The next row of a ring, from the error term `x^2 + (y + 1)^2 - 1 - r^2` of
/// this one.
proof fn ring_goes_on(r: int, x: int, y: int)
    requires
        0 <= y <= x <= r,
        x == ring_reach(r, y),
    ensures
        ({
            let err = x * x + (y + 1) * (y + 1) - 1 - r * r;
            let err1 = err + 2 * (y + 1) + 1;
            let err2 = err1 - (2 * (x - 1) + 1);
            &&& err <= 0
            &&& err1 == x * x + (y + 2) * (y + 2) - 1 - r * r
            &&& err2 == (x - 1) * (x - 1) + (y + 2) * (y + 2) - 1 - r * r
            &&& err1 <= 0 ==> ring_reach(r, y + 1) == x
            &&& err1 > 0 && y + 1 <= x - 1 ==> ring_reach(r, y + 1) == x - 1
            &&& err1 > 0 && y + 1 > x - 1 ==> ring_reach(r, y + 1) < y + 1
            &&& -4 * r - 10 <= err2 <= 4 * r + 10
        }),
{
    let b = r * r + 1 - (y + 1) * (y + 1);
    let b1 = r * r + 1 - (y + 2) * (y + 2);
    root_is_largest(b, r);
    root_is_largest(b1, r);
    let err = x * x + (y + 1) * (y + 1) - 1 - r * r;
    let err1 = err + 2 * (y + 1) + 1;
    assert((y + 2) * (y + 2) == (y + 1) * (y + 1) + 2 * (y + 1) + 1) by (nonlinear_arith);
    assert((x - 1) * (x - 1) == x * x - (2 * (x - 1) + 1)) by (nonlinear_arith);
    assert((x + 1) * (x + 1) == x * x + 2 * x + 1) by (nonlinear_arith);
    assert(x * x <= b);
    if x < r {
        assert((x + 1) * (x + 1) > b);
        assert(err >= -2 * x - 1);
    } else {
        assert((y + 1) * (y + 1) >= 1) by (nonlinear_arith)
            requires
                y >= 0,
        ;
    }
    if err1 <= 0 {
        root_is(b1, r, x);
    } else if y + 1 <= x - 1 {
        root_is(b1, r, x - 1);
    } else {
        let q = ring_reach(r, y + 1);
        if q >= y + 1 {
            assert(q * q >= x * x) by (nonlinear_arith)
                requires
                    q >= x,
                    x >= 0,
            ;
        }
    }
}

/// The pixels of a ring.
fn plot_ring(cx: i32, cy: i32, size: u8, w: u32, h: u32) -> (out: Vec<(u32, u32)>)
    ensures
        pairs(out@) == shown(
            ring_from(cx as int, cy as int, size as int, 0),
            w as int,
            h as int,
        ),
{
    let r: i64 = size as i64;
    let mut x: i64 = r;
    let mut y: i64 = 0;
    let mut err: i64 = 0;
    let mut out: Vec<(u32, u32)> = Vec::new();
    let ghost all = ring_from(cx as int, cy as int, r as int, 0);
    proof {
        assert(1 * 1 == 1);
        root_is(r * r + 1 - 1, r as int, r as int);
        assert((0 + 1) * (0 + 1) == 1);
        assert(pairs(out@) =~= Seq::empty());
        assert(pairs(out@) + shown(all, w as int, h as int) =~= shown(all, w as int, h as int));
    }
    while x >= y
        invariant
            0 <= y <= r + 1,
            -1 <= x <= r,
            r == size,
            all == ring_from(cx as int, cy as int, r as int, 0),
            x >= y ==> x == ring_reach(r as int, y as int),
            x >= y ==> err == x * x + (y + 1) * (y + 1) - 1 - r * r,
            x >= y ==> err <= 0,
            -2000 <= err <= 2000,
            x < y ==> ring_reach(r as int, y as int) < y,
            pairs(out@) + shown(
                ring_from(cx as int, cy as int, r as int, y as int),
                w as int,
                h as int,
            ) == shown(all, w as int, h as int),
        decreases r + 1 - y,
    {
        let ghost rest = ring_from(cx as int, cy as int, r as int, y + 1);
        let ghost here = mirrored(cx as int, cy as int, x as int, y as int);
        let ghost before = pairs(out@);
        proof {
            ring_goes_on(r as int, x as int, y as int);
            shown_together(here, rest, w as int, h as int);
            assert(ring_from(cx as int, cy as int, r as int, y as int) == here + rest);
        }
        put_mirrored(&mut out, cx as i64, cy as i64, x, y, w, h);
        proof {
            let (wi, hi) = (w as int, h as int);
            assert(pairs(out@) + shown(rest, wi, hi) =~= before + (shown(here, wi, hi) + shown(
                rest,
                wi,
                hi,
            )));
        }
        y = y + 1;
        err = err + 2 * y + 1;
        if err > 0 {
            x = x - 1;
            err = err - (2 * x + 1);
        }
    }
    proof {
        assert(ring_from(cx as int, cy as int, r as int, y as int) =~= Seq::empty());
        assert(shown(Seq::empty(), w as int, h as int) =~= Seq::empty()) by {
            reveal(Seq::filter);
        }
        assert(pairs(out@) + Seq::<(int, int)>::empty() =~= pairs(out@));
    }
    out
}

/// The pixels of two strokes that cross: along the axes, or along the
/// diagonals.
fn plot_strokes(cx: i32, cy: i32, size: u8, diagonal: bool, w: u32, h: u32) -> (out: Vec<
    (u32, u32),
>)
    ensures
        pairs(out@) == shown(
            marker_points(
                if diagonal {
                    MarkerStyle::X
                } else {
                    MarkerStyle::Cross
                },
                cx as int,
                cy as int,
                size as int,
            ),
            w as int,
            h as int,
        ),
{
    let r: i64 = size as i64;
    let ghost style = if diagonal {
        MarkerStyle::X
    } else {
        MarkerStyle::Cross
    };
    let ghost all = marker_points(style, cx as int, cy as int, r as int);
    let mut out: Vec<(u32, u32)> = Vec::new();
    let (x0, y0): (i64, i64) = (cx as i64, cy as i64);
    let mut d: i64 = -r;
    proof {
        assert(all.take(0) =~= Seq::empty());
        assert(shown(all.take(0), w as int, h as int) =~= Seq::empty()) by {
            reveal(Seq::filter);
        }
        assert(pairs(out@) =~= Seq::empty());
    }
    while d <= r
        invariant
            -r <= d <= r + 1,
            r == size,
            x0 == cx,
            y0 == cy,
            style == if diagonal {
                MarkerStyle::X
            } else {
                MarkerStyle::Cross
            },
            all == marker_points(style, cx as int, cy as int, r as int),
            pairs(out@) == shown(all.take(2 * (d + r)), w as int, h as int),
        decreases r + 1 - d,
    {
        proof {
            let k = 2 * (d + r);
            shown_grows(all, k, w as int, h as int);
            shown_grows(all, k + 1, w as int, h as int);
        }
        if diagonal {
            put(&mut out, x0 + d, y0 + d, w, h);
            put(&mut out, x0 + d, y0 - d, w, h);
        } else {
            put(&mut out, x0 + d, y0, w, h);
            put(&mut out, x0, y0 + d, w, h);
        }
        d = d + 1;
    }
    assert(all.take(2 * (d + r)) =~= all);
    out
}

/// The pixels of a marker around a point; `size` is its radius or the length
/// of its arms.
pub fn plot_marker(style: MarkerStyle, cx: i32, cy: i32, size: u8, w: u32, h: u32) -> (out: Vec<
    (u32, u32),
>)
    ensures
        pairs(out@) == shown(
            marker_points(style, cx as int, cy as int, size as int),
            w as int,
            h as int,
        ),
{
    match style {
        MarkerStyle::Dot => {
            let out: Vec<(u32, u32)> = Vec::new();
            assert(shown(Seq::empty(), w as int, h as int) =~= Seq::empty()) by {
                reveal(Seq::filter);
            }
            assert(pairs(out@) =~= Seq::empty());
            out
        },
        MarkerStyle::Ring => plot_ring(cx, cy, size, w, h),
        MarkerStyle::Cross => plot_strokes(cx, cy, size, false, w, h),
        MarkerStyle::X => plot_strokes(cx, cy, size, true, w, h),
    }
}

// ---------------------------------------------------------------------------
// What the shapes are
// ---------------------------------------------------------------------------

/// A pixel is on an image if it is not left of, above, right of or below it.
pub proof fn what_is_on_an_image(x: int, y: int, w: int, h: int)
    ensures
        on_image(x, y, w, h) <==> 0 <= x && x < w && 0 <= y && y < h,
{
}

/// What is kept of a list of points is what is on the image, and all of it.
pub proof fn shown_points_are_on_the_image(points: Seq<(int, int)>, w: int, h: int, p: (int, int))
    ensures
        shown(points, w, h).contains(p) <==> points.contains(p) && 0 <= p.0 < w && 0 <= p.1 < h,
{
    let keep = |q: (int, int)| on_image(q.0, q.1, w, h);
    if points.contains(p) && keep(p) {
        let i = choose|i: int| 0 <= i < points.len() && points[i] == p;
        points.lemma_filter_contains(keep, i);
    }
    if shown(points, w, h).contains(p) {
        let i = choose|i: int| 0 <= i < shown(points, w, h).len() && shown(points, w, h)[i] == p;
        points.lemma_filter_pred(keep, i);
        points.lemma_filter_contains_rev(keep, p);
    }
}

/// The glow is brightest in the middle, and every pixel of it has the weight of
/// its distance; it reaches two pixels far, but not into the corners.
pub proof fn glow_fades_with_distance(cx: int, cy: int, i: int)
    requires
        0 <= i < 21,
    ensures
        glow_points(cx, cy).len() == 21,
        ({
            let p = glow_points(cx, cy)[i];
            let dx = p.0 - cx;
            let dy = p.1 - cy;
            let d = dx * dx + dy * dy;
            &&& -2 <= dx <= 2 && -2 <= dy <= 2 && d <= 5
            &&& d == 0 ==> p.2 == 100
            &&& d == 1 ==> p.2 == 60
            &&& d == 2 ==> p.2 == 35
            &&& d == 4 ==> p.2 == 25
            &&& d == 5 ==> p.2 == 15
        }),
{
    let (dx, dy) = (GLOW_RING@[i].0 as int, GLOW_RING@[i].1 as int);
    small_square(dx);
    small_square(dy);
}

proof fn small_square(d: int)
    ensures
        d == 0 ==> d * d == 0,
        d == 1 || d == -1 ==> d * d == 1,
        d == 2 || d == -2 ==> d * d == 4,
{
    assert(d == -1 ==> d * d == 1) by (nonlinear_arith);
    assert(d == -2 ==> d * d == 4) by (nonlinear_arith);
}

/// Every pixel of the glow is listed once.
pub proof fn glow_lists_every_pixel_once(cx: int, cy: int, i: int, j: int)
    requires
        0 <= i < j < 21,
    ensures
        (glow_points(cx, cy)[i].0, glow_points(cx, cy)[i].1) != (
            glow_points(cx, cy)[j].0,
            glow_points(cx, cy)[j].1,
        ),
{
}

proof fn square_holds_all(r: int, dx: int, dy: int) -> (i: int)
    requires
        0 <= r,
        -r <= dx <= r,
        -r <= dy <= r,
    ensures
        0 <= i < square(r).len(),
        square(r)[i] == (dx, dy),
{
    let n = 2 * r + 1;
    let i = (dy + r) * n + (dx + r);
    assert(0 <= i < n * n) by (nonlinear_arith)
        requires
            i == (dy + r) * n + (dx + r),
            0 <= dy + r <= n - 1,
            0 <= dx + r <= n - 1,
    ;
    assert(i / n == dy + r && i % n == dx + r) by {
        vstd::arithmetic::div_mod::lemma_fundamental_div_mod_converse(i, n, dy + r, dx + r);
    }
    i
}

/// A disk is what its name says: the pixels of the image that are not farther
/// from the center than the radius, each with the square of its distance. One
/// of radius zero is empty.
pub proof fn disks_are_round(
    cx: int,
    cy: int,
    r: int,
    w: int,
    h: int,
    x: int,
    y: int,
    d: int,
)
    requires
        0 <= r,
    ensures
        disk_points(cx, cy, r, w, h).contains((x, y, d)) <==> {
            &&& r > 0
            &&& d == (x - cx) * (x - cx) + (y - cy) * (y - cy)
            &&& d <= r * r
            &&& 0 <= x < w && 0 <= y < h
        },
{
    let keep = |o: (int, int)| norm2(o) <= r * r && on_image(cx + o.0, cy + o.1, w, h);
    let all = square(r);
    let kept = disk_offsets(cx, cy, r, w, h);
    let out = disk_points(cx, cy, r, w, h);
    let o = (x - cx, y - cy);
    if r > 0 && d == norm2(o) && d <= r * r && 0 <= x < w && 0 <= y < h {
        assert(-r <= o.0 <= r && -r <= o.1 <= r) by (nonlinear_arith)
            requires
                o.0 * o.0 + o.1 * o.1 <= r * r,
                r > 0,
        ;
        let i = square_holds_all(r, o.0, o.1);
        all.lemma_filter_contains(keep, i);
        let k = choose|k: int| 0 <= k < kept.len() && kept[k] == o;
        assert(out[k] == (x, y, d));
    }
    if out.contains((x, y, d)) {
        let k = choose|k: int| 0 <= k < out.len() && out[k] == (x, y, d);
        all.lemma_filter_pred(keep, k);
    }
}

/// A cross is the pixels straight left, right, above and below the center, as
/// far as its size.
pub proof fn crosses_are_straight(cx: int, cy: int, r: int, x: int, y: int)
    requires
        0 <= r,
    ensures
        marker_points(MarkerStyle::Cross, cx, cy, r).contains((x, y)) <==> (y == cy && -r <= x - cx
            <= r) || (x == cx && -r <= y - cy <= r),
{
    let all = marker_points(MarkerStyle::Cross, cx, cy, r);
    if y == cy && -r <= x - cx <= r {
        let k = 2 * (x - cx + r);
        assert(k % 2 == 0 && k / 2 == x - cx + r);
        assert(all[k] == (x, y));
    }
    if x == cx && -r <= y - cy <= r {
        let k = 2 * (y - cy + r) + 1;
        assert(k % 2 == 1 && k / 2 == y - cy + r);
        assert(all[k] == (x, y));
    }
    if all.contains((x, y)) {
        let k = choose|k: int| 0 <= k < all.len() && all[k] == (x, y);
        assert(0 <= k / 2 <= 2 * r);
    }
}

/// An X is the pixels on both diagonals through the center, as far as its size.
pub proof fn xs_are_diagonal(cx: int, cy: int, r: int, x: int, y: int)
    requires
        0 <= r,
    ensures
        marker_points(MarkerStyle::X, cx, cy, r).contains((x, y)) <==> -r <= x - cx <= r && (y - cy
            == x - cx || y - cy == cx - x),
{
    let all = marker_points(MarkerStyle::X, cx, cy, r);
    if -r <= x - cx <= r && y - cy == x - cx {
        let k = 2 * (x - cx + r);
        assert(k % 2 == 0 && k / 2 == x - cx + r);
        assert(all[k] == (x, y));
    }
    if -r <= x - cx <= r && y - cy == cx - x {
        let k = 2 * (x - cx + r) + 1;
        assert(k % 2 == 1 && k / 2 == x - cx + r);
        assert(all[k] == (x, y));
    }
    if all.contains((x, y)) {
        let k = choose|k: int| 0 <= k < all.len() && all[k] == (x, y);
        assert(0 <= k / 2 <= 2 * r);
    }
}

/// A dot is its glow alone: it adds no pixels.
pub proof fn dots_add_nothing(cx: int, cy: int, r: int)
    ensures
        marker_points(MarkerStyle::Dot, cx, cy, r).len() == 0,
{
}

/// Every pixel of a ring is near the circle: not outside it, and not farther
/// inside than one pixel in each direction. The ring looks the same from all
/// sides.
pub proof fn rings_are_round(cx: int, cy: int, r: int, p: (int, int))
    requires
        0 <= r,
        marker_points(MarkerStyle::Ring, cx, cy, r).contains(p),
    ensures
        ({
            let dx = if p.0 < cx {
                cx - p.0
            } else {
                p.0 - cx
            };
            let dy = if p.1 < cy {
                cy - p.1
            } else {
                p.1 - cy
            };
            &&& dx * dx + dy * dy <= r * r
            &&& r * r <= (dx + 1) * (dx + 1) + (dy + 1) * (dy + 1)
        }),
        ({
            let ring = marker_points(MarkerStyle::Ring, cx, cy, r);
            &&& ring.contains((2 * cx - p.0, p.1))
            &&& ring.contains((p.0, 2 * cy - p.1))
            &&& ring.contains((cx + p.1 - cy, cy + p.0 - cx))
        }),
{
    ring_rows_are_round(cx, cy, r, 0, p);
}

proof fn ring_rows_are_round(cx: int, cy: int, r: int, i: int, p: (int, int))
    requires
        0 <= i,
        0 <= r,
        ring_from(cx, cy, r, i).contains(p),
    ensures
        ({
            let dx = if p.0 < cx {
                cx - p.0
            } else {
                p.0 - cx
            };
            let dy = if p.1 < cy {
                cy - p.1
            } else {
                p.1 - cy
            };
            &&& dx * dx + dy * dy <= r * r
            &&& r * r <= (dx + 1) * (dx + 1) + (dy + 1) * (dy + 1)
        }),
        ring_from(cx, cy, r, i).contains((2 * cx - p.0, p.1)),
        ring_from(cx, cy, r, i).contains((p.0, 2 * cy - p.1)),
        ring_from(cx, cy, r, i).contains((cx + p.1 - cy, cy + p.0 - cx)),
    decreases r + 1 - i,
{
    let all = ring_from(cx, cy, r, i);
    let x = ring_reach(r, i);
    let eight = mirrored(cx, cy, x, i);
    let rest = ring_from(cx, cy, r, i + 1);
    let k = choose|k: int| 0 <= k < all.len() && all[k] == p;
    if k < 8 {
        assert(eight[k] == p);
        let bound = r * r + 1 - (i + 1) * (i + 1);
        root_is_largest(bound, r);
        assert(x * x <= bound);
        assert(x * x + i * i <= r * r) by (nonlinear_arith)
            requires
                x * x <= r * r + 1 - (i + 1) * (i + 1),
                i >= 0,
        ;
        if x < r {
            assert((x + 1) * (x + 1) > bound);
        }
        assert(r * r <= (x + 1) * (x + 1) + (i + 1) * (i + 1)) by (nonlinear_arith)
            requires
                x == r || (x + 1) * (x + 1) > r * r + 1 - (i + 1) * (i + 1),
                0 <= x <= r,
        ;
        assert(all[0] == eight[0] && all[1] == eight[1] && all[2] == eight[2] && all[3] == eight[3]
            && all[4] == eight[4] && all[5] == eight[5] && all[6] == eight[6] && all[7]
            == eight[7]);
    } else {
        assert(rest[k - 8] == p);
        ring_rows_are_round(cx, cy, r, i + 1, p);
        later_rows(cx, cy, r, i, (2 * cx - p.0, p.1));
        later_rows(cx, cy, r, i, (p.0, 2 * cy - p.1));
        later_rows(cx, cy, r, i, (cx + p.1 - cy, cy + p.0 - cx));
    }
}

proof fn later_rows(cx: int, cy: int, r: int, i: int, q: (int, int))
    requires
        0 <= i <= r,
        ring_reach(r, i) >= i,
        ring_from(cx, cy, r, i + 1).contains(q),
    ensures
        ring_from(cx, cy, r, i).contains(q),
{
    let rest = ring_from(cx, cy, r, i + 1);
    let k = choose|k: int| 0 <= k < rest.len() && rest[k] == q;
    assert(ring_from(cx, cy, r, i)[k + 8] == q);
}

/// A ring is closed: it reaches the circle straight right of the center, and in
/// every row up to the diagonal it has a pixel as far out as there is one whose
/// next row is still inside.
pub proof fn rings_are_closed(cx: int, cy: int, r: int, i: int, x: int) -> (at: int)
    requires
        0 <= i <= x <= r,
        x * x + (i + 1) * (i + 1) <= r * r + 1,
    ensures
        x <= at <= r,
        marker_points(MarkerStyle::Ring, cx, cy, r).contains((cx + at, cy + i)),
        i == 0 ==> at == r,
{
    root_is_largest(r * r + 1 - (i + 1) * (i + 1), r);
    let at = ring_reach(r, i);
    if at < x {
        assert(x * x > r * r + 1 - (i + 1) * (i + 1));
    }
    row_is_reached(cx, cy, r, 0, i, x);
    if i == 0 {
        assert((i + 1) * (i + 1) == 1) by (nonlinear_arith)
            requires
                i == 0,
        ;
        root_is(r * r, r, r);
    }
    at
}

proof fn row_is_reached(cx: int, cy: int, r: int, from: int, i: int, x: int)
    requires
        0 <= from <= i <= x <= r,
        x * x + (i + 1) * (i + 1) <= r * r + 1,
    ensures
        ring_from(cx, cy, r, from).contains((cx + ring_reach(r, i), cy + i)),
    decreases i - from,
{
    let bound = r * r + 1 - (from + 1) * (from + 1);
    root_is_largest(bound, r);
    assert(x * x <= bound) by (nonlinear_arith)
        requires
            bound == r * r + 1 - (from + 1) * (from + 1),
            x * x + (i + 1) * (i + 1) <= r * r + 1,
            0 <= from <= i,
    ;
    if ring_reach(r, from) < x {
        assert(x * x > bound);
    }
    let all = ring_from(cx, cy, r, from);
    if from < i {
        row_is_reached(cx, cy, r, from + 1, i, x);
        later_rows(cx, cy, r, from, (cx + ring_reach(r, i), cy + i));
    } else {
        assert(all[0] == mirrored(cx, cy, ring_reach(r, i), i)[0]);
    }
}

} // verus!
