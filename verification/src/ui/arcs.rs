//! Connection arcs from the home marker to the dots.
//!
//! The curve itself is sampled by the caller; here its samples are joined,
//! drawn and surrounded by a soft glow.

use vstd::prelude::*;

use crate::ui::canvas;
use crate::ui::canvas::{MapImage, Pixel};
use crate::ui::lines;
use crate::ui::markers;

verus! {

/// The points of the lines that join samples, one after the other.
pub open spec fn joined(samples: Seq<(int, int)>) -> Seq<(int, int)>
    decreases samples.len(),
{
    if samples.len() < 2 {
        Seq::empty()
    } else {
        let p = samples[samples.len() - 2];
        let q = samples[samples.len() - 1];
        joined(samples.drop_last()) + lines::line(p.0, p.1, q.0, q.1)
    }
}

/// Painting some points and then others in the same color paints both.
pub proof fn painted_together(
    a: MapImage,
    b: MapImage,
    c: MapImage,
    first: Seq<(int, int)>,
    second: Seq<(int, int)>,
    color: Pixel,
)
    requires
        lines::painted(a, b, first, color),
        lines::painted(b, c, second, color),
    ensures
        lines::painted(a, c, first + second, color),
{
    let both = first + second;
    assert forall|x: int, y: int| a.has(x, y) implies #[trigger] c.at(x, y) == if both.contains(
        (x, y),
    ) {
        color
    } else {
        a.at(x, y)
    } by {
        assert(b.has(x, y));
        assert(b.at(x, y) == if first.contains((x, y)) {
            color
        } else {
            a.at(x, y)
        });
        if first.contains((x, y)) {
            let i = choose|i: int| 0 <= i < first.len() && first[i] == (x, y);
            assert(both[i] == (x, y));
        }
        if second.contains((x, y)) {
            let i = choose|i: int| 0 <= i < second.len() && second[i] == (x, y);
            assert(both[first.len() + i] == (x, y));
        }
        if both.contains((x, y)) {
            let i = choose|i: int| 0 <= i < both.len() && both[i] == (x, y);
            if i < first.len() {
                assert(first[i] == (x, y));
            } else {
                assert(second[i - first.len()] == (x, y));
            }
        }
    }
}

proof fn painted_nothing(a: MapImage, points: Seq<(int, int)>, color: Pixel)
    requires
        points.len() == 0,
    ensures
        lines::painted(a, a, points, color),
{
}

/// Draws the lines that join the samples of a curve, and returns the pixels of
/// the image that they touched.
pub fn draw_connection_line(img: &mut MapImage, samples: &Vec<(i32, i32)>, color: Pixel) -> (pixels:
    Vec<(i32, i32)>)
    ensures
        lines::painted(*old(img), *final(img), joined(lines::as_points(samples@)), color),
        lines::as_points(pixels@) == lines::clipped(
            joined(lines::as_points(samples@)),
            old(img).w(),
            old(img).h(),
        ),
{
    let mut pixels: Vec<(i32, i32)> = Vec::new();
    let ghost all = lines::as_points(samples@);
    let ghost (w, h) = (img.w(), img.h());
    let ghost keep = |p: (int, int)| 0 <= p.0 < w && 0 <= p.1 < h;
    proof {
        painted_nothing(*img, Seq::empty(), color);
        assert(lines::clipped(Seq::empty(), w, h) =~= Seq::empty()) by {
            reveal(Seq::filter);
        }
        assert(lines::as_points(pixels@) =~= Seq::empty());
    }
    if samples.len() < 2 {
        assert(joined(all) =~= Seq::empty());
        return pixels;
    }
    assert(joined(all.take(1)) =~= Seq::empty());
    let mut i: usize = 1;
    while i < samples.len()
        invariant
            1 <= i <= samples@.len(),
            all == lines::as_points(samples@),
            w == old(img).w(),
            h == old(img).h(),
            keep == (|p: (int, int)| 0 <= p.0 < w && 0 <= p.1 < h),
            lines::painted(*old(img), *img, joined(all.take(i as int)), color),
            lines::as_points(pixels@) == lines::clipped(joined(all.take(i as int)), w, h),
        decreases samples@.len() - i,
    {
        let p: (i32, i32) = samples[i - 1];
        let q: (i32, i32) = samples[i];
        let ghost before = *img;
        let ghost done = joined(all.take(i as int));
        let ghost next = lines::line(p.0 as int, p.1 as int, q.0 as int, q.1 as int);
        lines::plot_line_collect(img, &mut pixels, p.0, p.1, q.0, q.1, color);
        proof {
            assert(all.take(i + 1).drop_last() =~= all.take(i as int));
            assert(all.take(i + 1)[i - 1] == (p.0 as int, p.1 as int));
            assert(all.take(i + 1)[i as int] == (q.0 as int, q.1 as int));
            assert(joined(all.take(i + 1)) == done + next);
            painted_together(*old(img), before, *img, done, next, color);
            Seq::filter_distributes_over_add(done, next, keep);
        }
        i = i + 1;
    }
    assert(all.take(samples@.len() as int) =~= all);
    pixels
}

/// How wide the soft glow of an arc is: nothing where glow is off, else one or
/// two pixels.
pub open spec fn glow_radius(glow: int) -> int {
    if glow <= 0 {
        0
    } else if glow >= 2 {
        2
    } else {
        1
    }
}

/// The four neighbors at distance `g` of every pixel: column, row and `g`.
pub open spec fn neighbors(pixels: Seq<(int, int)>, g: int) -> Seq<(int, int, int)> {
    Seq::new(
        4 * pixels.len(),
        |i: int|
            {
                let p = pixels[i / 4];
                if i % 4 == 0 {
                    (p.0, p.1 + g, g)
                } else if i % 4 == 1 {
                    (p.0, p.1 - g, g)
                } else if i % 4 == 2 {
                    (p.0 + g, p.1, g)
                } else {
                    (p.0 - g, p.1, g)
                }
            },
    )
}

/// The soft glow around pixels: near neighbors first.
pub open spec fn glow_cells(pixels: Seq<(int, int)>, glow: int) -> Seq<(int, int, int)> {
    if glow_radius(glow) == 0 {
        Seq::empty()
    } else if glow_radius(glow) == 1 {
        neighbors(pixels, 1)
    } else {
        neighbors(pixels, 1) + neighbors(pixels, 2)
    }
}

/// The cells that are on an image of the given size.
pub open spec fn cells_shown(c: Seq<(int, int, int)>, w: int, h: int) -> Seq<(int, int, int)> {
    c.filter(|p: (int, int, int)| markers::on_image(p.0, p.1, w, h))
}

fn add_neighbors(out: &mut Vec<(u32, u32, u8)>, pixels: &Vec<(i32, i32)>, g: u8, w: u32, h: u32)
    requires
        g <= 2,
    ensures
        markers::cells(final(out)@, |a: u8| a as int) == markers::cells(
            old(out)@,
            |a: u8| a as int,
        ) + cells_shown(neighbors(lines::as_points(pixels@), g as int), w as int, h as int),
{
    let ghost points = lines::as_points(pixels@);
    let ghost all = neighbors(points, g as int);
    let ghost keep = |p: (int, int, int)| markers::on_image(p.0, p.1, w as int, h as int);
    let ghost value = |a: u8| a as int;
    let ghost start = markers::cells(out@, value);
    proof {
        markers::filter_ends(all, keep);
        assert(start + Seq::<(int, int, int)>::empty() =~= start);
    }
    let mut i: usize = 0;
    while i < pixels.len()
        invariant
            i <= pixels@.len(),
            g <= 2,
            points == lines::as_points(pixels@),
            all == neighbors(points, g as int),
            keep == (|p: (int, int, int)| markers::on_image(p.0, p.1, w as int, h as int)),
            value == (|a: u8| a as int),
            markers::cells(out@, value) == start + all.take(4 * i).filter(keep),
        decreases pixels@.len() - i,
    {
        let (px, py): (i32, i32) = pixels[i];
        let (x, y): (i64, i64) = (px as i64, py as i64);
        let d: i64 = g as i64;
        assert(points[i as int] == (px as int, py as int));
        let mut j: usize = 0;
        while j < 4
            invariant
                j <= 4,
                i < pixels@.len(),
                d == g,
                g <= 2,
                x == points[i as int].0,
                y == points[i as int].1,
                -0x8000_0000 <= x <= 0x7fff_ffff,
                -0x8000_0000 <= y <= 0x7fff_ffff,
                points == lines::as_points(pixels@),
                all == neighbors(points, g as int),
                keep == (|p: (int, int, int)| markers::on_image(p.0, p.1, w as int, h as int)),
                value == (|a: u8| a as int),
                markers::cells(out@, value) == start + all.take(4 * i + j).filter(keep),
            decreases 4 - j,
        {
            let (gx, gy): (i64, i64) = if j == 0 {
                (x, y + d)
            } else if j == 1 {
                (x, y - d)
            } else if j == 2 {
                (x + d, y)
            } else {
                (x - d, y)
            };
            let ghost k = 4 * i + j;
            let ghost before = out@;
            proof {
                markers::filter_one_more(all, k, keep);
                assert(all[k] == (gx as int, gy as int, g as int));
            }
            if gx >= 0 && gy >= 0 && gx < w as i64 && gy < h as i64 {
                out.push((gx as u32, gy as u32, g));
                assert(markers::cells(out@, value) =~= markers::cells(before, value).push(all[k]));
                assert(markers::cells(out@, value) =~= start + all.take(k + 1).filter(keep));
            }
            j = j + 1;
        }
        i = i + 1;
    }
}

/// The pixels of the soft glow around the pixels of an arc, with their
/// distance from it.
pub fn soft_glow(pixels: &Vec<(i32, i32)>, glow: u8, w: u32, h: u32) -> (out: Vec<(u32, u32, u8)>)
    ensures
        markers::cells(out@, |a: u8| a as int) == cells_shown(
            glow_cells(lines::as_points(pixels@), glow as int),
            w as int,
            h as int,
        ),
{
    let ghost points = lines::as_points(pixels@);
    let ghost keep = |p: (int, int, int)| markers::on_image(p.0, p.1, w as int, h as int);
    let mut out: Vec<(u32, u32, u8)> = Vec::new();
    proof {
        assert(markers::cells(out@, |a: u8| a as int) =~= Seq::empty());
        assert(cells_shown(Seq::empty(), w as int, h as int) =~= Seq::empty()) by {
            reveal(Seq::filter);
        }
        Seq::filter_distributes_over_add(neighbors(points, 1), neighbors(points, 2), keep);
    }
    if glow >= 1 {
        add_neighbors(&mut out, pixels, 1, w, h);
        assert(markers::cells(out@, |a: u8| a as int) =~= cells_shown(
            neighbors(points, 1),
            w as int,
            h as int,
        ));
    }
    if glow >= 2 {
        add_neighbors(&mut out, pixels, 2, w, h);
    }
    out
}

/// Whether the box around the ends and the control point of an arc meets an
/// image; `(cx, cy)` is the control point, rounded down.
pub open spec fn box_meets_image(
    x0: int,
    y0: int,
    x1: int,
    y1: int,
    cx: int,
    cy: int,
    w: int,
    h: int,
) -> bool {
    &&& x0 >= 0 || x1 >= 0 || cx >= 0
    &&& x0 < w || x1 < w || cx < w
    &&& y0 >= 0 || y1 >= 0 || cy >= 0
    &&& y0 < h || y1 < h || cy < h
}

/// Whether any part of an arc can be on the image.
pub fn arc_intersects_viewport(
    x0: i32,
    y0: i32,
    x1: i32,
    y1: i32,
    cx: i64,
    cy: i64,
    w: u32,
    h: u32,
) -> (yes: bool)
    ensures
        yes == box_meets_image(
            x0 as int,
            y0 as int,
            x1 as int,
            y1 as int,
            cx as int,
            cy as int,
            w as int,
            h as int,
        ),
{
    let (wi, hi): (i64, i64) = (w as i64, h as i64);
    (x0 >= 0 || x1 >= 0 || cx >= 0) && ((x0 as i64) < wi || (x1 as i64) < wi || cx < wi) && (y0
        >= 0 || y1 >= 0 || cy >= 0) && ((y0 as i64) < hi || (y1 as i64) < hi || cy < hi)
}

/// An arc is never culled if one of its ends is on the image: what is visible
/// of it is drawn, however far away the other end is.
pub proof fn arcs_with_a_visible_end_are_drawn(
    x0: int,
    y0: int,
    x1: int,
    y1: int,
    cx: int,
    cy: int,
    w: int,
    h: int,
)
    requires
        markers::on_image(x0, y0, w, h) || markers::on_image(x1, y1, w, h),
    ensures
        box_meets_image(x0, y0, x1, y1, cx, cy, w, h),
{
}

/// Where an arc is culled, no point between its ends and its control point is
/// on the image.
pub proof fn culled_arcs_are_invisible(
    x0: int,
    y0: int,
    x1: int,
    y1: int,
    cx: int,
    cy: int,
    w: int,
    h: int,
    x: int,
    y: int,
)
    requires
        !box_meets_image(x0, y0, x1, y1, cx, cy, w, h),
        x <= x0 || x <= x1 || x <= cx,
        x >= x0 || x >= x1 || x >= cx,
        y <= y0 || y <= y1 || y <= cy,
        y >= y0 || y >= y1 || y >= cy,
    ensures
        !markers::on_image(x, y, w, h),
{
}

/// An arc is kept if and only if some pixel of the image is inside the box of
/// its ends and its control point, wherever these themselves are.
pub proof fn kept_arcs_reach_the_image(
    x0: int,
    y0: int,
    x1: int,
    y1: int,
    cx: int,
    cy: int,
    w: int,
    h: int,
)
    requires
        w > 0,
        h > 0,
    ensures
        box_meets_image(x0, y0, x1, y1, cx, cy, w, h) <==> exists|x: int, y: int|
            #![trigger markers::on_image(x, y, w, h)]
            0 <= x < w && 0 <= y < h && markers::on_image(x, y, w, h) && (x0 <= x || x1 <= x
                || cx <= x) && (x <= x0 || x <= x1 || x <= cx) && (y0 <= y || y1 <= y || cy <= y)
                && (y <= y0 || y <= y1 || y <= cy),
{
    if box_meets_image(x0, y0, x1, y1, cx, cy, w, h) {
        let low_x = if x0 <= x1 && x0 <= cx {
            x0
        } else if x1 <= cx {
            x1
        } else {
            cx
        };
        let low_y = if y0 <= y1 && y0 <= cy {
            y0
        } else if y1 <= cy {
            y1
        } else {
            cy
        };
        let x = if low_x > 0 {
            low_x
        } else {
            0
        };
        let y = if low_y > 0 {
            low_y
        } else {
            0
        };
        assert(markers::on_image(x, y, w, h));
    }
}

/// The joined samples of a curve are the lines between neighbors: adding a
/// sample adds the line to it, and a single sample has none.
pub proof fn samples_are_joined_one_by_one(samples: Seq<(int, int)>, next: (int, int))
    ensures
        samples.len() < 2 ==> joined(samples).len() == 0,
        samples.len() >= 1 ==> joined(samples.push(next)) == joined(samples) + lines::line(
            samples.last().0,
            samples.last().1,
            next.0,
            next.1,
        ),
{
    if samples.len() >= 1 {
        assert(samples.push(next).drop_last() =~= samples);
    }
}

/// The glow of an arc holds, for every pixel of the arc, its four neighbors at
/// distance one where glow is on, and those at distance two where it is two or
/// more; without glow there are none.
pub proof fn glow_surrounds_every_pixel(pixels: Seq<(int, int)>, glow: int, i: int, g: int)
    requires
        0 <= i < pixels.len(),
        1 <= g <= 2,
        g <= glow,
    ensures
        glow_cells(pixels, glow).contains((pixels[i].0 + g, pixels[i].1, g)),
        glow_cells(pixels, glow).contains((pixels[i].0 - g, pixels[i].1, g)),
        glow_cells(pixels, glow).contains((pixels[i].0, pixels[i].1 + g, g)),
        glow_cells(pixels, glow).contains((pixels[i].0, pixels[i].1 - g, g)),
{
    let cells = glow_cells(pixels, glow);
    let start = if g == 1 {
        0int
    } else {
        4 * pixels.len() as int
    };
    assert(neighbors(pixels, g)[4 * i] == (pixels[i].0, pixels[i].1 + g, g));
    assert(neighbors(pixels, g)[4 * i + 1] == (pixels[i].0, pixels[i].1 - g, g));
    assert(neighbors(pixels, g)[4 * i + 2] == (pixels[i].0 + g, pixels[i].1, g));
    assert(neighbors(pixels, g)[4 * i + 3] == (pixels[i].0 - g, pixels[i].1, g));
    assert(cells[start + 4 * i] == neighbors(pixels, g)[4 * i]);
    assert(cells[start + 4 * i + 1] == neighbors(pixels, g)[4 * i + 1]);
    assert(cells[start + 4 * i + 2] == neighbors(pixels, g)[4 * i + 2]);
    assert(cells[start + 4 * i + 3] == neighbors(pixels, g)[4 * i + 3]);
}

/// Every cell of the glow of an arc is one of the four neighbors of a pixel of
/// the arc, one or two pixels away, and not farther than the glow is wide.
pub proof fn glow_stays_near_the_arc(pixels: Seq<(int, int)>, glow: int, k: int) -> (i: int)
    requires
        0 <= k < glow_cells(pixels, glow).len(),
    ensures
        0 <= i < pixels.len(),
        ({
            let (x, y, g) = glow_cells(pixels, glow)[k];
            let dx = x - pixels[i].0;
            let dy = y - pixels[i].1;
            &&& 1 <= g <= 2 && g <= glow
            &&& (dx == 0 && (dy == g || dy == -g)) || (dy == 0 && (dx == g || dx == -g))
        }),
{
    let n = 4 * pixels.len() as int;
    let m = if k < n {
        k
    } else {
        k - n
    };
    assert(glow_cells(pixels, glow)[k] == neighbors(
        pixels,
        if k < n {
            1
        } else {
            2
        },
    )[m]);
    m / 4
}

} // verus!
