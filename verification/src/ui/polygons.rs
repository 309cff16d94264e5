//! The coarse continents of the fallback map.
//!
//! The outlines are rough sketches, not cartographically accurate, but they
//! resolve to recognisable landmasses.

use vstd::prelude::*;

use crate::ui::arcs;
use crate::ui::canvas;
use crate::ui::canvas::{MapImage, Pixel};
use crate::ui::lines;

verus! {

/// Width of the map.
pub const DEFAULT_MAP_W: u32 = 2048;

/// Height of the map.
pub const DEFAULT_MAP_H: u32 = 1024;

/// North America.
pub const NORTH_AMERICA: [(i32, i32); 22] = [
    (71, -156),
    (70, -141),
    (69, -120),
    (60, -94),
    (49, -94),
    (49, -123),
    (32, -117),
    (25, -110),
    (18, -97),
    (16, -88),
    (22, -82),
    (26, -81),
    (32, -80),
    (40, -74),
    (45, -67),
    (51, -56),
    (60, -64),
    (65, -78),
    (70, -90),
    (74, -95),
    (78, -120),
    (74, -140),
];

/// South America.
pub const SOUTH_AMERICA: [(i32, i32); 13] = [
    (12, -82),
    (10, -67),
    (5, -52),
    (-5, -35),
    (-23, -41),
    (-35, -57),
    (-55, -68),
    (-50, -73),
    (-30, -71),
    (-18, -75),
    (-5, -81),
    (2, -78),
    (8, -77),
];

/// Europe.
pub const EUROPE: [(i32, i32); 16] = [
    (71, 25),
    (70, 30),
    (60, 30),
    (55, 35),
    (45, 40),
    (40, 25),
    (37, 0),
    (43, -8),
    (50, -5),
    (58, -7),
    (60, 5),
    (58, 12),
    (55, 14),
    (54, 8),
    (60, 11),
    (65, 12),
];

/// Africa.
pub const AFRICA: [(i32, i32); 16] = [
    (37, -8),
    (32, 10),
    (30, 32),
    (12, 43),
    (12, 51),
    (-2, 41),
    (-15, 40),
    (-35, 20),
    (-34, 18),
    (-29, 16),
    (-12, 13),
    (5, 0),
    (5, -10),
    (10, -16),
    (20, -17),
    (30, -9),
];

/// Asia (one big blob).
pub const ASIA: [(i32, i32); 19] = [
    (78, 60),
    (78, 140),
    (70, 165),
    (60, 170),
    (50, 142),
    (35, 140),
    (22, 120),
    (10, 105),
    (1, 103),
    (8, 80),
    (22, 68),
    (25, 55),
    (12, 43),
    (30, 32),
    (40, 26),
    (45, 40),
    (55, 50),
    (60, 55),
    (70, 60),
];

/// Australia.
pub const AUSTRALIA: [(i32, i32); 9] = [
    (-12, 130),
    (-12, 142),
    (-18, 146),
    (-25, 153),
    (-37, 150),
    (-38, 141),
    (-35, 135),
    (-32, 125),
    (-22, 113),
];

/// Greenland.
pub const GREENLAND: [(i32, i32); 7] = [
    (83, -30),
    (80, -20),
    (70, -22),
    (60, -43),
    (70, -55),
    (78, -70),
    (82, -45),
];

/// Antarctica (just a strip across the bottom).
pub const ANTARCTICA: [(i32, i32); 7] = [
    (-65, -180),
    (-85, -120),
    (-80, -60),
    (-75, 0),
    (-72, 60),
    (-68, 120),
    (-72, 180),
];

/// How many continents there are.
pub const CONTINENTS: usize = 8;

/// The outline of a continent, as latitudes and longitudes in degrees.
pub open spec fn outline(i: int) -> Seq<(i32, i32)> {
    if i == 0 {
        NORTH_AMERICA@
    } else if i == 1 {
        SOUTH_AMERICA@
    } else if i == 2 {
        EUROPE@
    } else if i == 3 {
        AFRICA@
    } else if i == 4 {
        ASIA@
    } else if i == 5 {
        AUSTRALIA@
    } else if i == 6 {
        GREENLAND@
    } else {
        ANTARCTICA@
    }
}

/// An integer, moved into a range.
pub open spec fn clamp(v: int, low: int, high: int) -> int {
    if v < low {
        low
    } else if v > high {
        high
    } else {
        v
    }
}

/// The pixel of the fallback map at a latitude and a longitude in whole
/// degrees.
pub open spec fn projected(lat: int, lon: int) -> (int, int) {
    (
        clamp((lon + 180) * DEFAULT_MAP_W / 360, 0, DEFAULT_MAP_W - 1),
        clamp((90 - lat) * DEFAULT_MAP_H / 180, 0, DEFAULT_MAP_H - 1),
    )
}

/// The pixel of the fallback map at a latitude and a longitude in whole
/// degrees.
pub fn project(lat: i32, lon: i32) -> (p: (i32, i32))
    ensures
        (p.0 as int, p.1 as int) == projected(lat as int, lon as int),
{
    let x: i32 = if lon < -180 {
        0
    } else if lon >= 180 {
        2047
    } else {
        (lon + 180) * 2048 / 360
    };
    let y: i32 = if lat > 90 {
        0
    } else if lat <= -90 {
        1023
    } else {
        (90 - lat) * 1024 / 180
    };
    (x, y)
}

/// Projects an outline.
fn project_all(pts: &[(i32, i32)]) -> (out: Vec<(i32, i32)>)
    ensures
        lines::as_points(out@) == outline_points(pts@),
{
    let mut out: Vec<(i32, i32)> = Vec::new();
    let mut i: usize = 0;
    assert(lines::as_points(out@) =~= outline_points(pts@).take(0));
    while i < pts.len()
        invariant
            i <= pts@.len(),
            lines::as_points(out@) == outline_points(pts@).take(i as int),
        decreases pts@.len() - i,
    {
        let (lat, lon): (i32, i32) = pts[i];
        assert(pts@[i as int] == (lat, lon));
        let ghost before = out@;
        let p: (i32, i32) = project(lat, lon);
        out.push(p);
        assert(lines::as_points(out@) =~= lines::as_points(before).push((p.0 as int, p.1 as int)));
        assert(outline_points(pts@)[i as int] == projected(lat as int, lon as int));
        i = i + 1;
        assert(lines::as_points(out@) =~= outline_points(pts@).take(i as int));
    }
    assert(outline_points(pts@).take(pts@.len() as int) =~= outline_points(pts@));
    out
}

/// An outline in pixels.
pub open spec fn outline_points(pts: Seq<(i32, i32)>) -> Seq<(int, int)> {
    pts.map_values(|p: (i32, i32)| projected(p.0 as int, p.1 as int))
}

/// The outline of a continent in pixels of the fallback map.
pub fn continent(i: usize) -> (out: Vec<(i32, i32)>)
    requires
        i < CONTINENTS,
    ensures
        lines::as_points(out@) == outline_points(outline(i as int)),
{
    if i == 0 {
        project_all(&NORTH_AMERICA)
    } else if i == 1 {
        project_all(&SOUTH_AMERICA)
    } else if i == 2 {
        project_all(&EUROPE)
    } else if i == 3 {
        project_all(&AFRICA)
    } else if i == 4 {
        project_all(&ASIA)
    } else if i == 5 {
        project_all(&AUSTRALIA)
    } else if i == 6 {
        project_all(&GREENLAND)
    } else {
        project_all(&ANTARCTICA)
    }
}

// ---------------------------------------------------------------------------
// Filling
// ---------------------------------------------------------------------------

/// Whether an edge from height `y0` to height `y1` crosses row `y`: exactly
/// one of its ends is at or above it.
pub open spec fn crosses(y0: int, y1: int, y: int) -> bool {
    (y0 <= y) != (y1 <= y)
}

/// The corner that follows corner `i` of a closed outline.
pub open spec fn next_corner(i: int, n: int) -> int {
    if i + 1 == n {
        0
    } else {
        i + 1
    }
}

/// The edges of a closed outline that cross row `y`, among the first `n`.
pub open spec fn crossing_edges(corners: Seq<(int, int)>, y: int, n: int) -> Seq<int>
    decreases n,
{
    if n <= 0 {
        Seq::empty()
    } else {
        let before = crossing_edges(corners, y, n - 1);
        if crosses(
            corners[n - 1].1,
            corners[next_corner(n - 1, corners.len() as int)].1,
            y,
        ) {
            before.push(n - 1)
        } else {
            before
        }
    }
}

/// Edge numbers as integers.
pub open spec fn edge_numbers(v: Seq<usize>) -> Seq<int> {
    v.map_values(|i: usize| i as int)
}

/// The edges of a closed outline that cross row `y`.
pub fn row_edges(corners: &Vec<(i32, i32)>, y: i32) -> (out: Vec<usize>)
    ensures
        edge_numbers(out@) == crossing_edges(
            lines::as_points(corners@),
            y as int,
            corners@.len() as int,
        ),
{
    let ghost pts = lines::as_points(corners@);
    let mut out: Vec<usize> = Vec::new();
    assert(edge_numbers(out@) =~= Seq::empty());
    let mut i: usize = 0;
    while i < corners.len()
        invariant
            i <= corners@.len(),
            pts == lines::as_points(corners@),
            edge_numbers(out@) == crossing_edges(pts, y as int, i as int),
        decreases corners@.len() - i,
    {
        let y0: i32 = corners[i].1;
        let next: usize = if i + 1 == corners.len() {
            0
        } else {
            i + 1
        };
        let y1: i32 = corners[next].1;
        assert(pts[i as int].1 == y0);
        assert(pts[next as int].1 == y1);
        let ghost before = out@;
        if (y0 <= y && y1 > y) || (y1 <= y && y0 > y) {
            out.push(i);
            assert(edge_numbers(out@) =~= edge_numbers(before).push(i as int));
        }
        i = i + 1;
    }
    out
}

/// Among the first `k` edges, an odd number crosses row `y` if and only if the
/// corner behind them is on the other side than the first.
proof fn crossings_change_sides(corners: Seq<(int, int)>, y: int, k: int)
    requires
        0 <= k <= corners.len(),
        corners.len() > 0,
    ensures
        crossing_edges(corners, y, k).len() % 2 == 1 <==> (corners[0].1 <= y) != (corners[if k
            == corners.len() {
            0
        } else {
            k
        }].1 <= y),
    decreases k,
{
    if k > 0 {
        crossings_change_sides(corners, y, k - 1);
    }
}

/// Every row crosses an even number of edges of a closed outline, so that the
/// crossings come in pairs.
pub proof fn crossings_come_in_pairs(corners: Seq<(int, int)>, y: int)
    ensures
        crossing_edges(corners, y, corners.len() as int).len() % 2 == 0,
{
    if corners.len() > 0 {
        crossings_change_sides(corners, y, corners.len() as int);
    }
}

/// The integers from small to large.
pub open spec fn ascending(v: Seq<i32>) -> Seq<i32> {
    v.sort_by(|a: i32, b: i32| a <= b)
}

/// Sorts integers from small to large.
pub fn sort_ascending(v: &Vec<i32>) -> (out: Vec<i32>)
    ensures
        out@ == ascending(v@),
{
    let ghost leq = |a: i32, b: i32| a <= b;
    let mut out: Vec<i32> = Vec::new();
    let mut i: usize = 0;
    assert(v@.take(0) =~= Seq::empty());
    while i < v.len()
        invariant
            i <= v@.len(),
            out@.len() == i,
            leq == (|a: i32, b: i32| a <= b),
            vstd::relations::sorted_by(out@, leq),
            out@.to_multiset() == v@.take(i as int).to_multiset(),
        decreases v@.len() - i,
    {
        let x: i32 = v[i];
        let mut j: usize = 0;
        while j < out.len() && out[j] <= x
            invariant
                j <= out@.len(),
                forall|k: int| 0 <= k < j ==> out@[k] <= x,
            decreases out@.len() - j,
        {
            j = j + 1;
        }
        proof {
            let before = out@;
            let after = before.insert(j as int, x);
            vstd::seq_lib::to_multiset_insert(before, j as int, x);
            vstd::seq_lib::to_multiset_build(v@.take(i as int), x);
            assert(v@.take(i + 1) =~= v@.take(i as int).push(x));
            assert forall|a: int, b: int| 0 <= a < b < after.len() implies #[trigger] leq(
                after[a],
                after[b],
            ) by {
                let p = if a < j {
                    a
                } else {
                    a - 1
                };
                let q = if b < j {
                    b
                } else {
                    b - 1
                };
                if a != j && b != j {
                    assert(leq(before[p], before[q]));
                } else if a == j {
                    if j < before.len() {
                        if q > j {
                            assert(leq(before[j as int], before[q]));
                        }
                    }
                }
            }
        }
        out.insert(j, x);
        i = i + 1;
    }
    proof {
        assert(v@.take(v@.len() as int) =~= v@);
        v@.lemma_sort_by_ensures(leq);
        vstd::seq_lib::lemma_sorted_unique(out@, ascending(v@), leq);
    }
    out
}

/// Whether column `x` is between the two crossings of a pair, the first `n`
/// pairs counted.
pub open spec fn between_pairs(sorted: Seq<i32>, x: int, n: int) -> bool {
    exists|k: int| 0 <= k < n && 2 * k + 1 < sorted.len() && #[trigger] pair_covers(sorted, x, k)
}

/// Whether column `x` is between the crossings of pair `k`.
pub open spec fn pair_covers(sorted: Seq<i32>, x: int, k: int) -> bool {
    sorted[2 * k] <= x <= sorted[2 * k + 1]
}

/// Fills a row of an outline between the pairs of its crossings, taken from
/// left to right.
pub fn fill_row(img: &mut MapImage, y: u32, crossings: &Vec<i32>, color: Pixel)
    requires
        y < old(img).h(),
    ensures
        canvas::image_size(*final(img)) == canvas::image_size(*old(img)),
        forall|i: int, j: int|
            old(img).has(i, j) ==> #[trigger] final(img).at(i, j) == if j == y && between_pairs(
                ascending(crossings@),
                i,
                crossings@.len() as int,
            ) {
                color
            } else {
                old(img).at(i, j)
            },
{
    let xs: Vec<i32> = sort_ascending(crossings);
    proof {
        let leq = |a: i32, b: i32| a <= b;
        crossings@.lemma_sort_by_ensures(leq);
        vstd::seq_lib::to_multiset_len(crossings@);
        vstd::seq_lib::to_multiset_len(xs@);
    }
    let w: i64 = img.width() as i64;
    let mut k: usize = 0;
    while k + 1 < xs.len()
        invariant
            k <= xs@.len(),
            k % 2 == 0,
            xs@ == ascending(crossings@),
            xs@.len() == crossings@.len(),
            w == old(img).w(),
            y < old(img).h(),
            canvas::image_size(*img) == canvas::image_size(*old(img)),
            forall|i: int, j: int|
                old(img).has(i, j) ==> #[trigger] img.at(i, j) == if j == y && between_pairs(
                    xs@,
                    i,
                    k as int / 2,
                ) {
                    color
                } else {
                    old(img).at(i, j)
                },
        decreases xs@.len() - k,
    {
        let a: i64 = if xs[k] < 0 {
            0
        } else {
            xs[k] as i64
        };
        let b: i64 = if (xs[k + 1] as i64) < w - 1 {
            xs[k + 1] as i64
        } else {
            w - 1
        };
        let ghost done = *img;
        let mut x: i64 = a;
        while x <= b
            invariant
                0 <= a <= x,
                x <= b + 1 || x == a,
                b < w,
                w == old(img).w(),
                y < old(img).h(),
                canvas::image_size(*img) == canvas::image_size(*old(img)),
                canvas::image_size(done) == canvas::image_size(*old(img)),
                forall|i: int, j: int|
                    old(img).has(i, j) ==> #[trigger] img.at(i, j) == if j == y && a <= i < x {
                        color
                    } else {
                        done.at(i, j)
                    },
            decreases b + 1 - x,
        {
            let ghost before = *img;
            img.set_pixel(x as u32, y, color);
            proof {
                assert forall|i: int, j: int| old(img).has(i, j) implies #[trigger] img.at(i, j)
                    == if j == y && a <= i < x + 1 {
                    color
                } else {
                    done.at(i, j)
                } by {
                    if i == x && j == y {
                    } else {
                        assert(before.has(i, j));
                        assert(img.at(i, j) == before.at(i, j));
                    }
                }
            }
            x = x + 1;
        }
        proof {
            let n = k as int / 2;
            assert forall|i: int, j: int| old(img).has(i, j) implies #[trigger] img.at(i, j)
                == if j == y && between_pairs(xs@, i, n + 1) {
                color
            } else {
                old(img).at(i, j)
            } by {
                let here = xs@[k as int] <= i <= xs@[k + 1];
                assert(here == pair_covers(xs@, i, n));
                assert(between_pairs(xs@, i, n + 1) <==> between_pairs(xs@, i, n) || here) by {
                    if between_pairs(xs@, i, n + 1) {
                        let q = choose|q: int|
                            0 <= q < n + 1 && 2 * q + 1 < xs@.len() && #[trigger] pair_covers(
                                xs@,
                                i,
                                q,
                            );
                        if q < n {
                            assert(pair_covers(xs@, i, q));
                        }
                    }
                    if between_pairs(xs@, i, n) {
                        let q = choose|q: int|
                            0 <= q < n && 2 * q + 1 < xs@.len() && #[trigger] pair_covers(
                                xs@,
                                i,
                                q,
                            );
                        assert(pair_covers(xs@, i, q));
                    }
                }
                assert(img.at(i, j) == if j == y && a <= i < x {
                    color
                } else {
                    done.at(i, j)
                });
                assert(done.at(i, j) == if j == y && between_pairs(xs@, i, n) {
                    color
                } else {
                    old(img).at(i, j)
                });
            }
        }
        k = k + 2;
    }
    proof {
        let n = k as int / 2;
        assert forall|i: int| between_pairs(xs@, i, n) == between_pairs(
            xs@,
            i,
            xs@.len() as int,
        ) by {
            if between_pairs(xs@, i, xs@.len() as int) {
                let q = choose|q: int|
                    0 <= q < xs@.len() && 2 * q + 1 < xs@.len() && #[trigger] pair_covers(
                        xs@,
                        i,
                        q,
                    );
                assert(q < n);
                assert(pair_covers(xs@, i, q));
            }
            if between_pairs(xs@, i, n) {
                let q = choose|q: int|
                    0 <= q < n && 2 * q + 1 < xs@.len() && #[trigger] pair_covers(xs@, i, q);
                assert(pair_covers(xs@, i, q));
            }
        }
    }
}

/// The least height of the corners.
pub open spec fn least_row(corners: Seq<(int, int)>) -> int
    decreases corners.len(),
{
    if corners.len() <= 1 {
        corners[0].1
    } else {
        let before = least_row(corners.drop_last());
        if corners.last().1 < before {
            corners.last().1
        } else {
            before
        }
    }
}

/// The greatest height of the corners.
pub open spec fn greatest_row(corners: Seq<(int, int)>) -> int
    decreases corners.len(),
{
    if corners.len() <= 1 {
        corners[0].1
    } else {
        let before = greatest_row(corners.drop_last());
        if corners.last().1 > before {
            corners.last().1
        } else {
            before
        }
    }
}

/// The first row of an image that an outline covers.
pub open spec fn first_filled(corners: Seq<(int, int)>) -> int {
    if least_row(corners) > 0 {
        least_row(corners)
    } else {
        0
    }
}

/// The last row of an image of height `h` that an outline covers.
pub open spec fn last_filled(corners: Seq<(int, int)>, h: int) -> int {
    if greatest_row(corners) < h - 1 {
        greatest_row(corners)
    } else {
        h - 1
    }
}

/// The rows that an outline covers, as far as they are on an image of height
/// `h`, first and last; `None` where it has fewer than three corners.
pub fn fill_rows(corners: &Vec<(i32, i32)>, h: u32) -> (rows: Option<(i64, i64)>)
    ensures
        rows is Some <==> corners@.len() >= 3,
        rows matches Some((first, last)) ==> first == first_filled(lines::as_points(corners@))
            && last == last_filled(lines::as_points(corners@), h as int),
{
    if corners.len() < 3 {
        return None;
    }
    let ghost pts = lines::as_points(corners@);
    let mut low: i32 = corners[0].1;
    let mut high: i32 = corners[0].1;
    let mut i: usize = 1;
    assert(pts.take(1)[0] == pts[0]);
    while i < corners.len()
        invariant
            1 <= i <= corners@.len(),
            pts == lines::as_points(corners@),
            low == least_row(pts.take(i as int)),
            high == greatest_row(pts.take(i as int)),
        decreases corners@.len() - i,
    {
        let y: i32 = corners[i].1;
        assert(pts.take(i + 1).drop_last() =~= pts.take(i as int));
        assert(pts.take(i + 1).last().1 == y);
        if y < low {
            low = y;
        }
        if y > high {
            high = y;
        }
        i = i + 1;
    }
    assert(pts.take(corners@.len() as int) =~= pts);
    let bottom: i64 = h as i64 - 1;
    Some(
        (
            if low > 0 {
                low as i64
            } else {
                0
            },
            if (high as i64) < bottom {
                high as i64
            } else {
                bottom
            },
        ),
    )
}

/// Whether the pixel in column `x` and row `y` is inside an outline whose rows,
/// from row `first` on, are crossed at the given columns.
pub open spec fn inside(crossings: Seq<Vec<i32>>, first: int, x: int, y: int) -> bool {
    &&& first <= y < first + crossings.len()
    &&& between_pairs(
        ascending(crossings[y - first]@),
        x,
        crossings[y - first]@.len() as int,
    )
}

/// Fills an outline, row by row. `crossings` holds, for each of its rows, the
/// columns at which the edges cross it. Nothing is filled where there are
/// fewer than three corners.
pub fn fill_polygon(
    img: &mut MapImage,
    corners: &Vec<(i32, i32)>,
    crossings: &Vec<Vec<i32>>,
    color: Pixel,
)
    requires
        corners@.len() >= 3 ==> ({
            let pts = lines::as_points(corners@);
            let rows = last_filled(pts, old(img).h()) - first_filled(pts) + 1;
            crossings@.len() == if rows > 0 {
                rows
            } else {
                0
            }
        }),
    ensures
        canvas::image_size(*final(img)) == canvas::image_size(*old(img)),
        forall|i: int, j: int|
            old(img).has(i, j) ==> #[trigger] final(img).at(i, j) == if corners@.len() >= 3
                && inside(crossings@, first_filled(lines::as_points(corners@)), i, j) {
                color
            } else {
                old(img).at(i, j)
            },
{
    let h: u32 = img.height();
    let (first, last): (i64, i64) = match fill_rows(corners, h) {
        Some(rows) => rows,
        None => {
            return;
        },
    };
    let mut k: usize = 0;
    while k < crossings.len()
        invariant
            k <= crossings@.len(),
            h == old(img).h(),
            0 <= first <= i32::MAX,
            last < h,
            crossings@.len() > 0 ==> crossings@.len() == last - first + 1,
            canvas::image_size(*img) == canvas::image_size(*old(img)),
            forall|i: int, j: int|
                old(img).has(i, j) ==> #[trigger] img.at(i, j) == if j < first + k && inside(
                    crossings@,
                    first as int,
                    i,
                    j,
                ) {
                    color
                } else {
                    old(img).at(i, j)
                },
        decreases crossings@.len() - k,
    {
        let ghost before = *img;
        let y: u32 = (first + k as i64) as u32;
        fill_row(img, y, &crossings[k], color);
        assert forall|i: int, j: int| old(img).has(i, j) implies #[trigger] img.at(i, j) == if j
            < first + k + 1 && inside(crossings@, first as int, i, j) {
            color
        } else {
            old(img).at(i, j)
        } by {
            assert(before.has(i, j));
        }
        k = k + 1;
    }
}

/// The points of the first `n` edges of a closed outline.
pub open spec fn edge_points(corners: Seq<(int, int)>, n: int) -> Seq<(int, int)>
    decreases n,
{
    if n <= 0 {
        Seq::empty()
    } else {
        let p = corners[n - 1];
        let q = corners[next_corner(n - 1, corners.len() as int)];
        edge_points(corners, n - 1) + lines::line(p.0, p.1, q.0, q.1)
    }
}

/// Draws a closed outline, one pixel wide.
pub fn stroke_polygon(img: &mut MapImage, corners: &Vec<(i32, i32)>, color: Pixel)
    ensures
        lines::painted(
            *old(img),
            *final(img),
            edge_points(lines::as_points(corners@), corners@.len() as int),
            color,
        ),
{
    let ghost pts = lines::as_points(corners@);
    let mut i: usize = 0;
    assert(lines::painted(*old(img), *img, edge_points(pts, 0), color));
    while i < corners.len()
        invariant
            i <= corners@.len(),
            pts == lines::as_points(corners@),
            lines::painted(*old(img), *img, edge_points(pts, i as int), color),
        decreases corners@.len() - i,
    {
        let p: (i32, i32) = corners[i];
        let next: usize = if i + 1 == corners.len() {
            0
        } else {
            i + 1
        };
        let q: (i32, i32) = corners[next];
        let ghost before = *img;
        assert(pts[i as int] == (p.0 as int, p.1 as int));
        assert(pts[next as int] == (q.0 as int, q.1 as int));
        lines::draw_line(img, p.0, p.1, q.0, q.1, color);
        proof {
            arcs::painted_together(
                *old(img),
                before,
                *img,
                edge_points(pts, i as int),
                lines::line(p.0 as int, p.1 as int, q.0 as int, q.1 as int),
                color,
            );
        }
        i = i + 1;
    }
}

// ---------------------------------------------------------------------------
// Tracing outlines
// ---------------------------------------------------------------------------

/// What the pen does at the next point of an outline.
#[derive(Clone, Copy, Debug, PartialEq, Eq, Structural)]
pub enum PenMove {
    /// Begins a stroke at the point.
    Begin,
    /// Draws a line to the point.
    LineTo,
    /// Lifts off and leaves the point out.
    LiftOff,
}

/// Whether the pen is on the paper after a move.
pub open spec fn is_down(m: PenMove) -> bool {
    !(m is LiftOff)
}

/// What the pen does at the next point: a lifted pen begins a stroke, and a
/// pen on the paper draws on unless the point is more than half the picture
/// away from the last one that was reached.
pub open spec fn next_move(down: bool, far: bool) -> PenMove {
    if !down {
        PenMove::Begin
    } else if far {
        PenMove::LiftOff
    } else {
        PenMove::LineTo
    }
}

/// Decides what the pen does at the next point, and whether it is on the paper
/// afterwards.
pub fn trace_point(down: bool, far: bool) -> (step: (PenMove, bool))
    ensures
        step.0 == next_move(down, far),
        step.1 == is_down(step.0),
{
    if !down {
        (PenMove::Begin, true)
    } else if far {
        (PenMove::LiftOff, false)
    } else {
        (PenMove::LineTo, true)
    }
}

/// The moves along an outline of whose points `far` says which are far away
/// from the last one reached.
pub open spec fn moves(down: bool, far: Seq<bool>) -> Seq<PenMove>
    decreases far.len(),
{
    if far.len() == 0 {
        Seq::empty()
    } else {
        let m = next_move(down, far[0]);
        seq![m] + moves(is_down(m), far.skip(1))
    }
}

/// No line streaks across the picture: to a point that is far away none is
/// drawn.
pub proof fn outlines_do_not_streak(down: bool, far: Seq<bool>, i: int)
    requires
        0 <= i < far.len(),
        far[i],
    ensures
        moves(down, far).len() == far.len(),
        !(moves(down, far)[i] is LineTo),
    decreases far.len(),
{
    let m = next_move(down, far[0]);
    one_move_each(is_down(m), far.skip(1));
    if i > 0 {
        assert(far.skip(1)[i - 1] == far[i]);
        outlines_do_not_streak(is_down(m), far.skip(1), i - 1);
    }
}

proof fn one_move_each(down: bool, far: Seq<bool>)
    ensures
        moves(down, far).len() == far.len(),
    decreases far.len(),
{
    if far.len() > 0 {
        one_move_each(is_down(next_move(down, far[0])), far.skip(1));
    }
}

// ---------------------------------------------------------------------------
// Graticule
// ---------------------------------------------------------------------------

/// The columns of the meridians drawn on the fallback map, every 60 degrees
/// from the left edge; the right edge is off the map.
pub const MERIDIAN_COLUMNS: [u32; 6] = [0, 341, 682, 1024, 1365, 1706];

/// The rows of the parallels drawn on the fallback map, at 60 degrees south,
/// the equator and 60 degrees north.
pub const PARALLEL_ROWS: [u32; 3] = [853, 512, 170];

/// The graticule stands where the projection puts its meridians and parallels.
pub proof fn graticule_is_projected(k: int)
    ensures
        0 <= k < 6 ==> MERIDIAN_COLUMNS@[k] == projected(0, 60 * k - 180).0,
        0 <= k < 3 ==> PARALLEL_ROWS@[k] == projected(60 * k - 60, 0).1,
{
}

// ---------------------------------------------------------------------------
// What filling and drawing mean
// ---------------------------------------------------------------------------

/// The projection is linear: a place stands in the column and in the row that
/// its longitude and its latitude have of the whole width and height, counted
/// from the upper left. Places off the map go to its edges.
pub proof fn projection_is_linear(lat: int, lon: int)
    ensures
        -180 <= lon < 180 ==> 360 * projected(lat, lon).0 <= (lon + 180) * 2048 < 360 * (projected(
            lat,
            lon,
        ).0 + 1),
        -90 < lat <= 90 ==> 180 * projected(lat, lon).1 <= (90 - lat) * 1024 < 180 * (projected(
            lat,
            lon,
        ).1 + 1),
        lon < -180 ==> projected(lat, lon).0 == 0,
        lon >= 180 ==> projected(lat, lon).0 == 2047,
        lat > 90 ==> projected(lat, lon).1 == 0,
        lat <= -90 ==> projected(lat, lon).1 == 1023,
{
}

/// An outline has one pixel for each of its corners, in the same order.
pub proof fn outlines_are_projected_corner_by_corner(pts: Seq<(i32, i32)>, i: int)
    requires
        0 <= i < pts.len(),
    ensures
        outline_points(pts).len() == pts.len(),
        outline_points(pts)[i] == projected(pts[i].0 as int, pts[i].1 as int),
{
}

/// An edge crosses a row if it begins above it and ends below it, or the other
/// way round; every crossing edge is found, and no other. The last edge leads
/// back to the first corner.
pub proof fn crossing_edges_are_found(corners: Seq<(int, int)>, y: int, i: int)
    ensures
        crossing_edges(corners, y, corners.len() as int).contains(i) <==> 0 <= i < corners.len()
            && {
            let y0 = corners[i].1;
            let y1 = if i == corners.len() - 1 {
                corners[0].1
            } else {
                corners[i + 1].1
            };
            (y0 <= y && y < y1) || (y1 <= y && y < y0)
        },
{
    crossing_edges_among_the_first(corners, y, corners.len() as int, i);
}

proof fn crossing_edges_among_the_first(corners: Seq<(int, int)>, y: int, n: int, i: int)
    requires
        0 <= n <= corners.len(),
    ensures
        crossing_edges(corners, y, n).contains(i) <==> 0 <= i < n && {
            let y0 = corners[i].1;
            let y1 = if i == corners.len() - 1 {
                corners[0].1
            } else {
                corners[i + 1].1
            };
            (y0 <= y && y < y1) || (y1 <= y && y < y0)
        },
    decreases n,
{
    if n > 0 {
        crossing_edges_among_the_first(corners, y, n - 1, i);
        let before = crossing_edges(corners, y, n - 1);
        let all = crossing_edges(corners, y, n);
        if before.contains(i) {
            let k = choose|k: int| 0 <= k < before.len() && before[k] == i;
            assert(all[k] == i);
        }
        if all.contains(i) {
            let k = choose|k: int| 0 <= k < all.len() && all[k] == i;
            if k < before.len() {
                assert(before[k] == i);
            }
        }
        if i == n - 1 && all.len() > before.len() {
            assert(all[before.len() as int] == i);
        }
    }
}

/// Sorting leaves the numbers the same and puts the smaller ones first.
pub proof fn sorting_puts_the_smaller_first(v: Seq<i32>, i: int, j: int)
    requires
        0 <= i < j < v.len(),
    ensures
        ascending(v).len() == v.len(),
        ascending(v).to_multiset() == v.to_multiset(),
        ascending(v)[i] <= ascending(v)[j],
{
    let leq = |a: i32, b: i32| a <= b;
    v.lemma_sort_by_ensures(leq);
    vstd::seq_lib::to_multiset_len(v);
    vstd::seq_lib::to_multiset_len(ascending(v));
    assert(leq(ascending(v)[i], ascending(v)[j]));
}

/// A row is filled from the first crossing to the second, from the third to the
/// fourth and so on, the crossings included.
pub proof fn rows_are_filled_between_pairs(sorted: Seq<i32>, x: int, k: int)
    requires
        0 <= 2 * k,
        2 * k + 1 < sorted.len(),
    ensures
        sorted[2 * k] <= x <= sorted[2 * k + 1] ==> between_pairs(sorted, x, sorted.len() as int),
{
    if sorted[2 * k] <= x <= sorted[2 * k + 1] {
        assert(pair_covers(sorted, x, k));
    }
}

/// Nothing is filled left of the first crossing, between the second and the
/// third and so on, nor right of the last.
pub proof fn gaps_are_not_filled(sorted: Seq<i32>, x: int, k: int)
    requires
        0 <= 2 * k <= sorted.len(),
        sorted.len() % 2 == 0,
        forall|i: int, j: int| 0 <= i < j < sorted.len() ==> sorted[i] <= sorted[j],
        2 * k > 0 ==> sorted[2 * k - 1] < x,
        2 * k < sorted.len() ==> x < sorted[2 * k],
    ensures
        !between_pairs(sorted, x, sorted.len() as int),
{
    if between_pairs(sorted, x, sorted.len() as int) {
        let m = choose|m: int|
            0 <= m < sorted.len() && 2 * m + 1 < sorted.len() && #[trigger] pair_covers(
                sorted,
                x,
                m,
            );
        assert(sorted[2 * m] <= x <= sorted[2 * m + 1]);
        if m < k {
            if 2 * m + 1 < 2 * k - 1 {
                assert(sorted[2 * m + 1] <= sorted[2 * k - 1]);
            }
        } else if 2 * k < 2 * m {
            assert(sorted[2 * k] <= sorted[2 * m]);
        }
    }
}

/// The rows of an outline reach from its highest corner to its lowest.
pub proof fn rows_reach_from_the_highest_to_the_lowest(corners: Seq<(int, int)>, i: int) -> (at: (
    int,
    int,
))
    requires
        0 <= i < corners.len(),
    ensures
        least_row(corners) <= corners[i].1 <= greatest_row(corners),
        0 <= at.0 < corners.len() && corners[at.0].1 == least_row(corners),
        0 <= at.1 < corners.len() && corners[at.1].1 == greatest_row(corners),
    decreases corners.len(),
{
    if corners.len() <= 1 {
        (0, 0)
    } else {
        let n = corners.len() - 1;
        let before = corners.drop_last();
        let p = if i < n {
            rows_reach_from_the_highest_to_the_lowest(before, i)
        } else {
            rows_reach_from_the_highest_to_the_lowest(before, 0)
        };
        (
            if corners[n].1 == least_row(corners) {
                n
            } else {
                p.0
            },
            if corners[n].1 == greatest_row(corners) {
                n
            } else {
                p.1
            },
        )
    }
}

/// Only rows of the image are filled: those of the outline, without what is
/// above the image or below it.
pub proof fn filled_rows_are_on_the_image(corners: Seq<(int, int)>, h: int, y: int)
    ensures
        first_filled(corners) <= y <= last_filled(corners, h) <==> least_row(corners) <= y
            <= greatest_row(corners) && 0 <= y && y < h,
{
}

/// Row `y` is filled between the crossings that are given for it.
pub proof fn every_row_has_its_crossings(
    crossings: Seq<Vec<i32>>,
    first: int,
    x: int,
    k: int,
)
    ensures
        0 <= k < crossings.len() ==> (inside(crossings, first, x, first + k) <==> between_pairs(
            ascending(crossings[k]@),
            x,
            crossings[k]@.len() as int,
        )),
        k < 0 || k >= crossings.len() ==> !inside(crossings, first, x, first + k),
{
}

/// An outline is drawn along every edge, the one from the last corner back to
/// the first too.
pub proof fn outlines_are_drawn_closed(corners: Seq<(int, int)>, i: int, p: (int, int))
    requires
        0 <= i < corners.len(),
        ({
            let a = corners[i];
            let b = if i == corners.len() - 1 {
                corners[0]
            } else {
                corners[i + 1]
            };
            lines::line(a.0, a.1, b.0, b.1).contains(p)
        }),
    ensures
        edge_points(corners, corners.len() as int).contains(p),
{
    edges_among_the_first(corners, corners.len() as int, p);
    assert(edge_holds(corners, i, p));
}

/// An outline is drawn nowhere but along its edges.
pub proof fn outlines_are_drawn_along_edges(corners: Seq<(int, int)>, p: (int, int)) -> (i: int)
    requires
        edge_points(corners, corners.len() as int).contains(p),
    ensures
        0 <= i < corners.len(),
        ({
            let a = corners[i];
            let b = if i == corners.len() - 1 {
                corners[0]
            } else {
                corners[i + 1]
            };
            lines::line(a.0, a.1, b.0, b.1).contains(p)
        }),
{
    edges_among_the_first(corners, corners.len() as int, p);
    let i = choose|i: int| 0 <= i < corners.len() && #[trigger] edge_holds(corners, i, p);
    i
}

spec fn edge_holds(corners: Seq<(int, int)>, i: int, p: (int, int)) -> bool {
    let a = corners[i];
    let b = if i == corners.len() - 1 {
        corners[0]
    } else {
        corners[i + 1]
    };
    lines::line(a.0, a.1, b.0, b.1).contains(p)
}

proof fn edges_among_the_first(corners: Seq<(int, int)>, n: int, p: (int, int))
    requires
        0 <= n <= corners.len(),
    ensures
        edge_points(corners, n).contains(p) <==> exists|i: int|
            0 <= i < n && #[trigger] edge_holds(corners, i, p),
    decreases n,
{
    if n > 0 {
        edges_among_the_first(corners, n - 1, p);
        let before = edge_points(corners, n - 1);
        let a = corners[n - 1];
        let b = corners[next_corner(n - 1, corners.len() as int)];
        let here = lines::line(a.0, a.1, b.0, b.1);
        let all = edge_points(corners, n);
        assert(all == before + here);
        if before.contains(p) {
            let k = choose|k: int| 0 <= k < before.len() && before[k] == p;
            assert(all[k] == p);
        }
        if here.contains(p) {
            let k = choose|k: int| 0 <= k < here.len() && here[k] == p;
            assert(all[before.len() + k] == p);
            assert(edge_holds(corners, n - 1, p));
        }
        if all.contains(p) {
            let k = choose|k: int| 0 <= k < all.len() && all[k] == p;
            if k < before.len() {
                assert(before[k] == p);
            } else {
                assert(here[k - before.len()] == p);
                assert(edge_holds(corners, n - 1, p));
            }
        }
    }
}

/// A stroke begins where the pen comes down: at the first point, and at the
/// point after every one that was left out. In between every point that is
/// near is drawn to, and one that is far is left out.
pub proof fn strokes_begin_where_the_pen_comes_down(far: Seq<bool>, i: int)
    requires
        0 <= i < far.len(),
    ensures
        ({
            let m = moves(false, far);
            &&& i == 0 ==> m[i] is Begin
            &&& i > 0 && m[i - 1] is LiftOff ==> m[i] is Begin
            &&& i > 0 && !(m[i - 1] is LiftOff) && far[i] ==> m[i] is LiftOff
            &&& i > 0 && !(m[i - 1] is LiftOff) && !far[i] ==> m[i] is LineTo
        }),
{
    moves_follow_each_other(false, far, i);
}

proof fn moves_follow_each_other(down: bool, far: Seq<bool>, i: int)
    requires
        0 <= i < far.len(),
    ensures
        ({
            let m = moves(down, far);
            let on_paper = if i == 0 {
                down
            } else {
                !(m[i - 1] is LiftOff)
            };
            &&& m.len() == far.len()
            &&& !on_paper ==> m[i] is Begin
            &&& on_paper && far[i] ==> m[i] is LiftOff
            &&& on_paper && !far[i] ==> m[i] is LineTo
        }),
    decreases far.len(),
{
    let m = next_move(down, far[0]);
    one_move_each(down, far);
    if i > 0 {
        assert(far.skip(1)[i - 1] == far[i]);
        moves_follow_each_other(is_down(m), far.skip(1), i - 1);
        assert(moves(down, far)[i] == moves(is_down(m), far.skip(1))[i - 1]);
        if i > 1 {
            assert(moves(down, far)[i - 1] == moves(is_down(m), far.skip(1))[i - 2]);
        }
    }
}

} // verus!
