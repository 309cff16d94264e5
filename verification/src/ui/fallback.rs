//! The fallback map: an ocean with a sparse graticule and coarse continents.

use vstd::prelude::*;

use crate::ui::canvas;
use crate::ui::canvas::{MapImage, Pixel};
use crate::ui::lines;
use crate::ui::polygons;
use crate::ui::polygons::{
    CONTINENTS, DEFAULT_MAP_H, DEFAULT_MAP_W, MERIDIAN_COLUMNS, PARALLEL_ROWS,
};

verus! {

/// The shades of a row of the ocean.
#[derive(Clone, Copy, Debug)]
pub struct RowShades {
    /// The water.
    pub sea: Pixel,
    /// The water under a line of the graticule.
    pub line: Pixel,
    /// The water where a meridian and a parallel meet.
    pub node: Pixel,
}

/// Whether a meridian of the graticule runs through column `x`.
pub open spec fn on_meridian(x: int) -> bool {
    exists|k: int| 0 <= k < 6 && #[trigger] MERIDIAN_COLUMNS@[k] == x
}

/// Whether a parallel of the graticule runs through row `y`.
pub open spec fn on_parallel(y: int) -> bool {
    exists|k: int| 0 <= k < 3 && #[trigger] PARALLEL_ROWS@[k] == y
}

/// Whether a meridian runs through a column.
fn is_meridian(x: u32) -> (yes: bool)
    ensures
        yes == on_meridian(x as int),
{
    let mut k: usize = 0;
    while k < 6
        invariant
            k <= 6,
            forall|i: int| 0 <= i < k ==> #[trigger] MERIDIAN_COLUMNS@[i] != x,
        decreases 6 - k,
    {
        if MERIDIAN_COLUMNS[k] == x {
            return true;
        }
        k = k + 1;
    }
    false
}

/// Whether a parallel runs through a row.
fn is_parallel(y: u32) -> (yes: bool)
    ensures
        yes == on_parallel(y as int),
{
    let mut k: usize = 0;
    while k < 3
        invariant
            k <= 3,
            forall|i: int| 0 <= i < k ==> #[trigger] PARALLEL_ROWS@[i] != y,
        decreases 3 - k,
    {
        if PARALLEL_ROWS[k] == y {
            return true;
        }
        k = k + 1;
    }
    false
}

/// The pixel of the ocean in column `x` and row `y`.
pub open spec fn ocean_pixel(shades: Seq<RowShades>, x: int, y: int) -> Pixel {
    if on_meridian(x) && on_parallel(y) {
        shades[y].node
    } else if on_meridian(x) || on_parallel(y) {
        shades[y].line
    } else {
        shades[y].sea
    }
}

/// The corners of continent `i`.
pub open spec fn corners(i: int) -> Seq<(int, int)> {
    polygons::outline_points(polygons::outline(i))
}

/// How many rows continent `i` covers.
pub open spec fn rows_covered(i: int) -> int {
    let rows = polygons::last_filled(corners(i), DEFAULT_MAP_H as int) - polygons::first_filled(
        corners(i),
    ) + 1;
    if rows > 0 {
        rows
    } else {
        0
    }
}

/// Whether the coast of continent `i` runs through a pixel.
pub open spec fn on_coast(i: int, x: int, y: int) -> bool {
    polygons::edge_points(corners(i), corners(i).len() as int).contains((x, y))
}

/// Whether a pixel is on continent `i`, whose rows are crossed by its edges at
/// the given columns.
pub open spec fn on_land(crossings: Seq<Vec<Vec<i32>>>, i: int, x: int, y: int) -> bool {
    polygons::inside(crossings[i]@, polygons::first_filled(corners(i)), x, y)
}

/// The pixel in column `x` and row `y` once the first `n` continents are drawn,
/// each over what was there, and with its coast over its land.
pub open spec fn map_pixel(
    shades: Seq<RowShades>,
    crossings: Seq<Vec<Vec<i32>>>,
    land: Pixel,
    coast: Pixel,
    n: int,
    x: int,
    y: int,
) -> Pixel
    decreases n,
{
    if n <= 0 {
        ocean_pixel(shades, x, y)
    } else if on_coast(n - 1, x, y) {
        coast
    } else if on_land(crossings, n - 1, x, y) {
        land
    } else {
        map_pixel(shades, crossings, land, coast, n - 1, x, y)
    }
}

/// Draws the ocean and its graticule.
fn ocean_image(shades: &Vec<RowShades>) -> (img: MapImage)
    requires
        shades@.len() == DEFAULT_MAP_H,
    ensures
        canvas::image_size(img) == (DEFAULT_MAP_W, DEFAULT_MAP_H),
        forall|i: int, j: int|
            img.has(i, j) ==> #[trigger] img.at(i, j) == ocean_pixel(shades@, i, j),
{
    let mut img: MapImage = MapImage::new(DEFAULT_MAP_W, DEFAULT_MAP_H);
    let mut y: u32 = 0;
    while y < DEFAULT_MAP_H
        invariant
            y <= DEFAULT_MAP_H,
            shades@.len() == DEFAULT_MAP_H,
            canvas::image_size(img) == (DEFAULT_MAP_W, DEFAULT_MAP_H),
            forall|i: int, j: int|
                img.has(i, j) && j < y ==> #[trigger] img.at(i, j) == ocean_pixel(shades@, i, j),
        decreases DEFAULT_MAP_H - y,
    {
        let row: RowShades = shades[y as usize];
        let parallel: bool = is_parallel(y);
        let mut x: u32 = 0;
        while x < DEFAULT_MAP_W
            invariant
                x <= DEFAULT_MAP_W,
                y < DEFAULT_MAP_H,
                shades@.len() == DEFAULT_MAP_H,
                row == shades@[y as int],
                parallel == on_parallel(y as int),
                canvas::image_size(img) == (DEFAULT_MAP_W, DEFAULT_MAP_H),
                forall|i: int, j: int|
                    img.has(i, j) && (j < y || j == y && i < x) ==> #[trigger] img.at(i, j)
                        == ocean_pixel(shades@, i, j),
            decreases DEFAULT_MAP_W - x,
        {
            let meridian: bool = is_meridian(x);
            let color: Pixel = if meridian && parallel {
                row.node
            } else if meridian || parallel {
                row.line
            } else {
                row.sea
            };
            let ghost before = img;
            img.set_pixel(x, y, color);
            assert forall|i: int, j: int|
                img.has(i, j) && (j < y || j == y && i < x + 1) implies #[trigger] img.at(i, j)
                == ocean_pixel(shades@, i, j) by {
                if i != x || j != y {
                    assert(before.has(i, j));
                }
            }
            x = x + 1;
        }
        y = y + 1;
    }
    img
}

/// Draws the fallback map. `shades` holds the shades of the ocean row by row,
/// and `crossings`, for each continent and each of its rows, the columns at
/// which its edges cross the row.
pub fn default_map_image(
    shades: &Vec<RowShades>,
    crossings: &Vec<Vec<Vec<i32>>>,
    land: Pixel,
    coast: Pixel,
) -> (img: MapImage)
    requires
        shades@.len() == DEFAULT_MAP_H,
        crossings@.len() == CONTINENTS,
        forall|i: int|
            0 <= i < CONTINENTS ==> (#[trigger] crossings@[i])@.len() == rows_covered(i),
    ensures
        canvas::image_size(img) == (DEFAULT_MAP_W, DEFAULT_MAP_H),
        forall|x: int, y: int|
            img.has(x, y) ==> #[trigger] img.at(x, y) == map_pixel(
                shades@,
                crossings@,
                land,
                coast,
                CONTINENTS as int,
                x,
                y,
            ),
{
    let mut img: MapImage = ocean_image(shades);
    let mut n: usize = 0;
    while n < CONTINENTS
        invariant
            n <= CONTINENTS,
            crossings@.len() == CONTINENTS,
            forall|i: int|
                0 <= i < CONTINENTS ==> (#[trigger] crossings@[i])@.len() == rows_covered(i),
            canvas::image_size(img) == (DEFAULT_MAP_W, DEFAULT_MAP_H),
            forall|x: int, y: int|
                img.has(x, y) ==> #[trigger] img.at(x, y) == map_pixel(
                    shades@,
                    crossings@,
                    land,
                    coast,
                    n as int,
                    x,
                    y,
                ),
        decreases CONTINENTS - n,
    {
        let outline: Vec<(i32, i32)> = polygons::continent(n);
        let ghost before = img;
        assert(lines::as_points(outline@).len() == outline@.len());
        polygons::fill_polygon(&mut img, &outline, &crossings[n], land);
        let ghost filled = img;
        polygons::stroke_polygon(&mut img, &outline, coast);
        assert forall|x: int, y: int| img.has(x, y) implies #[trigger] img.at(x, y) == map_pixel(
            shades@,
            crossings@,
            land,
            coast,
            n + 1,
            x,
            y,
        ) by {
            assert(before.has(x, y) && filled.has(x, y));
        }
        n = n + 1;
    }
    img
}

/// The sea has its line shade on every meridian and every parallel, its node
/// shade where two of them meet, and its plain shade elsewhere.
pub proof fn the_graticule_lies_on_the_sea(shades: Seq<RowShades>, m: int, p: int, x: int, y: int)
    requires
        0 <= m < 6,
        0 <= p < 3,
        forall|k: int| 0 <= k < 6 ==> #[trigger] MERIDIAN_COLUMNS@[k] != x,
        forall|k: int| 0 <= k < 3 ==> #[trigger] PARALLEL_ROWS@[k] != y,
    ensures
        ({
            let column = MERIDIAN_COLUMNS@[m] as int;
            let row = PARALLEL_ROWS@[p] as int;
            &&& ocean_pixel(shades, column, row) == shades[row].node
            &&& ocean_pixel(shades, column, y) == shades[y].line
            &&& ocean_pixel(shades, x, row) == shades[row].line
            &&& ocean_pixel(shades, x, y) == shades[y].sea
        }),
{
}

/// A continent lies over what is under it, its coast over its land, and what
/// lies over it hides it.
pub proof fn continents_lie_over_the_sea(
    shades: Seq<RowShades>,
    crossings: Seq<Vec<Vec<i32>>>,
    land: Pixel,
    coast: Pixel,
    n: int,
    i: int,
    x: int,
    y: int,
)
    requires
        0 <= i < n,
        forall|k: int| i < k < n ==> !#[trigger] on_coast(k, x, y),
        forall|k: int| i < k < n ==> !#[trigger] on_land(crossings, k, x, y),
    ensures
        on_coast(i, x, y) ==> map_pixel(shades, crossings, land, coast, n, x, y) == coast,
        !on_coast(i, x, y) && on_land(crossings, i, x, y) ==> map_pixel(
            shades,
            crossings,
            land,
            coast,
            n,
            x,
            y,
        ) == land,
    decreases n,
{
    if n - 1 > i {
        assert(!on_coast(n - 1, x, y) && !on_land(crossings, n - 1, x, y));
        continents_lie_over_the_sea(shades, crossings, land, coast, n - 1, i, x, y);
    }
}

/// Where there is no continent there is sea.
pub proof fn the_rest_is_sea(
    shades: Seq<RowShades>,
    crossings: Seq<Vec<Vec<i32>>>,
    land: Pixel,
    coast: Pixel,
    n: int,
    x: int,
    y: int,
)
    requires
        0 <= n,
        forall|k: int| 0 <= k < n ==> !#[trigger] on_coast(k, x, y),
        forall|k: int| 0 <= k < n ==> !#[trigger] on_land(crossings, k, x, y),
    ensures
        map_pixel(shades, crossings, land, coast, n, x, y) == ocean_pixel(shades, x, y),
    decreases n,
{
    if n > 0 {
        assert(!on_coast(n - 1, x, y) && !on_land(crossings, n - 1, x, y));
        the_rest_is_sea(shades, crossings, land, coast, n - 1, x, y);
    }
}

} // verus!
