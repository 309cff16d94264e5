//! The map: geometry, frames, labels.

use geotop::config::{ColorConfig, ColorDef, Config, MarkerStyle};
use geotop::event::Severity;
use geotop::ieee::Double;
use geotop::ui::arcs::{arc_intersects_viewport, draw_connection_line, soft_glow};
use geotop::ui::canvas::{MapImage, Pixel};
use geotop::ui::fallback::{default_map_image, RowShades};
use geotop::ui::labels::{
    country_code_name, vector_country_labels, MapLabel, COUNTRY_CODE_CENTROIDS, COUNTRY_CODE_NAMES,
};
use geotop::ui::lines::{draw_line, plot_line_collect};
use geotop::ui::map_renderer::{
    base_origin, colors_changed, crop_base, halo_radius, has_faded, home_glow_radius,
    home_halo_radius, is_stale, redraw, sample_base, severity_color, BaseKey, BaseOrigin, Drawing,
    MapColors, Placement, Scene,
};
use geotop::ui::markers::{plot_disk, plot_glow, plot_marker};
use geotop::ui::outlines::{
    outlines, read_map_file, read_outlines, Corner, MapFile, OutlineError, Shape,
};
use geotop::ui::polygons::{
    continent, fill_polygon, fill_row, fill_rows, project, row_edges, sort_ascending, trace_point,
    PenMove, CONTINENTS, DEFAULT_MAP_H, DEFAULT_MAP_W, MERIDIAN_COLUMNS, PARALLEL_ROWS,
};

const SECOND: u64 = 1_000_000_000;

fn double(x: f64) -> Double {
    Double { bits: x.to_bits() }
}

// ---------------------------------------------------------------------------
// Floating-point parts of the renderer
// ---------------------------------------------------------------------------

fn control_point(x0: f32, y0: f32, x1: f32, y1: f32) -> (f32, f32) {
    let mx = (x0 + x1) * 0.5;
    let my = (y0 + y1) * 0.5;
    let dx = x1 - x0;
    let dy = y1 - y0;
    let dist = (dx * dx + dy * dy).sqrt();
    let len = dist.max(1.0);
    let perp_x = -dy / len;
    let perp_y = dx / len;
    let mag = (dist * 0.18).max(8.0);
    let sign = if perp_y > 0.0 { -1.0 } else { 1.0 };
    (mx + perp_x * mag * sign, my + perp_y * mag * sign)
}

fn control_floor(x0: i32, y0: i32, x1: i32, y1: i32) -> (i64, i64) {
    let (cx, cy) = control_point(x0 as f32, y0 as f32, x1 as f32, y1 as f32);
    (cx.floor() as i64, cy.floor() as i64)
}

fn meets(x0: i32, y0: i32, x1: i32, y1: i32, w: u32, h: u32) -> bool {
    let (cx, cy) = control_floor(x0, y0, x1, y1);
    arc_intersects_viewport(x0, y0, x1, y1, cx, cy, w, h)
}

/// The visible part of the world: zoom and center.
#[derive(Clone, Copy)]
struct View {
    zoom: f64,
    lat: f64,
    lon: f64,
}

impl View {
    fn lon_range(&self) -> (f64, f64) {
        if self.zoom <= 1.0 {
            return (-180.0, 180.0);
        }
        let half = (180.0 / self.zoom).min(180.0);
        (self.lon - half, self.lon + half)
    }

    fn lat_range(&self) -> (f64, f64) {
        if self.zoom <= 1.0 {
            return (-90.0, 90.0);
        }
        let half = (90.0 / self.zoom).min(90.0);
        let c = self.lat.clamp(-90.0 + half, 90.0 - half);
        (c - half, c + half)
    }

    fn contains(&self, lat: f64, lon: f64) -> bool {
        let (lat_min, lat_max) = self.lat_range();
        let (lon_min, lon_max) = self.lon_range();
        let n = ((lon + 180.0) % 360.0 + 360.0) % 360.0 - 180.0;
        lat >= lat_min && lat <= lat_max && n >= lon_min && n <= lon_max
    }

    fn pixel(&self, lat: f64, lon: f64, w: u32, h: u32) -> (i32, i32) {
        let (lat_min, lat_max) = self.lat_range();
        let (lon_min, lon_max) = self.lon_range();
        let x = if self.zoom <= 1.0 {
            (lon + 180.0) / 360.0
        } else {
            ((lon - lon_min) / (lon_max - lon_min)).clamp(0.0, 1.0)
        };
        let y = ((lat_max - lat) / (lat_max - lat_min)).clamp(0.0, 1.0);
        (
            ((x * w as f64) as i32).clamp(0, w as i32 - 1),
            ((y * h as f64) as i32).clamp(0, h as i32 - 1),
        )
    }
}

const WORLD: View = View { zoom: 1.0, lat: 0.0, lon: 0.0 };

fn blend(img: &mut MapImage, x: u32, y: u32, c: Pixel, alpha: f32) {
    let p = img.pixel(x, y);
    let dst = p.3 as f32 / 255.0;
    let out = alpha + dst * (1.0 - alpha);
    if out <= 0.0 {
        return;
    }
    let mix = |a: u8, b: u8| -> u8 {
        ((a as f32 * alpha + b as f32 * dst * (1.0 - alpha)) / out).min(255.0) as u8
    };
    img.set_pixel(
        x,
        y,
        (mix(c.0, p.0), mix(c.1, p.1), mix(c.2, p.2), (out * 255.0).min(255.0) as u8),
    );
}

fn halo(img: &mut MapImage, cx: i32, cy: i32, c: Pixel, radius: u8, strength: f32) {
    let r2 = radius as f32 * radius as f32;
    for (x, y, d2) in plot_disk(cx, cy, radius, img.width(), img.height()) {
        let alpha = (c.3 as f32) * (1.0 - d2 as f32 / r2) * strength / 255.0;
        blend(img, x, y, c, (alpha * 255.0) as u8 as f32 / 255.0);
    }
}

fn glow(img: &mut MapImage, cx: i32, cy: i32, c: Pixel) {
    for (x, y, weight) in plot_glow(cx, cy, img.width(), img.height()) {
        blend(img, x, y, c, c.3 as f32 * (weight as f32 / 100.0) / 255.0);
    }
}

fn marker(img: &mut MapImage, cx: i32, cy: i32, c: Pixel, style: MarkerStyle, size: u8) {
    for (x, y) in plot_marker(style, cx, cy, size, img.width(), img.height()) {
        blend(img, x, y, c, c.3 as f32 / 255.0);
    }
}

fn arc(img: &mut MapImage, from: (i32, i32), to: (i32, i32), color: Pixel, glow_size: u8) {
    let (x0, y0) = (from.0 as f32, from.1 as f32);
    let (x1, y1) = (to.0 as f32, to.1 as f32);
    let (cx, cy) = control_point(x0, y0, x1, y1);
    let dist = ((x1 - x0).powi(2) + (y1 - y0).powi(2)).sqrt();
    let steps = ((dist / 3.0).ceil() as i32).clamp(12, 200);
    let mut samples = Vec::new();
    for i in 0..=steps {
        let t = i as f32 / steps as f32;
        let u = 1.0 - t;
        samples.push((
            (u * u * x0 + 2.0 * u * t * cx + t * t * x1) as i32,
            (u * u * y0 + 2.0 * u * t * cy + t * t * y1) as i32,
        ));
    }
    let pixels = draw_connection_line(img, &samples, color);
    for (x, y, g) in soft_glow(&pixels, glow_size, img.width(), img.height()) {
        let a = (color.3 as f32 * 0.4f32.powi(g as i32)).min(255.0) as u8;
        blend(img, x, y, color, a as f32 / 255.0);
    }
}

/// Draws a frame with one dot over a plain background.
fn frame(cfg: &Config, view: View, dot: (f64, f64), age: u64, home: (f64, f64), lines: bool) -> MapImage {
    let (w, h) = (DEFAULT_MAP_W, DEFAULT_MAP_H);
    let land = cfg.colors.land.to_rgba(255);
    let mut img = filled(w, h, land);
    let (hx, hy) = view.pixel(home.0, home.1, w, h);
    let (x, y) = view.pixel(dot.0, dot.1, w, h);
    let (control_x, control_y) = control_floor(hx, hy, x, y);
    let now = 100 * SECOND;
    let dots = vec![Placement {
        x,
        y,
        control_x,
        control_y,
        visible: view.contains(dot.0, dot.1),
        created_at: now - age,
        severity: Severity::Info,
    }];
    let scene = Scene {
        home_x: hx,
        home_y: hy,
        home_visible: view.contains(home.0, home.1),
        lines,
        w,
        h,
        now,
        ttl: cfg.marker_ttl(),
    };
    let alpha = 1.0 - (age as f64 / SECOND as f64 / cfg.marker_ttl() as f64).clamp(0.0, 1.0);
    for drawing in redraw(&scene, cfg, &dots) {
        match drawing {
            Drawing::Arc { dot } => {
                let c = cfg.connection_lines.color.to_rgba((alpha * 220.0) as u8);
                arc(&mut img, (hx, hy), (dots[dot].x, dots[dot].y), c, cfg.connection_lines.glow_size);
            }
            Drawing::Dot { dot, color, halo: radius } => {
                let c = color.to_rgba((alpha * 255.0) as u8);
                halo(&mut img, dots[dot].x, dots[dot].y, c, radius, 0.30);
                glow(&mut img, dots[dot].x, dots[dot].y, c);
                marker(&mut img, dots[dot].x, dots[dot].y, c, cfg.marker_style, cfg.marker_size);
            }
            Drawing::Home { halo: radius, glow: inner } => {
                let c = cfg.colors.home.to_rgba(255);
                halo(&mut img, hx, hy, c, radius, 0.30);
                glow(&mut img, hx, hy, c);
                halo(&mut img, hx, hy, c, inner, 0.45);
                marker(&mut img, hx, hy, c, cfg.map.home.marker_style, cfg.map.home.marker_size);
            }
        }
    }
    img
}

fn filled(w: u32, h: u32, color: Pixel) -> MapImage {
    let mut img = MapImage::new(w, h);
    for y in 0..h {
        fill_row(&mut img, y, &vec![0, w as i32 - 1], color);
    }
    img
}

fn near(img: &MapImage, px: i32, py: i32, radius: i32, bright: fn(Pixel) -> bool) -> usize {
    let mut n = 0;
    for dy in -radius..=radius {
        for dx in -radius..=radius {
            let x = (px + dx).clamp(0, img.width() as i32 - 1) as u32;
            let y = (py + dy).clamp(0, img.height() as i32 - 1) as u32;
            if bright(img.pixel(x, y)) {
                n += 1;
            }
        }
    }
    n
}

// ---------------------------------------------------------------------------
// Whole frames
// ---------------------------------------------------------------------------

#[test]
fn arc_intersects_viewport_bounds_cases() {
    // Home on-screen, target far off the right edge.
    assert!(meets(100, 100, 5_000, 100, 256, 256));
    // Both endpoints off-screen on the same side.
    assert!(!meets(-500, 100, -300, 100, 256, 256));
    // Both endpoints off-screen on opposite sides.
    assert!(meets(-300, 100, 600, 100, 256, 256));
}

#[test]
fn marker_styles_draw_pixels() {
    for style in [MarkerStyle::Dot, MarkerStyle::Ring, MarkerStyle::Cross, MarkerStyle::X] {
        let mut cfg = Config::default();
        cfg.marker_style = style;
        cfg.marker_size = 6;
        let img = frame(&cfg, WORLD, (51.5, -0.1), 0, (0.0, 0.0), false);
        let (px, py) = WORLD.pixel(51.5, -0.1, img.width(), img.height());
        let changed = near(&img, px, py, 8, |p| p.0 > 80 || p.1 > 200 || p.2 > 100);
        assert!(changed >= 30, "style {:?}: {}", style, changed);
    }
}

fn green_lines() -> Config {
    let mut cfg = Config::default();
    cfg.marker_style = MarkerStyle::Dot;
    cfg.marker_size = 2;
    cfg.connection_lines.color = ColorDef::from_rgb(0x00, 0xFF, 0x00);
    cfg.connection_lines.glow_size = 2;
    cfg
}

#[test]
fn connection_lines_draw_green_pixels() {
    let cfg = green_lines();
    let off = frame(&cfg, WORLD, (51.5, -0.1), SECOND, (0.0, 0.0), false);
    let on = frame(&cfg, WORLD, (51.5, -0.1), SECOND, (0.0, 0.0), true);
    let mut different = 0;
    let mut green = 0;
    for y in 0..on.height() {
        for x in 0..on.width() {
            let p = on.pixel(x, y);
            if p != off.pixel(x, y) {
                different += 1;
            }
            if p.1 >= 200 && p.0 < 50 && p.2 < 50 {
                green += 1;
            }
        }
    }
    assert!(different >= 5, "{}", different);
    assert!(green >= 3, "{}", green);
}

#[test]
fn connection_lines_drawn_when_target_offscreen() {
    let cfg = green_lines();
    let view = View { zoom: 10.0, lat: 0.0, lon: 0.0 };
    assert!(!view.contains(51.5, -0.1));
    assert!(view.contains(0.0, 0.0));
    let off = frame(&cfg, view, (51.5, -0.1), SECOND, (0.0, 0.0), false);
    let on = frame(&cfg, view, (51.5, -0.1), SECOND, (0.0, 0.0), true);
    let mut green = 0;
    for y in 0..on.height() {
        for x in 0..on.width() {
            let p = on.pixel(x, y);
            if p.1 >= 200 && p.0 < 50 && p.2 < 50 && p != off.pixel(x, y) {
                green += 1;
            }
        }
    }
    assert!(green >= 3, "{}", green);
}

/// The columns at which the edges of a continent cross its rows.
fn crossings(i: usize) -> Vec<Vec<i32>> {
    let corners = continent(i);
    let (first, last) = fill_rows(&corners, DEFAULT_MAP_H).unwrap();
    (first as i32..=last as i32)
        .map(|y| {
            row_edges(&corners, y)
                .iter()
                .map(|&e| {
                    let (x0, y0) = corners[e];
                    let (x1, y1) = corners[(e + 1) % corners.len()];
                    let t = (y - y0) as f32 / (y1 - y0) as f32;
                    x0 + ((x1 - x0) as f32 * t) as i32
                })
                .collect()
        })
        .collect()
}

/// The fallback map, with an ocean in a single shade.
fn fallback_map(colors: &ColorConfig) -> MapImage {
    let shades = RowShades {
        sea: colors.ocean.to_rgba(255),
        line: colors.info.to_rgba(255),
        node: colors.warn.to_rgba(255),
    };
    let crossings = (0..CONTINENTS).map(crossings).collect();
    let rows = vec![shades; DEFAULT_MAP_H as usize];
    default_map_image(&rows, &crossings, colors.land.to_rgba(255), colors.dim.to_rgba(255))
}

#[test]
fn marker_visible_on_dark_procedural_map() {
    let colors = Config::default().colors;
    let mut img = fallback_map(&colors);
    let (px, py) = WORLD.pixel(51.5, -0.1, img.width(), img.height());
    let color = colors.info.to_rgba(255);
    halo(&mut img, px, py, color, 24, 0.30);
    glow(&mut img, px, py, color);
    marker(&mut img, px, py, color, Config::default().marker_style, 8);
    let bright = near(&img, px, py, 12, |p| p.1 > 120);
    assert!(bright >= 10, "{}", bright);
}

#[test]
fn the_fallback_map_has_land_and_sea() {
    let colors = Config::default().colors;
    let img = fallback_map(&colors);
    assert_eq!((img.width(), img.height()), (2048, 1024));
    for (lat, lon, land) in [
        (50.0, 10.0, true),
        (40.0, -100.0, true),
        (-10.0, -55.0, true),
        (0.0, 25.0, true),
        (60.0, 100.0, true),
        (-25.0, 135.0, true),
        (0.0, -150.0, false),
        (30.0, -45.0, false),
    ] {
        let (x, y) = WORLD.pixel(lat, lon, img.width(), img.height());
        let p = img.pixel(x as u32, y as u32);
        assert_eq!(p == colors.land.to_rgba(255), land, "{} {}", lat, lon);
    }
    // Coasts are drawn over the land, the graticule under it.
    for i in 0..CONTINENTS {
        for &(x, y) in &continent(i) {
            assert_eq!(img.pixel(x as u32, y as u32), colors.dim.to_rgba(255));
        }
    }
    assert_eq!(img.pixel(341, 600), colors.info.to_rgba(255));
    assert_eq!(img.pixel(300, 512), colors.info.to_rgba(255));
    assert_eq!(img.pixel(341, 512), colors.warn.to_rgba(255));
    assert_eq!(img.pixel(300, 600), colors.ocean.to_rgba(255));
    assert_eq!(img.pixel(1200, 512), colors.land.to_rgba(255));
}

#[test]
fn rows_of_the_ocean_have_their_own_shades() {
    let rows: Vec<RowShades> = (0..DEFAULT_MAP_H)
        .map(|y| {
            let v = (y / 4) as u8;
            RowShades { sea: (v, 0, 0, 255), line: (v, 1, 0, 255), node: (v, 2, 0, 255) }
        })
        .collect();
    let crossings = (0..CONTINENTS).map(crossings).collect();
    let img = default_map_image(&rows, &crossings, (0, 0, 9, 255), (0, 0, 8, 255));
    assert_eq!(img.pixel(300, 600), (150, 0, 0, 255));
    assert_eq!(img.pixel(341, 600), (150, 1, 0, 255));
    assert_eq!(img.pixel(300, 512), (128, 1, 0, 255));
    assert_eq!(img.pixel(341, 512), (128, 2, 0, 255));
    assert_eq!(img.pixel(1200, 512), (0, 0, 9, 255));
}

// ---------------------------------------------------------------------------
// Outlines
// ---------------------------------------------------------------------------

fn corner(lon: f64, lat: f64) -> Corner {
    Corner { lon: double(lon), lat: double(lat) }
}

const OUTLINES: &str = r#"{ "type": "FeatureCollection", "features": [
    { "type": "Feature", "properties": {}, "geometry": { "type": "Polygon", "coordinates":
        [[[0, 0], [10.5, 0, 300], [10, -10], [0, 0]], [[1, 1], [7], [2, 2], []]] } },
    { "type": "Feature", "properties": null, "geometry": null },
    { "type": "Feature", "properties": {}, "geometry":
        { "type": "LineString", "coordinates": [[0, 0], [1, 1]] } },
    { "type": "Feature", "properties": {}, "geometry": { "type": "MultiPolygon", "coordinates":
        [[[[1, 2], [3, 4], [5, 6]]], [[[-1, -2], [-3, -4]], [[8, 9]]]] } }
] }"#;

#[test]
fn outlines_are_read_from_a_file() {
    let found = read_outlines(&OUTLINES.as_bytes().to_vec()).unwrap();
    assert_eq!(found.len(), 4);
    assert_eq!(
        found[0],
        [
            vec![corner(0.0, 0.0), corner(10.5, 0.0), corner(10.0, -10.0), corner(0.0, 0.0)],
            vec![corner(1.0, 1.0), corner(2.0, 2.0)],
        ]
    );
    assert!(found[1].is_empty() && found[2].is_empty());
    assert_eq!(
        found[3],
        [
            vec![corner(1.0, 2.0), corner(3.0, 4.0), corner(5.0, 6.0)],
            vec![corner(-1.0, -2.0), corner(-3.0, -4.0)],
            vec![corner(8.0, 9.0)],
        ]
    );
    let file = read_map_file(&OUTLINES.as_bytes().to_vec());
    assert!(matches!(
        file,
        Some(MapFile::FeatureCollection(f))
            if matches!(
                f[..],
                [Some(Shape::Polygon(_)), None, Some(Shape::LineString), Some(Shape::MultiPolygon(_))]
            )
    ));
}

#[test]
fn files_without_outlines() {
    let read = |text: &str| read_outlines(&text.as_bytes().to_vec());
    for text in ["", "{", "[]", "{ \"type\": \"Nothing\" }"] {
        assert_eq!(read(text), Err(OutlineError::Unreadable), "{}", text);
    }
    let point = "{ \"type\": \"Point\", \"coordinates\": [1, 2] }";
    assert_eq!(read(point), Err(OutlineError::NotACollection));
    let feature = format!(
        "{{ \"type\": \"Feature\", \"properties\": null, \"geometry\": {} }}",
        point
    );
    assert_eq!(read(&feature), Err(OutlineError::NotACollection));
    let empty = "{ \"type\": \"FeatureCollection\", \"features\": [] }";
    assert_eq!(read(empty), Ok(Vec::new()));
}

#[test]
fn shapes_and_their_outlines() {
    let shape = |name: &str, coordinates: &str| {
        let text = format!(
            "{{ \"type\": \"FeatureCollection\", \"features\": [{{ \"type\": \"Feature\", \
             \"properties\": null, \"geometry\": {{ \"type\": \"{}\", {} }} }}] }}",
            name, coordinates
        );
        match read_map_file(&text.into_bytes()) {
            Some(MapFile::FeatureCollection(mut shapes)) => shapes.pop().unwrap().unwrap(),
            other => panic!("{:?}", other),
        }
    };
    assert!(matches!(shape("Point", "\"coordinates\": [1, 2]"), Shape::Point));
    assert!(matches!(shape("MultiPoint", "\"coordinates\": [[1, 2]]"), Shape::MultiPoint));
    assert!(matches!(
        shape("MultiLineString", "\"coordinates\": [[[1, 2], [3, 4]]]"),
        Shape::MultiLineString
    ));
    assert!(matches!(
        shape("GeometryCollection", "\"geometries\": []"),
        Shape::GeometryCollection
    ));
    let square = vec![vec![vec![double(1.0), double(2.0)], vec![double(3.0)]]];
    let file = MapFile::FeatureCollection(vec![
        Some(Shape::GeometryCollection),
        Some(Shape::MultiPolygon(vec![square.clone(), square.clone()])),
        None,
        Some(Shape::Polygon(square)),
    ]);
    let ring = vec![corner(1.0, 2.0)];
    assert_eq!(
        outlines(&Some(file)),
        Ok(vec![vec![], vec![ring.clone(), ring.clone()], vec![], vec![ring]])
    );
    assert_eq!(outlines(&None), Err(OutlineError::Unreadable));
    assert_eq!(outlines(&Some(MapFile::Feature)), Err(OutlineError::NotACollection));
    assert_eq!(outlines(&Some(MapFile::Geometry)), Err(OutlineError::NotACollection));
}

// ---------------------------------------------------------------------------
// Labels
// ---------------------------------------------------------------------------

fn find<'a>(labels: &'a [MapLabel], name: &str) -> (f64, f64) {
    let l = labels.iter().find(|l| l.name == name).unwrap();
    (l.lat as f64 / 100.0, l.lon as f64 / 100.0)
}

#[test]
fn bundled_country_labels_are_parsed() {
    let labels = vector_country_labels();
    assert!(labels.len() >= 120, "{}", labels.len());
    let us = find(&labels, "United States");
    let china = find(&labels, "China");
    let brazil = find(&labels, "Brazil");
    assert!(us.1 < -50.0 && us.1 > -130.0, "{:?}", us);
    assert!(us.0 > 20.0 && us.0 < 55.0, "{:?}", us);
    assert!(china.1 > 80.0 && china.1 < 130.0, "{:?}", china);
    assert!(china.0 > 15.0 && china.0 < 55.0, "{:?}", china);
    assert!(brazil.1 < -30.0 && brazil.1 > -75.0, "{:?}", brazil);
    assert!(brazil.0 < 10.0 && brazil.0 > -35.0, "{:?}", brazil);
}

#[test]
fn bundled_european_labels_are_inside_target_countries() {
    let labels = vector_country_labels();
    let uk = find(&labels, "United Kingdom");
    let germany = find(&labels, "Germany");
    let france = find(&labels, "France");
    let belgium = find(&labels, "Belgium");
    let luxembourg = find(&labels, "Luxembourg");
    assert!(uk.1 > -15.0 && uk.1 < 3.0 && uk.0 > 50.0 && uk.0 < 65.0, "{:?}", uk);
    assert!(germany.1 > 5.0 && germany.1 < 15.0 && germany.0 > 47.0 && germany.0 < 55.0, "{:?}", germany);
    assert!(france.1 > -6.0 && france.1 < 8.0 && france.0 > 42.0 && france.0 < 52.0, "{:?}", france);
    assert!(belgium.1 > 2.0 && belgium.1 < 7.0 && belgium.0 > 49.0 && belgium.0 < 52.0, "{:?}", belgium);
    assert!(
        luxembourg.1 > 5.0 && luxembourg.1 < 7.0 && luxembourg.0 > 49.0 && luxembourg.0 < 51.0,
        "{:?}",
        luxembourg
    );
}

#[test]
fn country_names() {
    assert_eq!(country_code_name("gb"), Some("United Kingdom"));
    assert_eq!(country_code_name("GB"), None);
    assert_eq!(country_code_name("??"), None);
    assert_eq!(COUNTRY_CODE_CENTROIDS.len(), COUNTRY_CODE_NAMES.len());
    for l in vector_country_labels() {
        assert!((-9_000..=9_000).contains(&l.lat) && (-18_000..=18_000).contains(&l.lon));
    }
}

// ---------------------------------------------------------------------------
// Geometry
// ---------------------------------------------------------------------------

#[test]
fn integer_projection_agrees_with_floating_point() {
    for lat in -90..=90 {
        for lon in -180..=180 {
            let x = ((lon as f32 + 180.0) / 360.0 * DEFAULT_MAP_W as f32) as i32;
            let y = ((90.0 - lat as f32) / 180.0 * DEFAULT_MAP_H as f32) as i32;
            let expected = (x.clamp(0, 2047), y.clamp(0, 1023));
            assert_eq!(project(lat, lon), expected, "{} {}", lat, lon);
        }
    }
}

#[test]
fn the_graticule() {
    let mut columns = Vec::new();
    for lon in (-180..=180).step_by(60) {
        let x = ((lon + 180) as f32 / 360.0 * DEFAULT_MAP_W as f32) as i32;
        if x < DEFAULT_MAP_W as i32 {
            columns.push(x as u32);
        }
    }
    assert_eq!(columns, MERIDIAN_COLUMNS);
    assert_eq!(PARALLEL_ROWS, [853, 512, 170]);
}

/// Bresenham's line, step by step.
fn steps(x0: i32, y0: i32, x1: i32, y1: i32) -> Vec<(i32, i32)> {
    let (mut x, mut y) = (x0, y0);
    let dx = (x1 - x0).abs();
    let dy = -(y1 - y0).abs();
    let sx = if x0 < x1 { 1 } else { -1 };
    let sy = if y0 < y1 { 1 } else { -1 };
    let mut err = dx + dy;
    let mut out = Vec::new();
    loop {
        out.push((x, y));
        if x == x1 && y == y1 {
            return out;
        }
        let e2 = 2 * err;
        if e2 >= dy {
            err += dy;
            x += sx;
        }
        if e2 <= dx {
            err += dx;
            y += sy;
        }
    }
}

#[test]
fn lines_are_traced_pixel_by_pixel() {
    let color = (1, 2, 3, 4);
    for x1 in -9..=9 {
        for y1 in -9..=9 {
            let mut img = MapImage::new(5, 4);
            let mut seen = vec![(7, 7)];
            plot_line_collect(&mut img, &mut seen, 1, 2, 1 + x1, 2 + y1, color);
            let shown: Vec<(i32, i32)> = steps(1, 2, 1 + x1, 2 + y1)
                .into_iter()
                .filter(|p| p.0 >= 0 && p.1 >= 0 && p.0 < 5 && p.1 < 4)
                .collect();
            assert_eq!(&seen[1..], shown, "{} {}", x1, y1);
            for y in 0..4 {
                for x in 0..5 {
                    let on = shown.contains(&(x as i32, y as i32));
                    assert_eq!(img.pixel(x, y), if on { color } else { (0, 0, 0, 0) });
                }
            }
        }
    }
}

#[test]
fn lines_leave_the_rest_alone() {
    let mut img = filled(6, 6, (9, 9, 9, 9));
    draw_line(&mut img, 0, 3, 5, 3, (1, 1, 1, 1));
    for y in 0..6 {
        for x in 0..6 {
            assert_eq!(img.pixel(x, y).0, if y == 3 { 1 } else { 9 });
        }
    }
}

#[test]
fn images_as_bytes() {
    let mut img = MapImage::new(2, 2);
    img.set_pixel(1, 0, (1, 2, 3, 4));
    assert_eq!(img.to_bytes(), [0, 0, 0, 0, 1, 2, 3, 4, 0, 0, 0, 0, 0, 0, 0, 0]);
    let copy = MapImage::from_bytes(2, 2, img.to_bytes()).unwrap();
    assert_eq!(copy.pixel(1, 0), (1, 2, 3, 4));
    assert!(MapImage::from_bytes(2, 3, img.to_bytes()).is_none());
    let mut other = img.duplicate();
    other.set_pixel(0, 0, (5, 5, 5, 5));
    assert_eq!(img.pixel(0, 0), (0, 0, 0, 0));
    assert_eq!((other.width(), other.height()), (2, 2));
}

#[test]
fn the_glow() {
    let g = plot_glow(10, 10, 100, 100);
    assert_eq!(g.len(), 21);
    assert_eq!(g[0], (10, 10, 100));
    assert_eq!(g.iter().map(|c| c.2 as u32).sum::<u32>(), 100 + 4 * 60 + 4 * 35 + 4 * 25 + 8 * 15);
    assert_eq!(plot_glow(0, 0, 100, 100).len(), 8);
    assert!(plot_glow(-3, 0, 100, 100).is_empty());
}

#[test]
fn disks() {
    for r in [0u8, 1, 2, 6, 36] {
        let mut expected = Vec::new();
        let ri = r as i32;
        for dy in -ri..=ri {
            for dx in -ri..=ri {
                let d2 = dx * dx + dy * dy;
                let (x, y) = (3 + dx, 4 + dy);
                if ri > 0 && d2 <= ri * ri && x >= 0 && y >= 0 && x < 30 && y < 20 {
                    expected.push((x as u32, y as u32, d2 as u32));
                }
            }
        }
        assert_eq!(plot_disk(3, 4, r, 30, 20), expected, "{}", r);
    }
}

/// The midpoint circle, step by step.
fn circle(radius: i32) -> Vec<(i32, i32)> {
    let (mut x, mut y, mut err) = (radius, 0, 0);
    let mut out = Vec::new();
    while x >= y {
        out.extend([(x, y), (y, x), (-y, x), (-x, y), (-x, -y), (-y, -x), (y, -x), (x, -y)]);
        if err <= 0 {
            y += 1;
            err += 2 * y + 1;
        }
        if err > 0 {
            x -= 1;
            err -= 2 * x + 1;
        }
    }
    out
}

#[test]
fn markers() {
    for size in 0..=20u8 {
        let ring: Vec<(u32, u32)> =
            circle(size as i32).iter().map(|(x, y)| ((x + 50) as u32, (y + 50) as u32)).collect();
        assert_eq!(plot_marker(MarkerStyle::Ring, 50, 50, size, 100, 100), ring, "{}", size);
    }
    assert!(plot_marker(MarkerStyle::Dot, 5, 5, 9, 100, 100).is_empty());
    assert_eq!(
        plot_marker(MarkerStyle::Cross, 5, 5, 1, 100, 100),
        [(4, 5), (5, 4), (5, 5), (5, 5), (6, 5), (5, 6)]
    );
    assert_eq!(
        plot_marker(MarkerStyle::X, 0, 0, 1, 100, 100),
        [(0, 0), (0, 0), (1, 1)]
    );
}

#[test]
fn glow_beside_an_arc() {
    let pixels = vec![(5, 5)];
    assert_eq!(soft_glow(&pixels, 0, 10, 10), []);
    assert_eq!(soft_glow(&pixels, 1, 10, 10), [(5, 6, 1), (5, 4, 1), (6, 5, 1), (4, 5, 1)]);
    assert_eq!(soft_glow(&pixels, 9, 10, 10).len(), 8);
    assert_eq!(soft_glow(&vec![(0, 0)], 1, 10, 10), [(0, 1, 1), (1, 0, 1)]);
}

#[test]
fn an_arc_is_drawn_through_its_samples() {
    let mut img = MapImage::new(20, 20);
    let pixels = draw_connection_line(&mut img, &vec![(0, 0), (4, 0), (4, 3)], (7, 7, 7, 7));
    let mut expected = steps(0, 0, 4, 0);
    expected.extend(steps(4, 0, 4, 3));
    assert_eq!(pixels, expected);
    assert_eq!(img.pixel(4, 2), (7, 7, 7, 7));
    assert!(draw_connection_line(&mut img, &vec![(1, 1)], (7, 7, 7, 7)).is_empty());
}

#[test]
fn arc_culling_agrees_with_floating_point() {
    for x0 in [-400, -1, 0, 100, 255, 256, 700] {
        for y0 in [-300, 0, 255, 256] {
            for x1 in [-500, -9, 3, 255, 256, 900] {
                for y1 in [-77, 0, 128, 256, 300] {
                    let (cx, cy) = control_point(x0 as f32, y0 as f32, x1 as f32, y1 as f32);
                    let min_x = (x0 as f32).min(x1 as f32).min(cx);
                    let max_x = (x0 as f32).max(x1 as f32).max(cx);
                    let min_y = (y0 as f32).min(y1 as f32).min(cy);
                    let max_y = (y0 as f32).max(y1 as f32).max(cy);
                    let expected = max_x >= 0.0 && min_x < 256.0 && max_y >= 0.0 && min_y < 256.0;
                    assert_eq!(meets(x0, y0, x1, y1, 256, 256), expected);
                }
            }
        }
    }
}

#[test]
fn filled_rows() {
    let mut img = MapImage::new(12, 1);
    fill_row(&mut img, 0, &vec![9, -3, 2, 6, 11], (1, 1, 1, 1));
    let on: Vec<u32> = (0..12).filter(|&x| img.pixel(x, 0).0 == 1).collect();
    // Pairs (-3, 2) and (6, 9); the odd one is left over.
    assert_eq!(on, [0, 1, 2, 6, 7, 8, 9]);
    assert_eq!(sort_ascending(&vec![3, -1, 3, 2]), [-1, 2, 3, 3]);
    let square = vec![(0, 0), (4, 0), (4, 4), (0, 4)];
    assert_eq!(row_edges(&square, 2), [1, 3]);
    assert!(row_edges(&square, 4).is_empty());
    assert_eq!(fill_rows(&vec![(0, -5), (1, 3), (2, 99)], 50), Some((0, 49)));
    assert_eq!(fill_rows(&vec![(0, 0), (1, 1)], 50), None);
}

#[test]
fn filled_outlines() {
    let mut img = MapImage::new(6, 6);
    let corners = vec![(1, 1), (4, 1), (4, 3), (1, 3)];
    assert_eq!(fill_rows(&corners, 6), Some((1, 3)));
    let crossings = vec![vec![4, 1], vec![1, 4], vec![]];
    fill_polygon(&mut img, &corners, &crossings, (1, 1, 1, 1));
    let on: Vec<(u32, u32)> = (0..6)
        .flat_map(|y| (0..6).map(move |x| (x, y)))
        .filter(|&(x, y)| img.pixel(x, y).0 == 1)
        .collect();
    assert_eq!(on, [(1, 1), (2, 1), (3, 1), (4, 1), (1, 2), (2, 2), (3, 2), (4, 2)]);
    let mut img = MapImage::new(6, 6);
    fill_polygon(&mut img, &vec![(0, 0), (5, 5)], &vec![vec![0, 5]], (1, 1, 1, 1));
    assert_eq!(img.pixel(0, 0), (0, 0, 0, 0));
}

#[test]
fn outlines_are_traced_without_streaks() {
    let mut down = false;
    let mut moves = Vec::new();
    for far in [true, false, true, false, false, true] {
        let (m, now) = trace_point(down, far);
        moves.push(m);
        down = now;
    }
    assert_eq!(
        moves,
        [
            PenMove::Begin,
            PenMove::LineTo,
            PenMove::LiftOff,
            PenMove::Begin,
            PenMove::LineTo,
            PenMove::LiftOff,
        ]
    );
    assert!(!down);
}

// ---------------------------------------------------------------------------
// Frames
// ---------------------------------------------------------------------------

#[test]
fn radii() {
    assert_eq!((halo_radius(1), halo_radius(8), halo_radius(20)), (6, 24, 36));
    assert_eq!((home_halo_radius(1), home_halo_radius(14), home_halo_radius(20)), (12, 56, 64));
    assert_eq!((home_glow_radius(1), home_glow_radius(14), home_glow_radius(20)), (6, 28, 32));
}

#[test]
fn dots_fade() {
    assert!(!has_faded(0, 8 * SECOND - 1, 8));
    assert!(has_faded(0, 8 * SECOND, 8));
    assert!(!has_faded(5, 0, 8));
    assert!(!has_faded(0, u64::MAX, u64::MAX));
    assert!(has_faded(0, u64::MAX, u64::MAX / SECOND));
    assert!(!has_faded(5, 5, 0) && has_faded(5, 6, 0));
    let colors = ColorConfig::default();
    assert_eq!(severity_color(&colors, Severity::Info), colors.info);
    assert_eq!(severity_color(&colors, Severity::Warn), colors.warn);
    assert_eq!(severity_color(&colors, Severity::Alert), colors.alert);
}

#[test]
fn what_a_frame_draws() {
    let cfg = Config::default();
    let fresh = Placement {
        x: 10,
        y: 10,
        control_x: 5,
        control_y: 5,
        visible: true,
        created_at: 0,
        severity: Severity::Warn,
    };
    let hidden = Placement { visible: false, ..fresh };
    let scene = Scene {
        home_x: 0,
        home_y: 0,
        home_visible: true,
        lines: true,
        w: 100,
        h: 100,
        now: SECOND,
        ttl: 8,
    };
    let dots = vec![fresh, hidden];
    let dot = Drawing::Dot { dot: 0, color: cfg.colors.warn, halo: 24 };
    let home = Drawing::Home { halo: 56, glow: 28 };
    assert_eq!(
        redraw(&scene, &cfg, &dots),
        [Drawing::Arc { dot: 0 }, Drawing::Arc { dot: 1 }, dot, home]
    );
    assert_eq!(redraw(&Scene { lines: false, ..scene }, &cfg, &dots), [dot, home]);
    assert_eq!(redraw(&Scene { now: 8 * SECOND, ..scene }, &cfg, &dots), [home]);
    assert_eq!(redraw(&Scene { now: 8 * SECOND, home_visible: false, ..scene }, &cfg, &dots), []);
}

#[test]
fn base_layers_are_reused() {
    let colors = MapColors { ocean: (1, 2, 3, 255), land: (4, 5, 6, 255) };
    let key = BaseKey {
        zoom: double(1.0),
        center_lat: double(0.0),
        center_lon: double(0.0),
        w: 10,
        h: 5,
        colors,
    };
    assert!(is_stale(&None, &key));
    assert!(!is_stale(&Some(key), &key));
    assert!(!is_stale(&Some(key), &BaseKey { center_lat: double(-0.0), ..key }));
    assert!(is_stale(&Some(key), &BaseKey { zoom: double(2.0), ..key }));
    assert!(is_stale(&Some(key), &BaseKey { w: 11, ..key }));
    let ocean = MapColors { ocean: (1, 2, 4, 255), ..colors };
    assert!(is_stale(&Some(key), &BaseKey { colors: ocean, ..key }));
    let land = MapColors { land: (4, 5, 7, 255), ..colors };
    assert!(is_stale(&Some(key), &BaseKey { colors: land, ..key }));
}

#[test]
fn new_colors_are_drawn_at_once() {
    let mut cfg = Config::default();
    let drawn = MapColors::of(&cfg.colors);
    assert_eq!(drawn.ocean, cfg.colors.ocean.to_rgba(255));
    assert_eq!(drawn.land, cfg.colors.land.to_rgba(255));
    assert!(!colors_changed(&drawn, &MapColors::of(&cfg.colors)));
    cfg.colors.info = ColorDef::from_rgb(9, 9, 9);
    assert!(!colors_changed(&drawn, &MapColors::of(&cfg.colors)));
    cfg.colors.ocean = ColorDef::from_rgb(1, 2, 3);
    assert!(colors_changed(&drawn, &MapColors::of(&cfg.colors)));
    cfg.colors.ocean = Config::default().colors.ocean;
    cfg.colors.land = ColorDef::from_rgb(1, 2, 3);
    assert!(colors_changed(&drawn, &MapColors::of(&cfg.colors)));
}

#[test]
fn where_base_layers_come_from() {
    assert_eq!(base_origin(double(1.0), true), BaseOrigin::WholeWorld);
    assert_eq!(base_origin(double(0.5), false), BaseOrigin::WholeWorld);
    assert_eq!(base_origin(double(1.5), true), BaseOrigin::Outlines);
    assert_eq!(base_origin(double(1.5), false), BaseOrigin::Crop);
    assert_eq!(base_origin(double(f64::NAN), false), BaseOrigin::Crop);
}

#[test]
fn base_layers_are_sampled_and_cropped() {
    let mut base = MapImage::new(2, 2);
    for (x, y, v) in [(0, 0, 1), (1, 0, 2), (0, 1, 3), (1, 1, 4)] {
        base.set_pixel(x, y, (v, v, v, v));
    }
    let mut work = MapImage::new(3, 2);
    sample_base(&mut work, &base, &vec![0, 1, 9], &vec![1, 0]);
    let row = |img: &MapImage, y: u32| (0..3).map(|x| img.pixel(x, y).0).collect::<Vec<u8>>();
    assert_eq!(row(&work, 0), [3, 4, 4]);
    assert_eq!(row(&work, 1), [1, 2, 2]);
    crop_base(&mut work, &base, &vec![-1, 1, 2], &vec![0, -1], (7, 7, 7, 7));
    assert_eq!(row(&work, 0), [7, 2, 7]);
    assert_eq!(row(&work, 1), [7, 7, 7]);
}
