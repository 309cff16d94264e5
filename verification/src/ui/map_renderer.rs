//! The integer geometry of the world map.

use vstd::prelude::*;
use vstd::string::StringExecFns;

use crate::config::{ColorConfig, ColorDef, Config};
use crate::event::Severity;
use crate::ieee;
use crate::ieee::Double;
use crate::ip;
use crate::ip::IpAddr;
use crate::text;
use crate::ui::app;
use crate::ui::app::Panel;
use crate::ui::arcs;
use crate::ui::canvas;
use crate::ui::canvas::{MapImage, Pixel};

verus! {

/// Where the machine itself sits on the map.
#[derive(Debug)]
pub struct HomeLocation {
    pub lat: Double,
    pub lon: Double,
    /// The public address, once it is known.
    pub ip: Option<IpAddr>,
    /// What to call the place, once it is known.
    pub label: Option<String>,
}

/// What a [`HomeLocation`] says.
#[verifier::ext_equal]
pub struct HomeView {
    pub lat: Double,
    pub lon: Double,
    pub ip: Option<IpAddr>,
    pub label: Option<Seq<char>>,
}

impl View for HomeLocation {
    type V = HomeView;

    open spec fn view(&self) -> HomeView {
        HomeView { lat: self.lat, lon: self.lon, ip: self.ip, label: text::text_of(self.label) }
    }
}

impl Clone for HomeLocation {
    fn clone(&self) -> (copy: HomeLocation)
        ensures
            copy == *self,
    {
        HomeLocation {
            lat: self.lat,
            lon: self.lon,
            ip: self.ip,
            label: text::copy_text(&self.label),
        }
    }
}

impl Default for HomeLocation {
    fn default() -> (home: HomeLocation)
        ensures
            home@ == (HomeView {
                lat: Double { bits: 0 },
                lon: Double { bits: 0 },
                ip: None,
                label: None,
            }),
    {
        HomeLocation { lat: Double { bits: 0 }, lon: Double { bits: 0 }, ip: None, label: None }
    }
}

/// The one-line description of a home location, whose coordinates read
/// `coords`.
pub open spec fn overlay(home: HomeView, coords: Seq<char>) -> Seq<char> {
    "\u{1F3E0} "@ + match (home.ip, home.label) {
        (Some(address), Some(label)) => ip::ip_text(address) + " \u{2014} "@ + label,
        (Some(address), None) => ip::ip_text(address),
        (None, Some(label)) => label,
        (None, None) => "home"@,
    } + " ("@ + coords + ")"@
}

impl HomeLocation {
    /// One-line description for the map overlay; `coords` is the text of the
    /// coordinates.
    pub fn overlay_text(&self, coords: &str) -> (text: String)
        ensures
            text@ == overlay(self@, coords@),
    {
        let mut out: String = "\u{1F3E0} ".to_owned();
        match (self.ip, &self.label) {
            (Some(address), Some(label)) => {
                out.append(address.to_text().as_str());
                out.append(" \u{2014} ");
                out.append(label.as_str());
            },
            (Some(address), None) => {
                out.append(address.to_text().as_str());
            },
            (None, Some(label)) => {
                out.append(label.as_str());
            },
            (None, None) => {
                out.append("home");
            },
        }
        out.append(" (");
        out.append(coords);
        out.append(")");
        assert(out@ =~= overlay(self@, coords@));
        out
    }
}

/// The line over the map names the address and the place of home as far as they
/// are known, the word home where neither is, and always the coordinates.
pub proof fn the_overlay_names_home(home: HomeView, coords: Seq<char>)
    ensures
        ({
            let line = overlay(home, coords);
            let close = " ("@ + coords + ")"@;
            &&& home.ip is None && home.label is None ==> line == "\u{1F3E0} home"@ + close
            &&& home.ip matches Some(a) ==> home.label is None ==> line == "\u{1F3E0} "@
                + ip::ip_text(a) + close
            &&& home.label matches Some(l) ==> home.ip is None ==> line == "\u{1F3E0} "@ + l + close
            &&& home.ip matches Some(a) ==> (home.label matches Some(l) ==> line == "\u{1F3E0} "@
                + ip::ip_text(a) + " \u{2014} "@ + l + close)
        }),
{
    reveal_strlit("\u{1F3E0} ");
    reveal_strlit("home");
    reveal_strlit("\u{1F3E0} home");
    let line = overlay(home, coords);
    let close = " ("@ + coords + ")"@;
    if home.ip is None && home.label is None {
        assert(line =~= "\u{1F3E0} home"@ + close);
    } else if home.label is None {
        assert(line =~= "\u{1F3E0} "@ + ip::ip_text(home.ip->0) + close);
    } else if home.ip is None {
        assert(line =~= "\u{1F3E0} "@ + home.label->0 + close);
    } else {
        assert(line =~= "\u{1F3E0} "@ + ip::ip_text(home.ip->0) + " \u{2014} "@ + home.label->0
            + close);
    }
}

/// The panel that follows in the cycle of the Tab key.
pub open spec fn next_panel(p: Panel) -> Panel {
    match p {
        Panel::WorldMap => Panel::Log,
        Panel::Log => Panel::Metrics,
        Panel::Metrics => Panel::WorldMap,
    }
}

/// Finds the panel that follows in the cycle of the Tab key.
pub fn focus_target(current: Panel) -> (next: Panel)
    ensures
        next == next_panel(current),
{
    match current {
        Panel::WorldMap => Panel::Log,
        Panel::Log => Panel::Metrics,
        Panel::Metrics => Panel::WorldMap,
    }
}

/// Three times Tab comes back to where it started, and visits every panel.
pub proof fn tab_cycles_through_all_panels(p: Panel, q: Panel)
    ensures
        next_panel(next_panel(next_panel(p))) == p,
        q == p || q == next_panel(p) || q == next_panel(next_panel(p)),
{
}

// ---------------------------------------------------------------------------
// What a frame shows
// ---------------------------------------------------------------------------

/// The color of a severity.
pub open spec fn color_of(colors: ColorConfig, severity: Severity) -> ColorDef {
    match severity {
        Severity::Info => colors.info,
        Severity::Warn => colors.warn,
        Severity::Alert => colors.alert,
    }
}

/// Finds the color of a severity.
pub fn severity_color(colors: &ColorConfig, severity: Severity) -> (color: ColorDef)
    ensures
        color == color_of(*colors, severity),
{
    match severity {
        Severity::Info => colors.info,
        Severity::Warn => colors.warn,
        Severity::Alert => colors.alert,
    }
}

/// `size * factor`, moved into a range.
pub open spec fn scaled(size: u8, factor: int, low: int, high: int) -> int {
    let v = size * factor;
    if v < low {
        low
    } else if v > high {
        high
    } else {
        v
    }
}

/// Scales a marker size and moves it into a range.
fn scale(size: u8, factor: u32, low: u32, high: u32) -> (out: u8)
    requires
        factor <= 4,
        low <= high <= 255,
    ensures
        out == scaled(size, factor as int, low as int, high as int),
{
    assert(0 <= size * factor <= 1020) by (nonlinear_arith)
        requires
            0 <= size <= 255,
            0 <= factor <= 4,
    ;
    let v: u32 = size as u32 * factor;
    if v < low {
        low as u8
    } else if v > high {
        high as u8
    } else {
        v as u8
    }
}

/// The radius of the halo of a dot.
pub fn halo_radius(marker_size: u8) -> (radius: u8)
    ensures
        radius == scaled(marker_size, 3, 6, 36),
{
    scale(marker_size, 3, 6, 36)
}

/// The radius of the halo of the home marker.
pub fn home_halo_radius(marker_size: u8) -> (radius: u8)
    ensures
        radius == scaled(marker_size, 4, 12, 64),
{
    scale(marker_size, 4, 12, 64)
}

/// The radius of the solid glow of the home marker.
pub fn home_glow_radius(marker_size: u8) -> (radius: u8)
    ensures
        radius == scaled(marker_size, 2, 6, 32),
{
    scale(marker_size, 2, 6, 32)
}

/// Where a dot stands on the image.
#[derive(Clone, Copy, Debug, PartialEq, Eq, Structural)]
pub struct Placement {
    /// Column and row.
    pub x: i32,
    pub y: i32,
    /// The control point of the arc from home, rounded down.
    pub control_x: i64,
    pub control_y: i64,
    /// Whether the place is inside the visible part of the world.
    pub visible: bool,
    /// When the dot appeared, in nanoseconds of a monotonic clock.
    pub created_at: u64,
    /// The severity of the dot.
    pub severity: Severity,
}

/// Something to draw.
#[derive(Clone, Copy, Debug, PartialEq, Eq, Structural)]
pub enum Drawing {
    /// The arc from home to a dot.
    Arc { dot: usize },
    /// A dot: halo, glow and marker.
    Dot { dot: usize, color: ColorDef, halo: u8 },
    /// The home marker: halo, glow and marker.
    Home { halo: u8, glow: u8 },
}

/// Whether a dot has faded away: it is not new, and its age is at least its
/// time to live.
pub open spec fn faded(created_at: u64, now: u64, ttl: u64) -> bool {
    now > created_at && now - created_at >= ttl * app::NANOS_PER_SECOND
}

/// Whether a dot has faded away.
pub fn has_faded(created_at: u64, now: u64, ttl: u64) -> (yes: bool)
    ensures
        yes == faded(created_at, now, ttl),
{
    now > created_at && (now - created_at) as u128 >= ttl as u128 * app::NANOS_PER_SECOND as u128
}

/// What there is to draw, besides the dots themselves.
#[derive(Clone, Copy, Debug, PartialEq, Eq, Structural)]
pub struct Scene {
    /// The pixel of the home marker.
    pub home_x: i32,
    pub home_y: i32,
    /// Whether the home marker is inside the visible part of the world.
    pub home_visible: bool,
    /// Whether arcs are drawn.
    pub lines: bool,
    /// The size of the image.
    pub w: u32,
    pub h: u32,
    /// The instant of the frame, in nanoseconds of a monotonic clock.
    pub now: u64,
    /// The lifetime of dots in seconds.
    pub ttl: u64,
}

/// Whether the arc to a dot is drawn.
pub open spec fn arc_drawn(scene: Scene, d: Placement) -> bool {
    scene.lines && !faded(d.created_at, scene.now, scene.ttl) && arcs::box_meets_image(
        scene.home_x as int,
        scene.home_y as int,
        d.x as int,
        d.y as int,
        d.control_x as int,
        d.control_y as int,
        scene.w as int,
        scene.h as int,
    )
}

/// Whether a dot is drawn.
pub open spec fn dot_drawn(scene: Scene, d: Placement) -> bool {
    d.visible && !faded(d.created_at, scene.now, scene.ttl)
}

/// The arcs to the first `n` dots.
pub open spec fn arc_drawings(scene: Scene, dots: Seq<Placement>, n: int) -> Seq<Drawing>
    decreases n,
{
    if n <= 0 {
        Seq::empty()
    } else if arc_drawn(scene, dots[n - 1]) {
        arc_drawings(scene, dots, n - 1).push(Drawing::Arc { dot: (n - 1) as usize })
    } else {
        arc_drawings(scene, dots, n - 1)
    }
}

/// The first `n` dots.
pub open spec fn dot_drawings(
    scene: Scene,
    colors: ColorConfig,
    marker_size: u8,
    dots: Seq<Placement>,
    n: int,
) -> Seq<Drawing>
    decreases n,
{
    if n <= 0 {
        Seq::empty()
    } else {
        let before = dot_drawings(scene, colors, marker_size, dots, n - 1);
        if dot_drawn(scene, dots[n - 1]) {
            before.push(
                Drawing::Dot {
                    dot: (n - 1) as usize,
                    color: color_of(colors, dots[n - 1].severity),
                    halo: scaled(marker_size, 3, 6, 36) as u8,
                },
            )
        } else {
            before
        }
    }
}

/// The home marker, if it is visible.
pub open spec fn home_drawing(scene: Scene, marker_size: u8) -> Seq<Drawing> {
    if scene.home_visible {
        seq![
            Drawing::Home {
                halo: scaled(marker_size, 4, 12, 64) as u8,
                glow: scaled(marker_size, 2, 6, 32) as u8,
            },
        ]
    } else {
        Seq::empty()
    }
}

/// What a frame draws over the base map, in order: arcs, then dots, then the
/// home marker on top.
pub open spec fn frame(scene: Scene, cfg: Config, dots: Seq<Placement>) -> Seq<Drawing> {
    arc_drawings(scene, dots, dots.len() as int) + dot_drawings(
        scene,
        cfg.colors,
        cfg.marker_size,
        dots,
        dots.len() as int,
    ) + home_drawing(scene, cfg.map.home.marker_size)
}

/// Decides what a frame draws over the base map, in order.
pub fn redraw(scene: &Scene, cfg: &Config, dots: &Vec<Placement>) -> (out: Vec<Drawing>)
    ensures
        out@ == frame(*scene, *cfg, dots@),
{
    let mut out: Vec<Drawing> = Vec::new();
    let mut i: usize = 0;
    while i < dots.len()
        invariant
            i <= dots@.len(),
            out@ == arc_drawings(*scene, dots@, i as int),
        decreases dots@.len() - i,
    {
        let d: Placement = dots[i];
        if scene.lines && !has_faded(d.created_at, scene.now, scene.ttl)
            && arcs::arc_intersects_viewport(
            scene.home_x,
            scene.home_y,
            d.x,
            d.y,
            d.control_x,
            d.control_y,
            scene.w,
            scene.h,
        ) {
            out.push(Drawing::Arc { dot: i });
        }
        i = i + 1;
    }
    let ghost arcs_drawn = out@;
    let halo: u8 = halo_radius(cfg.marker_size);
    let mut j: usize = 0;
    assert(out@ =~= arcs_drawn + dot_drawings(*scene, cfg.colors, cfg.marker_size, dots@, 0));
    while j < dots.len()
        invariant
            j <= dots@.len(),
            halo == scaled(cfg.marker_size, 3, 6, 36),
            out@ == arcs_drawn + dot_drawings(
                *scene,
                cfg.colors,
                cfg.marker_size,
                dots@,
                j as int,
            ),
        decreases dots@.len() - j,
    {
        let d: Placement = dots[j];
        if d.visible && !has_faded(d.created_at, scene.now, scene.ttl) {
            out.push(
                Drawing::Dot { dot: j, color: severity_color(&cfg.colors, d.severity), halo },
            );
        }
        j = j + 1;
        assert(out@ =~= arcs_drawn + dot_drawings(
            *scene,
            cfg.colors,
            cfg.marker_size,
            dots@,
            j as int,
        ));
    }
    if scene.home_visible {
        let size: u8 = cfg.map.home.marker_size;
        out.push(Drawing::Home { halo: home_halo_radius(size), glow: home_glow_radius(size) });
    }
    assert(out@ =~= frame(*scene, *cfg, dots@));
    out
}

/// The home marker is drawn last, over everything else, whenever it is
/// visible.
pub proof fn home_is_on_top(scene: Scene, cfg: Config, dots: Seq<Placement>)
    requires
        scene.home_visible,
    ensures
        frame(scene, cfg, dots).len() > 0,
        frame(scene, cfg, dots).last() is Home,
{
}

/// With connection lines switched off no arc is drawn, and the rest of the
/// frame is as with them on.
pub proof fn lines_off_means_no_arcs(scene: Scene, cfg: Config, dots: Seq<Placement>)
    requires
        !scene.lines,
    ensures
        arc_drawings(scene, dots, dots.len() as int).len() == 0,
        frame(Scene { lines: true, ..scene }, cfg, dots) == arc_drawings(
            Scene { lines: true, ..scene },
            dots,
            dots.len() as int,
        ) + frame(scene, cfg, dots),
{
    no_arcs(scene, dots, dots.len() as int);
    same_dots(scene, cfg, dots, dots.len() as int);
    let on = Scene { lines: true, ..scene };
    assert(frame(on, cfg, dots) =~= arc_drawings(on, dots, dots.len() as int) + frame(
        scene,
        cfg,
        dots,
    ));
}

proof fn no_arcs(scene: Scene, dots: Seq<Placement>, n: int)
    requires
        !scene.lines,
    ensures
        arc_drawings(scene, dots, n).len() == 0,
    decreases n,
{
    if n > 0 {
        no_arcs(scene, dots, n - 1);
    }
}

proof fn same_dots(scene: Scene, cfg: Config, dots: Seq<Placement>, n: int)
    ensures
        dot_drawings(Scene { lines: true, ..scene }, cfg.colors, cfg.marker_size, dots, n)
            == dot_drawings(scene, cfg.colors, cfg.marker_size, dots, n),
    decreases n,
{
    if n > 0 {
        same_dots(scene, cfg, dots, n - 1);
    }
}

/// Where a drawing has its turn in a frame of `n` dots: the arcs by dot, then
/// the dots, then the home marker.
pub open spec fn turn(d: Drawing, n: int) -> int {
    match d {
        Drawing::Arc { dot } => dot as int,
        Drawing::Dot { dot, .. } => n + dot,
        Drawing::Home { .. } => 2 * n,
    }
}

/// A frame draws the arc to a dot if and only if lines are on, the dot still
/// lives, and the box of home, dot and control point meets the image. Whether
/// home or the dot themselves are in view makes no difference.
pub proof fn live_arcs_in_view_are_drawn(
    scene: Scene,
    cfg: Config,
    dots: Seq<Placement>,
    i: int,
)
    requires
        0 <= i < dots.len() <= usize::MAX,
    ensures
        ({
            let d = dots[i];
            let lives = scene.now <= d.created_at || scene.now - d.created_at < scene.ttl
                * 1_000_000_000;
            let reaches_right = scene.home_x >= 0 || d.x >= 0 || d.control_x >= 0;
            let reaches_left = scene.home_x < scene.w || d.x < scene.w || d.control_x < scene.w;
            let reaches_down = scene.home_y >= 0 || d.y >= 0 || d.control_y >= 0;
            let reaches_up = scene.home_y < scene.h || d.y < scene.h || d.control_y < scene.h;
            frame(scene, cfg, dots).contains(Drawing::Arc { dot: i as usize }) <==> scene.lines
                && lives && reaches_right && reaches_left && reaches_down && reaches_up
        }),
{
    let n = dots.len() as int;
    let whole = frame(scene, cfg, dots);
    let front = arc_drawings(scene, dots, n);
    let arc = Drawing::Arc { dot: i as usize };
    arcs_are_those_drawn(scene, dots, n);
    dots_are_those_drawn(scene, cfg.colors, cfg.marker_size, dots, n);
    if arc_drawn(scene, dots[i]) {
        let p = choose|p: int| 0 <= p < front.len() && front[p] == arc;
        assert(whole[p] == arc);
    }
    if whole.contains(arc) {
        let p = choose|p: int| 0 <= p < whole.len() && whole[p] == arc;
        let middle = dot_drawings(scene, cfg.colors, cfg.marker_size, dots, n);
        if p < front.len() {
            assert(front[p] == arc);
        } else if p < front.len() + middle.len() {
            assert(middle[p - front.len()] == arc);
        }
    }
}

/// A frame draws a dot if and only if it is in view and still lives, in the
/// color of its severity and with a halo of three times the size of a marker,
/// from six to thirty-six pixels.
pub proof fn live_dots_in_view_are_drawn(
    scene: Scene,
    cfg: Config,
    dots: Seq<Placement>,
    i: int,
    color: ColorDef,
    halo: u8,
)
    requires
        0 <= i < dots.len() <= usize::MAX,
    ensures
        ({
            let d = dots[i];
            let lives = scene.now <= d.created_at || scene.now - d.created_at < scene.ttl
                * 1_000_000_000;
            let size = 3 * cfg.marker_size;
            frame(scene, cfg, dots).contains(Drawing::Dot { dot: i as usize, color, halo }) <==> {
                &&& d.visible && lives
                &&& d.severity == Severity::Info ==> color == cfg.colors.info
                &&& d.severity == Severity::Warn ==> color == cfg.colors.warn
                &&& d.severity == Severity::Alert ==> color == cfg.colors.alert
                &&& size <= 6 ==> halo == 6
                &&& 6 <= size <= 36 ==> halo == size
                &&& size >= 36 ==> halo == 36
            }
        }),
{
    let n = dots.len() as int;
    let whole = frame(scene, cfg, dots);
    let front = arc_drawings(scene, dots, n);
    let middle = dot_drawings(scene, cfg.colors, cfg.marker_size, dots, n);
    let wanted = Drawing::Dot { dot: i as usize, color, halo };
    arcs_are_those_drawn(scene, dots, n);
    dots_are_those_drawn(scene, cfg.colors, cfg.marker_size, dots, n);
    if middle.contains(wanted) {
        let p = choose|p: int| 0 <= p < middle.len() && middle[p] == wanted;
        assert(whole[front.len() + p] == wanted);
    }
    if whole.contains(wanted) {
        let p = choose|p: int| 0 <= p < whole.len() && whole[p] == wanted;
        if p < front.len() {
            assert(front[p] == wanted);
        } else if p < front.len() + middle.len() {
            assert(middle[p - front.len()] == wanted);
        }
    }
}

/// A frame draws the home marker if and only if it is in view, with a halo of
/// four times and a glow of twice its size, within their bounds.
pub proof fn home_is_drawn_in_view(
    scene: Scene,
    cfg: Config,
    dots: Seq<Placement>,
    halo: u8,
    glow: u8,
)
    requires
        dots.len() <= usize::MAX,
    ensures
        ({
            let size = cfg.map.home.marker_size;
            frame(scene, cfg, dots).contains(Drawing::Home { halo, glow }) <==> {
                &&& scene.home_visible
                &&& 4 * size <= 12 ==> halo == 12
                &&& 12 <= 4 * size <= 64 ==> halo == 4 * size
                &&& 4 * size >= 64 ==> halo == 64
                &&& 2 * size <= 6 ==> glow == 6
                &&& 6 <= 2 * size <= 32 ==> glow == 2 * size
                &&& 2 * size >= 32 ==> glow == 32
            }
        }),
{
    let n = dots.len() as int;
    let whole = frame(scene, cfg, dots);
    let front = arc_drawings(scene, dots, n);
    let middle = dot_drawings(scene, cfg.colors, cfg.marker_size, dots, n);
    let home = Drawing::Home { halo, glow };
    arcs_are_those_drawn(scene, dots, n);
    dots_are_those_drawn(scene, cfg.colors, cfg.marker_size, dots, n);
    if scene.home_visible && home_drawing(scene, cfg.map.home.marker_size)[0] == home {
        assert(whole[whole.len() - 1] == home);
    }
    if whole.contains(home) {
        let p = choose|p: int| 0 <= p < whole.len() && whole[p] == home;
        if p < front.len() {
            assert(front[p] == home);
        } else if p < front.len() + middle.len() {
            assert(middle[p - front.len()] == home);
        }
    }
}

/// A frame draws everything once and in its turn: arcs under dots, dots under
/// the home marker, and older dots under newer ones.
pub proof fn everything_has_its_turn(scene: Scene, cfg: Config, dots: Seq<Placement>, p: int, q: int)
    requires
        dots.len() <= usize::MAX,
        0 <= p < q < frame(scene, cfg, dots).len(),
    ensures
        turn(frame(scene, cfg, dots)[p], dots.len() as int) < turn(
            frame(scene, cfg, dots)[q],
            dots.len() as int,
        ),
{
    let n = dots.len() as int;
    arcs_are_those_drawn(scene, dots, n);
    dots_are_those_drawn(scene, cfg.colors, cfg.marker_size, dots, n);
}

/// What the arcs of the first `n` dots are.
proof fn arcs_are_those_drawn(scene: Scene, dots: Seq<Placement>, n: int)
    requires
        0 <= n <= dots.len() <= usize::MAX,
    ensures
        ({
            let out = arc_drawings(scene, dots, n);
            &&& forall|p: int|
                0 <= p < out.len() ==> ((#[trigger] out[p]) matches Drawing::Arc { dot } && dot < n
                    && arc_drawn(scene, dots[dot as int]))
            &&& forall|p: int, q: int|
                0 <= p < q < out.len() ==> turn(#[trigger] out[p], dots.len() as int) < turn(
                    #[trigger] out[q],
                    dots.len() as int,
                )
            &&& forall|i: int|
                0 <= i < n && arc_drawn(scene, #[trigger] dots[i]) ==> out.contains(
                    Drawing::Arc { dot: i as usize },
                )
        }),
    decreases n,
{
    if n > 0 {
        arcs_are_those_drawn(scene, dots, n - 1);
        let before = arc_drawings(scene, dots, n - 1);
        let out = arc_drawings(scene, dots, n);
        assert forall|i: int| 0 <= i < n && arc_drawn(scene, #[trigger] dots[i]) implies out.contains(
            Drawing::Arc { dot: i as usize },
        ) by {
            let arc = Drawing::Arc { dot: i as usize };
            if i < n - 1 {
                let p = choose|p: int| 0 <= p < before.len() && before[p] == arc;
                assert(out[p] == arc);
            } else {
                assert(out[out.len() - 1] == arc);
            }
        }
    }
}

/// What the drawings of the first `n` dots are.
proof fn dots_are_those_drawn(
    scene: Scene,
    colors: ColorConfig,
    marker_size: u8,
    dots: Seq<Placement>,
    n: int,
)
    requires
        0 <= n <= dots.len() <= usize::MAX,
    ensures
        ({
            let out = dot_drawings(scene, colors, marker_size, dots, n);
            &&& forall|p: int|
                0 <= p < out.len() ==> ((#[trigger] out[p]) matches Drawing::Dot {
                    dot,
                    color,
                    halo,
                } && dot < n && dot_drawn(scene, dots[dot as int]) && color == color_of(
                    colors,
                    dots[dot as int].severity,
                ) && halo == scaled(marker_size, 3, 6, 36))
            &&& forall|p: int, q: int|
                0 <= p < q < out.len() ==> turn(#[trigger] out[p], dots.len() as int) < turn(
                    #[trigger] out[q],
                    dots.len() as int,
                )
            &&& forall|i: int|
                0 <= i < n && dot_drawn(scene, #[trigger] dots[i]) ==> out.contains(
                    Drawing::Dot {
                        dot: i as usize,
                        color: color_of(colors, dots[i].severity),
                        halo: scaled(marker_size, 3, 6, 36) as u8,
                    },
                )
        }),
    decreases n,
{
    if n > 0 {
        dots_are_those_drawn(scene, colors, marker_size, dots, n - 1);
        let before = dot_drawings(scene, colors, marker_size, dots, n - 1);
        let out = dot_drawings(scene, colors, marker_size, dots, n);
        assert forall|i: int| 0 <= i < n && dot_drawn(scene, #[trigger] dots[i]) implies out.contains(
            Drawing::Dot {
                dot: i as usize,
                color: color_of(colors, dots[i].severity),
                halo: scaled(marker_size, 3, 6, 36) as u8,
            },
        ) by {
            let dot = Drawing::Dot {
                dot: i as usize,
                color: color_of(colors, dots[i].severity),
                halo: scaled(marker_size, 3, 6, 36) as u8,
            };
            if i < n - 1 {
                let p = choose|p: int| 0 <= p < before.len() && before[p] == dot;
                assert(out[p] == dot);
            } else {
                assert(out[out.len() - 1] == dot);
            }
        }
    }
}

/// Every severity has its own color.
pub proof fn severities_have_their_colors(colors: ColorConfig)
    ensures
        color_of(colors, Severity::Info) == colors.info,
        color_of(colors, Severity::Warn) == colors.warn,
        color_of(colors, Severity::Alert) == colors.alert,
{
}

/// Scaled sizes grow with the size, are the multiple where that is in range,
/// and never leave the range.
pub proof fn scaled_sizes_stay_in_range(size: u8, factor: int, low: int, high: int)
    requires
        low <= high,
    ensures
        low <= scaled(size, factor, low, high) <= high,
        low <= size * factor <= high ==> scaled(size, factor, low, high) == size * factor,
        size * factor < low ==> scaled(size, factor, low, high) == low,
        size * factor > high ==> scaled(size, factor, low, high) == high,
{
}

/// A dot fades the moment its age reaches its lifetime, and not before; the
/// older it is, the more it has faded.
pub proof fn dots_fade_with_age(created_at: u64, now: u64, later: u64, ttl: u64)
    requires
        now <= later,
        ttl > 0,
    ensures
        faded(created_at, now, ttl) <==> created_at + ttl * 1_000_000_000 <= now,
        faded(created_at, now, ttl) ==> faded(created_at, later, ttl),
{
}

// ---------------------------------------------------------------------------
// The base layer
// ---------------------------------------------------------------------------

/// The colors of a map without anything on it.
#[derive(Clone, Copy, Debug)]
pub struct MapColors {
    pub ocean: Pixel,
    pub land: Pixel,
}

/// The colors of the map that a configuration asks for.
pub open spec fn map_colors(colors: ColorConfig) -> MapColors {
    MapColors {
        ocean: (colors.ocean.r, colors.ocean.g, colors.ocean.b, 255),
        land: (colors.land.r, colors.land.g, colors.land.b, 255),
    }
}

impl MapColors {
    /// The colors of the map that a configuration asks for.
    pub fn of(colors: &ColorConfig) -> (out: MapColors)
        ensures
            out == map_colors(*colors),
    {
        MapColors { ocean: colors.ocean.to_rgba(255), land: colors.land.to_rgba(255) }
    }
}

/// Whether two pixels are the same.
fn same_pixel(a: Pixel, b: Pixel) -> (yes: bool)
    ensures
        yes == (a == b),
{
    a.0 == b.0 && a.1 == b.1 && a.2 == b.2 && a.3 == b.3
}

/// Whether the stored picture of the world, drawn in the colors `drawn`, has to
/// be drawn again: the configuration asks for other colors by now.
pub fn colors_changed(drawn: &MapColors, wanted: &MapColors) -> (yes: bool)
    ensures
        yes == (*drawn != *wanted),
{
    !(same_pixel(drawn.ocean, wanted.ocean) && same_pixel(drawn.land, wanted.land))
}

/// What the base layer of a frame was drawn for.
#[derive(Clone, Copy, Debug)]
pub struct BaseKey {
    pub zoom: Double,
    pub center_lat: Double,
    pub center_lon: Double,
    pub w: u32,
    pub h: u32,
    pub colors: MapColors,
}

/// Whether a base layer drawn for one key serves another, numbers compared as
/// numbers.
pub open spec fn same_base(a: BaseKey, b: BaseKey) -> bool {
    &&& a.zoom.equals(b.zoom)
    &&& a.center_lat.equals(b.center_lat)
    &&& a.center_lon.equals(b.center_lon)
    &&& a.w == b.w
    &&& a.h == b.h
    &&& a.colors == b.colors
}

/// A base layer serves only frames of the same size, in the same colors and of
/// the same part of the world; it serves its own frame, unless a coordinate is
/// no number.
pub proof fn base_layers_serve_their_view(a: BaseKey, b: BaseKey)
    ensures
        same_base(a, b) ==> a.w == b.w && a.h == b.h && a.colors.ocean == b.colors.ocean
            && a.colors.land == b.colors.land && a.zoom.equals(b.zoom) && a.center_lat.equals(
            b.center_lat,
        ) && a.center_lon.equals(b.center_lon),
        a.zoom.equals(a.zoom) && a.center_lat.equals(a.center_lat) && a.center_lon.equals(
            a.center_lon,
        ) ==> same_base(a, a),
{
}

/// Whether the base layer has to be drawn again for a frame.
pub open spec fn stale(cached: Option<BaseKey>, wanted: BaseKey) -> bool {
    match cached {
        Some(key) => !same_base(key, wanted),
        None => true,
    }
}

/// Without a base layer one has to be drawn; with one, only if it does not
/// serve the frame.
pub proof fn base_layers_are_drawn_when_needed(key: BaseKey, wanted: BaseKey)
    ensures
        stale(None, wanted),
        key.w != wanted.w || key.h != wanted.h || key.colors != wanted.colors ==> stale(
            Some(key),
            wanted,
        ),
        !key.zoom.equals(wanted.zoom) || !key.center_lat.equals(wanted.center_lat)
            || !key.center_lon.equals(wanted.center_lon) ==> stale(Some(key), wanted),
        stale(Some(key), wanted) <==> !same_base(key, wanted),
{
}

/// Whether the base layer has to be drawn again for a frame.
pub fn is_stale(cached: &Option<BaseKey>, wanted: &BaseKey) -> (yes: bool)
    ensures
        yes == stale(*cached, *wanted),
{
    match cached {
        None => true,
        Some(key) => !(key.zoom.same(wanted.zoom) && key.center_lat.same(wanted.center_lat)
            && key.center_lon.same(wanted.center_lon) && key.w == wanted.w && key.h == wanted.h
            && !colors_changed(&key.colors, &wanted.colors)),
    }
}

/// A change of the color of the ocean or of the land in the configuration
/// applies at once: no base layer drawn in the colors of before serves any
/// more, and the stored picture is drawn again.
pub proof fn new_colors_are_drawn(a: BaseKey, b: BaseKey, before: ColorConfig, after: ColorConfig)
    requires
        a.colors == map_colors(before),
        b.colors == map_colors(after),
        before.ocean != after.ocean || before.land != after.land,
    ensures
        a.colors != b.colors,
        !same_base(a, b),
{
}

/// Where the base layer of a frame comes from.
#[derive(Clone, Copy, Debug, PartialEq, Eq, Structural)]
pub enum BaseOrigin {
    /// The whole world, sampled from the stored picture.
    WholeWorld,
    /// The visible part, drawn from the outlines.
    Outlines,
    /// The visible part, cut out of the stored picture.
    Crop,
}

/// Where the base layer of a frame comes from.
pub open spec fn origin_of(zoom: Double, outlines_drawn: bool) -> BaseOrigin {
    if zoom.at_most(Double { bits: ieee::DOUBLE_ONE }) {
        BaseOrigin::WholeWorld
    } else if outlines_drawn {
        BaseOrigin::Outlines
    } else {
        BaseOrigin::Crop
    }
}

/// The stored picture is shown whole or cut, but never in place of outlines
/// that can be drawn into a frame that is zoomed in.
pub proof fn zoomed_frames_are_drawn_anew(zoom: Double, outlines_drawn: bool)
    ensures
        zoom.at_most(Double { bits: 0x3ff0_0000_0000_0000 }) <==> origin_of(zoom, outlines_drawn)
            == BaseOrigin::WholeWorld,
        origin_of(zoom, outlines_drawn) == BaseOrigin::Outlines ==> outlines_drawn,
        origin_of(zoom, outlines_drawn) == BaseOrigin::Crop ==> !outlines_drawn,
{
}

/// Chooses where the base layer comes from: the stored picture serves all
/// frames that are not zoomed in; zoomed in, the outlines are drawn anew
/// where they can be.
pub fn base_origin(zoom: Double, outlines_drawn: bool) -> (origin: BaseOrigin)
    ensures
        origin == origin_of(zoom, outlines_drawn),
{
    if zoom.le(Double { bits: ieee::DOUBLE_ONE }) {
        BaseOrigin::WholeWorld
    } else if outlines_drawn {
        BaseOrigin::Outlines
    } else {
        BaseOrigin::Crop
    }
}

/// A number that is at most another.
pub open spec fn at_most(a: int, b: int) -> int {
    if a < b {
        a
    } else {
        b
    }
}

/// The smaller of two numbers is one of them, and not more than either.
pub proof fn at_most_is_the_smaller(a: int, b: int)
    ensures
        at_most(a, b) <= a,
        at_most(a, b) <= b,
        at_most(a, b) == a || at_most(a, b) == b,
{
}

/// The pixel of an image in a column and a row, or in the last one where there
/// are fewer.
pub open spec fn sampled(base: MapImage, x: int, y: int) -> Pixel {
    base.at(at_most(x, base.w() - 1), at_most(y, base.h() - 1))
}

/// Within an image its own pixels are taken; beyond its right edge those of the
/// last column, and beyond its lower edge those of the last row.
pub proof fn samples_come_from_the_image(base: MapImage, x: int, y: int)
    requires
        0 <= x,
        0 <= y,
    ensures
        x < base.w() && y < base.h() ==> sampled(base, x, y) == base.at(x, y),
        x >= base.w() && y < base.h() ==> sampled(base, x, y) == base.at(base.w() - 1, y),
        x < base.w() && y >= base.h() ==> sampled(base, x, y) == base.at(x, base.h() - 1),
        x >= base.w() && y >= base.h() ==> sampled(base, x, y) == base.at(
            base.w() - 1,
            base.h() - 1,
        ),
{
}

/// The pixel of an image in a column and a row, or `fill` where it has none.
pub open spec fn cut_out(base: MapImage, x: int, y: int, fill: Pixel) -> Pixel {
    if base.has(x, y) {
        base.at(x, y)
    } else {
        fill
    }
}

/// What is cut out of an image are its own pixels; off the image it is filled.
pub proof fn cuts_are_filled_off_the_image(base: MapImage, x: int, y: int, fill: Pixel)
    ensures
        0 <= x < base.w() && 0 <= y < base.h() ==> cut_out(base, x, y, fill) == base.at(x, y),
        x < 0 || y < 0 || x >= base.w() || y >= base.h() ==> cut_out(base, x, y, fill) == fill,
{
}

/// Fills an image from another: the pixel in column `x` and row `y` comes from
/// column `xs[x]` and row `ys[y]`, or the last one where there are fewer.
pub fn sample_base(work: &mut MapImage, base: &MapImage, xs: &Vec<u32>, ys: &Vec<u32>)
    requires
        base.w() > 0,
        base.h() > 0,
        xs@.len() == old(work).w(),
        ys@.len() == old(work).h(),
    ensures
        canvas::image_size(*final(work)) == canvas::image_size(*old(work)),
        forall|x: int, y: int|
            old(work).has(x, y) ==> #[trigger] final(work).at(x, y) == sampled(
                *base,
                xs@[x] as int,
                ys@[y] as int,
            ),
{
    let w: u32 = work.width();
    let h: u32 = work.height();
    let last_x: u32 = base.width() - 1;
    let last_y: u32 = base.height() - 1;
    let mut y: u32 = 0;
    while y < h
        invariant
            y <= h,
            w == old(work).w(),
            h == old(work).h(),
            last_x == base.w() - 1,
            last_y == base.h() - 1,
            xs@.len() == w,
            ys@.len() == h,
            canvas::image_size(*work) == canvas::image_size(*old(work)),
            forall|i: int, j: int|
                old(work).has(i, j) && j < y ==> #[trigger] work.at(i, j) == base.at(
                    at_most(xs@[i] as int, base.w() - 1),
                    at_most(ys@[j] as int, base.h() - 1),
                ),
        decreases h - y,
    {
        let from_y: u32 = if ys[y as usize] < last_y {
            ys[y as usize]
        } else {
            last_y
        };
        let mut x: u32 = 0;
        while x < w
            invariant
                x <= w,
                y < h,
                w == old(work).w(),
                h == old(work).h(),
                last_x == base.w() - 1,
                last_y == base.h() - 1,
                xs@.len() == w,
                ys@.len() == h,
                from_y == at_most(ys@[y as int] as int, base.h() - 1),
                canvas::image_size(*work) == canvas::image_size(*old(work)),
                forall|i: int, j: int|
                    old(work).has(i, j) && (j < y || (j == y && i < x)) ==> #[trigger] work.at(
                        i,
                        j,
                    ) == base.at(
                        at_most(xs@[i] as int, base.w() - 1),
                        at_most(ys@[j] as int, base.h() - 1),
                    ),
            decreases w - x,
        {
            let from_x: u32 = if xs[x as usize] < last_x {
                xs[x as usize]
            } else {
                last_x
            };
            let ghost before = *work;
            work.set_pixel(x, y, base.pixel(from_x, from_y));
            proof {
                assert forall|i: int, j: int|
                    old(work).has(i, j) && (j < y || (j == y && i < x + 1)) implies #[trigger] work.at(
                    i,
                    j,
                ) == base.at(
                    at_most(xs@[i] as int, base.w() - 1),
                    at_most(ys@[j] as int, base.h() - 1),
                ) by {
                    if i != x || j != y {
                        assert(before.has(i, j));
                        assert(work.at(i, j) == before.at(i, j));
                    }
                }
            }
            x = x + 1;
        }
        y = y + 1;
    }
}

/// Fills an image from another: the pixel in column `x` and row `y` comes from
/// column `xs[x]` and row `ys[y]`, or is `fill` where that is outside.
pub fn crop_base(
    work: &mut MapImage,
    base: &MapImage,
    xs: &Vec<i32>,
    ys: &Vec<i32>,
    fill: Pixel,
)
    requires
        xs@.len() == old(work).w(),
        ys@.len() == old(work).h(),
    ensures
        canvas::image_size(*final(work)) == canvas::image_size(*old(work)),
        forall|x: int, y: int|
            old(work).has(x, y) ==> #[trigger] final(work).at(x, y) == cut_out(
                *base,
                xs@[x] as int,
                ys@[y] as int,
                fill,
            ),
{
    let w: u32 = work.width();
    let h: u32 = work.height();
    let base_w: i64 = base.width() as i64;
    let base_h: i64 = base.height() as i64;
    let mut y: u32 = 0;
    while y < h
        invariant
            y <= h,
            w == old(work).w(),
            h == old(work).h(),
            base_w == base.w(),
            base_h == base.h(),
            xs@.len() == w,
            ys@.len() == h,
            canvas::image_size(*work) == canvas::image_size(*old(work)),
            forall|i: int, j: int|
                old(work).has(i, j) && j < y ==> #[trigger] work.at(i, j) == if base.has(
                    xs@[i] as int,
                    ys@[j] as int,
                ) {
                    base.at(xs@[i] as int, ys@[j] as int)
                } else {
                    fill
                },
        decreases h - y,
    {
        let from_y: i32 = ys[y as usize];
        let mut x: u32 = 0;
        while x < w
            invariant
                x <= w,
                y < h,
                w == old(work).w(),
                h == old(work).h(),
                base_w == base.w(),
                base_h == base.h(),
                xs@.len() == w,
                ys@.len() == h,
                from_y == ys@[y as int],
                canvas::image_size(*work) == canvas::image_size(*old(work)),
                forall|i: int, j: int|
                    old(work).has(i, j) && (j < y || (j == y && i < x)) ==> #[trigger] work.at(
                        i,
                        j,
                    ) == if base.has(xs@[i] as int, ys@[j] as int) {
                        base.at(xs@[i] as int, ys@[j] as int)
                    } else {
                        fill
                    },
            decreases w - x,
        {
            let from_x: i32 = xs[x as usize];
            let pixel: Pixel = if from_x >= 0 && from_y >= 0 && (from_x as i64) < base_w && (
            from_y as i64) < base_h {
                base.pixel(from_x as u32, from_y as u32)
            } else {
                fill
            };
            let ghost before = *work;
            work.set_pixel(x, y, pixel);
            proof {
                assert forall|i: int, j: int|
                    old(work).has(i, j) && (j < y || (j == y && i < x + 1)) implies #[trigger] work.at(
                    i,
                    j,
                ) == if base.has(xs@[i] as int, ys@[j] as int) {
                    base.at(xs@[i] as int, ys@[j] as int)
                } else {
                    fill
                } by {
                    if i != x || j != y {
                        assert(before.has(i, j));
                        assert(work.at(i, j) == before.at(i, j));
                    }
                }
            }
            x = x + 1;
        }
        y = y + 1;
    }
}

} // verus!
