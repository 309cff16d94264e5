//! User-facing configuration.
//!
//! All fields are optional in the file that the user writes; missing values
//! fall back to the defaults here. The file can be reloaded while the program
//! runs: [`Config::diff`] tells what changed.

use vstd::prelude::*;
use vstd::string::StringExecFns;

use crate::hex_color;
use crate::ieee;
use crate::ieee::{Double, Single};
use crate::paths;
use crate::slices;
use crate::text;
use crate::ui::map_renderer::{HomeLocation, HomeView};

verus! {

/// Visual style of a marker on the world map.
#[derive(Clone, Copy, Debug, PartialEq, Eq, Structural)]
pub enum MarkerStyle {
    /// Small soft glow.
    Dot,
    /// Hollow ring outline.
    Ring,
    /// Plus / cross shape.
    Cross,
    /// Diagonal X shape.
    X,
}

impl MarkerStyle {
    /// The name of a style in the configuration file.
    pub open spec fn name(self) -> Seq<char> {
        match self {
            MarkerStyle::Dot => "dot"@,
            MarkerStyle::Ring => "ring"@,
            MarkerStyle::Cross => "cross"@,
            MarkerStyle::X => "x"@,
        }
    }

    /// The name of a style in the configuration file.
    pub fn label(&self) -> (text: &'static str)
        ensures
            text@ == self.name(),
    {
        match self {
            MarkerStyle::Dot => "dot",
            MarkerStyle::Ring => "ring",
            MarkerStyle::Cross => "cross",
            MarkerStyle::X => "x",
        }
    }
}

impl Default for MarkerStyle {
    fn default() -> (style: MarkerStyle)
        ensures
            style == MarkerStyle::Ring,
    {
        MarkerStyle::Ring
    }
}

/// Default marker lifetime, in seconds.
pub const DEFAULT_MARKER_TTL_SECONDS: u64 = 8;

/// Default maximum number of live markers on the map.
pub const DEFAULT_MAX_MARKERS: usize = 5_000;

/// Default marker size in pixels.
pub const DEFAULT_MARKER_SIZE: u8 = 8;

/// Default home marker size in pixels. Larger than regular markers so the
/// "home" pulse is always easy to spot.
pub const DEFAULT_HOME_MARKER_SIZE: u8 = 14;

/// Default connection line startup state.
pub const DEFAULT_CONNECTION_LINES_ENABLED: bool = true;

/// Default connection line glow radius in pixels.
pub const DEFAULT_CONNECTION_LINE_GLOW: u8 = 1;

/// Whether country labels are shown by default.
pub const DEFAULT_SHOW_COUNTRY_LABELS: bool = true;

/// Whether city labels are shown by default.
pub const DEFAULT_SHOW_CITY_LABELS: bool = true;

// ---------------------------------------------------------------------------
// Colors
// ---------------------------------------------------------------------------

/// A color value, written as a hex string in the configuration file.
#[derive(Clone, Copy, Debug, PartialEq, Eq, Structural)]
pub struct ColorDef {
    pub r: u8,
    pub g: u8,
    pub b: u8,
}

/// The upper-case hexadecimal digit of value `d`.
pub open spec fn hex_char(d: int) -> char {
    if d < 10 {
        (48 + d) as char
    } else {
        (55 + d) as char
    }
}

fn to_hex_char(d: u8) -> (c: char)
    requires
        d < 16,
    ensures
        c == hex_char(d as int),
{
    if d < 10 {
        (48 + d) as char
    } else {
        (55 + d) as char
    }
}

/// A color as `#RRGGBB`.
pub open spec fn color_text(c: ColorDef) -> Seq<char> {
    seq![
        '#',
        hex_char(c.r as int / 16),
        hex_char(c.r as int % 16),
        hex_char(c.g as int / 16),
        hex_char(c.g as int % 16),
        hex_char(c.b as int / 16),
        hex_char(c.b as int % 16),
    ]
}

impl ColorDef {
    /// The color with the given channels.
    pub fn from_rgb(r: u8, g: u8, b: u8) -> (color: ColorDef)
        ensures
            color == (ColorDef { r, g, b }),
    {
        ColorDef { r, g, b }
    }

    /// The channels of a pixel in this color with the given alpha.
    pub fn to_rgba(self, alpha: u8) -> (pixel: (u8, u8, u8, u8))
        ensures
            pixel == (self.r, self.g, self.b, alpha),
    {
        (self.r, self.g, self.b, alpha)
    }

    /// The color as `#RRGGBB`.
    pub fn to_hex(self) -> (text: String)
        ensures
            text@ == color_text(self),
    {
        let mut out: String = String::new();
        out.push('#');
        out.push(to_hex_char(self.r / 16));
        out.push(to_hex_char(self.r % 16));
        out.push(to_hex_char(self.g / 16));
        out.push(to_hex_char(self.g % 16));
        out.push(to_hex_char(self.b / 16));
        out.push(to_hex_char(self.b % 16));
        assert(out@ =~= color_text(self));
        out
    }
}

/// An alpha channel of two hexadecimal digits behind a color makes no
/// difference.
pub proof fn alpha_is_ignored(c: ColorDef, hi: char, lo: char)
    requires
        hex_color::hex_digit(hi) is Some,
        hex_color::hex_digit(lo) is Some,
    ensures
        hex_color::hex_color(color_text(c).push(hi).push(lo)) == Some(
            Ok::<ColorDef, hex_color::HexColorFault>(c),
        ),
{
    let t = color_text(c).push(hi).push(lo);
    assert forall|d: int| 0 <= d < 16 implies {
        &&& !text::is_space(#[trigger] hex_char(d))
        &&& slices::width(hex_char(d)) == 1
    } by {}
    assert(text::skip_space(t, 0) == 0);
    assert(!text::is_space(t[8]));
    assert(text::drop_space(t, 0, 9) == 9);
    assert(text::trimmed(t) =~= t);
    let h = t.skip(1);
    assert(h.len() == 8);
    assert(forall|k: int| 0 <= k < 8 ==> slices::width(#[trigger] h[k]) == 1);
    slices::narrow_cuts(h);
    assert(seq!['#'] + h.subrange(0, 6) =~= color_text(c));
    colors_round_trip(c);
}

/// A color that was written as text is read back unchanged.
pub proof fn colors_round_trip(c: ColorDef)
    ensures
        hex_color::hex_color(color_text(c)) == Some(
            Ok::<ColorDef, hex_color::HexColorFault>(c),
        ),
{
    let t = color_text(c);
    assert forall|d: int| 0 <= d < 16 implies {
        &&& !text::is_space(#[trigger] hex_char(d))
        &&& slices::width(hex_char(d)) == 1
        &&& hex_color::hex_digit(hex_char(d)) == Some(d)
    } by {}
    assert(text::skip_space(t, 0) == 0);
    assert(!text::is_space(t[6]));
    assert(text::drop_space(t, 0, 7) == 7);
    assert(text::trimmed(t) =~= t);
    let h = t.skip(1);
    assert(h.len() == 6);
    assert(forall|k: int| 0 <= k < 6 ==> slices::width(#[trigger] h[k]) == 1);
    slices::narrow_cuts(h);
    assert(h.subrange(0, 2) =~= seq![t[1], t[2]]);
    assert(h.subrange(2, 4) =~= seq![t[3], t[4]]);
    assert(h.subrange(4, 6) =~= seq![t[5], t[6]]);
}

/// Color theme.
#[derive(Clone, Copy, Debug, PartialEq, Eq, Structural)]
pub struct ColorConfig {
    pub info: ColorDef,
    pub warn: ColorDef,
    pub alert: ColorDef,
    pub focus: ColorDef,
    pub dim: ColorDef,
    pub home: ColorDef,
    pub ocean: ColorDef,
    pub land: ColorDef,
}

/// The default color theme.
pub open spec fn default_colors() -> ColorConfig {
    ColorConfig {
        info: ColorDef { r: 0x50, g: 0xDC, b: 0x78 },
        warn: ColorDef { r: 0xFA, g: 0xC8, b: 0x32 },
        alert: ColorDef { r: 0xF0, g: 0x3C, b: 0x3C },
        focus: ColorDef { r: 0x00, g: 0xFF, b: 0xFF },
        dim: ColorDef { r: 0x55, g: 0x55, b: 0x55 },
        home: ColorDef { r: 0x3C, g: 0xB4, b: 0xFF },
        ocean: ColorDef { r: 0x0A, g: 0x12, b: 0x1E },
        land: ColorDef { r: 0x23, g: 0x3E, b: 0x5F },
    }
}

impl Default for ColorConfig {
    fn default() -> (colors: ColorConfig)
        ensures
            colors == default_colors(),
    {
        ColorConfig {
            info: ColorDef::from_rgb(0x50, 0xDC, 0x78),
            warn: ColorDef::from_rgb(0xFA, 0xC8, 0x32),
            alert: ColorDef::from_rgb(0xF0, 0x3C, 0x3C),
            focus: ColorDef::from_rgb(0x00, 0xFF, 0xFF),
            dim: ColorDef::from_rgb(0x55, 0x55, 0x55),
            home: ColorDef::from_rgb(0x3C, 0xB4, 0xFF),
            ocean: ColorDef::from_rgb(0x0A, 0x12, 0x1E),
            land: ColorDef::from_rgb(0x23, 0x3E, 0x5F),
        }
    }
}

// ---------------------------------------------------------------------------
// What can be wrong with a configuration
// ---------------------------------------------------------------------------

/// Why a configuration is rejected.
#[derive(Clone, Copy, Debug, PartialEq, Eq, Structural)]
pub enum ConfigError {
    MarkerTtl,
    MaxMarkers,
    MarkerSize,
    HomeMarkerSize,
    CityLabelZoom,
    GlowSize,
    WindowWidth,
    WindowHeight,
    WindowMinimum,
    TuiFont,
    GuiBody,
    GuiHeading,
    GuiFontFile,
}

/// The message for a rejected configuration.
pub open spec fn config_error_text(e: ConfigError, fonts: FontConfig) -> Seq<char> {
    match e {
        ConfigError::MarkerTtl => "marker_ttl_seconds must be between 1 and 3600"@,
        ConfigError::MaxMarkers => "max_markers must be > 0"@,
        ConfigError::MarkerSize => "marker_size must be between 1 and 20"@,
        ConfigError::HomeMarkerSize => "home.marker_size must be between 1 and 20"@,
        ConfigError::CityLabelZoom =>
            "map.labels.city_label_zoom must be between 1.0 and 10.0"@,
        ConfigError::GlowSize => "connection_lines.glow_size must be between 0 and 10"@,
        ConfigError::WindowWidth => "window.width must be >= 100"@,
        ConfigError::WindowHeight => "window.height must be >= 100"@,
        ConfigError::WindowMinimum =>
            "window min dimensions must not exceed the default dimensions"@,
        ConfigError::TuiFont => "tui_font_width/height must be > 0"@,
        ConfigError::GuiBody => "fonts.gui_body must be > 0"@,
        ConfigError::GuiHeading => "fonts.gui_heading must be > 0"@,
        ConfigError::GuiFontFile => "fonts.gui_font_file does not exist: "@ + text::text_or_empty(
            text::text_of(fonts.gui_font_file),
        ),
    }
}

impl ConfigError {
    /// The message for a rejected configuration with the given fonts.
    pub fn message(self, fonts: &FontConfig) -> (text: String)
        ensures
            text@ == config_error_text(self, *fonts),
    {
        match self {
            ConfigError::MarkerTtl => "marker_ttl_seconds must be between 1 and 3600".to_owned(),
            ConfigError::MaxMarkers => "max_markers must be > 0".to_owned(),
            ConfigError::MarkerSize => "marker_size must be between 1 and 20".to_owned(),
            ConfigError::HomeMarkerSize => "home.marker_size must be between 1 and 20".to_owned(),
            ConfigError::CityLabelZoom =>
                "map.labels.city_label_zoom must be between 1.0 and 10.0".to_owned(),
            ConfigError::GlowSize =>
                "connection_lines.glow_size must be between 0 and 10".to_owned(),
            ConfigError::WindowWidth => "window.width must be >= 100".to_owned(),
            ConfigError::WindowHeight => "window.height must be >= 100".to_owned(),
            ConfigError::WindowMinimum =>
                "window min dimensions must not exceed the default dimensions".to_owned(),
            ConfigError::TuiFont => "tui_font_width/height must be > 0".to_owned(),
            ConfigError::GuiBody => "fonts.gui_body must be > 0".to_owned(),
            ConfigError::GuiHeading => "fonts.gui_heading must be > 0".to_owned(),
            ConfigError::GuiFontFile => {
                let mut out: String = "fonts.gui_font_file does not exist: ".to_owned();
                out.append(text::copy_or_empty(&fonts.gui_font_file).as_str());
                out
            },
        }
    }
}

// ---------------------------------------------------------------------------
// The groups of settings
// ---------------------------------------------------------------------------

/// Home location and its persistent marker appearance.
#[derive(Clone, Copy, Debug, PartialEq, Eq, Structural)]
pub struct HomeConfig {
    pub lat: Double,
    pub lon: Double,
    /// Marker style for the persistent home indicator.
    pub marker_style: MarkerStyle,
    /// Marker size for the persistent home indicator (1-20).
    pub marker_size: u8,
}

/// The default home: roughly Washington, DC.
pub open spec fn default_home_config() -> HomeConfig {
    HomeConfig {
        lat: Double { bits: ieee::DOUBLE_THIRTY_NINE },
        lon: Double { bits: ieee::DOUBLE_MINUS_SEVENTY_SEVEN },
        marker_style: MarkerStyle::Ring,
        marker_size: DEFAULT_HOME_MARKER_SIZE,
    }
}

impl Default for HomeConfig {
    fn default() -> (home: HomeConfig)
        ensures
            home == default_home_config(),
    {
        HomeConfig {
            lat: Double { bits: ieee::DOUBLE_THIRTY_NINE },
            lon: Double { bits: ieee::DOUBLE_MINUS_SEVENTY_SEVEN },
            marker_style: MarkerStyle::Ring,
            marker_size: DEFAULT_HOME_MARKER_SIZE,
        }
    }
}

impl HomeConfig {
    /// What is wrong with the home settings, if anything.
    pub open spec fn fault(self) -> Option<ConfigError> {
        if 1 <= self.marker_size <= 20 {
            None
        } else {
            Some(ConfigError::HomeMarkerSize)
        }
    }

    /// Checks the home settings.
    pub fn validate(&self) -> (checked: Result<(), ConfigError>)
        ensures
            checked == verdict(self.fault()),
    {
        if self.marker_size > 0 && self.marker_size <= 20 {
            Ok(())
        } else {
            Err(ConfigError::HomeMarkerSize)
        }
    }

    /// Whether two home settings are the same, coordinates compared as
    /// numbers.
    pub open spec fn equals(self, other: HomeConfig) -> bool {
        &&& self.lat.equals(other.lat)
        &&& self.lon.equals(other.lon)
        &&& self.marker_style == other.marker_style
        &&& self.marker_size == other.marker_size
    }

    fn same(&self, other: &HomeConfig) -> (yes: bool)
        ensures
            yes == self.equals(*other),
    {
        self.lat.same(other.lat) && self.lon.same(other.lon) && self.marker_style
            == other.marker_style && self.marker_size == other.marker_size
    }
}

/// The result of a check that found `fault`.
pub open spec fn verdict(fault: Option<ConfigError>) -> Result<(), ConfigError> {
    match fault {
        None => Ok(()),
        Some(e) => Err(e),
    }
}

/// Map label overlay settings.
#[derive(Clone, Copy, Debug, PartialEq, Eq, Structural)]
pub struct LabelConfig {
    /// Show country names on the map.
    pub show_country_labels: bool,
    /// Show city names next to markers when zoomed in.
    pub show_city_labels: bool,
    /// Minimum GUI zoom level before city labels appear.
    pub city_label_zoom: Double,
}

/// The default label settings.
pub open spec fn default_labels() -> LabelConfig {
    LabelConfig {
        show_country_labels: DEFAULT_SHOW_COUNTRY_LABELS,
        show_city_labels: DEFAULT_SHOW_CITY_LABELS,
        city_label_zoom: Double { bits: ieee::DOUBLE_TWO_AND_A_HALF },
    }
}

impl Default for LabelConfig {
    fn default() -> (labels: LabelConfig)
        ensures
            labels == default_labels(),
    {
        LabelConfig {
            show_country_labels: DEFAULT_SHOW_COUNTRY_LABELS,
            show_city_labels: DEFAULT_SHOW_CITY_LABELS,
            city_label_zoom: Double { bits: ieee::DOUBLE_TWO_AND_A_HALF },
        }
    }
}

impl LabelConfig {
    /// What is wrong with the label settings, if anything: the zoom must be
    /// from 1.0 to 10.0.
    pub open spec fn fault(self) -> Option<ConfigError> {
        if (Double { bits: ieee::DOUBLE_ONE }).at_most(self.city_label_zoom)
            && self.city_label_zoom.at_most(Double { bits: ieee::DOUBLE_TEN }) {
            None
        } else {
            Some(ConfigError::CityLabelZoom)
        }
    }

    /// Checks the label settings.
    pub fn validate(&self) -> (checked: Result<(), ConfigError>)
        ensures
            checked == verdict(self.fault()),
    {
        let low: Double = Double { bits: ieee::DOUBLE_ONE };
        let high: Double = Double { bits: ieee::DOUBLE_TEN };
        if low.le(self.city_label_zoom) && self.city_label_zoom.le(high) {
            Ok(())
        } else {
            Err(ConfigError::CityLabelZoom)
        }
    }

    /// Whether two label settings are the same, the zoom compared as a number.
    pub open spec fn equals(self, other: LabelConfig) -> bool {
        &&& self.show_country_labels == other.show_country_labels
        &&& self.show_city_labels == other.show_city_labels
        &&& self.city_label_zoom.equals(other.city_label_zoom)
    }

    fn same(&self, other: &LabelConfig) -> (yes: bool)
        ensures
            yes == self.equals(*other),
    {
        self.show_country_labels == other.show_country_labels && self.show_city_labels
            == other.show_city_labels && self.city_label_zoom.same(other.city_label_zoom)
    }
}

/// Map settings.
#[derive(Clone, Copy, Debug, PartialEq, Eq, Structural)]
pub struct MapConfig {
    /// Home location and its persistent marker style.
    pub home: HomeConfig,
    /// Country/city label overlay settings.
    pub labels: LabelConfig,
}

/// The default map settings.
pub open spec fn default_map() -> MapConfig {
    MapConfig { home: default_home_config(), labels: default_labels() }
}

impl Default for MapConfig {
    fn default() -> (map: MapConfig)
        ensures
            map == default_map(),
    {
        MapConfig { home: HomeConfig::default(), labels: LabelConfig::default() }
    }
}

impl MapConfig {
    /// The first thing wrong with the map settings, if anything.
    pub open spec fn fault(self) -> Option<ConfigError> {
        match self.home.fault() {
            Some(e) => Some(e),
            None => self.labels.fault(),
        }
    }

    /// Checks the map settings.
    pub fn validate(&self) -> (checked: Result<(), ConfigError>)
        ensures
            checked == verdict(self.fault()),
    {
        match self.home.validate() {
            Err(e) => Err(e),
            Ok(()) => self.labels.validate(),
        }
    }
}

/// Glowing connection lines from home to each active marker.
#[derive(Clone, Copy, Debug, PartialEq, Eq, Structural)]
pub struct ConnectionLinesConfig {
    /// Whether lines are drawn on startup.
    pub enabled: bool,
    /// Color of the lines (Matrix green by default).
    pub color: ColorDef,
    /// Extra pixel glow radius around each line (0-10).
    pub glow_size: u8,
}

/// The default line settings.
pub open spec fn default_lines() -> ConnectionLinesConfig {
    ConnectionLinesConfig {
        enabled: DEFAULT_CONNECTION_LINES_ENABLED,
        color: ColorDef { r: 0x00, g: 0xFF, b: 0x00 },
        glow_size: DEFAULT_CONNECTION_LINE_GLOW,
    }
}

impl Default for ConnectionLinesConfig {
    fn default() -> (lines: ConnectionLinesConfig)
        ensures
            lines == default_lines(),
    {
        ConnectionLinesConfig {
            enabled: DEFAULT_CONNECTION_LINES_ENABLED,
            color: ColorDef::from_rgb(0x00, 0xFF, 0x00),
            glow_size: DEFAULT_CONNECTION_LINE_GLOW,
        }
    }
}

impl ConnectionLinesConfig {
    /// What is wrong with the line settings, if anything.
    pub open spec fn fault(self) -> Option<ConfigError> {
        if self.glow_size <= 10 {
            None
        } else {
            Some(ConfigError::GlowSize)
        }
    }

    /// Checks the line settings.
    pub fn validate(&self) -> (checked: Result<(), ConfigError>)
        ensures
            checked == verdict(self.fault()),
    {
        if self.glow_size <= 10 {
            Ok(())
        } else {
            Err(ConfigError::GlowSize)
        }
    }
}

/// Font settings.
#[derive(Debug)]
pub struct FontConfig {
    /// Optional TUI terminal font width override.
    pub tui_font_width: Option<u16>,
    /// Optional TUI terminal font height override.
    pub tui_font_height: Option<u16>,
    /// GUI body text size.
    pub gui_body: Single,
    /// GUI heading text size.
    pub gui_heading: Single,
    /// Optional custom font file for the GUI.
    pub gui_font_file: Option<String>,
}

impl Clone for FontConfig {
    fn clone(&self) -> (copy: FontConfig)
        ensures
            copy == *self,
    {
        FontConfig {
            tui_font_width: self.tui_font_width,
            tui_font_height: self.tui_font_height,
            gui_body: self.gui_body,
            gui_heading: self.gui_heading,
            gui_font_file: text::copy_text(&self.gui_font_file),
        }
    }
}

impl Default for FontConfig {
    fn default() -> (fonts: FontConfig)
        ensures
            fonts == default_fonts(),
    {
        FontConfig {
            tui_font_width: None,
            tui_font_height: None,
            gui_body: Single { bits: ieee::SINGLE_FOURTEEN },
            gui_heading: Single { bits: ieee::SINGLE_TWENTY },
            gui_font_file: None,
        }
    }
}

/// The default font settings.
pub open spec fn default_fonts() -> FontConfig {
    FontConfig {
        tui_font_width: None,
        tui_font_height: None,
        gui_body: Single { bits: ieee::SINGLE_FOURTEEN },
        gui_heading: Single { bits: ieee::SINGLE_TWENTY },
        gui_font_file: None,
    }
}

impl FontConfig {
    /// The first thing wrong with the font settings, if anything; `exists`
    /// tells whether the custom font file is there.
    pub open spec fn fault(self, exists: bool) -> Option<ConfigError> {
        if (self.tui_font_width matches Some(w) && self.tui_font_height matches Some(h) && (w == 0
            || h == 0)) {
            Some(ConfigError::TuiFont)
        } else if !self.gui_body.positive() {
            Some(ConfigError::GuiBody)
        } else if !self.gui_heading.positive() {
            Some(ConfigError::GuiHeading)
        } else if self.gui_font_file is Some && !exists {
            Some(ConfigError::GuiFontFile)
        } else {
            None
        }
    }

    /// Checks the font settings; `exists` tells whether the custom font file
    /// is there.
    pub fn validate(&self, exists: bool) -> (checked: Result<(), ConfigError>)
        ensures
            checked == verdict(self.fault(exists)),
    {
        if let (Some(w), Some(h)) = (self.tui_font_width, self.tui_font_height) {
            if w == 0 || h == 0 {
                return Err(ConfigError::TuiFont);
            }
        }
        if !self.gui_body.is_positive() {
            return Err(ConfigError::GuiBody);
        }
        if !self.gui_heading.is_positive() {
            return Err(ConfigError::GuiHeading);
        }
        if self.gui_font_file.is_some() && !exists {
            return Err(ConfigError::GuiFontFile);
        }
        Ok(())
    }
}

/// GUI window geometry.
#[derive(Clone, Copy, Debug, PartialEq, Eq, Structural)]
pub struct WindowConfig {
    pub width: u32,
    pub height: u32,
    pub min_width: u32,
    pub min_height: u32,
}

/// The default window geometry.
pub open spec fn default_window() -> WindowConfig {
    WindowConfig { width: 1280, height: 720, min_width: 640, min_height: 360 }
}

impl Default for WindowConfig {
    fn default() -> (window: WindowConfig)
        ensures
            window == default_window(),
    {
        WindowConfig { width: 1280, height: 720, min_width: 640, min_height: 360 }
    }
}

impl WindowConfig {
    /// The first thing wrong with the geometry, if anything.
    pub open spec fn fault(self) -> Option<ConfigError> {
        if self.width < 100 {
            Some(ConfigError::WindowWidth)
        } else if self.height < 100 {
            Some(ConfigError::WindowHeight)
        } else if self.min_width > self.width || self.min_height > self.height {
            Some(ConfigError::WindowMinimum)
        } else {
            None
        }
    }

    /// Checks the geometry.
    pub fn validate(&self) -> (checked: Result<(), ConfigError>)
        ensures
            checked == verdict(self.fault()),
    {
        if self.width < 100 {
            Err(ConfigError::WindowWidth)
        } else if self.height < 100 {
            Err(ConfigError::WindowHeight)
        } else if self.min_width <= self.width && self.min_height <= self.height {
            Ok(())
        } else {
            Err(ConfigError::WindowMinimum)
        }
    }
}

// ---------------------------------------------------------------------------
// The whole configuration
// ---------------------------------------------------------------------------

/// Top-level configuration.
#[derive(Debug)]
pub struct Config {
    /// How long a packet/log marker stays visible on the map.
    pub marker_ttl_seconds: u64,
    /// Maximum number of markers retained on the map.
    pub max_markers: usize,
    /// Visual style of each marker on the map.
    pub marker_style: MarkerStyle,
    /// Size/thickness of each marker (1-20 pixels).
    pub marker_size: u8,
    /// Map settings.
    pub map: MapConfig,
    /// Toggleable glowing connection lines from home to each active marker.
    pub connection_lines: ConnectionLinesConfig,
    /// UI color theme.
    pub colors: ColorConfig,
    /// Font settings.
    pub fonts: FontConfig,
    /// GUI window size.
    pub window: WindowConfig,
}

impl Clone for Config {
    fn clone(&self) -> (copy: Config)
        ensures
            copy == *self,
    {
        Config {
            marker_ttl_seconds: self.marker_ttl_seconds,
            max_markers: self.max_markers,
            marker_style: self.marker_style,
            marker_size: self.marker_size,
            map: self.map,
            connection_lines: self.connection_lines,
            colors: self.colors,
            fonts: self.fonts.clone(),
            window: self.window,
        }
    }
}

/// The default configuration.
pub open spec fn default_config() -> Config {
    Config {
        marker_ttl_seconds: DEFAULT_MARKER_TTL_SECONDS,
        max_markers: DEFAULT_MAX_MARKERS,
        marker_style: MarkerStyle::Ring,
        marker_size: DEFAULT_MARKER_SIZE,
        map: default_map(),
        connection_lines: default_lines(),
        colors: default_colors(),
        fonts: default_fonts(),
        window: default_window(),
    }
}

impl Default for Config {
    fn default() -> (config: Config)
        ensures
            config == default_config(),
    {
        Config {
            marker_ttl_seconds: DEFAULT_MARKER_TTL_SECONDS,
            max_markers: DEFAULT_MAX_MARKERS,
            marker_style: MarkerStyle::default(),
            marker_size: DEFAULT_MARKER_SIZE,
            map: MapConfig::default(),
            connection_lines: ConnectionLinesConfig::default(),
            colors: ColorConfig::default(),
            fonts: FontConfig::default(),
            window: WindowConfig::default(),
        }
    }
}

impl Config {
    /// The first thing wrong with the configuration, if anything; `exists`
    /// tells whether the custom font file is there.
    pub open spec fn fault(self, exists: bool) -> Option<ConfigError> {
        if !(1 <= self.marker_ttl_seconds <= 3600) {
            Some(ConfigError::MarkerTtl)
        } else if self.max_markers == 0 {
            Some(ConfigError::MaxMarkers)
        } else if !(1 <= self.marker_size <= 20) {
            Some(ConfigError::MarkerSize)
        } else if self.map.fault() is Some {
            self.map.fault()
        } else if self.connection_lines.fault() is Some {
            self.connection_lines.fault()
        } else if self.window.fault() is Some {
            self.window.fault()
        } else {
            self.fonts.fault(exists)
        }
    }

    /// Sanity-checks user-provided values; `font_file_exists` tells whether
    /// the custom font file is there.
    pub fn validate(&self, font_file_exists: bool) -> (checked: Result<(), ConfigError>)
        ensures
            checked == verdict(self.fault(font_file_exists)),
    {
        if !(self.marker_ttl_seconds > 0 && self.marker_ttl_seconds <= 3600) {
            return Err(ConfigError::MarkerTtl);
        }
        if self.max_markers == 0 {
            return Err(ConfigError::MaxMarkers);
        }
        if !(self.marker_size > 0 && self.marker_size <= 20) {
            return Err(ConfigError::MarkerSize);
        }
        match self.map.validate() {
            Err(e) => {
                return Err(e);
            },
            Ok(()) => {},
        }
        match self.connection_lines.validate() {
            Err(e) => {
                return Err(e);
            },
            Ok(()) => {},
        }
        match self.window.validate() {
            Err(e) => {
                return Err(e);
            },
            Ok(()) => {},
        }
        self.fonts.validate(font_file_exists)
    }

    /// The configured home, before anything is known of the public address.
    pub fn home_location(&self) -> (home: HomeLocation)
        ensures
            home@ == configured_home(self.map),
    {
        HomeLocation { lat: self.map.home.lat, lon: self.map.home.lon, ip: None, label: None }
    }

    /// Marker lifetime in seconds.
    pub fn marker_ttl(&self) -> (seconds: u64)
        ensures
            seconds == self.marker_ttl_seconds,
    {
        self.marker_ttl_seconds
    }

    /// Which groups of settings differ between two configurations.
    pub open spec fn changes(self, other: Config) -> ConfigDiff {
        ConfigDiff {
            marker_ttl: self.marker_ttl_seconds != other.marker_ttl_seconds,
            max_markers: self.max_markers != other.max_markers,
            marker_style: self.marker_style != other.marker_style || self.marker_size
                != other.marker_size,
            home: !self.map.home.equals(other.map.home),
            connection_lines: self.connection_lines != other.connection_lines,
            labels: !self.map.labels.equals(other.map.labels),
            colors: self.colors != other.colors,
            tui_font: self.fonts.tui_font_width != other.fonts.tui_font_width
                || self.fonts.tui_font_height != other.fonts.tui_font_height,
            gui_font: !self.fonts.gui_body.equals(other.fonts.gui_body)
                || !self.fonts.gui_heading.equals(other.fonts.gui_heading) || !same_file(
                text::text_of(self.fonts.gui_font_file),
                text::text_of(other.fonts.gui_font_file),
            ),
            window: self.window != other.window,
        }
    }

    /// Compares two configurations and tells which hot-reload groups changed.
    pub fn diff(&self, other: &Config) -> (diff: ConfigDiff)
        ensures
            diff == self.changes(*other),
    {
        ConfigDiff {
            marker_ttl: self.marker_ttl_seconds != other.marker_ttl_seconds,
            max_markers: self.max_markers != other.max_markers,
            marker_style: self.marker_style != other.marker_style || self.marker_size
                != other.marker_size,
            home: !self.map.home.same(&other.map.home),
            connection_lines: self.connection_lines != other.connection_lines,
            labels: !self.map.labels.same(&other.map.labels),
            colors: self.colors != other.colors,
            tui_font: !same_number(self.fonts.tui_font_width, other.fonts.tui_font_width)
                || !same_number(self.fonts.tui_font_height, other.fonts.tui_font_height),
            gui_font: !self.fonts.gui_body.same(other.fonts.gui_body)
                || !self.fonts.gui_heading.same(other.fonts.gui_heading) || !is_same_file(
                &self.fonts.gui_font_file,
                &other.fonts.gui_font_file,
            ),
            window: self.window != other.window,
        }
    }
}

fn same_number(a: Option<u16>, b: Option<u16>) -> (same: bool)
    ensures
        same == (a == b),
{
    match (a, b) {
        (Some(x), Some(y)) => x == y,
        (None, None) => true,
        _ => false,
    }
}

/// Whether two optional paths are the same.
pub open spec fn same_file(a: Option<Seq<char>>, b: Option<Seq<char>>) -> bool {
    match (a, b) {
        (Some(x), Some(y)) => paths::same_components(x, y),
        (None, None) => true,
        _ => false,
    }
}

fn is_same_file(a: &Option<String>, b: &Option<String>) -> (same: bool)
    ensures
        same == same_file(text::text_of(*a), text::text_of(*b)),
{
    match (a, b) {
        (Some(x), Some(y)) => paths::same_path(x.as_str(), y.as_str()),
        (None, None) => true,
        _ => false,
    }
}

/// Hot-reload diff report.
#[derive(Clone, Copy, Debug, PartialEq, Eq, Structural)]
pub struct ConfigDiff {
    pub marker_ttl: bool,
    pub max_markers: bool,
    pub marker_style: bool,
    pub home: bool,
    pub connection_lines: bool,
    pub labels: bool,
    pub colors: bool,
    pub tui_font: bool,
    pub gui_font: bool,
    pub window: bool,
}

impl Default for ConfigDiff {
    fn default() -> (diff: ConfigDiff)
        ensures
            !diff.changed(),
    {
        ConfigDiff {
            marker_ttl: false,
            max_markers: false,
            marker_style: false,
            home: false,
            connection_lines: false,
            labels: false,
            colors: false,
            tui_font: false,
            gui_font: false,
            window: false,
        }
    }
}

/// `name` alone, or nothing.
pub open spec fn named(name: Seq<char>, changed: bool) -> Seq<Seq<char>> {
    if changed {
        seq![name]
    } else {
        Seq::empty()
    }
}

/// What a reload is reported as.
#[derive(Debug)]
pub enum ReloadReport {
    /// Nothing changed.
    Unchanged,
    /// The names of the changed groups, with commas between them.
    Changed(String),
}

impl ConfigDiff {
    /// Whether anything changed.
    pub open spec fn changed(self) -> bool {
        self.marker_ttl || self.max_markers || self.marker_style || self.home
            || self.connection_lines || self.labels || self.colors || self.tui_font
            || self.gui_font || self.window
    }

    /// The names of the groups that changed.
    pub open spec fn names(self) -> Seq<Seq<char>> {
        named("marker_ttl"@, self.marker_ttl) + named("max_markers"@, self.max_markers) + named(
            "marker_style"@,
            self.marker_style,
        ) + named("home"@, self.home) + named("connection_lines"@, self.connection_lines) + named(
            "labels"@,
            self.labels,
        ) + named("colors"@, self.colors) + named("tui_font"@, self.tui_font) + named(
            "gui_font"@,
            self.gui_font,
        ) + named("window"@, self.window)
    }

    /// Whether anything at all changed.
    pub fn any(&self) -> (yes: bool)
        ensures
            yes == self.changed(),
    {
        self.marker_ttl || self.max_markers || self.marker_style || self.home
            || self.connection_lines || self.labels || self.colors || self.tui_font
            || self.gui_font || self.window
    }

    /// A human-readable summary of what changed.
    pub fn log(&self) -> (report: ReloadReport)
        ensures
            match report {
                ReloadReport::Unchanged => !self.changed(),
                ReloadReport::Changed(list) => self.changed() && list@ == text::separated(
                    self.names(),
                    ", "@,
                ),
            },
            report_text(report) == self.summary(),
    {
        if !self.any() {
            return ReloadReport::Unchanged;
        }
        let mut parts: Vec<&'static str> = Vec::new();
        assert(text::words(parts@) =~= Seq::empty());
        mention(&mut parts, "marker_ttl", self.marker_ttl);
        mention(&mut parts, "max_markers", self.max_markers);
        mention(&mut parts, "marker_style", self.marker_style);
        mention(&mut parts, "home", self.home);
        mention(&mut parts, "connection_lines", self.connection_lines);
        mention(&mut parts, "labels", self.labels);
        mention(&mut parts, "colors", self.colors);
        mention(&mut parts, "tui_font", self.tui_font);
        mention(&mut parts, "gui_font", self.gui_font);
        mention(&mut parts, "window", self.window);
        assert(text::words(parts@) =~= self.names());
        ReloadReport::Changed(text::join_words(&parts, ", "))
    }
}

fn mention(parts: &mut Vec<&'static str>, name: &'static str, changed: bool)
    ensures
        text::words(final(parts)@) == text::words(old(parts)@) + named(name@, changed),
{
    let ghost before = parts@;
    if changed {
        parts.push(name);
        assert(text::words(before.push(name)) =~= text::words(before).push(name@));
    }
    assert(text::words(parts@) =~= text::words(before) + named(name@, changed));
}

/// The default configuration is accepted.
pub proof fn defaults_are_valid(exists: bool)
    ensures
        default_config().fault(exists) is None,
{
}

/// A configuration whose numbers are numbers does not differ from itself.
pub proof fn no_change_is_reported_for_the_same(c: Config)
    requires
        !c.map.home.lat.is_nan(),
        !c.map.home.lon.is_nan(),
        !c.map.labels.city_label_zoom.is_nan(),
        !c.fonts.gui_body.is_nan(),
        !c.fonts.gui_heading.is_nan(),
    ensures
        !c.changes(c).changed(),
{
}

/// What changes from one configuration to another changes on the way back.
pub proof fn changes_are_symmetric(a: Config, b: Config)
    ensures
        a.changes(b) == b.changes(a),
{
}

/// The reported list of names is empty if and only if nothing changed.
pub proof fn every_change_is_named(d: ConfigDiff)
    ensures
        d.names().len() == 0 <==> !d.changed(),
{
    let s0 = named("marker_ttl"@, d.marker_ttl);
    let s1 = s0 + named("max_markers"@, d.max_markers);
    let s2 = s1 + named("marker_style"@, d.marker_style);
    let s3 = s2 + named("home"@, d.home);
    let s4 = s3 + named("connection_lines"@, d.connection_lines);
    let s5 = s4 + named("labels"@, d.labels);
    let s6 = s5 + named("colors"@, d.colors);
    let s7 = s6 + named("tui_font"@, d.tui_font);
    let s8 = s7 + named("gui_font"@, d.gui_font);
    name_counts(s0, "max_markers"@, d.max_markers);
    name_counts(s1, "marker_style"@, d.marker_style);
    name_counts(s2, "home"@, d.home);
    name_counts(s3, "connection_lines"@, d.connection_lines);
    name_counts(s4, "labels"@, d.labels);
    name_counts(s5, "colors"@, d.colors);
    name_counts(s6, "tui_font"@, d.tui_font);
    name_counts(s7, "gui_font"@, d.gui_font);
    name_counts(s8, "window"@, d.window);
}

proof fn name_counts(before: Seq<Seq<char>>, name: Seq<char>, changed: bool)
    ensures
        (before + named(name, changed)).len() == 0 <==> before.len() == 0 && !changed,
{
}

/// A configuration is accepted if and only if every value is in its bounds.
pub proof fn accepted_means_in_bounds(c: Config, exists: bool)
    ensures
        c.fault(exists) is None <==> {
            &&& 1 <= c.marker_ttl_seconds <= 3600
            &&& c.max_markers > 0
            &&& 1 <= c.marker_size <= 20
            &&& 1 <= c.map.home.marker_size <= 20
            &&& 0x3FF0_0000_0000_0000 <= c.map.labels.city_label_zoom.bits
                <= 0x4024_0000_0000_0000
            &&& c.connection_lines.glow_size <= 10
            &&& c.window.width >= 100
            &&& c.window.height >= 100
            &&& c.window.min_width <= c.window.width
            &&& c.window.min_height <= c.window.height
            &&& c.fonts.tui_font_width != Some(0u16) || c.fonts.tui_font_height is None
            &&& c.fonts.tui_font_height != Some(0u16) || c.fonts.tui_font_width is None
            &&& 0 < c.fonts.gui_body.bits <= 0x7F80_0000
            &&& 0 < c.fonts.gui_heading.bits <= 0x7F80_0000
            &&& c.fonts.gui_font_file is Some ==> exists
        },
{
}

/// What is reported is wrong: every fault names a value that is out of bounds,
/// and where several are, the first one in the order of the checks.
pub proof fn faults_name_what_is_wrong(c: Config, exists: bool)
    ensures
        ({
            let ttl = 1 <= c.marker_ttl_seconds <= 3600;
            let markers = c.max_markers > 0;
            let size = 1 <= c.marker_size <= 20;
            let home = 1 <= c.map.home.marker_size <= 20;
            let zoom = 0x3FF0_0000_0000_0000 <= c.map.labels.city_label_zoom.bits
                <= 0x4024_0000_0000_0000;
            let glow = c.connection_lines.glow_size <= 10;
            let width = c.window.width >= 100;
            let height = c.window.height >= 100;
            let minimum = c.window.min_width <= c.window.width && c.window.min_height
                <= c.window.height;
            let marks = ttl && markers && size;
            let map = marks && home && zoom;
            let window = map && glow && width && height && minimum;
            let cell = (c.fonts.tui_font_width != Some(0u16) || c.fonts.tui_font_height is None) && (
            c.fonts.tui_font_height != Some(0u16) || c.fonts.tui_font_width is None);
            let body = 0 < c.fonts.gui_body.bits <= 0x7F80_0000;
            let heading = 0 < c.fonts.gui_heading.bits <= 0x7F80_0000;
            let fault = c.fault(exists);
            &&& fault == Some(ConfigError::MarkerTtl) <==> !ttl
            &&& fault == Some(ConfigError::MaxMarkers) <==> ttl && !markers
            &&& fault == Some(ConfigError::MarkerSize) <==> ttl && markers && !size
            &&& fault == Some(ConfigError::HomeMarkerSize) <==> marks && !home
            &&& fault == Some(ConfigError::CityLabelZoom) <==> marks && home && !zoom
            &&& fault == Some(ConfigError::GlowSize) <==> map && !glow
            &&& fault == Some(ConfigError::WindowWidth) <==> map && glow && !width
            &&& fault == Some(ConfigError::WindowHeight) <==> map && glow && width && !height
            &&& fault == Some(ConfigError::WindowMinimum) <==> map && glow && width && height
                && !minimum
            &&& fault == Some(ConfigError::TuiFont) <==> window && !cell
            &&& fault == Some(ConfigError::GuiBody) <==> window && cell && !body
            &&& fault == Some(ConfigError::GuiHeading) <==> window && cell && body && !heading
            &&& fault == Some(ConfigError::GuiFontFile) <==> window && cell && body && heading
                && c.fonts.gui_font_file is Some && !exists
        }),
{
}

/// A check says yes if and only if it found nothing, and else what it found.
pub proof fn verdicts_repeat_the_fault(fault: Option<ConfigError>)
    ensures
        verdict(fault) is Ok <==> fault is None,
        fault matches Some(e) ==> verdict(fault) == Err::<(), ConfigError>(e),
{
}

/// The groups of settings are judged on their own: each by its own values.
pub proof fn groups_are_judged_by_their_values(
    home: HomeConfig,
    labels: LabelConfig,
    lines: ConnectionLinesConfig,
    window: WindowConfig,
)
    ensures
        home.fault() is None <==> 1 <= home.marker_size <= 20,
        home.fault() is Some ==> home.fault() == Some(ConfigError::HomeMarkerSize),
        labels.fault() is None <==> 0x3FF0_0000_0000_0000 <= labels.city_label_zoom.bits
            <= 0x4024_0000_0000_0000,
        labels.fault() is Some ==> labels.fault() == Some(ConfigError::CityLabelZoom),
        (MapConfig { home, labels }).fault() is None <==> home.fault() is None && labels.fault() is None,
        lines.fault() is None <==> lines.glow_size <= 10,
        lines.fault() is Some ==> lines.fault() == Some(ConfigError::GlowSize),
        window.fault() is None <==> window.width >= 100 && window.height >= 100 && window.min_width
            <= window.width && window.min_height <= window.height,
{
}

/// Every change is reported in its group, and no group reports a change that is
/// none of its own.
pub proof fn changes_are_reported_in_their_group(a: Config, b: Config)
    ensures
        ({
            let d = a.changes(b);
            &&& d.marker_ttl <==> a.marker_ttl_seconds != b.marker_ttl_seconds
            &&& d.max_markers <==> a.max_markers != b.max_markers
            &&& !d.marker_style <==> a.marker_style == b.marker_style && a.marker_size
                == b.marker_size
            &&& !d.home <==> a.map.home.lat.equals(b.map.home.lat) && a.map.home.lon.equals(
                b.map.home.lon,
            ) && a.map.home.marker_style == b.map.home.marker_style && a.map.home.marker_size
                == b.map.home.marker_size
            &&& !d.connection_lines <==> a.connection_lines.enabled == b.connection_lines.enabled
                && a.connection_lines.color == b.connection_lines.color
                && a.connection_lines.glow_size == b.connection_lines.glow_size
            &&& !d.labels <==> a.map.labels.show_country_labels
                == b.map.labels.show_country_labels && a.map.labels.show_city_labels
                == b.map.labels.show_city_labels && a.map.labels.city_label_zoom.equals(
                b.map.labels.city_label_zoom,
            )
            &&& !d.colors <==> a.colors.info == b.colors.info && a.colors.warn == b.colors.warn
                && a.colors.alert == b.colors.alert && a.colors.focus == b.colors.focus
                && a.colors.dim == b.colors.dim && a.colors.home == b.colors.home
                && a.colors.ocean == b.colors.ocean && a.colors.land == b.colors.land
            &&& !d.tui_font <==> a.fonts.tui_font_width == b.fonts.tui_font_width
                && a.fonts.tui_font_height == b.fonts.tui_font_height
            &&& !d.gui_font ==> a.fonts.gui_body.equals(b.fonts.gui_body)
                && a.fonts.gui_heading.equals(b.fonts.gui_heading) && (a.fonts.gui_font_file is Some
                <==> b.fonts.gui_font_file is Some)
            &&& a.fonts.gui_body.equals(b.fonts.gui_body) && a.fonts.gui_heading.equals(
                b.fonts.gui_heading,
            ) && text::text_of(a.fonts.gui_font_file) == text::text_of(b.fonts.gui_font_file)
                ==> !d.gui_font
            &&& !d.window <==> a.window.width == b.window.width && a.window.height
                == b.window.height && a.window.min_width == b.window.min_width
                && a.window.min_height == b.window.min_height
            &&& d.changed() <==> d.marker_ttl || d.max_markers || d.marker_style || d.home
                || d.connection_lines || d.labels || d.colors || d.tui_font || d.gui_font
                || d.window
        }),
{
}

/// The log line of a reload names every group that changed, and no other.
pub proof fn reload_lines_name_what_changed(d: ConfigDiff, n: Seq<char>)
    ensures
        d.names().contains(n) <==> {
            ||| d.marker_ttl && n == "marker_ttl"@
            ||| d.max_markers && n == "max_markers"@
            ||| d.marker_style && n == "marker_style"@
            ||| d.home && n == "home"@
            ||| d.connection_lines && n == "connection_lines"@
            ||| d.labels && n == "labels"@
            ||| d.colors && n == "colors"@
            ||| d.tui_font && n == "tui_font"@
            ||| d.gui_font && n == "gui_font"@
            ||| d.window && n == "window"@
        },
{
    let s0 = named("marker_ttl"@, d.marker_ttl);
    let s1 = s0 + named("max_markers"@, d.max_markers);
    let s2 = s1 + named("marker_style"@, d.marker_style);
    let s3 = s2 + named("home"@, d.home);
    let s4 = s3 + named("connection_lines"@, d.connection_lines);
    let s5 = s4 + named("labels"@, d.labels);
    let s6 = s5 + named("colors"@, d.colors);
    let s7 = s6 + named("tui_font"@, d.tui_font);
    let s8 = s7 + named("gui_font"@, d.gui_font);
    let s9 = s8 + named("window"@, d.window);
    assert(Seq::<Seq<char>>::empty() + s0 =~= s0);
    one_more_name(Seq::empty(), "marker_ttl"@, d.marker_ttl, n);
    one_more_name(s0, "max_markers"@, d.max_markers, n);
    one_more_name(s1, "marker_style"@, d.marker_style, n);
    one_more_name(s2, "home"@, d.home, n);
    one_more_name(s3, "connection_lines"@, d.connection_lines, n);
    one_more_name(s4, "labels"@, d.labels, n);
    one_more_name(s5, "colors"@, d.colors, n);
    one_more_name(s6, "tui_font"@, d.tui_font, n);
    one_more_name(s7, "gui_font"@, d.gui_font, n);
    one_more_name(s8, "window"@, d.window, n);
}

proof fn one_more_name(before: Seq<Seq<char>>, name: Seq<char>, changed: bool, n: Seq<char>)
    ensures
        (before + named(name, changed)).contains(n) <==> before.contains(n) || (changed && n
            == name),
{
    let all = before + named(name, changed);
    if before.contains(n) {
        let i = choose|i: int| 0 <= i < before.len() && before[i] == n;
        assert(all[i] == n);
    }
    if changed && n == name {
        assert(all[before.len() as int] == n);
    }
    if all.contains(n) {
        let i = choose|i: int| 0 <= i < all.len() && all[i] == n;
        if i < before.len() {
            assert(before[i] == n);
        }
    }
}

/// A color is written with a hash and two digits for each channel, red, green
/// and blue, in capitals.
pub proof fn colors_are_written_channel_by_channel(c: ColorDef, i: int)
    ensures
        color_text(c).len() == 7,
        color_text(c)[0] == '#',
        1 <= i < 7 ==> '0' <= color_text(c)[i] <= '9' || 'A' <= color_text(c)[i] <= 'F',
        ({
            let digit = |k: int|
                if color_text(c)[k] <= '9' {
                    color_text(c)[k] as int - 48
                } else {
                    color_text(c)[k] as int - 55
                };
            &&& c.r == 16 * digit(1) + digit(2)
            &&& c.g == 16 * digit(3) + digit(4)
            &&& c.b == 16 * digit(5) + digit(6)
        }),
{
}

/// Styles have different names.
pub proof fn styles_are_told_apart(a: MarkerStyle, b: MarkerStyle)
    ensures
        a.name() == b.name() ==> a == b,
{
    reveal_strlit("dot");
    reveal_strlit("ring");
    reveal_strlit("cross");
    reveal_strlit("x");
    assert("dot"@.len() == 3 && "ring"@.len() == 4 && "cross"@.len() == 5 && "x"@.len() == 1);
}

/// The defaults that the documentation promises: eight seconds, five thousand
/// markers, rings of eight pixels, a home ring of fourteen near Washington,
/// lines that are on and green, labels that are on from a zoom of two and a
/// half, and a window of 1280 by 720.
pub proof fn defaults_are_as_documented()
    ensures
        ({
            let c = default_config();
            &&& c.marker_ttl_seconds == 8 && c.max_markers == 5000
            &&& c.marker_style == MarkerStyle::Ring && c.marker_size == 8
            &&& c.map.home.marker_style == MarkerStyle::Ring && c.map.home.marker_size == 14
            &&& c.map.home.lat.bits == 0x4043_8000_0000_0000
            &&& c.map.home.lon.bits == 0xC053_4000_0000_0000
            &&& c.connection_lines.enabled && c.connection_lines.glow_size == 1
            &&& c.connection_lines.color == (ColorDef { r: 0, g: 255, b: 0 })
            &&& c.map.labels.show_country_labels && c.map.labels.show_city_labels
            &&& c.map.labels.city_label_zoom.bits == 0x4004_0000_0000_0000
            &&& c.fonts.tui_font_width is None && c.fonts.tui_font_height is None
            &&& c.fonts.gui_font_file is None
            &&& c.fonts.gui_body.bits == 0x4160_0000 && c.fonts.gui_heading.bits == 0x41A0_0000
            &&& c.window.width == 1280 && c.window.height == 720
            &&& c.window.min_width == 640 && c.window.min_height == 360
        }),
{
}

/// The configured home, before anything is known of the public address.
pub open spec fn configured_home(map: MapConfig) -> HomeView {
    HomeView { lat: map.home.lat, lon: map.home.lon, ip: None, label: None }
}

/// The configured home stands where the settings put it, whatever else they
/// say, and has neither address nor name.
pub proof fn the_home_stands_where_it_is_configured(map: MapConfig, other: MapConfig)
    ensures
        configured_home(map).lat == map.home.lat,
        configured_home(map).lon == map.home.lon,
        configured_home(map).ip is None && configured_home(map).label is None,
        map.home.lat == other.home.lat && map.home.lon == other.home.lon ==> configured_home(map)
            == configured_home(other),
{
}

/// The message for a rejected configuration begins with the setting that is
/// wrong; that of a missing font ends with the path of its file.
pub proof fn messages_name_the_setting(e: ConfigError, fonts: FontConfig)
    ensures
        ({
            let said = config_error_text(e, fonts);
            match e {
                ConfigError::MarkerTtl => "marker_ttl_seconds "@.is_prefix_of(said),
                ConfigError::MaxMarkers => "max_markers "@.is_prefix_of(said),
                ConfigError::MarkerSize => "marker_size "@.is_prefix_of(said),
                ConfigError::HomeMarkerSize => "home.marker_size "@.is_prefix_of(said),
                ConfigError::CityLabelZoom => "map.labels.city_label_zoom "@.is_prefix_of(said),
                ConfigError::GlowSize => "connection_lines.glow_size "@.is_prefix_of(said),
                ConfigError::WindowWidth => "window.width "@.is_prefix_of(said),
                ConfigError::WindowHeight => "window.height "@.is_prefix_of(said),
                ConfigError::WindowMinimum => "window min "@.is_prefix_of(said),
                ConfigError::TuiFont => "tui_font_width/height "@.is_prefix_of(said),
                ConfigError::GuiBody => "fonts.gui_body "@.is_prefix_of(said),
                ConfigError::GuiHeading => "fonts.gui_heading "@.is_prefix_of(said),
                ConfigError::GuiFontFile => {
                    &&& "fonts.gui_font_file "@.is_prefix_of(said)
                    &&& fonts.gui_font_file matches Some(file) ==> file@.is_suffix_of(said)
                },
            }
        }),
{
    reveal_strlit("marker_ttl_seconds ");
    reveal_strlit("max_markers ");
    reveal_strlit("marker_size ");
    reveal_strlit("home.marker_size ");
    reveal_strlit("map.labels.city_label_zoom ");
    reveal_strlit("connection_lines.glow_size ");
    reveal_strlit("window.width ");
    reveal_strlit("window.height ");
    reveal_strlit("window min ");
    reveal_strlit("tui_font_width/height ");
    reveal_strlit("fonts.gui_body ");
    reveal_strlit("fonts.gui_heading ");
    reveal_strlit("fonts.gui_font_file ");
    reveal_strlit("marker_ttl_seconds must be between 1 and 3600");
    reveal_strlit("max_markers must be > 0");
    reveal_strlit("marker_size must be between 1 and 20");
    reveal_strlit("home.marker_size must be between 1 and 20");
    reveal_strlit("map.labels.city_label_zoom must be between 1.0 and 10.0");
    reveal_strlit("connection_lines.glow_size must be between 0 and 10");
    reveal_strlit("window.width must be >= 100");
    reveal_strlit("window.height must be >= 100");
    reveal_strlit("window min dimensions must not exceed the default dimensions");
    reveal_strlit("tui_font_width/height must be > 0");
    reveal_strlit("fonts.gui_body must be > 0");
    reveal_strlit("fonts.gui_heading must be > 0");
    reveal_strlit("fonts.gui_font_file does not exist: ");
    let said = config_error_text(e, fonts);
    if e is GuiFontFile {
        let start = "fonts.gui_font_file does not exist: "@;
        if let Some(file) = fonts.gui_font_file {
            assert(said.subrange(said.len() - file@.len(), said.len() as int) =~= file@);
        }
        assert(said.subrange(0, start.len() as int) =~= start);
        assert("fonts.gui_font_file "@ =~= said.subrange(0, "fonts.gui_font_file "@.len() as int));
    }
}

/// What a report of a reload says, if anything changed.
pub open spec fn report_text(report: ReloadReport) -> Option<Seq<char>> {
    match report {
        ReloadReport::Unchanged => None,
        ReloadReport::Changed(list) => Some(list@),
    }
}

impl ConfigDiff {
    /// The names of what changed, if anything did.
    pub open spec fn summary(self) -> Option<Seq<char>> {
        if self.changed() {
            Some(text::separated(self.names(), ", "@))
        } else {
            None
        }
    }
}

/// A reload is reported if and only if something changed. What changed alone is
/// named alone; several names are separated by a comma and a blank.
pub proof fn reloads_are_reported(d: ConfigDiff, rest: Seq<Seq<char>>, last: Seq<char>)
    ensures
        d.summary() is Some <==> d.changed(),
        d.changed() && d.names() == seq![last] ==> d.summary() == Some(last),
        d.changed() && rest.len() > 0 && d.names() == rest.push(last) ==> d.summary() == Some(
            text::separated(rest, ", "@).push(',').push(' ') + last,
        ),
{
    reveal_strlit(", ");
    if d.names() == rest.push(last) {
        assert(rest.push(last).drop_last() =~= rest);
        assert(text::separated(rest, ", "@) + ", "@ =~= text::separated(rest, ", "@).push(',').push(
            ' ',
        ));
    }
    if d.names() == seq![last] {
        assert(seq![last].drop_last() =~= Seq::<Seq<char>>::empty());
        assert(Seq::<char>::empty() + last =~= last);
    }
}

} // verus!
