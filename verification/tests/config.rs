//! Configuration: colors, validation, reloads.

use geotop::config::{
    ColorConfig, ColorDef, Config, ConfigDiff, ConfigError, ConnectionLinesConfig, FontConfig,
    HomeConfig, LabelConfig, MarkerStyle, ReloadReport, WindowConfig,
};
use geotop::hex_color::{parse_hex_color, try_parse_hex_color, HexColorError};
use geotop::ieee::{Double, Single};

fn double(x: f64) -> Double {
    Double { bits: x.to_bits() }
}

fn single(x: f32) -> Single {
    Single { bits: x.to_bits() }
}

#[test]
fn color_parsing() {
    assert_eq!(
        ColorDef::from_rgb(0x50, 0xDC, 0x78),
        parse_hex_color("#50DC78").unwrap()
    );
    assert_eq!(
        ColorDef::from_rgb(0xFF, 0x00, 0xAA),
        parse_hex_color("#F0A").unwrap()
    );
    assert_eq!(
        ColorDef::from_rgb(0x50, 0xDC, 0x78),
        parse_hex_color("#50DC78FF").unwrap()
    );
}

#[test]
fn defaults_round_trip() {
    let config = Config::default();
    let text = config.colors.info.to_hex();
    assert_eq!(text, "#50DC78");
    assert_eq!(config.marker_ttl_seconds, 8);
    assert_eq!(parse_hex_color(&text).unwrap(), ColorDef::from_rgb(0x50, 0xDC, 0x78));
}

#[test]
fn every_kind_of_color_fault() {
    match try_parse_hex_color("  50DC78 ") {
        Some(Err(HexColorError::MissingHash(s))) => assert_eq!(s, "50DC78"),
        other => panic!("{:?}", other),
    }
    match try_parse_hex_color("#50DC7") {
        Some(Err(HexColorError::BadLength(s))) => assert_eq!(s, "#50DC7"),
        other => panic!("{:?}", other),
    }
    assert!(matches!(try_parse_hex_color("#50DG78"), Some(Err(HexColorError::BadDigit))));
    assert_eq!(
        parse_hex_color("blue").unwrap_err().message(),
        "hex color must start with '#': blue"
    );
    assert_eq!(
        parse_hex_color("#12").unwrap_err().message(),
        "invalid hex color length: #12"
    );
    assert_eq!(parse_hex_color("#xyz").unwrap_err().message(), "invalid digit found in string");
}

#[test]
fn colors_with_a_short_alpha_or_a_sign() {
    assert_eq!(parse_hex_color("#F0A8").unwrap(), ColorDef::from_rgb(0xFF, 0x00, 0xAA));
    // A sign before one digit is a number of its own.
    assert_eq!(parse_hex_color("#+1+2+3").unwrap(), ColorDef::from_rgb(1, 2, 3));
    assert!(matches!(parse_hex_color("#-1+2+3"), Err(HexColorError::BadDigit)));
    assert_eq!(parse_hex_color("\t#abcdef\n").unwrap(), ColorDef::from_rgb(0xAB, 0xCD, 0xEF));
}

#[test]
fn a_cut_character_has_no_color() {
    // Six bytes, but the first channel would cut a character in two.
    assert!(try_parse_hex_color("#a\u{e9}bcd").is_none());
    // Four characters of one byte each are fine.
    assert!(matches!(try_parse_hex_color("#\u{e9}\u{e9}"), Some(Err(HexColorError::BadDigit)) | None));
}

#[test]
fn colors_agree_with_the_standard_number_parser() {
    for text in ["00", "0f", "F0", "ff", "+a", "-a", "++", "g0", " 1", "1 "] {
        let expected = u8::from_str_radix(text, 16).ok();
        let color = format!("#{}{}{}", text, text, text);
        let parsed = parse_hex_color(&color).ok();
        if text == "1 " || text == " 1" {
            assert_eq!(parsed, None);
        } else {
            assert_eq!(parsed.map(|c| c.r), expected, "{}", text);
        }
    }
}

#[test]
fn a_color_comes_back_from_its_text() {
    for (r, g, b) in [(0, 0, 0), (255, 255, 255), (1, 35, 171), (16, 160, 9)] {
        let c = ColorDef::from_rgb(r, g, b);
        assert_eq!(c.to_hex(), format!("#{:02X}{:02X}{:02X}", r, g, b));
        assert_eq!(parse_hex_color(&c.to_hex()).unwrap(), c);
        assert_eq!(parse_hex_color(&format!("{}7F", c.to_hex())).unwrap(), c);
        assert_eq!(c.to_rgba(9), (r, g, b, 9));
    }
}

#[test]
fn default_settings() {
    let c = Config::default();
    assert_eq!(c.marker_ttl_seconds, 8);
    assert_eq!(c.marker_ttl(), 8);
    assert_eq!(c.max_markers, 5_000);
    assert_eq!(c.marker_style, MarkerStyle::Ring);
    assert_eq!(MarkerStyle::default(), MarkerStyle::Ring);
    assert_eq!(c.marker_size, 8);
    assert_eq!(f64::from_bits(c.map.home.lat.bits), 39.0);
    assert_eq!(f64::from_bits(c.map.home.lon.bits), -77.0);
    assert_eq!(c.map.home.marker_style, MarkerStyle::Ring);
    assert_eq!(c.map.home.marker_size, 14);
    assert!(c.map.labels.show_country_labels);
    assert!(c.map.labels.show_city_labels);
    assert_eq!(f64::from_bits(c.map.labels.city_label_zoom.bits), 2.5);
    assert!(c.connection_lines.enabled);
    assert_eq!(c.connection_lines.color, ColorDef::from_rgb(0, 255, 0));
    assert_eq!(c.connection_lines.glow_size, 1);
    assert_eq!(c.fonts.tui_font_width, None);
    assert_eq!(c.fonts.tui_font_height, None);
    assert_eq!(f32::from_bits(c.fonts.gui_body.bits), 14.0);
    assert_eq!(f32::from_bits(c.fonts.gui_heading.bits), 20.0);
    assert_eq!(c.fonts.gui_font_file, None);
    assert_eq!(c.window, WindowConfig { width: 1280, height: 720, min_width: 640, min_height: 360 });
    let colors = ColorConfig::default();
    assert_eq!(c.colors, colors);
    let texts: Vec<String> = [
        colors.info, colors.warn, colors.alert, colors.focus, colors.dim, colors.home,
        colors.ocean, colors.land,
    ]
    .iter()
    .map(|c| c.to_hex())
    .collect();
    assert_eq!(
        texts,
        ["#50DC78", "#FAC832", "#F03C3C", "#00FFFF", "#555555", "#3CB4FF", "#0A121E", "#233E5F"]
    );
    assert_eq!(c.validate(true), Ok(()));
    assert_eq!(c.validate(false), Ok(()));
}

#[test]
fn marker_style_names() {
    assert_eq!(MarkerStyle::Dot.label(), "dot");
    assert_eq!(MarkerStyle::Ring.label(), "ring");
    assert_eq!(MarkerStyle::Cross.label(), "cross");
    assert_eq!(MarkerStyle::X.label(), "x");
}

fn rejected(change: fn(&mut Config)) -> (ConfigError, String) {
    let mut c = Config::default();
    change(&mut c);
    let e = c.validate(false).unwrap_err();
    (e, e.message(&c.fonts))
}

#[test]
fn every_rule_of_the_configuration() {
    let (e, m) = rejected(|c| c.marker_ttl_seconds = 0);
    assert_eq!((e, m.as_str()), (ConfigError::MarkerTtl, "marker_ttl_seconds must be between 1 and 3600"));
    assert_eq!(rejected(|c| c.marker_ttl_seconds = 3601).0, ConfigError::MarkerTtl);
    let (e, m) = rejected(|c| c.max_markers = 0);
    assert_eq!((e, m.as_str()), (ConfigError::MaxMarkers, "max_markers must be > 0"));
    let (e, m) = rejected(|c| c.marker_size = 21);
    assert_eq!((e, m.as_str()), (ConfigError::MarkerSize, "marker_size must be between 1 and 20"));
    assert_eq!(rejected(|c| c.marker_size = 0).0, ConfigError::MarkerSize);
    let (e, m) = rejected(|c| c.map.home.marker_size = 0);
    assert_eq!((e, m.as_str()), (ConfigError::HomeMarkerSize, "home.marker_size must be between 1 and 20"));
    let (e, m) = rejected(|c| c.map.labels.city_label_zoom = double(0.99));
    assert_eq!(
        (e, m.as_str()),
        (ConfigError::CityLabelZoom, "map.labels.city_label_zoom must be between 1.0 and 10.0")
    );
    let (e, m) = rejected(|c| c.connection_lines.glow_size = 11);
    assert_eq!((e, m.as_str()), (ConfigError::GlowSize, "connection_lines.glow_size must be between 0 and 10"));
    let (e, m) = rejected(|c| c.window.width = 99);
    assert_eq!((e, m.as_str()), (ConfigError::WindowWidth, "window.width must be >= 100"));
    let (e, m) = rejected(|c| c.window.height = 99);
    assert_eq!((e, m.as_str()), (ConfigError::WindowHeight, "window.height must be >= 100"));
    let (e, m) = rejected(|c| c.window.min_height = 721);
    assert_eq!(
        (e, m.as_str()),
        (ConfigError::WindowMinimum, "window min dimensions must not exceed the default dimensions")
    );
    let (e, m) = rejected(|c| {
        c.fonts.tui_font_width = Some(0);
        c.fonts.tui_font_height = Some(9);
    });
    assert_eq!((e, m.as_str()), (ConfigError::TuiFont, "tui_font_width/height must be > 0"));
    let (e, m) = rejected(|c| c.fonts.gui_body = single(0.0));
    assert_eq!((e, m.as_str()), (ConfigError::GuiBody, "fonts.gui_body must be > 0"));
    let (e, m) = rejected(|c| c.fonts.gui_heading = single(f32::NAN));
    assert_eq!((e, m.as_str()), (ConfigError::GuiHeading, "fonts.gui_heading must be > 0"));
    let (e, m) = rejected(|c| c.fonts.gui_font_file = Some("/no/such.ttf".to_string()));
    assert_eq!((e, m.as_str()), (ConfigError::GuiFontFile, "fonts.gui_font_file does not exist: /no/such.ttf"));
}

#[test]
fn rules_are_checked_in_order() {
    let (e, _) = rejected(|c| {
        c.window.width = 1;
        c.marker_size = 0;
        c.map.home.marker_size = 0;
    });
    assert_eq!(e, ConfigError::MarkerSize);
}

#[test]
fn limits_are_allowed() {
    let mut c = Config::default();
    c.marker_ttl_seconds = 3600;
    c.max_markers = 1;
    c.marker_size = 20;
    c.map.home.marker_size = 1;
    c.map.labels.city_label_zoom = double(10.0);
    c.connection_lines.glow_size = 0;
    c.window = WindowConfig { width: 100, height: 100, min_width: 100, min_height: 0 };
    // One of the two font sizes alone is not looked at.
    c.fonts.tui_font_width = Some(0);
    c.fonts.gui_font_file = Some("here.ttf".to_string());
    assert_eq!(c.validate(true), Ok(()));
}

#[test]
fn parts_check_themselves() {
    assert_eq!(HomeConfig::default().validate(), Ok(()));
    assert_eq!(LabelConfig::default().validate(), Ok(()));
    assert_eq!(ConnectionLinesConfig::default().validate(), Ok(()));
    assert_eq!(WindowConfig::default().validate(), Ok(()));
    assert_eq!(FontConfig::default().validate(false), Ok(()));
    assert_eq!(Config::default().map.validate(), Ok(()));
    let zoom = LabelConfig { city_label_zoom: double(f64::NAN), ..LabelConfig::default() };
    assert_eq!(zoom.validate(), Err(ConfigError::CityLabelZoom));
}

#[test]
fn reload_names_what_changed() {
    let a = Config::default();
    let mut b = a.clone();
    assert_eq!(a.diff(&b), ConfigDiff::default());
    assert!(!a.diff(&b).any());
    assert!(matches!(a.diff(&b).log(), ReloadReport::Unchanged));
    b.marker_ttl_seconds = 9;
    b.max_markers = 1;
    b.marker_size = 9;
    b.map.home.lat = double(1.0);
    b.connection_lines.enabled = false;
    b.map.labels.show_city_labels = false;
    b.colors.dim = ColorDef::from_rgb(1, 1, 1);
    b.fonts.tui_font_height = Some(1);
    b.fonts.gui_font_file = Some("x".to_string());
    b.window.width = 1281;
    match a.diff(&b).log() {
        ReloadReport::Changed(list) => assert_eq!(
            list,
            "marker_ttl, max_markers, marker_style, home, connection_lines, labels, colors, \
             tui_font, gui_font, window"
        ),
        ReloadReport::Unchanged => panic!("unchanged"),
    }
    assert_eq!(a.diff(&b), b.diff(&a));
    let mut c = a.clone();
    c.window.height = 721;
    match a.diff(&c).log() {
        ReloadReport::Changed(list) => assert_eq!(list, "window"),
        ReloadReport::Unchanged => panic!("unchanged"),
    }
}

#[test]
fn font_files_are_compared_as_paths() {
    let mut a = Config::default();
    let mut b = Config::default();
    a.fonts.gui_font_file = Some("/usr/share//fonts/./mono.ttf".to_string());
    b.fonts.gui_font_file = Some("/usr/share/fonts/mono.ttf".to_string());
    assert!(!a.diff(&b).gui_font);
    b.fonts.gui_font_file = Some("usr/share/fonts/mono.ttf".to_string());
    assert!(a.diff(&b).gui_font);
}

#[test]
fn numbers_are_compared_as_numbers() {
    let mut a = Config::default();
    let mut b = Config::default();
    a.map.home.lat = double(0.0);
    b.map.home.lat = double(-0.0);
    assert!(!a.diff(&b).home);
    a.map.home.lat = double(f64::NAN);
    b.map.home.lat = double(f64::NAN);
    assert!(a.diff(&b).home);
}

#[test]
fn bit_patterns_behave_like_numbers() {
    let doubles = [
        0.0, -0.0, 1.0, -1.0, 2.5, 10.0, 39.0, -77.0, f64::MIN_POSITIVE, 5e-324, -5e-324, f64::MAX,
        f64::INFINITY, f64::NEG_INFINITY, f64::NAN, -f64::NAN,
    ];
    for a in doubles {
        for b in doubles {
            assert_eq!(double(a).same(double(b)), a == b, "{} {}", a, b);
            assert_eq!(double(a).le(double(b)), a <= b, "{} {}", a, b);
        }
    }
    let singles = [0.0f32, -0.0, 1.0, -1.0, 14.0, 1e-45, -1e-45, f32::INFINITY, f32::NEG_INFINITY, f32::NAN];
    for a in singles {
        assert_eq!(single(a).is_positive(), a > 0.0, "{}", a);
        for b in singles {
            assert_eq!(single(a).same(single(b)), a == b, "{} {}", a, b);
        }
    }
}

#[test]
fn configured_home() {
    let home = Config::default().home_location();
    assert_eq!(f64::from_bits(home.lat.bits), 39.0);
    assert_eq!(f64::from_bits(home.lon.bits), -77.0);
    assert!(home.ip.is_none() && home.label.is_none());
}
