//! Texts of the dashboard and the window.

use geotop::clock::Timestamp;
use geotop::config::{Config, ConfigDiff};
use geotop::event::{ConnectionEvent, Severity, Source};
use geotop::geo::lookup::ProxyKind;
use geotop::ieee::Double;
use geotop::ip::IpAddr;
use geotop::slices::shorten;
use geotop::text;
use geotop::ui::app::{can_shorten_path, AppState, LogRow, MapDot, Panel};
use geotop::ui::gui;
use geotop::ui::layout::{arrange, dashboard, Area};
use geotop::ui::map_renderer::{focus_target, HomeLocation};
use geotop::ui::panels::{
    footer_spans, gauge_area, gauge_label, largest_count, log_row_item, log_window, overlay_area,
    overlay_spans, severity_tint, talker_spans, title_tint, top_talkers, Span, Tint,
};
use geotop::units::human_bytes;

fn texts(spans: &[Span]) -> Vec<&str> {
    spans.iter().map(|s| s.text.as_str()).collect()
}

fn zero() -> Double {
    Double { bits: 0 }
}

#[test]
fn byte_counts() {
    assert_eq!(human_bytes(0), "0.00 B");
    assert_eq!(human_bytes(1023), "1023.00 B");
    assert_eq!(human_bytes(1024), "1.00 KB");
    assert_eq!(human_bytes(1152), "1.12 KB");
    assert_eq!(human_bytes(1_500_000), "1.43 MB");
    assert_eq!(human_bytes(u64::MAX), "16777216.00 TB");
}

/// The same computed in floating point.
fn float_bytes(n: u64) -> String {
    let units = ["B", "KB", "MB", "GB", "TB"];
    let mut val = n as f64;
    let mut i = 0;
    while val >= 1024.0 && i < units.len() - 1 {
        val /= 1024.0;
        i += 1;
    }
    format!("{:.2} {}", val, units[i])
}

#[test]
fn byte_counts_agree_with_floating_point() {
    for n in 0..5_000u64 {
        assert_eq!(human_bytes(n), float_bytes(n));
        assert_eq!(human_bytes(n * 7_919), float_bytes(n * 7_919));
        assert_eq!(human_bytes(n << 31), float_bytes(n << 31));
        assert_eq!(human_bytes((n << 20) + 1), float_bytes((n << 20) + 1));
    }
    for shift in 0..64 {
        for d in [0u64, 1, 2] {
            let n = (1u64 << shift).wrapping_sub(d);
            assert_eq!(human_bytes(n), float_bytes(n), "{}", n);
        }
    }
}

#[test]
fn colors_of_text() {
    assert_eq!(severity_tint(Severity::Info), Tint::Info);
    assert_eq!(severity_tint(Severity::Warn), Tint::Warn);
    assert_eq!(severity_tint(Severity::Alert), Tint::Alert);
    assert_eq!(title_tint(Panel::Log, Panel::Log), Tint::Focus);
    assert_eq!(title_tint(Panel::WorldMap, Panel::Log), Tint::White);
}

#[test]
fn tab_order() {
    assert_eq!(focus_target(Panel::WorldMap), Panel::Log);
    assert_eq!(focus_target(Panel::Log), Panel::Metrics);
    assert_eq!(focus_target(Panel::Metrics), Panel::WorldMap);
}

#[test]
fn lines_over_the_map() {
    let spans = overlay_spans(12, "3.5", "40");
    assert_eq!(texts(&spans), [" \u{25CF} ", "12 active ", "3.5 evt/s ", "Proxy: 40% "]);
    let tints: Vec<Tint> = spans.iter().map(|s| s.tint).collect();
    assert_eq!(tints, [Tint::Info, Tint::White, Tint::White, Tint::Alert]);
    assert!(spans.iter().all(|s| !s.bold));
    let inner = Area { x: 1, y: 2, width: 30, height: 9 };
    assert_eq!(overlay_area(inner), Some(Area { x: 2, y: 2, width: 28, height: 2 }));
    assert_eq!(overlay_area(Area { width: 2, ..inner }), None);
    assert_eq!(overlay_area(Area { x: u16::MAX, width: 0, ..inner }), None);
}

#[test]
fn the_home_line() {
    let ip = Some(IpAddr::v4(1, 2, 3, 4));
    let label = Some("Rome".to_string());
    let home = HomeLocation { lat: zero(), lon: zero(), ip, label };
    assert_eq!(home.overlay_text("1.00, 2.00"), "\u{1F3E0} 1.2.3.4 \u{2014} Rome (1.00, 2.00)");
    let home = HomeLocation { ip: None, ..home };
    assert_eq!(home.overlay_text("1.00, 2.00"), "\u{1F3E0} Rome (1.00, 2.00)");
    let home = HomeLocation { ip, label: None, ..home };
    assert_eq!(home.overlay_text("1.00, 2.00"), "\u{1F3E0} 1.2.3.4 (1.00, 2.00)");
    assert_eq!(HomeLocation::default().overlay_text("0.00, 0.00"), "\u{1F3E0} home (0.00, 0.00)");
}

#[test]
fn leaders_are_sorted() {
    let list: Vec<(String, u64)> =
        [("a", 1), ("b", 3), ("c", 2), ("d", 3), ("e", 1)].iter().map(|(c, n)| (c.to_string(), *n)).collect();
    let mut expected = list.clone();
    expected.sort_by(|a, b| b.1.cmp(&a.1));
    assert_eq!(top_talkers(list), expected);
    let many: Vec<(String, u64)> = (0..25).map(|i| (format!("c{}", i), (i * 7) % 11)).collect();
    let mut expected = many.clone();
    expected.sort_by(|a, b| b.1.cmp(&a.1));
    expected.truncate(10);
    assert_eq!(top_talkers(many), expected);
    assert!(top_talkers(Vec::new()).is_empty());
    assert_eq!(largest_count(&expected), 10);
    assert_eq!(largest_count(&Vec::new()), 1);
}

#[test]
fn bars_of_the_leaders() {
    let spans = talker_spans("GB", 5, 10);
    assert_eq!(texts(&spans), [" GB  ", "\u{2588}\u{2588}\u{2588}\u{2588}\u{2588}\u{2588}\u{2588}\u{2588}\u{2588}", " 5"]);
    assert_eq!(talker_spans("GB", 10, 10)[1].text.chars().count(), 18);
    assert_eq!(talker_spans("Germany", u64::MAX, u64::MAX)[0].text, " Germany ");
    assert_eq!(talker_spans("x", 0, 0)[1].text, "");
    assert_eq!(spans[2].tint, Tint::Dim);
}

#[test]
fn the_proxy_gauge() {
    assert_eq!(gauge_label("12", "0", "3"), "Proxy 12%  Datacenter 0%  Tor 3%");
    let panel = Area { x: 4, y: 10, width: 20, height: 8 };
    assert_eq!(gauge_area(panel, 24), Some(Area { x: 4, y: 17, width: 20, height: 1 }));
    assert_eq!(gauge_area(panel, 17), None);
    assert_eq!(gauge_area(Area { width: 0, ..panel }, 24), None);
    assert_eq!(gauge_area(Area { height: 0, ..panel }, 24).unwrap().y, 10);
}

#[test]
fn rows_of_the_log_panel() {
    assert_eq!(log_window(100, 12, None), (90, None));
    assert_eq!(log_window(100, 12, Some(99)), (90, Some(9)));
    assert_eq!(log_window(100, 12, Some(90)), (90, Some(0)));
    assert_eq!(log_window(100, 12, Some(40)), (40, Some(0)));
    assert_eq!(log_window(3, 12, Some(2)), (0, Some(2)));
    assert_eq!(log_window(0, 12, None), (0, None));
    assert_eq!(log_window(5, 1, None), (5, None));
}

fn row() -> LogRow {
    LogRow {
        timestamp: Timestamp { secs: 3_661, nanos: 0 },
        src_ip: IpAddr::v4(8, 8, 8, 8),
        country: "Italy".to_string(),
        city: String::new(),
        proxy: None,
        http_status: Some(404),
        http_method: None,
        http_path: Some("/01234567890123456789012345678901".to_string()),
        user_agent: None,
        protocol: "HTTP".to_string(),
        bytes: 0,
        source: Source::Log,
        severity: Severity::Alert,
    }
}

#[test]
fn a_row_of_the_log_panel() {
    let spans = log_row_item(&row());
    assert_eq!(
        texts(&spans),
        [
            " 01:01:01 ",
            "8.8.8.8        ",
            " [    ] ",
            " Italy         ",
            " \u{2014}             ",
            " 404 ",
            " /01234567890123456789012345678",
        ]
    );
    let tints: Vec<Tint> = spans.iter().map(|s| s.tint).collect();
    assert_eq!(
        tints,
        [Tint::Dim, Tint::White, Tint::Alert, Tint::White, Tint::Dim, Tint::Alert, Tint::White]
    );
    assert!(spans[2].bold);
    let bare = LogRow { http_status: None, http_path: None, proxy: Some(ProxyKind::Hosting), ..row() };
    let spans = log_row_item(&bare);
    assert_eq!((spans[2].text.as_str(), spans[5].text.as_str(), spans[6].text.as_str()), (" [DC ] ", "     ", " "));
}

#[test]
fn the_footer() {
    let mut s = AppState::new(&Config::default());
    let all: String = texts(&footer_spans(&s, "0.5")).concat();
    assert_eq!(
        all,
        " \u{2328}  [Tab] focus  [p] pause  [c] clear  [l] lines:on [m] map:on [q/Esc] quit   \
         \u{2502} events: 0 | 0.00 B | 0.5/s"
    );
    s.toggle_pause();
    s.toggle_lines();
    s.map_hidden = true;
    let spans = footer_spans(&s, "0.5");
    assert_eq!(spans[11].text, " \u{23F8} PAUSED ");
    assert!(spans[11].bold);
    let all: String = texts(&spans).concat();
    assert!(all.contains("lines:off") && all.contains("map:off"));
}

#[test]
fn texts_are_cut_between_characters_only() {
    assert_eq!(shorten("abc", 5).as_deref(), Some("abc"));
    assert_eq!(shorten("abcdef", 3).as_deref(), Some("abc"));
    assert_eq!(shorten("a\u{e9}c", 3).as_deref(), Some("a\u{e9}"));
    assert_eq!(shorten("a\u{e9}c", 2), None);
    assert_eq!(shorten("\u{1F3E0}", 3), None);
    assert_eq!(shorten("\u{1F3E0}", 4).as_deref(), Some("\u{1F3E0}"));
}

#[test]
fn small_text_helpers() {
    assert_eq!(text::decimal_text(0), "0");
    assert_eq!(text::decimal_text(u64::MAX), u64::MAX.to_string());
    assert_eq!(text::to_lower("AbC\u{c9}"), "abc\u{c9}");
    assert_eq!(text::to_upper("aBc\u{e9}"), "ABC\u{e9}");
    assert!(text::contains("hello", "ell") && !text::contains("hello", "elo"));
    assert!(text::contains("", "") && text::starts_with("abc", "ab") && !text::starts_with("a", "ab"));
    for c in (0..=0x10ffffu32).filter_map(char::from_u32) {
        assert_eq!(text::space(c), c.is_whitespace(), "{:?}", c);
    }
    let digit = regex::Regex::new(r"^\d$").unwrap();
    let mut buf = [0u8; 4];
    for c in (0..=0x10ffffu32).filter_map(char::from_u32) {
        if text::decimal_digit(c) || c.is_numeric() {
            assert_eq!(text::decimal_digit(c), digit.is_match(c.encode_utf8(&mut buf)), "{:?}", c);
        }
    }
}

#[test]
fn the_dashboard_is_laid_out() {
    let screen = Area { x: 0, y: 0, width: 100, height: 40 };
    let a = dashboard(screen, false);
    assert_eq!(a.map, Area { x: 0, y: 0, width: 72, height: 29 });
    assert_eq!(a.log, Area { x: 0, y: 29, width: 72, height: 10 });
    assert_eq!(a.footer, Area { x: 0, y: 39, width: 100, height: 1 });
    assert_eq!((a.metrics_top.x, a.metrics_top.width), (72, 28));
    assert_eq!((a.metrics_bottom.x, a.metrics_bottom.width), (72, 28));
    assert_eq!(a.metrics_top.height + a.metrics_bottom.height, 39);
    let b = dashboard(screen, true);
    assert_eq!(b.map, Area { x: 0, y: 0, width: 0, height: 0 });
    assert_eq!(b.log, Area { x: 0, y: 0, width: 72, height: 39 });
}

#[test]
fn the_log_fills_the_left_column_without_the_map() {
    let a = dashboard(Area { x: 0, y: 0, width: 100, height: 50 }, true);
    assert_eq!(a.map, Area { x: 0, y: 0, width: 0, height: 0 });
    assert_eq!(a.log, Area { x: 0, y: 0, width: 72, height: 49 });
    assert_eq!(a.footer, Area { x: 0, y: 49, width: 100, height: 1 });
    assert_eq!(a.metrics_top, Area { x: 72, y: 0, width: 28, height: 27 });
    assert_eq!(a.metrics_bottom, Area { x: 72, y: 27, width: 28, height: 22 });
}

/// Where the parts of a screen are expected.
fn expected(screen: Area, no_map: bool) -> [Area; 5] {
    let Area { x, y, width, height } = screen;
    let body = if height >= 9 { height - 1 } else { height };
    let left = ((72 * width as u32 + 50) / 100) as u16;
    let top = ((55 * body as u32 + 50) / 100) as u16;
    let map = if body >= 18 { body - 10 } else { body.min(8) };
    let area = |x: u16, y: u16, width: u16, height: u16| Area { x, y, width, height };
    [
        if no_map { area(0, 0, 0, 0) } else { area(x, y, left, map) },
        if no_map { area(x, y, left, body) } else { area(x, y + map, left, body - map) },
        area(x + left, y, width - left, top),
        area(x + left, y + top, width - left, body - top),
        area(x, y + body, width, height - body),
    ]
}

fn check_layout(screen: Area) {
    for no_map in [false, true] {
        let a = dashboard(screen, no_map);
        let found = [a.map, a.log, a.metrics_top, a.metrics_bottom, a.footer];
        assert_eq!(found, expected(screen, no_map), "{:?} {}", screen, no_map);
    }
}

#[test]
fn screens_of_all_heights() {
    for height in 0..=150 {
        for (width, x, y) in [(0, 0, 0), (1, 3, 5), (80, 0, 0), (101, 7, 1000)] {
            check_layout(Area { x, y, width, height });
        }
    }
    check_layout(Area { x: 0, y: 0, width: 65535, height: 65535 });
}

#[test]
fn screens_of_all_widths() {
    for width in 0..=250 {
        for (height, x, y) in [(5, 0, 0), (24, 2, 9)] {
            check_layout(Area { x, y, width, height });
        }
    }
}

#[test]
fn screens_are_cut_at_the_last_coordinate() {
    let a = dashboard(Area { x: 65_500, y: 65_510, width: 100, height: 50 }, false);
    let kept = Area { x: 65_500, y: 65_510, width: 35, height: 25 };
    assert_eq!([a.map, a.log, a.metrics_top, a.metrics_bottom, a.footer], expected(kept, false));
}

#[test]
fn parts_are_put_in_their_places() {
    let area = |n: u16| Area { x: n, y: n, width: n, height: n };
    let outer = vec![area(1), area(2)];
    let metrics = vec![area(3), area(4)];
    let a = arrange(&outer, &vec![area(5), area(6)], &metrics, false);
    assert_eq!((a.map, a.log, a.footer), (area(5), area(6), area(2)));
    assert_eq!((a.metrics_top, a.metrics_bottom), (area(3), area(4)));
    let b = arrange(&outer, &vec![area(5)], &metrics, true);
    assert_eq!((b.map, b.log), (area(0), area(5)));
}

fn dot() -> MapDot {
    MapDot {
        lat: zero(),
        lon: zero(),
        country: "Italy".to_string(),
        city: "Rome".to_string(),
        severity: Severity::Info,
        src_ip: IpAddr::v4(1, 2, 3, 4),
        proxy: Some(ProxyKind::Tor),
        created_at: 0,
    }
}

#[test]
fn tooltips() {
    assert_eq!(
        gui::marker_tooltip(&dot(), "0.0000, 0.0000"),
        ["IP: 1.2.3.4", "Country: Italy", "City: Rome", "Proxy: TOR ", "0.0000, 0.0000"]
    );
    let bare = MapDot { country: String::new(), city: String::new(), proxy: None, ..dot() };
    assert_eq!(gui::marker_tooltip(&bare, "x"), ["IP: 1.2.3.4", "x"]);
    assert_eq!(gui::home_tooltip(&HomeLocation::default(), "x"), ["Home: ", "x"]);
    let home = HomeLocation {
        lat: zero(),
        lon: zero(),
        ip: Some(IpAddr::V6(1)),
        label: Some("Rome".to_string()),
    };
    assert_eq!(gui::home_tooltip(&home, "x"), ["Home: ::1", "Rome", "x"]);
}

#[test]
fn labels_of_dots() {
    assert_eq!(gui::city_label(&dot()).as_deref(), Some("Rome"));
    let d = MapDot { city: String::new(), ..dot() };
    assert_eq!(gui::city_label(&d).as_deref(), Some("Italy"));
    let d = MapDot { country: String::new(), ..d };
    assert_eq!(gui::city_label(&d), None);
}

#[test]
fn the_status_bar() {
    let cfg = Config::default();
    let mut g = gui::GuiState::new(&cfg);
    g.ingest(
        ConnectionEvent {
            timestamp: Timestamp { secs: 0, nanos: 0 },
            src_ip: IpAddr::v4(8, 8, 8, 8),
            dst_port: None,
            protocol: "UDP".to_string(),
            http_status: None,
            http_method: None,
            http_path: None,
            user_agent: None,
            bytes: Some(2048),
            source: Source::Pcap,
            severity: Severity::Info,
        },
        None,
        &cfg,
        0,
    );
    assert_eq!(
        gui::status_bar(&g, "0.1"),
        ["\u{25CF} 0 active", "0.1 evt/s", "events: 1", "bytes: 2.00 KB"]
    );
    g.toggle_pause();
    assert_eq!(gui::status_bar(&g, "0.1")[4], "\u{23F8} PAUSED");
    assert_eq!(
        gui::row_cells(&g.log[0]),
        ["00:00:00", "8.8.8.8", "[    ]", "              ", "              ", "", ""]
    );
}

#[test]
fn sparklines_are_scaled_to_their_tallest_bar() {
    let ring = |v: &[u64]| v.iter().copied().collect::<std::collections::VecDeque<u64>>();
    assert_eq!(gui::sparkline_height(&ring(&[])), 1);
    assert_eq!(gui::sparkline_height(&ring(&[0, 0])), 1);
    assert_eq!(gui::sparkline_height(&ring(&[3, 9, 2])), 9);
}

#[test]
fn leaders_of_the_window() {
    let g = gui::GuiState::new(&Config::default());
    assert!(gui::leading_countries(&g).is_empty());
}

#[test]
fn paths_that_can_be_cut() {
    let path = |s: &str| Some(s.to_string());
    assert!(can_shorten_path(&None, 3));
    assert!(can_shorten_path(&path("/a\u{e9}"), 4));
    assert!(can_shorten_path(&path("/ab\u{e9}"), 3));
    assert!(!can_shorten_path(&path("/a\u{e9}b"), 3));
}

#[test]
fn newest_rows_come_first() {
    assert_eq!(gui::newest_rows(5, 3), [4, 3, 2]);
    assert_eq!(gui::newest_rows(2, 200), [1, 0]);
    assert!(gui::newest_rows(0, 6).is_empty());
}

#[test]
fn reloads_of_the_window() {
    let none = ConfigDiff::default();
    let plan = gui::plan_reload(&none);
    assert!(!plan.home && !plan.fonts && !plan.window && !plan.remember);
    let plan = gui::plan_reload(&ConfigDiff { home: true, ..none });
    assert!(plan.home && plan.remember && !plan.fonts);
    let plan = gui::plan_reload(&ConfigDiff { gui_font: true, window: true, ..none });
    assert!(plan.fonts && plan.window && plan.remember && !plan.home);
    let plan = gui::plan_reload(&ConfigDiff { colors: true, ..none });
    assert!(plan.remember && !plan.window);
}
