//! The state behind the dashboard and the window, and the keys.

use geotop::cli::{handle_event, KeyCode};
use geotop::clock::Timestamp;
use geotop::config::Config;
use geotop::event::{ConnectionEvent, Severity, Source};
use geotop::geo::lookup::{GeoInfo, ProxyKind};
use geotop::ieee::Double;
use geotop::ip::IpAddr;
use geotop::ui::app::{
    escalate, share_of_proxies, AppState, LogRow, MAX_LOG_ROWS, NANOS_PER_SECOND, Panel,
    ProxyClass, Share, WARN_THRESHOLD,
};
use geotop::ui::gui::{self, GuiKey, GuiState, ZoomChange};
use geotop::ui::panels::leading_countries;

const SECOND: u64 = 1_000_000_000;

fn event(ip: IpAddr, bytes: Option<u64>) -> ConnectionEvent {
    ConnectionEvent {
        timestamp: Timestamp { secs: 3_661, nanos: 0 },
        src_ip: ip,
        dst_port: Some(80),
        protocol: "HTTP".to_string(),
        http_status: Some(200),
        http_method: Some("GET".to_string()),
        http_path: Some("/index.html".to_string()),
        user_agent: Some("curl".to_string()),
        bytes,
        source: Source::Log,
        severity: Severity::Info,
    }
}

fn london(ip: IpAddr) -> GeoInfo {
    GeoInfo {
        ip,
        country_code: Some("GB".to_string()),
        country_name: Some("United Kingdom".to_string()),
        region: None,
        city: Some("London".to_string()),
        latitude: Some(Double { bits: 51.5f64.to_bits() }),
        longitude: Some(Double { bits: (-0.1f64).to_bits() }),
        proxy_kind: None,
        isp: None,
    }
}

const PUBLIC: IpAddr = IpAddr::V4(0x08080808);
const PRIVATE: IpAddr = IpAddr::V4(0x0A000001);

#[test]
fn a_new_dashboard() {
    let s = AppState::new(&Config::default());
    assert!(s.dots.is_empty() && s.log.is_empty() && s.throughput_ring.is_empty());
    assert_eq!(s.focused, Panel::WorldMap);
    assert!(!s.paused && !s.clear_requested && !s.should_quit && !s.map_hidden);
    assert!(s.connection_lines);
    assert_eq!(s.log_selected, None);
    assert_eq!(s.stats.total_events, 0);
    let mut cfg = Config::default();
    cfg.connection_lines.enabled = false;
    assert!(!AppState::new(&cfg).connection_lines);
    assert!(!GuiState::new(&cfg).connection_lines);
    assert!(GuiState::new(&Config::default()).connection_lines);
}

#[test]
fn an_event_is_plotted_counted_and_logged() {
    let cfg = Config::default();
    let mut s = AppState::new(&cfg);
    s.tick(&cfg, 0);
    let info = london(PUBLIC);
    s.ingest(event(PUBLIC, Some(100)), Some(&info), &cfg, 5);
    assert_eq!(s.dots.len(), 1);
    let d = &s.dots[0];
    assert_eq!(f64::from_bits(d.lat.bits), 51.5);
    assert_eq!(f64::from_bits(d.lon.bits), -0.1);
    assert_eq!((d.country.as_str(), d.city.as_str()), ("United Kingdom", "London"));
    assert_eq!((d.src_ip, d.severity, d.proxy, d.created_at), (PUBLIC, Severity::Info, None, 5));
    let r = &s.log[0];
    assert_eq!((r.country.as_str(), r.city.as_str()), ("United Kingdom", "London"));
    assert_eq!((r.http_status, r.bytes, r.source), (Some(200), 100, Source::Log));
    assert_eq!(r.http_path.as_deref(), Some("/index.html"));
    assert_eq!(r.user_agent.as_deref(), Some("curl"));
    assert_eq!(s.stats.total_events, 1);
    assert_eq!(s.stats.bytes_total, 100);
    assert_eq!(s.log_selected, Some(0));
    assert_eq!(s.throughput_ring, [1]);
    assert_eq!(leading_countries(&s), [("GB".to_string(), 1)]);
}

#[test]
fn addresses_without_a_place_are_only_logged() {
    let cfg = Config::default();
    let mut s = AppState::new(&cfg);
    s.ingest(event(PUBLIC, None), None, &cfg, 0);
    assert!(s.dots.is_empty());
    assert_eq!(s.log[0].country, "");
    assert_eq!(s.log[0].bytes, 0);
    assert!(leading_countries(&s).is_empty());
    // A private address is not plotted, wherever it is said to be.
    s.ingest(event(PRIVATE, None), Some(&london(PRIVATE)), &cfg, 0);
    assert!(s.dots.is_empty());
    assert_eq!(s.log.len(), 2);
    assert_eq!(leading_countries(&s), [("GB".to_string(), 1)]);
    // Nothing is counted in a ring that has no bin yet.
    assert!(s.throughput_ring.is_empty());
}

#[test]
fn countries_without_a_code() {
    let cfg = Config::default();
    let mut s = AppState::new(&cfg);
    let named = GeoInfo { country_code: None, ..london(PUBLIC) };
    let unnamed = GeoInfo { country_code: None, country_name: None, ..london(PUBLIC) };
    s.ingest(event(PUBLIC, None), Some(&named), &cfg, 0);
    s.ingest(event(PUBLIC, None), Some(&unnamed), &cfg, 0);
    s.ingest(event(PUBLIC, None), Some(&unnamed), &cfg, 0);
    assert_eq!(
        leading_countries(&s),
        [("??".to_string(), 2), ("United Kingdom".to_string(), 1)]
    );
    assert_eq!(s.dots[1].country, "");
}

#[test]
fn severity_of_what_is_shown() {
    let vpn = Some(ProxyKind::Vpn);
    assert_eq!(WARN_THRESHOLD, 30);
    assert_eq!(escalate(1, None, Severity::Info), Severity::Info);
    assert_eq!(escalate(1, None, Severity::Alert), Severity::Alert);
    assert_eq!(escalate(1, vpn, Severity::Info), Severity::Alert);
    assert_eq!(escalate(29, None, Severity::Info), Severity::Info);
    assert_eq!(escalate(30, None, Severity::Info), Severity::Warn);
    assert_eq!(escalate(30, vpn, Severity::Alert), Severity::Warn);
}

#[test]
fn the_thirtieth_request_warns() {
    let cfg = Config::default();
    let mut s = AppState::new(&cfg);
    let mut g = GuiState::new(&cfg);
    let info = london(PUBLIC);
    for _ in 0..30 {
        s.ingest(event(PUBLIC, None), Some(&info), &cfg, 0);
        g.ingest(event(PUBLIC, None), Some(&info), &cfg, 0);
    }
    s.ingest(event(IpAddr::V6(0x2001 << 112), None), Some(&info), &cfg, 0);
    let shown: Vec<Severity> = s.dots.iter().map(|d| d.severity).collect();
    assert_eq!(&shown[28..], [Severity::Info, Severity::Warn, Severity::Info]);
    assert_eq!(g.dots[28].severity, Severity::Info);
    assert_eq!(g.dots[29].severity, Severity::Warn);
}

#[test]
fn dots_fade_away() {
    let cfg = Config::default();
    let mut s = AppState::new(&cfg);
    s.ingest(event(PUBLIC, None), Some(&london(PUBLIC)), &cfg, 0);
    s.ingest(event(PUBLIC, None), Some(&london(PUBLIC)), &cfg, SECOND);
    s.tick(&cfg, 8 * SECOND);
    assert_eq!(s.dots.len(), 2);
    s.tick(&cfg, 8 * SECOND + 1);
    assert_eq!(s.dots.len(), 1);
    s.tick(&cfg, 100 * SECOND);
    assert_eq!(s.dots.len(), 0);
}

#[test]
fn markers_are_limited() {
    let mut cfg = Config::default();
    cfg.max_markers = 3;
    let mut s = AppState::new(&cfg);
    for i in 0..5 {
        s.ingest(event(PUBLIC, None), Some(&london(PUBLIC)), &cfg, i);
    }
    let created: Vec<u64> = s.dots.iter().map(|d| d.created_at).collect();
    assert_eq!(created, [2, 3, 4]);
    cfg.max_markers = 1;
    s.tick(&cfg, 5);
    assert_eq!(s.dots.len(), 1);
    assert_eq!(s.dots[0].created_at, 4);
}

#[test]
fn pause_freezes_the_map() {
    let cfg = Config::default();
    let mut s = AppState::new(&cfg);
    s.ingest(event(PUBLIC, None), Some(&london(PUBLIC)), &cfg, 0);
    s.toggle_pause();
    assert!(s.is_paused());
    s.ingest(event(PUBLIC, Some(7)), Some(&london(PUBLIC)), &cfg, 1);
    s.tick(&cfg, 1000 * SECOND);
    assert_eq!(s.dots.len(), 1);
    // The counters go on.
    assert_eq!(s.stats.total_events, 2);
    assert_eq!(s.stats.bytes_total, 7);
    assert_eq!(s.log.len(), 2);
    s.request_clear();
    s.tick(&cfg, 1000 * SECOND);
    assert_eq!(s.dots.len(), 0);
    s.toggle_pause();
    assert!(!s.is_paused());
}

#[test]
fn clear_wipes_the_dots_once() {
    let cfg = Config::default();
    let mut s = AppState::new(&cfg);
    s.ingest(event(PUBLIC, None), Some(&london(PUBLIC)), &cfg, 0);
    s.request_clear();
    assert_eq!(s.dots.len(), 1);
    s.tick(&cfg, 0);
    assert_eq!(s.dots.len(), 0);
    assert!(!s.clear_requested);
    s.ingest(event(PUBLIC, None), Some(&london(PUBLIC)), &cfg, 0);
    s.tick(&cfg, 0);
    assert_eq!(s.dots.len(), 1);
}

#[test]
fn the_log_is_bounded() {
    let cfg = Config::default();
    let mut s = AppState::new(&cfg);
    for i in 0..MAX_LOG_ROWS + 2 {
        s.ingest(event(IpAddr::V4(i as u32), None), None, &cfg, 0);
    }
    assert_eq!(s.log.len(), MAX_LOG_ROWS);
    assert_eq!(s.log[0].src_ip, IpAddr::V4(2));
    assert_eq!(s.log_selected, Some(MAX_LOG_ROWS - 1));
}

#[test]
fn throughput_has_one_bin_per_second() {
    assert_eq!(NANOS_PER_SECOND, SECOND);
    let cfg = Config::default();
    let mut s = AppState::new(&cfg);
    s.tick(&cfg, 0);
    assert_eq!(s.throughput_ring, [0]);
    s.ingest(event(PUBLIC, None), None, &cfg, 0);
    s.ingest(event(PUBLIC, None), None, &cfg, 0);
    s.tick(&cfg, SECOND - 1);
    assert_eq!(s.throughput_ring, [2]);
    assert_eq!(s.stats.events_per_sec, Share { part: 2, whole: 1 });
    s.tick(&cfg, SECOND);
    assert_eq!(s.throughput_ring, [2, 0]);
    s.ingest(event(PUBLIC, None), None, &cfg, 0);
    s.tick(&cfg, 3 * SECOND + 5);
    assert_eq!(s.throughput_ring, [2, 1, 0, 0]);
    assert_eq!(s.stats.events_per_sec, Share { part: 3, whole: 4 });
    s.tick(&cfg, 1000 * SECOND);
    assert_eq!(s.throughput_ring.len(), 120);
    assert_eq!(s.stats.events_per_sec, Share { part: 0, whole: 120 });
}

#[test]
fn the_window_has_one_bin_per_tick() {
    let cfg = Config::default();
    let mut g = GuiState::new(&cfg);
    g.tick(&cfg, 0);
    g.ingest(event(PUBLIC, None), None, &cfg, 0);
    g.tick(&cfg, 0);
    assert_eq!(g.throughput_ring, [1, 0]);
    assert_eq!(g.events_per_sec(), Share { part: 1, whole: 2 });
    for _ in 0..200 {
        g.tick(&cfg, 0);
    }
    assert_eq!(g.throughput_ring.len(), 120);
}

#[test]
fn the_share_of_proxies() {
    let cfg = Config::default();
    let mut s = AppState::new(&cfg);
    let mut g = GuiState::new(&cfg);
    assert_eq!(g.proxy_pct(), Share { part: 0, whole: 1 });
    for kind in [Some(ProxyKind::Tor), None, Some(ProxyKind::Hosting), Some(ProxyKind::Tor), None] {
        let info = GeoInfo { proxy_kind: kind, ..london(PUBLIC) };
        s.ingest(event(PUBLIC, None), Some(&info), &cfg, 0);
        g.ingest(event(PUBLIC, None), Some(&info), &cfg, 0);
    }
    s.tick(&cfg, 0);
    assert_eq!(s.stats.proxy_pct, Share { part: 3, whole: 5 });
    assert_eq!(s.stats.datacenter_pct, Share { part: 1, whole: 5 });
    assert_eq!(s.stats.tor_pct, Share { part: 2, whole: 5 });
    assert_eq!(g.proxy_pct(), Share { part: 3, whole: 5 });
    assert_eq!(share_of_proxies(&s.dots, ProxyClass::Datacenter), Share { part: 1, whole: 5 });
    s.request_clear();
    s.tick(&cfg, 0);
    assert_eq!(s.stats.proxy_pct, Share { part: 0, whole: 1 });
    assert_eq!(s.stats.datacenter_pct, Share { part: 0, whole: 1 });
    assert_eq!(s.stats.tor_pct, Share { part: 0, whole: 1 });
}

#[test]
fn nothing_but_proxies() {
    let cfg = Config::default();
    let mut s = AppState::new(&cfg);
    let mut g = GuiState::new(&cfg);
    let info = GeoInfo { proxy_kind: Some(ProxyKind::Tor), ..london(PUBLIC) };
    for _ in 0..3 {
        s.ingest(event(PUBLIC, None), Some(&info), &cfg, 0);
        g.ingest(event(PUBLIC, None), Some(&info), &cfg, 0);
    }
    s.tick(&cfg, 0);
    assert_eq!(s.stats.proxy_pct, Share { part: 3, whole: 3 });
    assert_eq!(s.stats.tor_pct, Share { part: 3, whole: 3 });
    assert_eq!(s.stats.datacenter_pct, Share { part: 0, whole: 3 });
    assert_eq!(g.proxy_pct(), Share { part: 3, whole: 3 });
}

#[test]
fn counters_say_when_they_are_full() {
    let cfg = Config::default();
    let mut s = AppState::new(&cfg);
    assert!(s.has_room(Some(u64::MAX)));
    s.ingest(event(PUBLIC, Some(u64::MAX - 1)), None, &cfg, 0);
    assert!(s.has_room(Some(1)) && s.has_room(None));
    assert!(!s.has_room(Some(2)));
    let mut g = GuiState::new(&cfg);
    g.ingest(event(PUBLIC, Some(u64::MAX)), None, &cfg, 0);
    assert!(!g.has_room(Some(1)) && g.has_room(Some(0)));
}

#[test]
fn keys_of_the_dashboard() {
    let mut s = AppState::new(&Config::default());
    handle_event(&mut s, false, KeyCode::Char('q'));
    assert!(!s.quit_requested());
    handle_event(&mut s, true, KeyCode::Tab);
    assert_eq!(s.focused, Panel::Log);
    handle_event(&mut s, true, KeyCode::Tab);
    assert_eq!(s.focused, Panel::Metrics);
    handle_event(&mut s, true, KeyCode::Tab);
    assert_eq!(s.focused, Panel::WorldMap);
    for (c, panel) in [('3', Panel::Metrics), ('2', Panel::Log), ('1', Panel::WorldMap)] {
        handle_event(&mut s, true, KeyCode::Char(c));
        assert_eq!(s.focused, panel);
    }
    handle_event(&mut s, true, KeyCode::Char('p'));
    assert!(s.paused);
    handle_event(&mut s, true, KeyCode::Char('p'));
    assert!(!s.paused);
    handle_event(&mut s, true, KeyCode::Char('l'));
    assert!(!s.connection_lines);
    handle_event(&mut s, true, KeyCode::Char('c'));
    assert!(s.clear_requested);
    handle_event(&mut s, true, KeyCode::Char('Q'));
    handle_event(&mut s, true, KeyCode::Other);
    assert!(!s.quit_requested());
    handle_event(&mut s, true, KeyCode::Esc);
    assert!(s.quit_requested());
    let mut s = AppState::new(&Config::default());
    handle_event(&mut s, true, KeyCode::Char('q'));
    assert!(s.quit_requested());
}

#[test]
fn arrows_scroll_the_log() {
    let cfg = Config::default();
    let mut s = AppState::new(&cfg);
    handle_event(&mut s, true, KeyCode::Up);
    assert_eq!(s.log_selected, None);
    for _ in 0..3 {
        s.ingest(event(PUBLIC, None), None, &cfg, 0);
    }
    let mut seen = Vec::new();
    for key in [KeyCode::Up, KeyCode::Up, KeyCode::Up, KeyCode::Down, KeyCode::Down, KeyCode::Down] {
        handle_event(&mut s, true, key);
        seen.push(s.log_selected.unwrap());
    }
    assert_eq!(seen, [1, 0, 0, 1, 2, 2]);
}

#[test]
fn keys_of_the_window() {
    let mut g = GuiState::new(&Config::default());
    assert_eq!(gui::handle_key(&mut g, GuiKey::Pause, true), None);
    assert!(g.is_paused());
    gui::handle_key(&mut g, GuiKey::Lines, true);
    assert!(!g.connection_lines);
    gui::handle_key(&mut g, GuiKey::Clear, true);
    assert!(g.clear_requested);
    assert_eq!(gui::handle_key(&mut g, GuiKey::ZoomIn, true), Some(ZoomChange::Closer));
    assert_eq!(gui::handle_key(&mut g, GuiKey::ZoomOut, true), Some(ZoomChange::Farther));
    assert_eq!(gui::handle_key(&mut g, GuiKey::ResetZoom, true), Some(ZoomChange::WholeWorld));
    assert_eq!(gui::handle_key(&mut g, GuiKey::ZoomIn, false), None);
    assert!(!g.should_quit());
    gui::handle_key(&mut g, GuiKey::Quit, false);
    assert!(g.should_quit());
}

#[test]
fn window_and_dashboard_keep_the_same_rows() {
    let cfg = Config::default();
    let mut s = AppState::new(&cfg);
    let mut g = GuiState::new(&cfg);
    s.ingest(event(PUBLIC, Some(3)), Some(&london(PUBLIC)), &cfg, 1);
    g.ingest(event(PUBLIC, Some(3)), Some(&london(PUBLIC)), &cfg, 1);
    assert_eq!(g.dots.len(), 1);
    assert_eq!(gui::leading_countries(&g), [("GB".to_string(), 1)]);
    assert_eq!(g.log[0].city, s.log[0].city);
    assert_eq!(g.log[0].http_path, s.log[0].http_path);
    assert_eq!((g.total_events, g.bytes_total), (1, 3));
    g.request_clear();
    g.tick(&cfg, 1);
    assert!(g.dots.is_empty());
}

fn row() -> LogRow {
    LogRow {
        timestamp: Timestamp { secs: 3_661, nanos: 0 },
        src_ip: PUBLIC,
        country: "United Kingdom".to_string(),
        city: String::new(),
        proxy: Some(ProxyKind::Tor),
        http_status: Some(404),
        http_method: None,
        http_path: Some("/0123456789012345678901234567890123456789".to_string()),
        user_agent: None,
        protocol: "HTTP".to_string(),
        bytes: 0,
        source: Source::Log,
        severity: Severity::Alert,
    }
}

#[test]
fn rows_as_lines() {
    assert_eq!(
        row().fmt_line(),
        "01:01:01 8.8.8.8         United Kingdom \u{2014}              [TOR ] [ALRT] HTTP  404 \
         /0123456789012345678901234567890"
    );
    let plain = LogRow {
        country: String::new(),
        city: "Rome".to_string(),
        proxy: None,
        http_status: None,
        http_path: None,
        protocol: "IP/47".to_string(),
        severity: Severity::Info,
        ..row()
    };
    assert_eq!(
        plain.fmt_line(),
        "01:01:01 8.8.8.8         \u{2014}              Rome           [    ] [INFO] IP/47     "
    );
}
