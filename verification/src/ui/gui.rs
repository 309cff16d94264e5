//! The state behind the native window.

use std::collections::VecDeque;

use vstd::prelude::*;
use vstd::string::StringExecFns;

use crate::clock;
use crate::clock::Timestamp;
use crate::config::{Config, ConfigDiff};
use crate::event;
use crate::event::{ConnectionEvent, EventView, Severity, Source};
use crate::geo::lookup::{GeoInfo, GeoView, ProxyKind};
use crate::ip;
use crate::ip::{IpAddr, Key};
use crate::text;
use crate::ui::app;
use crate::ui::app::{DotView, MapDot, ProxyClass, Share};
use crate::ui::map_renderer::{HomeLocation, HomeView};
use crate::ui::panels;
use crate::ui::rolling;
use crate::ui::tally;
pub use crate::ui::tally::PerIpMetrics;
use crate::ui::tally::{CountryMap, IpMap};
use crate::units;

verus! {

/// One row of the live log in the window.
#[derive(Debug)]
pub struct LogRow {
    pub timestamp: Timestamp,
    pub src_ip: IpAddr,
    pub country: String,
    pub city: String,
    pub proxy: Option<ProxyKind>,
    pub http_status: Option<u16>,
    pub http_method: Option<String>,
    pub http_path: Option<String>,
    pub protocol: String,
    pub bytes: u64,
    pub source: Source,
    pub severity: Severity,
}

/// What a [`LogRow`] says.
#[verifier::ext_equal]
pub struct GuiRowView {
    pub timestamp: Timestamp,
    pub src_ip: IpAddr,
    pub country: Seq<char>,
    pub city: Seq<char>,
    pub proxy: Option<ProxyKind>,
    pub http_status: Option<u16>,
    pub http_method: Option<Seq<char>>,
    pub http_path: Option<Seq<char>>,
    pub protocol: Seq<char>,
    pub bytes: u64,
    pub source: Source,
    pub severity: Severity,
}

impl View for LogRow {
    type V = GuiRowView;

    open spec fn view(&self) -> GuiRowView {
        GuiRowView {
            timestamp: self.timestamp,
            src_ip: self.src_ip,
            country: self.country@,
            city: self.city@,
            proxy: self.proxy,
            http_status: self.http_status,
            http_method: text::text_of(self.http_method),
            http_path: text::text_of(self.http_path),
            protocol: self.protocol@,
            bytes: self.bytes,
            source: self.source,
            severity: self.severity,
        }
    }
}

/// The views of a sequence of rows.
pub open spec fn row_views(rows: Seq<LogRow>) -> Seq<GuiRowView> {
    rows.map_values(|r: LogRow| r@)
}

/// The row for an event.
pub open spec fn row_for(ev: EventView, info: Option<GeoView>, severity: Severity) -> GuiRowView {
    let row = app::row_for(ev, info, severity);
    GuiRowView {
        timestamp: row.timestamp,
        src_ip: row.src_ip,
        country: row.country,
        city: row.city,
        proxy: row.proxy,
        http_status: row.http_status,
        http_method: row.http_method,
        http_path: row.http_path,
        protocol: row.protocol,
        bytes: row.bytes,
        source: row.source,
        severity: row.severity,
    }
}

fn make_row(ev: ConnectionEvent, info: Option<&GeoInfo>, severity: Severity) -> (row: LogRow)
    ensures
        row@ == row_for(ev@, app::geo_view(info), severity),
{
    let row: app::LogRow = app::make_row(ev, info, severity);
    LogRow {
        timestamp: row.timestamp,
        src_ip: row.src_ip,
        country: row.country,
        city: row.city,
        proxy: row.proxy,
        http_status: row.http_status,
        http_method: row.http_method,
        http_path: row.http_path,
        protocol: row.protocol,
        bytes: row.bytes,
        source: row.source,
        severity: row.severity,
    }
}

/// State shared between ingestion and the window.
pub struct GuiState {
    pub dots: VecDeque<MapDot>,
    pub log: VecDeque<LogRow>,
    pub per_ip: IpMap,
    pub per_country: CountryMap,
    pub total_events: u64,
    pub bytes_total: u64,
    pub throughput_ring: VecDeque<u64>,
    pub paused: bool,
    pub clear_requested: bool,
    pub connection_lines: bool,
    pub should_quit: bool,
}

/// What a [`GuiState`] says.
#[verifier::ext_equal]
pub struct GuiView {
    pub dots: Seq<DotView>,
    pub log: Seq<GuiRowView>,
    pub per_ip: Map<Key, PerIpMetrics>,
    pub per_country: Map<Seq<char>, u64>,
    pub total_events: u64,
    pub bytes_total: u64,
    pub throughput_ring: Seq<u64>,
    pub paused: bool,
    pub clear_requested: bool,
    pub connection_lines: bool,
    pub should_quit: bool,
}

impl View for GuiState {
    type V = GuiView;

    open spec fn view(&self) -> GuiView {
        GuiView {
            dots: app::dot_views(self.dots@),
            log: row_views(self.log@),
            per_ip: tally::ip_counts(self.per_ip),
            per_country: tally::country_counts(self.per_country),
            total_events: self.total_events,
            bytes_total: self.bytes_total,
            throughput_ring: self.throughput_ring@,
            paused: self.paused,
            clear_requested: self.clear_requested,
            connection_lines: self.connection_lines,
            should_quit: self.should_quit,
        }
    }
}

impl GuiView {
    /// The bounds that every operation keeps.
    pub open spec fn well_formed(self) -> bool {
        &&& self.log.len() <= app::MAX_LOG_ROWS
        &&& self.throughput_ring.len() <= rolling::RING_BINS
        &&& rolling::sum(self.throughput_ring) <= self.total_events
        &&& forall|k: Key|
            self.per_ip.contains_key(k) ==> (#[trigger] self.per_ip[k]).hits <= self.total_events
        &&& forall|c: Seq<char>|
            self.per_country.contains_key(c) ==> #[trigger] self.per_country[c]
                <= self.total_events
    }

    /// Whether the counters can take an event with the given number of bytes.
    pub open spec fn has_room(self, bytes: Option<u64>) -> bool {
        &&& self.total_events < u64::MAX
        &&& self.bytes_total + app::byte_count(bytes) <= u64::MAX
    }
}

/// The state at the start.
pub open spec fn initial(lines: bool) -> GuiView {
    GuiView {
        dots: Seq::empty(),
        log: Seq::empty(),
        per_ip: Map::empty(),
        per_country: Map::empty(),
        total_events: 0,
        bytes_total: 0,
        throughput_ring: Seq::empty(),
        paused: false,
        clear_requested: false,
        connection_lines: lines,
        should_quit: false,
    }
}

/// The state after a tick at `now`: the dots are wiped if that was asked for,
/// those that expired are forgotten, and a bin begins.
pub open spec fn after_tick(a: GuiView, ttl: u64, max_markers: int, now: u64) -> GuiView {
    let cleared = if a.clear_requested {
        Seq::empty()
    } else {
        a.dots
    };
    GuiView {
        dots: rolling::keep_last(app::unexpired(cleared, now, ttl), max_markers),
        clear_requested: false,
        throughput_ring: rolling::advanced(a.throughput_ring, 1),
        ..a
    }
}

/// The state after an event with geolocation `info` was seen at `now`.
pub open spec fn after_event(
    a: GuiView,
    ev: EventView,
    info: Option<GeoView>,
    max_markers: int,
    now: u64,
) -> GuiView {
    let key = ip::key_of(ev.src_ip);
    let hits = tally::hits_of(a.per_ip, key) + 1;
    let severity = app::escalated(hits, app::proxy_of(info), ev.severity);
    GuiView {
        dots: app::plotted(
            a.dots,
            !a.paused,
            app::dot_for(ev.src_ip, info, severity, now),
            max_markers,
        ),
        log: rolling::rolled(a.log, row_for(ev, info, severity), app::MAX_LOG_ROWS as int),
        per_ip: a.per_ip.insert(key, PerIpMetrics { hits: hits as u64, last_seen: ev.timestamp }),
        per_country: app::country_counted(a.per_country, info),
        total_events: (a.total_events + 1) as u64,
        bytes_total: (a.bytes_total + app::byte_count(ev.bytes)) as u64,
        throughput_ring: rolling::counted(a.throughput_ring),
        ..a
    }
}

impl GuiState {
    /// An empty window.
    pub fn new(cfg: &Config) -> (state: GuiState)
        ensures
            state@ == initial(cfg.connection_lines.enabled),
            state@.well_formed(),
    {
        let state: GuiState = GuiState {
            dots: VecDeque::new(),
            log: VecDeque::new(),
            per_ip: tally::new_ip_map(),
            per_country: tally::new_country_map(),
            total_events: 0,
            bytes_total: 0,
            throughput_ring: VecDeque::new(),
            paused: false,
            clear_requested: false,
            connection_lines: cfg.connection_lines.enabled,
            should_quit: false,
        };
        assert(state@ =~= initial(cfg.connection_lines.enabled));
        state
    }

    /// Whether plotting is off.
    pub fn is_paused(&self) -> (yes: bool)
        ensures
            yes == self@.paused,
    {
        self.paused
    }

    /// Switches plotting off or on.
    pub fn toggle_pause(&mut self)
        ensures
            final(self)@ == (GuiView { paused: !old(self)@.paused, ..old(self)@ }),
    {
        self.paused = !self.paused;
    }

    /// Asks for all dots to be wiped on the next tick.
    pub fn request_clear(&mut self)
        ensures
            final(self)@ == (GuiView { clear_requested: true, ..old(self)@ }),
    {
        self.clear_requested = true;
    }

    /// Switches the connection lines off or on.
    pub fn toggle_lines(&mut self)
        ensures
            final(self)@ == (GuiView { connection_lines: !old(self)@.connection_lines, ..old(self)@ }),
    {
        self.connection_lines = !self.connection_lines;
    }

    /// Asks for the window to close.
    pub fn quit(&mut self)
        ensures
            final(self)@ == (GuiView { should_quit: true, ..old(self)@ }),
    {
        self.should_quit = true;
    }

    /// Whether the window should close.
    pub fn should_quit(&self) -> (yes: bool)
        ensures
            yes == self@.should_quit,
    {
        self.should_quit
    }

    /// Ages out old dots and advances the throughput ring.
    pub fn tick(&mut self, cfg: &Config, now: u64)
        requires
            old(self)@.well_formed(),
        ensures
            final(self)@ == after_tick(
                old(self)@,
                cfg.marker_ttl_seconds,
                cfg.max_markers as int,
                now,
            ),
            final(self)@.well_formed(),
    {
        let ghost before = self@;
        if self.clear_requested {
            self.dots.clear();
            assert(app::dot_views(self.dots@) =~= Seq::empty());
        }
        self.clear_requested = false;
        app::expire_dots(&mut self.dots, now, cfg.marker_ttl());
        let ghost alive = self.dots@;
        rolling::trim_to(&mut self.dots, cfg.max_markers);
        assert(app::dot_views(self.dots@) =~= rolling::keep_last(
            app::dot_views(alive),
            cfg.max_markers as int,
        ));
        rolling::begin_bin(&mut self.throughput_ring);
        assert(self@ =~= after_tick(
            before,
            cfg.marker_ttl_seconds,
            cfg.max_markers as int,
            now,
        ));
    }

    /// Whether the counters can take an event with the given number of bytes.
    pub fn has_room(&self, bytes: Option<u64>) -> (yes: bool)
        ensures
            yes == self@.has_room(bytes),
    {
        let n: u64 = match bytes {
            Some(n) => n,
            None => 0,
        };
        self.total_events < u64::MAX && self.bytes_total <= u64::MAX - n
    }

    /// Pushes a freshly ingested event into all structures. `info` may be
    /// `None` for addresses that cannot be geolocated; the event is still
    /// logged and counted.
    pub fn ingest(&mut self, ev: ConnectionEvent, info: Option<&GeoInfo>, cfg: &Config, now: u64)
        requires
            old(self)@.well_formed(),
            old(self)@.has_room(ev.bytes),
        ensures
            final(self)@ == after_event(
                old(self)@,
                ev@,
                app::geo_view(info),
                cfg.max_markers as int,
                now,
            ),
            final(self)@.well_formed(),
    {
        let ghost before = self@;
        let ghost event = ev@;
        let hits: u64 = tally::count_ip(&mut self.per_ip, ev.src_ip.key(), ev.timestamp);
        let proxy: Option<ProxyKind> = match info {
            Some(geo) => geo.proxy_kind,
            None => None,
        };
        let severity: Severity = app::escalate(hits, proxy, ev.severity);
        let dot: Option<MapDot> = app::make_dot(ev.src_ip, info, severity, now);
        app::add_dot(&mut self.dots, !self.paused, dot, cfg.max_markers);
        if let Some(geo) = info {
            let key: String = app::make_country_key(geo);
            assert(before.per_country.contains_key(key@) ==> before.per_country[key@]
                <= before.total_events);
            tally::count_country(&mut self.per_country, key);
        }
        let bytes: Option<u64> = ev.bytes;
        let row: LogRow = make_row(ev, info, severity);
        let ghost rows = self.log@;
        rolling::roll(&mut self.log, row, app::MAX_LOG_ROWS);
        assert(row_views(self.log@) =~= rolling::rolled(
            row_views(rows),
            row@,
            app::MAX_LOG_ROWS as int,
        ));
        rolling::count_in_ring(&mut self.throughput_ring);
        if let Some(n) = bytes {
            self.bytes_total = self.bytes_total + n;
        }
        self.total_events = self.total_events + 1;
        assert(self@ =~= after_event(
            before,
            event,
            app::geo_view(info),
            cfg.max_markers as int,
            now,
        ));
        proof {
            event_keeps_bounds(before, event, app::geo_view(info), cfg.max_markers as int, now);
        }
    }

    /// Events in the ring, over the number of its bins.
    pub fn events_per_sec(&self) -> (share: Share)
        requires
            self@.well_formed(),
        ensures
            share == app::rate(self@.throughput_ring),
    {
        app::ring_rate(&self.throughput_ring)
    }

    /// The share of proxies among the dots.
    pub fn proxy_pct(&self) -> (share: Share)
        ensures
            share == app::proxy_share(self@.dots, ProxyClass::Any),
    {
        app::share_of_proxies(&self.dots, ProxyClass::Any)
    }
}

/// Every event keeps the bounds of the state.
pub proof fn event_keeps_bounds(
    a: GuiView,
    ev: EventView,
    info: Option<GeoView>,
    max_markers: int,
    now: u64,
)
    requires
        a.well_formed(),
        a.has_room(ev.bytes),
    ensures
        after_event(a, ev, info, max_markers, now).well_formed(),
{
    let b = after_event(a, ev, info, max_markers, now);
    let ring = a.throughput_ring;
    if ring.len() > 0 {
        rolling::item_at_most_sum(ring, ring.len() - 1);
        assert(rolling::counted(ring).drop_last() =~= ring.drop_last());
    }
    assert forall|k: Key| b.per_ip.contains_key(k) implies (#[trigger] b.per_ip[k]).hits
        <= b.total_events by {
        let key = ip::key_of(ev.src_ip);
        if k == key {
            if a.per_ip.contains_key(key) {
                assert(a.per_ip[key].hits <= a.total_events);
            }
        } else {
            assert(a.per_ip.contains_key(k));
        }
    }
    assert forall|c: Seq<char>| b.per_country.contains_key(c) implies #[trigger] b.per_country[c]
        <= b.total_events by {
        match info {
            None => {
                assert(a.per_country.contains_key(c));
            },
            Some(geo) => {
                let key = app::country_key(geo);
                if c == key {
                    if a.per_country.contains_key(key) {
                        assert(a.per_country[key] <= a.total_events);
                    }
                } else {
                    assert(a.per_country.contains_key(c));
                }
            },
        }
    }
}

/// An event that cannot be geolocated is still logged and counted, without a
/// dot and without a country.
pub proof fn unlocated_events_are_logged(a: GuiView, ev: EventView, max_markers: int, now: u64)
    requires
        a.has_room(ev.bytes),
    ensures
        ({
            let b = after_event(a, ev, None, max_markers, now);
            &&& b.dots == a.dots
            &&& b.per_country == a.per_country
            &&& b.total_events == a.total_events + 1
            &&& b.log.last().src_ip == ev.src_ip
        }),
{
}

/// The terminal and the window do the same with an event: if they agree on
/// dots and counters before, they agree after.
pub proof fn window_and_terminal_agree(
    a: GuiView,
    t: app::AppView,
    ev: EventView,
    info: Option<GeoView>,
    max_markers: int,
    now: u64,
)
    requires
        a.dots == t.dots,
        a.per_ip == t.per_ip,
        a.per_country == t.per_country,
        a.total_events == t.stats.total_events,
        a.bytes_total == t.stats.bytes_total,
        a.throughput_ring == t.throughput_ring,
        a.paused == t.paused,
    ensures
        ({
            let b = after_event(a, ev, info, max_markers, now);
            let u = app::after_event(t, ev, info, max_markers, now);
            &&& b.dots == u.dots
            &&& b.per_ip == u.per_ip
            &&& b.per_country == u.per_country
            &&& b.total_events == u.stats.total_events
            &&& b.bytes_total == u.stats.bytes_total
            &&& b.throughput_ring == u.throughput_ring
            &&& b.paused == u.paused
        }),
{
}

/// An event becomes the last row of the window's log. It shows what the event
/// says and what is known of its address: country, city and proxy. Of the rows
/// before it all stay, but the first one where there are two thousand.
pub proof fn an_event_is_logged(
    a: GuiView,
    ev: EventView,
    info: Option<GeoView>,
    max_markers: int,
    now: u64,
)
    requires
        a.log.len() <= 2000,
    ensures
        ({
            let b = after_event(a, ev, info, max_markers, now);
            let row = b.log.last();
            &&& b.log.len() == if a.log.len() < 2000 {
                a.log.len() + 1
            } else {
                2000
            }
            &&& forall|i: int|
                0 <= i < b.log.len() - 1 ==> #[trigger] b.log[i] == a.log[i + a.log.len() + 1
                    - b.log.len()]
            &&& row.timestamp == ev.timestamp
            &&& row.src_ip == ev.src_ip
            &&& row.http_status == ev.http_status
            &&& row.http_method == ev.http_method
            &&& row.http_path == ev.http_path
            &&& row.protocol == ev.protocol
            &&& row.source == ev.source
            &&& ev.bytes matches Some(n) ==> row.bytes == n
            &&& ev.bytes is None ==> row.bytes == 0
            &&& info matches Some(geo) ==> row.proxy == geo.proxy_kind
            &&& info matches Some(geo) ==> (geo.country_name matches Some(name) ==> row.country
                == name)
            &&& info matches Some(geo) ==> (geo.country_name is None ==> row.country.len() == 0)
            &&& info matches Some(geo) ==> (geo.city matches Some(name) ==> row.city == name)
            &&& info matches Some(geo) ==> (geo.city is None ==> row.city.len() == 0)
            &&& info is None ==> row.proxy is None && row.country.len() == 0 && row.city.len() == 0
        }),
{
    let b = after_event(a, ev, info, max_markers, now);
    assert forall|i: int| 0 <= i < b.log.len() - 1 implies #[trigger] b.log[i] == a.log[i
        + a.log.len() + 1 - b.log.len()] by {}
}

/// An event counts once: as an event, with its bytes, for its address, for its
/// country if it is known, and in the running bin. Nothing else of the counters
/// changes, and no switch is moved.
pub proof fn an_event_is_counted(
    a: GuiView,
    ev: EventView,
    info: Option<GeoView>,
    max_markers: int,
    now: u64,
    k: Key,
    c: Seq<char>,
)
    requires
        a.well_formed(),
        a.has_room(ev.bytes),
    ensures
        ({
            let b = after_event(a, ev, info, max_markers, now);
            let own = ip::key_of(ev.src_ip);
            let ring = a.throughput_ring;
            &&& b.total_events == a.total_events + 1
            &&& ev.bytes matches Some(n) ==> b.bytes_total == a.bytes_total + n
            &&& ev.bytes is None ==> b.bytes_total == a.bytes_total
            &&& b.per_ip.contains_key(own)
            &&& b.per_ip[own].last_seen == ev.timestamp
            &&& b.per_ip[own].hits == if a.per_ip.contains_key(own) {
                a.per_ip[own].hits + 1
            } else {
                1
            }
            &&& k != own ==> b.per_ip.contains_key(k) == a.per_ip.contains_key(k)
            &&& k != own ==> b.per_ip[k] == a.per_ip[k]
            &&& info is None ==> b.per_country == a.per_country
            &&& info matches Some(geo) ==> {
                let home = if geo.country_code is Some {
                    geo.country_code->0
                } else if geo.country_name is Some {
                    geo.country_name->0
                } else {
                    "??"@
                };
                &&& b.per_country.contains_key(home)
                &&& b.per_country[home] == if a.per_country.contains_key(home) {
                    a.per_country[home] + 1
                } else {
                    1
                }
                &&& c != home ==> b.per_country.contains_key(c) == a.per_country.contains_key(c)
                &&& c != home ==> b.per_country[c] == a.per_country[c]
            }
            &&& b.throughput_ring.len() == ring.len()
            &&& ring.len() > 0 ==> b.throughput_ring.last() == ring.last() + 1
            &&& forall|i: int|
                0 <= i < ring.len() - 1 ==> #[trigger] b.throughput_ring[i] == ring[i]
            &&& b.paused == a.paused
            &&& b.clear_requested == a.clear_requested
            &&& b.connection_lines == a.connection_lines
            &&& b.should_quit == a.should_quit
        }),
{
    let own = ip::key_of(ev.src_ip);
    let ring = a.throughput_ring;
    if a.per_ip.contains_key(own) {
        assert(a.per_ip[own].hits <= a.total_events);
    }
    if ring.len() > 0 {
        rolling::item_at_most_sum(ring, ring.len() - 1);
    }
    if info is Some {
        let home = app::country_key(info->0);
        if a.per_country.contains_key(home) {
            assert(a.per_country[home] <= a.total_events);
        }
    }
}

/// An event gets a dot if and only if plotting is on, both coordinates are
/// known and the address can be plotted. The dot stands where the address is,
/// and shows what the row in the log shows. Of the other dots all stay, but the
/// oldest one where there would be too many.
pub proof fn an_event_is_plotted(
    a: GuiView,
    ev: EventView,
    info: Option<GeoView>,
    max_markers: int,
    now: u64,
)
    requires
        max_markers > 0,
    ensures
        ({
            let b = after_event(a, ev, info, max_markers, now);
            let d = b.dots.last();
            let row = b.log.last();
            let located = info is Some && info->0.latitude is Some && info->0.longitude is Some;
            let gone = a.dots.len() + 1 - b.dots.len();
            &&& a.paused || !located || !event::plottable(ev.src_ip) ==> b.dots == a.dots
            &&& !a.paused && located && event::plottable(ev.src_ip) ==> {
                &&& gone == if a.dots.len() < max_markers {
                    0int
                } else {
                    1
                }
                &&& forall|i: int|
                    0 <= i < b.dots.len() - 1 ==> #[trigger] b.dots[i] == a.dots[i + gone]
                &&& b.dots.len() > 0
                &&& Some(d.lat) == info->0.latitude
                &&& Some(d.lon) == info->0.longitude
                &&& d.src_ip == ev.src_ip
                &&& d.created_at == now
                &&& d.proxy == info->0.proxy_kind
                &&& d.severity == row.severity
                &&& d.country == row.country
                &&& d.city == row.city
            }
        }),
{
}

/// The severity that is shown: with its thirtieth event an address becomes a
/// warning and stays one; until then a known proxy is an alert, and everybody
/// else is as severe as the event itself.
pub proof fn shown_severity(
    a: GuiView,
    ev: EventView,
    info: Option<GeoView>,
    max_markers: int,
    now: u64,
)
    ensures
        ({
            let own = ip::key_of(ev.src_ip);
            let many = a.per_ip.contains_key(own) && a.per_ip[own].hits >= 29;
            let proxy = info is Some && info->0.proxy_kind is Some;
            let shown = after_event(a, ev, info, max_markers, now).log.last().severity;
            &&& many ==> shown == Severity::Warn
            &&& !many && proxy ==> shown == Severity::Alert
            &&& !many && !proxy ==> shown == ev.severity
        }),
{
}

/// A tick of the window forgets exactly the dots that are too old or too many,
/// whether plotting is on or not: what is left are the newest dots, none older
/// than the lifetime in seconds, at most as many as allowed; and of the last
/// ones allowed each that is not too old is still there.
pub proof fn a_tick_ages_the_map(a: GuiView, ttl: u64, max_markers: int, now: u64)
    requires
        app::in_order(a.dots),
        max_markers >= 0,
        !a.clear_requested,
    ensures
        ({
            let dots = after_tick(a, ttl, max_markers, now).dots;
            let gone = a.dots.len() - dots.len();
            &&& 0 <= gone
            &&& dots == a.dots.skip(gone)
            &&& dots.len() <= max_markers
            &&& forall|i: int|
                0 <= i < dots.len() ==> (#[trigger] dots[i]).created_at + ttl * 1_000_000_000
                    >= now
            &&& forall|i: int|
                0 <= i < gone && a.dots.len() - i <= max_markers ==> (
                #[trigger] a.dots[i]).created_at + ttl * 1_000_000_000 < now
        }),
{
    let dots = after_tick(a, ttl, max_markers, now).dots;
    app::only_old_dots_expire(a.dots, now, ttl);
    let alive = app::unexpired(a.dots, now, ttl);
    let cut = a.dots.len() - alive.len();
    let gone = a.dots.len() - dots.len();
    assert(dots =~= a.dots.skip(gone));
    assert forall|i: int| 0 <= i < dots.len() implies (#[trigger] dots[i]).created_at + ttl
        * 1_000_000_000 >= now by {
        assert(dots[i] == a.dots[i + gone]);
        assert(alive[0] == a.dots[cut]);
        if i + gone > cut {
            assert(a.dots[cut].created_at <= a.dots[i + gone].created_at);
        }
    }
    assert forall|i: int| 0 <= i < gone && a.dots.len() - i <= max_markers implies (
    #[trigger] a.dots[i]).created_at + ttl * 1_000_000_000 < now by {
        assert(i < cut);
    }
}

/// Once a clear was asked for, the next tick wipes all dots of the window, and
/// the request is done with.
pub proof fn clear_wipes_all_dots(a: GuiView, ttl: u64, max_markers: int, now: u64)
    requires
        a.clear_requested,
        max_markers >= 0,
    ensures
        after_tick(a, ttl, max_markers, now).dots.len() == 0,
        !after_tick(a, ttl, max_markers, now).clear_requested,
{
}

/// A tick of the window begins one empty bin behind the others, of which the
/// last one hundred and twenty are kept; log, counters and switches stay.
pub proof fn a_tick_begins_a_bin(a: GuiView, ttl: u64, max_markers: int, now: u64)
    requires
        a.throughput_ring.len() <= 120,
    ensures
        ({
            let b = after_tick(a, ttl, max_markers, now);
            let ring = b.throughput_ring;
            let gone = a.throughput_ring.len() + 1 - ring.len();
            &&& gone == if a.throughput_ring.len() < 120 {
                0int
            } else {
                1
            }
            &&& ring.len() > 0 && ring.last() == 0
            &&& forall|i: int|
                0 <= i < ring.len() - 1 ==> #[trigger] ring[i] == a.throughput_ring[i + gone]
            &&& b.log == a.log
            &&& b.per_ip == a.per_ip
            &&& b.per_country == a.per_country
            &&& b.total_events == a.total_events
            &&& b.bytes_total == a.bytes_total
            &&& b.paused == a.paused
            &&& b.connection_lines == a.connection_lines
            &&& b.should_quit == a.should_quit
            &&& !b.clear_requested
        }),
{
}

/// A window starts without dots, rows and counts and with nothing switched, but
/// for the lines, which are as configured.
pub proof fn a_window_starts_empty(lines: bool)
    ensures
        ({
            let a = initial(lines);
            &&& a.dots.len() == 0 && a.log.len() == 0 && a.throughput_ring.len() == 0
            &&& a.per_ip =~= Map::empty() && a.per_country =~= Map::empty()
            &&& a.total_events == 0 && a.bytes_total == 0
            &&& !a.paused && !a.clear_requested && !a.should_quit
            &&& a.connection_lines == lines
        }),
{
}

// ---------------------------------------------------------------------------
// What the window says
// ---------------------------------------------------------------------------

/// What a reloaded configuration changes in the window.
#[derive(Clone, Copy, Debug, PartialEq, Eq, Structural)]
pub struct Reload {
    /// Take the home marker from the configuration.
    pub home: bool,
    /// Apply the fonts.
    pub fonts: bool,
    /// Resize the window.
    pub window: bool,
    /// Remember the configuration as the one that was applied.
    pub remember: bool,
}

/// What a reloaded configuration changes.
pub open spec fn reload_for(diff: ConfigDiff) -> Reload {
    Reload {
        home: diff.home,
        fonts: diff.gui_font,
        window: diff.window,
        remember: diff.changed(),
    }
}

/// A reload touches what the user edited and nothing else: the detected home
/// stays unless the home settings were edited. Whatever was edited, the new
/// configuration is remembered.
pub proof fn reloads_touch_what_was_edited(diff: ConfigDiff)
    ensures
        reload_for(diff).home <==> diff.home,
        reload_for(diff).fonts <==> diff.gui_font,
        reload_for(diff).window <==> diff.window,
        diff.home || diff.gui_font || diff.window ==> reload_for(diff).remember,
        reload_for(diff).remember ==> diff.changed(),
{
}

/// Decides what a reloaded configuration changes. The home marker is taken
/// from it only if the user edited the home settings; otherwise the detected
/// home stays.
pub fn plan_reload(diff: &ConfigDiff) -> (plan: Reload)
    ensures
        plan == reload_for(*diff),
{
    Reload {
        home: diff.home,
        fonts: diff.gui_font,
        window: diff.window,
        remember: diff.any(),
    }
}

/// The texts of the status bar.
pub open spec fn status_texts(state: GuiView, rate: Seq<char>) -> Seq<Seq<char>> {
    let note = if state.paused {
        seq!["\u{23F8} PAUSED"@]
    } else {
        Seq::empty()
    };
    seq![
        "\u{25CF} "@ + text::decimal(state.dots.len()) + " active"@,
        rate + " evt/s"@,
        "events: "@ + text::decimal(state.total_events as nat),
        "bytes: "@ + units::byte_text(state.bytes_total as int),
    ] + note
}

/// The texts of the status bar; `rate` is the text of the events per second.
pub fn status_bar(state: &GuiState, rate: &str) -> (out: Vec<String>)
    ensures
        text::texts(out@) == status_texts(state@, rate@),
{
    let mut out: Vec<String> = Vec::new();
    let mut active: String = "\u{25CF} ".to_owned();
    active.append(text::decimal_text(state.dots.len() as u64).as_str());
    active.append(" active");
    let mut per_second: String = rate.to_owned();
    per_second.append(" evt/s");
    let mut events: String = "events: ".to_owned();
    events.append(text::decimal_text(state.total_events).as_str());
    let mut bytes: String = "bytes: ".to_owned();
    bytes.append(units::human_bytes(state.bytes_total).as_str());
    out.push(active);
    out.push(per_second);
    out.push(events);
    out.push(bytes);
    if state.paused {
        out.push("\u{23F8} PAUSED".to_owned());
    }
    assert(state@.dots.len() == state.dots@.len());
    assert(text::texts(out@) =~= status_texts(state@, rate@));
    out
}

/// How many bytes of a path the window shows.
pub const WINDOW_PATH_BYTES: usize = 50;

/// The cells of a log row: time, address, proxy tag, country, city, status and
/// path.
pub open spec fn row_texts(r: GuiRowView) -> Seq<Seq<char>> {
    seq![
        clock::time_of_day(r.timestamp),
        ip::ip_text(r.src_ip),
        "["@ + app::proxy_tag(r.proxy) + "]"@,
        text::pad_right(r.country, 14),
        text::pad_right(r.city, 14),
        app::status_or(r.http_status, ""@),
        app::path_or_empty(r.http_path, WINDOW_PATH_BYTES as int),
    ]
}

/// The cells of a log row.
pub fn row_cells(r: &LogRow) -> (out: Vec<String>)
    requires
        r.timestamp.valid(),
        app::path_fits(r@.http_path, WINDOW_PATH_BYTES as int),
    ensures
        text::texts(out@) == row_texts(r@),
{
    let mut out: Vec<String> = Vec::new();
    out.push(clock::clock_text(r.timestamp));
    out.push(r.src_ip.to_text());
    let mut proxy: String = "[".to_owned();
    proxy.append(app::proxy_label(r.proxy));
    proxy.append("]");
    out.push(proxy);
    let mut country: String = String::new();
    text::push_padded(&mut country, r.country.as_str(), 14);
    assert(country@ =~= text::pad_right(r.country@, 14));
    out.push(country);
    let mut city: String = String::new();
    text::push_padded(&mut city, r.city.as_str(), 14);
    assert(city@ =~= text::pad_right(r.city@, 14));
    out.push(city);
    out.push(app::status_text(r.http_status, ""));
    out.push(app::short_path(&r.http_path, WINDOW_PATH_BYTES));
    assert(text::texts(out@) =~= row_texts(r@));
    out
}

/// The positions of the newest rows out of `total`, newest first.
pub open spec fn newest(total: usize, limit: usize) -> Seq<usize> {
    Seq::new(
        if total < limit {
            total as nat
        } else {
            limit as nat
        },
        |i: int| (total - 1 - i) as usize,
    )
}

/// The newest row comes first and each is followed by the one before it. All
/// rows are shown where there is room for them, and else the newest only.
pub proof fn newest_rows_come_first(total: usize, limit: usize, i: int)
    ensures
        total <= limit ==> newest(total, limit).len() == total,
        total > limit ==> newest(total, limit).len() == limit,
        newest(total, limit).len() > 0 ==> newest(total, limit)[0] == total - 1,
        0 < i < newest(total, limit).len() ==> newest(total, limit)[i] == newest(total, limit)[i - 1]
            - 1,
{
}

/// The positions of the rows that are shown, newest first.
pub fn newest_rows(total: usize, limit: usize) -> (out: Vec<usize>)
    ensures
        out@.len() == if total < limit {
            total
        } else {
            limit
        },
        forall|i: int| 0 <= i < out@.len() ==> #[trigger] out@[i] == total - 1 - i,
        out@ == newest(total, limit),
{
    let mut out: Vec<usize> = Vec::new();
    let mut i: usize = 0;
    while i < total && i < limit
        invariant
            i <= total,
            i <= limit,
            out@.len() == i,
            forall|k: int| 0 <= k < i ==> #[trigger] out@[k] == total - 1 - k,
        decreases total - i,
    {
        out.push(total - 1 - i);
        i = i + 1;
    }
    assert(out@ =~= newest(total, limit));
    out
}

/// The countries with the largest counts. Among equal counts the order is that
/// of the map of counters, which is not fixed.
pub fn leading_countries(state: &GuiState) -> (top: Vec<(String, u64)>)
    ensures
        exists|list: Seq<(String, u64)>|
            #![trigger panels::talkers(list)]
            tally::lists_map(list, state@.per_country) && panels::talkers(top@)
                == panels::leaders(panels::talkers(list)),
{
    let list: Vec<(String, u64)> = tally::country_list(&state.per_country);
    panels::top_talkers(list)
}

/// The height of the tallest bar of a sparkline, at least one.
pub open spec fn tallest(bins: Seq<u64>) -> u64
    decreases bins.len(),
{
    if bins.len() == 0 {
        1
    } else if bins.last() > tallest(bins.drop_last()) {
        bins.last()
    } else {
        tallest(bins.drop_last())
    }
}

/// Finds the height of the tallest bar of a sparkline, at least one.
pub fn sparkline_height(bins: &VecDeque<u64>) -> (max: u64)
    ensures
        max == tallest(bins@),
{
    let mut max: u64 = 1;
    let mut i: usize = 0;
    assert(bins@.take(0) =~= Seq::empty());
    while i < bins.len()
        invariant
            i <= bins@.len(),
            max == tallest(bins@.take(i as int)),
        decreases bins@.len() - i,
    {
        assert(bins@.take(i + 1).drop_last() =~= bins@.take(i as int));
        if bins[i] > max {
            max = bins[i];
        }
        i = i + 1;
    }
    assert(bins@.take(bins@.len() as int) =~= bins@);
    max
}

/// No bar is higher than the tallest, and there is a bar of that height unless
/// all are empty.
pub proof fn bars_fit(bins: Seq<u64>, i: int)
    requires
        0 <= i < bins.len(),
    ensures
        bins[i] <= tallest(bins),
        tallest(bins) == 1 || bins.contains(tallest(bins)),
    decreases bins.len(),
{
    let init = bins.drop_last();
    if i < init.len() {
        bars_fit(init, i);
        assert(init[i] == bins[i]);
    } else if init.len() > 0 {
        bars_fit(init, 0);
    }
    if tallest(bins) == bins.last() {
        assert(bins[bins.len() - 1] == tallest(bins));
    } else if init.len() > 0 && tallest(init) != 1 {
        let k = choose|k: int| 0 <= k < init.len() && init[k] == tallest(init);
        assert(bins[k] == init[k]);
    }
}

/// A line, or nothing where `value` is empty.
pub open spec fn line_if(label: Seq<char>, value: Seq<char>) -> Seq<Seq<char>> {
    if value.len() == 0 {
        Seq::empty()
    } else {
        seq![label + value]
    }
}

/// The tooltip of a dot, whose coordinates read `coords`.
pub open spec fn dot_tooltip(d: DotView, coords: Seq<char>) -> Seq<Seq<char>> {
    let proxy = match d.proxy {
        Some(p) => seq!["Proxy: "@ + p.tag()],
        None => Seq::empty(),
    };
    seq!["IP: "@ + ip::ip_text(d.src_ip)] + line_if("Country: "@, d.country) + line_if(
        "City: "@,
        d.city,
    ) + proxy + seq![coords]
}

fn push_line_if(out: &mut Vec<String>, label: &str, value: &String)
    ensures
        text::texts(final(out)@) == text::texts(old(out)@) + line_if(label@, value@),
{
    let ghost before = out@;
    if value.as_str().unicode_len() > 0 {
        let mut line: String = label.to_owned();
        line.append(value.as_str());
        out.push(line);
        assert(text::texts(out@) =~= text::texts(before).push(line@));
    }
    assert(text::texts(out@) =~= text::texts(before) + line_if(label@, value@));
}

/// The tooltip of a dot: address, country, city and proxy type as far as they
/// are known, and the coordinates.
pub fn marker_tooltip(d: &MapDot, coords: &str) -> (out: Vec<String>)
    ensures
        text::texts(out@) == dot_tooltip(d@, coords@),
{
    let mut out: Vec<String> = Vec::new();
    let mut address: String = "IP: ".to_owned();
    address.append(d.src_ip.to_text().as_str());
    out.push(address);
    assert(text::texts(out@) =~= seq!["IP: "@ + ip::ip_text(d.src_ip)]);
    push_line_if(&mut out, "Country: ", &d.country);
    push_line_if(&mut out, "City: ", &d.city);
    let ghost before = out@;
    if let Some(p) = d.proxy {
        let mut line: String = "Proxy: ".to_owned();
        line.append(p.label());
        out.push(line);
    }
    out.push(coords.to_owned());
    assert(text::texts(out@) =~= dot_tooltip(d@, coords@));
    out
}

/// The tooltip of the home marker, whose coordinates read `coords`.
pub open spec fn home_tooltip_texts(home: HomeView, coords: Seq<char>) -> Seq<Seq<char>> {
    let address = match home.ip {
        Some(a) => ip::ip_text(a),
        None => Seq::empty(),
    };
    let label = match home.label {
        Some(l) => seq![l],
        None => Seq::empty(),
    };
    seq!["Home: "@ + address] + label + seq![coords]
}

/// The tooltip of the home marker: public address, place and coordinates.
pub fn home_tooltip(home: &HomeLocation, coords: &str) -> (out: Vec<String>)
    ensures
        text::texts(out@) == home_tooltip_texts(home@, coords@),
{
    let mut out: Vec<String> = Vec::new();
    let mut address: String = "Home: ".to_owned();
    if let Some(a) = home.ip {
        address.append(a.to_text().as_str());
    }
    out.push(address);
    if let Some(l) = &home.label {
        out.push(l.clone());
    }
    out.push(coords.to_owned());
    assert(text::texts(out@)[0] =~= home_tooltip_texts(home@, coords@)[0]);
    assert(text::texts(out@) =~= home_tooltip_texts(home@, coords@));
    out
}

/// What a dot is labelled with when zoomed in: its city, else its country,
/// else nothing.
pub open spec fn dot_label(d: DotView) -> Seq<char> {
    if d.city.len() > 0 {
        d.city
    } else {
        d.country
    }
}

/// Finds what a dot is labelled with; `None` where nothing is known.
pub fn city_label(d: &MapDot) -> (label: Option<String>)
    ensures
        match label {
            Some(l) => l@ == dot_label(d@) && l@.len() > 0,
            None => dot_label(d@).len() == 0,
        },
{
    if d.city.as_str().unicode_len() > 0 {
        Some(d.city.clone())
    } else if d.country.as_str().unicode_len() > 0 {
        Some(d.country.clone())
    } else {
        None
    }
}

/// The keys that the window knows.
#[derive(Clone, Copy, Debug, PartialEq, Eq, Structural)]
pub enum GuiKey {
    Quit,
    Pause,
    Clear,
    Lines,
    ZoomIn,
    ZoomOut,
    ResetZoom,
}

/// What a key does to the map view.
#[derive(Clone, Copy, Debug, PartialEq, Eq, Structural)]
pub enum ZoomChange {
    Closer,
    Farther,
    WholeWorld,
}

/// The state after a key.
pub open spec fn after_key(a: GuiView, key: GuiKey) -> GuiView {
    match key {
        GuiKey::Quit => GuiView { should_quit: true, ..a },
        GuiKey::Pause => GuiView { paused: !a.paused, ..a },
        GuiKey::Clear => GuiView { clear_requested: true, ..a },
        GuiKey::Lines => GuiView { connection_lines: !a.connection_lines, ..a },
        _ => a,
    }
}

/// What a key does to the map view, if the map is shown.
pub open spec fn zoom_for(key: GuiKey, map_shown: bool) -> Option<ZoomChange> {
    match key {
        GuiKey::ZoomIn => if map_shown {
            Some(ZoomChange::Closer)
        } else {
            None
        },
        GuiKey::ZoomOut => if map_shown {
            Some(ZoomChange::Farther)
        } else {
            None
        },
        GuiKey::ResetZoom => if map_shown {
            Some(ZoomChange::WholeWorld)
        } else {
            None
        },
        _ => None,
    }
}

/// Handles a key of the window.
pub fn handle_key(state: &mut GuiState, key: GuiKey, map_shown: bool) -> (zoom: Option<ZoomChange>)
    ensures
        final(state)@ == after_key(old(state)@, key),
        zoom == zoom_for(key, map_shown),
{
    match key {
        GuiKey::Quit => {
            state.quit();
            None
        },
        GuiKey::Pause => {
            state.toggle_pause();
            None
        },
        GuiKey::Clear => {
            state.request_clear();
            None
        },
        GuiKey::Lines => {
            state.toggle_lines();
            None
        },
        GuiKey::ZoomIn => if map_shown {
            Some(ZoomChange::Closer)
        } else {
            None
        },
        GuiKey::ZoomOut => if map_shown {
            Some(ZoomChange::Farther)
        } else {
            None
        },
        GuiKey::ResetZoom => if map_shown {
            Some(ZoomChange::WholeWorld)
        } else {
            None
        },
    }
}

/// The switches of the window are switched back by the same key.
pub proof fn switches_switch_back(a: GuiView)
    ensures
        after_key(after_key(a, GuiKey::Pause), GuiKey::Pause) == a,
        after_key(after_key(a, GuiKey::Lines), GuiKey::Lines) == a,
{
}

/// A key moves its own switch and nothing else: quitting and clearing are asked
/// for, plotting and lines change over. The keys of the zoom change nothing but
/// the view, and that only where the map is shown.
pub proof fn keys_do_what_they_say(a: GuiView, key: GuiKey, map_shown: bool)
    ensures
        ({
            let b = after_key(a, key);
            let zoom = zoom_for(key, map_shown);
            &&& b.should_quit == (a.should_quit || key == GuiKey::Quit)
            &&& b.clear_requested == (a.clear_requested || key == GuiKey::Clear)
            &&& b.paused == (a.paused != (key == GuiKey::Pause))
            &&& b.connection_lines == (a.connection_lines != (key == GuiKey::Lines))
            &&& b.dots == a.dots && b.log == a.log && b.throughput_ring == a.throughput_ring
            &&& b.per_ip == a.per_ip && b.per_country == a.per_country
            &&& b.total_events == a.total_events && b.bytes_total == a.bytes_total
            &&& zoom is Some <==> map_shown && (key == GuiKey::ZoomIn || key == GuiKey::ZoomOut
                || key == GuiKey::ResetZoom)
            &&& map_shown && key == GuiKey::ZoomIn ==> zoom == Some(ZoomChange::Closer)
            &&& map_shown && key == GuiKey::ZoomOut ==> zoom == Some(ZoomChange::Farther)
            &&& map_shown && key == GuiKey::ResetZoom ==> zoom == Some(ZoomChange::WholeWorld)
        }),
{
}

/// The status bar names, in this order, the active dots, the rate, the events
/// and the bytes, and says that plotting is off if and only if it is.
pub proof fn the_status_bar_tells_the_numbers(a: GuiView, rate: Seq<char>)
    ensures
        ({
            let texts = status_texts(a, rate);
            &&& texts.len() == if a.paused {
                5int
            } else {
                4
            }
            &&& texts[0] == "\u{25CF} "@ + text::decimal(a.dots.len()) + " active"@
            &&& texts[1] == rate + " evt/s"@
            &&& texts[2] == "events: "@ + text::decimal(a.total_events as nat)
            &&& texts[3] == "bytes: "@ + units::byte_text(a.bytes_total as int)
            &&& a.paused ==> texts[4] == "\u{23F8} PAUSED"@
        }),
{
}

/// The cells of a row in the window: time, address, the tag of the proxy in
/// brackets, country and city in fields of fourteen, the status if there is
/// one, and at most fifty bytes of the path.
pub proof fn rows_show_their_fields(r: GuiRowView)
    ensures
        ({
            let cells = row_texts(r);
            &&& cells.len() == 7
            &&& cells[0] == clock::time_of_day(r.timestamp)
            &&& cells[1] == ip::ip_text(r.src_ip)
            &&& r.proxy matches Some(p) ==> cells[2] == "["@ + p.tag() + "]"@
            &&& r.proxy is None ==> cells[2] == "["@ + "    "@ + "]"@
            &&& cells[3].len() >= 14 && cells[4].len() >= 14
            &&& r.country.len() <= cells[3].len() && cells[3].take(r.country.len() as int)
                == r.country
            &&& r.city.len() <= cells[4].len() && cells[4].take(r.city.len() as int) == r.city
            &&& forall|i: int| r.country.len() <= i < cells[3].len() ==> #[trigger] cells[3][i] == ' '
            &&& forall|i: int| r.city.len() <= i < cells[4].len() ==> #[trigger] cells[4][i] == ' '
            &&& r.country.len() >= 14 || cells[3].len() == 14
            &&& r.city.len() >= 14 || cells[4].len() == 14
            &&& r.http_status matches Some(n) ==> cells[5] == text::decimal(n as nat)
            &&& r.http_status is None ==> cells[5].len() == 0
            &&& r.http_path matches Some(p) ==> cells[6] == crate::slices::shortened(p, 50)
            &&& r.http_path is None ==> cells[6].len() == 0
        }),
{
    reveal_strlit("");
    let cells = row_texts(r);
    assert(cells[3].take(r.country.len() as int) =~= r.country);
    assert(cells[4].take(r.city.len() as int) =~= r.city);
}

/// A tooltip begins with the address and ends with the coordinates; between
/// them stand country, city and proxy, each if it is known.
pub proof fn tooltips_tell_what_is_known(d: DotView, coords: Seq<char>)
    ensures
        ({
            let lines = dot_tooltip(d, coords);
            let country: int = if d.country.len() > 0 {
                1
            } else {
                0
            };
            let city: int = if d.city.len() > 0 {
                1
            } else {
                0
            };
            let proxy: int = if d.proxy is Some {
                1
            } else {
                0
            };
            &&& lines.len() == 2 + country + city + proxy
            &&& lines[0] == "IP: "@ + ip::ip_text(d.src_ip)
            &&& d.country.len() > 0 ==> lines[1] == "Country: "@ + d.country
            &&& d.city.len() > 0 ==> lines[1 + country] == "City: "@ + d.city
            &&& d.proxy matches Some(p) ==> lines[1 + country + city] == "Proxy: "@ + p.tag()
            &&& lines.last() == coords
        }),
{
}

/// The tooltip of the home marker: its address as far as it is known, its place
/// as far as it is known, and the coordinates.
pub proof fn the_home_tooltip_tells_what_is_known(home: HomeView, coords: Seq<char>)
    ensures
        ({
            let lines = home_tooltip_texts(home, coords);
            &&& lines.len() == if home.label is Some {
                3int
            } else {
                2
            }
            &&& home.ip matches Some(a) ==> lines[0] == "Home: "@ + ip::ip_text(a)
            &&& home.ip is None ==> lines[0] == "Home: "@
            &&& home.label matches Some(l) ==> lines[1] == l
            &&& lines.last() == coords
        }),
{
    assert(home.ip is None ==> home_tooltip_texts(home, coords)[0] =~= "Home: "@);
}

/// A dot is labelled with its city, where that is not known with its country,
/// and else not at all.
pub proof fn dots_are_labelled_with_their_place(d: DotView)
    ensures
        d.city.len() > 0 ==> dot_label(d) == d.city,
        d.city.len() == 0 ==> dot_label(d) == d.country,
{
}

/// The view of a row hides nothing of it.
pub proof fn views_show_all_of_a_row(r: LogRow)
    ensures
        r@.timestamp == r.timestamp && r@.src_ip == r.src_ip && r@.country == r.country@,
        r@.city == r.city@ && r@.proxy == r.proxy && r@.http_status == r.http_status,
        r@.protocol == r.protocol@ && r@.bytes == r.bytes && r@.source == r.source,
        r@.severity == r.severity,
        r.http_method matches Some(s) ==> r@.http_method == Some(s@),
        r.http_path matches Some(s) ==> r@.http_path == Some(s@),
        r.http_method is None ==> r@.http_method is None,
        r.http_path is None ==> r@.http_path is None,
{
}

/// The view of the window shows its dots and rows one by one, and its switches
/// and counters as they are.
pub proof fn views_show_all_of_the_window(a: GuiState, i: int)
    ensures
        a@.dots.len() == a.dots@.len() && a@.log.len() == a.log@.len(),
        0 <= i < a.dots@.len() ==> a@.dots[i] == a.dots@[i]@,
        0 <= i < a.log@.len() ==> a@.log[i] == a.log@[i]@,
        a@.total_events == a.total_events && a@.bytes_total == a.bytes_total,
        a@.throughput_ring == a.throughput_ring@ && a@.paused == a.paused,
        a@.clear_requested == a.clear_requested && a@.connection_lines == a.connection_lines,
        a@.should_quit == a.should_quit,
{
}

/// There is room for an event as long as neither the events nor the bytes can
/// no longer be counted.
pub proof fn room_is_left_until_a_counter_is_full(a: GuiView, bytes: Option<u64>)
    ensures
        a.has_room(None) <==> a.total_events < u64::MAX,
        a.total_events < u64::MAX ==> (bytes matches Some(n) ==> (a.has_room(bytes) <==> n
            <= u64::MAX - a.bytes_total)),
{
}

} // verus!
