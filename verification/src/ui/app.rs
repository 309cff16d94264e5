//! The state behind the terminal dashboard: everything the render loop reads.

use std::collections::VecDeque;

use vstd::prelude::*;
use vstd::string::StringExecFns;

use crate::clock;
use crate::clock::Timestamp;
use crate::config::Config;
use crate::event;
use crate::event::{ConnectionEvent, EventView, Severity, Source};
use crate::geo::lookup::{GeoInfo, GeoView, ProxyKind};
use crate::ieee::Double;
use crate::ip;
use crate::ip::{IpAddr, Key};
use crate::slices;
use crate::text;
use crate::ui::map_renderer;
use crate::ui::rolling;
use crate::ui::tally;
pub use crate::ui::tally::PerIpMetrics;
use crate::ui::tally::{CountryMap, IpMap};

verus! {

/// Cap on scrollback lines in the live log panel.
pub const MAX_LOG_ROWS: usize = 2_000;

/// From how many events of one address on it is worth a warning.
pub const WARN_THRESHOLD: u64 = 30;

/// Nanoseconds in a second.
pub const NANOS_PER_SECOND: u64 = 1_000_000_000;

// ---------------------------------------------------------------------------
// What is shown
// ---------------------------------------------------------------------------

/// The three panels of the dashboard.
#[derive(Clone, Copy, Debug, PartialEq, Eq, Structural)]
pub enum Panel {
    WorldMap,
    Log,
    Metrics,
}

/// One dot on the map. It fades with its age.
#[derive(Debug)]
pub struct MapDot {
    pub lat: Double,
    pub lon: Double,
    pub country: String,
    pub city: String,
    pub severity: Severity,
    pub src_ip: IpAddr,
    pub proxy: Option<ProxyKind>,
    /// When the dot appeared, in nanoseconds of a monotonic clock.
    pub created_at: u64,
}

/// What a [`MapDot`] says.
#[verifier::ext_equal]
pub struct DotView {
    pub lat: Double,
    pub lon: Double,
    pub country: Seq<char>,
    pub city: Seq<char>,
    pub severity: Severity,
    pub src_ip: IpAddr,
    pub proxy: Option<ProxyKind>,
    pub created_at: u64,
}

impl View for MapDot {
    type V = DotView;

    open spec fn view(&self) -> DotView {
        DotView {
            lat: self.lat,
            lon: self.lon,
            country: self.country@,
            city: self.city@,
            severity: self.severity,
            src_ip: self.src_ip,
            proxy: self.proxy,
            created_at: self.created_at,
        }
    }
}

impl Clone for MapDot {
    fn clone(&self) -> (copy: MapDot)
        ensures
            copy == *self,
    {
        MapDot {
            lat: self.lat,
            lon: self.lon,
            country: self.country.clone(),
            city: self.city.clone(),
            severity: self.severity,
            src_ip: self.src_ip,
            proxy: self.proxy,
            created_at: self.created_at,
        }
    }
}

/// The views of a sequence of dots.
pub open spec fn dot_views(dots: Seq<MapDot>) -> Seq<DotView> {
    dots.map_values(|d: MapDot| d@)
}

/// One row shown in the live-log panel.
#[derive(Debug)]
pub struct LogRow {
    pub timestamp: Timestamp,
    pub src_ip: IpAddr,
    pub country: String,
    pub city: String,
    pub proxy: Option<ProxyKind>,
    pub http_status: Option<u16>,
    pub http_method: Option<String>,
    pub http_path: Option<String>,
    pub user_agent: Option<String>,
    pub protocol: String,
    pub bytes: u64,
    pub source: Source,
    pub severity: Severity,
}

/// What a [`LogRow`] says.
#[verifier::ext_equal]
pub struct RowView {
    pub timestamp: Timestamp,
    pub src_ip: IpAddr,
    pub country: Seq<char>,
    pub city: Seq<char>,
    pub proxy: Option<ProxyKind>,
    pub http_status: Option<u16>,
    pub http_method: Option<Seq<char>>,
    pub http_path: Option<Seq<char>>,
    pub user_agent: Option<Seq<char>>,
    pub protocol: Seq<char>,
    pub bytes: u64,
    pub source: Source,
    pub severity: Severity,
}

impl View for LogRow {
    type V = RowView;

    open spec fn view(&self) -> RowView {
        RowView {
            timestamp: self.timestamp,
            src_ip: self.src_ip,
            country: self.country@,
            city: self.city@,
            proxy: self.proxy,
            http_status: self.http_status,
            http_method: text::text_of(self.http_method),
            http_path: text::text_of(self.http_path),
            user_agent: text::text_of(self.user_agent),
            protocol: self.protocol@,
            bytes: self.bytes,
            source: self.source,
            severity: self.severity,
        }
    }
}

/// The views of a sequence of rows.
pub open spec fn row_views(rows: Seq<LogRow>) -> Seq<RowView> {
    rows.map_values(|r: LogRow| r@)
}

// ---------------------------------------------------------------------------
// Dots
// ---------------------------------------------------------------------------

/// Whether a dot has outlived its `ttl` seconds at the instant `now`.
pub open spec fn expired(d: DotView, now: u64, ttl: u64) -> bool {
    now - d.created_at > ttl * NANOS_PER_SECOND
}

/// The dots from the first one on that has not expired.
pub open spec fn unexpired(dots: Seq<DotView>, now: u64, ttl: u64) -> Seq<DotView>
    decreases dots.len(),
{
    if dots.len() > 0 && expired(dots[0], now, ttl) {
        unexpired(dots.skip(1), now, ttl)
    } else {
        dots
    }
}

/// Forgets the dots at the front that have expired.
pub fn expire_dots(dots: &mut VecDeque<MapDot>, now: u64, ttl: u64)
    ensures
        dot_views(final(dots)@) == unexpired(dot_views(old(dots)@), now, ttl),
{
    while dots.len() > 0
        invariant
            unexpired(dot_views(dots@), now, ttl) == unexpired(dot_views(old(dots)@), now, ttl),
        ensures
            dot_views(dots@) == unexpired(dot_views(old(dots)@), now, ttl),
        decreases dots@.len(),
    {
        let created: u64 = dots[0].created_at;
        let old_age: bool = now > created && (now - created) as u128 > ttl as u128
            * NANOS_PER_SECOND as u128;
        assert(dot_views(dots@)[0] == dots@[0]@);
        assert(old_age == expired(dot_views(dots@)[0], now, ttl));
        if !old_age {
            break;
        }
        let ghost before = dots@;
        dots.pop_front();
        assert(dot_views(dots@) =~= dot_views(before).skip(1));
    }
}

/// The severity that is shown for an event: a warning from the thirtieth event
/// of its address on, else an alert if the address is a proxy, else the
/// event's own.
pub open spec fn escalated(hits: int, proxy: Option<ProxyKind>, own: Severity) -> Severity {
    if hits >= WARN_THRESHOLD {
        Severity::Warn
    } else if proxy is Some {
        Severity::Alert
    } else {
        own
    }
}

/// Decides the severity that is shown for an event.
pub fn escalate(hits: u64, proxy: Option<ProxyKind>, own: Severity) -> (shown: Severity)
    ensures
        shown == escalated(hits as int, proxy, own),
{
    if hits >= WARN_THRESHOLD {
        Severity::Warn
    } else if proxy.is_some() {
        Severity::Alert
    } else {
        own
    }
}

/// The dot for an event with geolocation `info`, if it can be plotted: its
/// address is not a private one, and both coordinates are known.
pub open spec fn dot_for(
    ip: IpAddr,
    info: Option<GeoView>,
    severity: Severity,
    now: u64,
) -> Option<DotView> {
    match info {
        None => None,
        Some(geo) => match (geo.latitude, geo.longitude) {
            (Some(lat), Some(lon)) => if event::plottable(ip) {
                Some(
                    DotView {
                        lat,
                        lon,
                        country: text::text_or_empty(geo.country_name),
                        city: text::text_or_empty(geo.city),
                        severity,
                        src_ip: ip,
                        proxy: geo.proxy_kind,
                        created_at: now,
                    },
                )
            } else {
                None
            },
            _ => None,
        },
    }
}

/// The proxy category of an address, if it is known to be a proxy.
pub open spec fn proxy_of(info: Option<GeoView>) -> Option<ProxyKind> {
    match info {
        Some(geo) => geo.proxy_kind,
        None => None,
    }
}

/// The view of an optional geolocation.
pub open spec fn geo_view(info: Option<&GeoInfo>) -> Option<GeoView> {
    match info {
        Some(i) => Some(i@),
        None => None,
    }
}

/// Makes the dot for an event.
pub fn make_dot(ip: IpAddr, info: Option<&GeoInfo>, severity: Severity, now: u64) -> (dot: Option<
    MapDot,
>)
    ensures
        match dot {
            Some(d) => dot_for(ip, geo_view(info), severity, now) == Some(d@),
            None => dot_for(ip, geo_view(info), severity, now) is None,
        },
{
    let geo: &GeoInfo = match info {
        Some(geo) => geo,
        None => {
            return None;
        },
    };
    if !event::is_plottable_ip(ip) {
        return None;
    }
    match (geo.latitude, geo.longitude) {
        (Some(lat), Some(lon)) => Some(
            MapDot {
                lat,
                lon,
                country: text::copy_or_empty(&geo.country_name),
                city: text::copy_or_empty(&geo.city),
                severity,
                src_ip: ip,
                proxy: geo.proxy_kind,
                created_at: now,
            },
        ),
        _ => None,
    }
}

/// The dots after an event: with its dot, unless plotting is off or there is
/// none.
pub open spec fn plotted(
    dots: Seq<DotView>,
    plot: bool,
    dot: Option<DotView>,
    max_markers: int,
) -> Seq<DotView> {
    match dot {
        Some(d) => if plot {
            rolling::rolled(dots, d, max_markers)
        } else {
            dots
        },
        None => dots,
    }
}

/// Adds a dot, if there is one.
pub fn add_dot(dots: &mut VecDeque<MapDot>, plot: bool, dot: Option<MapDot>, max_markers: usize)
    ensures
        dot_views(final(dots)@) == plotted(
            dot_views(old(dots)@),
            plot,
            match dot {
                Some(d) => Some(d@),
                None => None,
            },
            max_markers as int,
        ),
{
    let ghost before = dots@;
    match dot {
        Some(d) => {
            if plot {
                rolling::roll(dots, d, max_markers);
                assert(dot_views(dots@) =~= rolling::rolled(
                    dot_views(before),
                    d@,
                    max_markers as int,
                ));
            }
        },
        None => {},
    }
}

/// Under which name the country of an address is counted: its code, else its
/// name, else two question marks.
pub open spec fn country_key(geo: GeoView) -> Seq<char> {
    match geo.country_code {
        Some(code) => code,
        None => match geo.country_name {
            Some(name) => name,
            None => "??"@,
        },
    }
}

/// Finds the name under which the country of an address is counted.
pub fn make_country_key(geo: &GeoInfo) -> (key: String)
    ensures
        key@ == country_key(geo@),
{
    match &geo.country_code {
        Some(code) => code.clone(),
        None => match &geo.country_name {
            Some(name) => name.clone(),
            None => "??".to_owned(),
        },
    }
}

/// The country counters after an event.
pub open spec fn country_counted(
    counts: Map<Seq<char>, u64>,
    info: Option<GeoView>,
) -> Map<Seq<char>, u64> {
    match info {
        None => counts,
        Some(geo) => counts.insert(
            country_key(geo),
            (tally::country_hits(counts, country_key(geo)) + 1) as u64,
        ),
    }
}

/// The row for an event.
pub open spec fn row_for(ev: EventView, info: Option<GeoView>, severity: Severity) -> RowView {
    RowView {
        timestamp: ev.timestamp,
        src_ip: ev.src_ip,
        country: match info {
            Some(geo) => text::text_or_empty(geo.country_name),
            None => Seq::empty(),
        },
        city: match info {
            Some(geo) => text::text_or_empty(geo.city),
            None => Seq::empty(),
        },
        proxy: proxy_of(info),
        http_status: ev.http_status,
        http_method: ev.http_method,
        http_path: ev.http_path,
        user_agent: ev.user_agent,
        protocol: ev.protocol,
        bytes: match ev.bytes {
            Some(n) => n,
            None => 0,
        },
        source: ev.source,
        severity,
    }
}

/// Makes the row for an event.
pub fn make_row(ev: ConnectionEvent, info: Option<&GeoInfo>, severity: Severity) -> (row: LogRow)
    ensures
        row@ == row_for(ev@, geo_view(info), severity),
{
    let (country, city, proxy) = match info {
        Some(geo) => (
            text::copy_or_empty(&geo.country_name),
            text::copy_or_empty(&geo.city),
            geo.proxy_kind,
        ),
        None => (String::new(), String::new(), None),
    };
    LogRow {
        timestamp: ev.timestamp,
        src_ip: ev.src_ip,
        country,
        city,
        proxy,
        http_status: ev.http_status,
        http_method: ev.http_method,
        http_path: ev.http_path,
        user_agent: ev.user_agent,
        protocol: ev.protocol,
        bytes: match ev.bytes {
            Some(n) => n,
            None => 0,
        },
        source: ev.source,
        severity,
    }
}

// ---------------------------------------------------------------------------
// The state
// ---------------------------------------------------------------------------

/// A part of a whole.
#[derive(Clone, Copy, Debug, PartialEq, Eq, Structural)]
pub struct Share {
    pub part: u64,
    /// Never zero.
    pub whole: u64,
}

/// Aggregate numbers for the metrics panel.
#[derive(Clone, Copy, Debug, PartialEq, Eq, Structural)]
pub struct Stats {
    pub total_events: u64,
    /// Events in the ring, over the number of its bins.
    pub events_per_sec: Share,
    pub bytes_total: u64,
    /// The dots that come from proxies, over all dots.
    pub proxy_pct: Share,
    /// The dots that come from datacenters, over all dots.
    pub datacenter_pct: Share,
    /// The dots that come from the Tor network, over all dots.
    pub tor_pct: Share,
}

/// Nothing of one.
pub open spec fn no_share() -> Share {
    Share { part: 0, whole: 1 }
}

/// The numbers before anything happened.
pub open spec fn zero_stats() -> Stats {
    Stats {
        total_events: 0,
        events_per_sec: no_share(),
        bytes_total: 0,
        proxy_pct: no_share(),
        datacenter_pct: no_share(),
        tor_pct: no_share(),
    }
}

impl Default for Stats {
    fn default() -> (stats: Stats)
        ensures
            stats == zero_stats(),
    {
        let none: Share = Share { part: 0, whole: 1 };
        Stats {
            total_events: 0,
            events_per_sec: none,
            bytes_total: 0,
            proxy_pct: none,
            datacenter_pct: none,
            tor_pct: none,
        }
    }
}

/// The events in a ring, over the number of its bins (over one, where there
/// are none).
pub open spec fn rate(ring: Seq<u64>) -> Share {
    Share {
        part: rolling::sum(ring) as u64,
        whole: if ring.len() == 0 {
            1
        } else {
            ring.len() as u64
        },
    }
}

/// Works out the rate of a ring.
pub fn ring_rate(ring: &VecDeque<u64>) -> (share: Share)
    requires
        rolling::sum(ring@) <= u64::MAX,
    ensures
        share == rate(ring@),
{
    let n: usize = ring.len();
    Share {
        part: rolling::ring_total(ring),
        whole: if n == 0 {
            1
        } else {
            n as u64
        },
    }
}

/// The kinds of proxies whose share is shown.
#[derive(Clone, Copy, Debug, PartialEq, Eq, Structural)]
pub enum ProxyClass {
    /// Any proxy.
    Any,
    /// Hosting providers and datacenters.
    Datacenter,
    /// The Tor network.
    Tor,
}

/// Whether a proxy belongs to a class.
pub open spec fn in_class(proxy: Option<ProxyKind>, class: ProxyClass) -> bool {
    match class {
        ProxyClass::Any => proxy is Some,
        ProxyClass::Datacenter => proxy == Some(ProxyKind::Hosting),
        ProxyClass::Tor => proxy == Some(ProxyKind::Tor),
    }
}

/// How many dots come from a proxy of a class.
pub open spec fn dots_in(dots: Seq<DotView>, class: ProxyClass) -> nat
    decreases dots.len(),
{
    if dots.len() == 0 {
        0
    } else {
        dots_in(dots.drop_last(), class) + if in_class(dots.last().proxy, class) {
            1nat
        } else {
            0
        }
    }
}

/// The share of the dots that come from a proxy of a class; nothing where
/// there are no dots.
pub open spec fn proxy_share(dots: Seq<DotView>, class: ProxyClass) -> Share {
    if dots.len() == 0 {
        no_share()
    } else {
        Share { part: dots_in(dots, class) as u64, whole: dots.len() as u64 }
    }
}

/// Works out the share of the dots that come from a proxy of a class.
pub fn share_of_proxies(dots: &VecDeque<MapDot>, class: ProxyClass) -> (share: Share)
    ensures
        share == proxy_share(dot_views(dots@), class),
{
    let n: usize = dots.len();
    if n == 0 {
        return Share { part: 0, whole: 1 };
    }
    let ghost views = dot_views(dots@);
    let mut part: u64 = 0;
    let mut i: usize = 0;
    assert(views.take(0) =~= Seq::empty());
    while i < n
        invariant
            i <= n,
            n == dots@.len(),
            views == dot_views(dots@),
            part <= i,
            part == dots_in(views.take(i as int), class),
        decreases n - i,
    {
        assert(views.take(i + 1).drop_last() =~= views.take(i as int));
        assert(views.take(i + 1).last() == dots@[i as int]@);
        let counts: bool = match dots[i].proxy {
            None => false,
            Some(kind) => match class {
                ProxyClass::Any => true,
                ProxyClass::Datacenter => kind == ProxyKind::Hosting,
                ProxyClass::Tor => kind == ProxyKind::Tor,
            },
        };
        if counts {
            part = part + 1;
        }
        i = i + 1;
    }
    assert(views.take(n as int) =~= views);
    Share { part, whole: n as u64 }
}

/// Shares are shares: never more than all dots, all of them where every dot
/// comes from a proxy of the class, and none where no dot does.
pub proof fn shares_are_of_the_dots(dots: Seq<DotView>, class: ProxyClass)
    ensures
        dots_in(dots, class) <= dots.len(),
        (forall|i: int| 0 <= i < dots.len() ==> in_class((#[trigger] dots[i]).proxy, class))
            ==> dots_in(dots, class) == dots.len(),
        (forall|i: int| 0 <= i < dots.len() ==> !in_class((#[trigger] dots[i]).proxy, class))
            ==> dots_in(dots, class) == 0,
    decreases dots.len(),
{
    if dots.len() > 0 {
        let init = dots.drop_last();
        shares_are_of_the_dots(init, class);
        assert(forall|i: int| 0 <= i < init.len() ==> (#[trigger] init[i]) == dots[i]);
        assert(dots.last() == dots[dots.len() - 1]);
    }
}

/// The state behind the dashboard.
pub struct AppState {
    /// Live dots on the map.
    pub dots: VecDeque<MapDot>,
    /// Bounded scrollback for the live-log panel.
    pub log: VecDeque<LogRow>,
    /// Per-address hit counters (for warn escalation).
    pub per_ip: IpMap,
    /// Per-country counters (for top talkers).
    pub per_country: CountryMap,
    /// Aggregate numbers.
    pub stats: Stats,
    /// Selected panel (Tab cycles).
    pub focused: Panel,
    /// When true, ingestion continues but the map is frozen.
    pub paused: bool,
    /// When true, all dots are wiped on the next tick.
    pub clear_requested: bool,
    /// Toggle for Matrix-style connection lines from the home marker.
    pub connection_lines: bool,
    /// Rolling ring of one-second bins for the throughput sparkline.
    pub throughput_ring: VecDeque<u64>,
    /// When the last bin began, in nanoseconds of a monotonic clock; `None`
    /// before the first tick.
    pub bin_start: Option<u64>,
    /// Set to exit the main loop.
    pub should_quit: bool,
    /// Selected row of the log, counted from its start.
    pub log_selected: Option<usize>,
    /// Whether the map panel is hidden.
    pub map_hidden: bool,
}

/// What an [`AppState`] says.
#[verifier::ext_equal]
pub struct AppView {
    pub dots: Seq<DotView>,
    pub log: Seq<RowView>,
    pub per_ip: Map<Key, PerIpMetrics>,
    pub per_country: Map<Seq<char>, u64>,
    pub stats: Stats,
    pub focused: Panel,
    pub paused: bool,
    pub clear_requested: bool,
    pub connection_lines: bool,
    pub throughput_ring: Seq<u64>,
    pub bin_start: Option<u64>,
    pub should_quit: bool,
    pub log_selected: Option<usize>,
    pub map_hidden: bool,
}

impl View for AppState {
    type V = AppView;

    open spec fn view(&self) -> AppView {
        AppView {
            dots: dot_views(self.dots@),
            log: row_views(self.log@),
            per_ip: tally::ip_counts(self.per_ip),
            per_country: tally::country_counts(self.per_country),
            stats: self.stats,
            focused: self.focused,
            paused: self.paused,
            clear_requested: self.clear_requested,
            connection_lines: self.connection_lines,
            throughput_ring: self.throughput_ring@,
            bin_start: self.bin_start,
            should_quit: self.should_quit,
            log_selected: self.log_selected,
            map_hidden: self.map_hidden,
        }
    }
}

impl AppView {
    /// The bounds that every operation keeps: the scrollback and the ring are
    /// bounded, and no counter is ahead of the number of events.
    pub open spec fn well_formed(self) -> bool {
        &&& self.log.len() <= MAX_LOG_ROWS
        &&& self.throughput_ring.len() <= rolling::RING_BINS
        &&& rolling::sum(self.throughput_ring) <= self.stats.total_events
        &&& forall|k: Key|
            self.per_ip.contains_key(k) ==> (#[trigger] self.per_ip[k]).hits
                <= self.stats.total_events
        &&& forall|c: Seq<char>|
            self.per_country.contains_key(c) ==> #[trigger] self.per_country[c]
                <= self.stats.total_events
    }

    /// Whether the counters can take an event with the given number of bytes.
    pub open spec fn has_room(self, bytes: Option<u64>) -> bool {
        &&& self.stats.total_events < u64::MAX
        &&& self.stats.bytes_total + byte_count(bytes) <= u64::MAX
    }
}

/// The number of bytes of an event, zero where it is not known.
pub open spec fn byte_count(bytes: Option<u64>) -> u64 {
    match bytes {
        Some(n) => n,
        None => 0,
    }
}

/// The state at the start.
pub open spec fn initial(lines: bool) -> AppView {
    AppView {
        dots: Seq::empty(),
        log: Seq::empty(),
        per_ip: Map::empty(),
        per_country: Map::empty(),
        stats: zero_stats(),
        focused: Panel::WorldMap,
        paused: false,
        clear_requested: false,
        connection_lines: lines,
        throughput_ring: Seq::empty(),
        bin_start: None,
        should_quit: false,
        log_selected: None,
        map_hidden: false,
    }
}

/// How many bins begin at `now`: the first one on the first tick, then one for
/// every full second since the last one began.
pub open spec fn new_bins(start: Option<u64>, now: u64) -> nat {
    match start {
        None => 1,
        Some(s) => if now > s {
            ((now - s) / NANOS_PER_SECOND as int) as nat
        } else {
            0
        },
    }
}

/// When the last bin began, after the bins that begin at `now`.
pub open spec fn next_bin_start(start: Option<u64>, now: u64) -> u64 {
    match start {
        None => now,
        Some(s) => (s + new_bins(start, now) * NANOS_PER_SECOND) as u64,
    }
}

/// The dots after a tick: none, if that was asked for; while the map is
/// frozen, no other change; else without those that have expired, and not more
/// than allowed.
pub open spec fn dots_after_tick(a: AppView, ttl: u64, max_markers: int, now: u64) -> Seq<DotView> {
    let cleared = if a.clear_requested {
        Seq::empty()
    } else {
        a.dots
    };
    if a.paused {
        cleared
    } else {
        rolling::keep_last(unexpired(cleared, now, ttl), max_markers)
    }
}

/// The state after a tick at `now`.
pub open spec fn after_tick(a: AppView, ttl: u64, max_markers: int, now: u64) -> AppView {
    let dots = dots_after_tick(a, ttl, max_markers, now);
    let ring = rolling::advanced(a.throughput_ring, new_bins(a.bin_start, now));
    AppView {
        dots,
        clear_requested: false,
        throughput_ring: ring,
        bin_start: Some(next_bin_start(a.bin_start, now)),
        stats: Stats {
            events_per_sec: rate(ring),
            proxy_pct: proxy_share(dots, ProxyClass::Any),
            datacenter_pct: proxy_share(dots, ProxyClass::Datacenter),
            tor_pct: proxy_share(dots, ProxyClass::Tor),
            ..a.stats
        },
        ..a
    }
}

/// The state after an event with geolocation `info` was seen at `now`.
pub open spec fn after_event(
    a: AppView,
    ev: EventView,
    info: Option<GeoView>,
    max_markers: int,
    now: u64,
) -> AppView {
    let key = ip::key_of(ev.src_ip);
    let hits = tally::hits_of(a.per_ip, key) + 1;
    let severity = escalated(hits, proxy_of(info), ev.severity);
    let log = rolling::rolled(a.log, row_for(ev, info, severity), MAX_LOG_ROWS as int);
    AppView {
        dots: plotted(a.dots, !a.paused, dot_for(ev.src_ip, info, severity, now), max_markers),
        log,
        per_ip: a.per_ip.insert(key, PerIpMetrics { hits: hits as u64, last_seen: ev.timestamp }),
        per_country: country_counted(a.per_country, info),
        stats: Stats {
            total_events: (a.stats.total_events + 1) as u64,
            bytes_total: (a.stats.bytes_total + byte_count(ev.bytes)) as u64,
            ..a.stats
        },
        throughput_ring: rolling::counted(a.throughput_ring),
        log_selected: Some((log.len() - 1) as usize),
        ..a
    }
}

/// The row above the selected one of `total`, the last one where none is
/// selected.
pub open spec fn row_above(total: int, selected: Option<usize>) -> Option<usize> {
    if total == 0 {
        None
    } else {
        match selected {
            Some(i) => if i > total {
                Some((total - 1) as usize)
            } else if i > 0 {
                Some((i - 1) as usize)
            } else {
                Some(0)
            },
            None => Some((total - 1) as usize),
        }
    }
}

/// The row below the selected one of `total`, the last one where none is
/// selected.
pub open spec fn row_below(total: int, selected: Option<usize>) -> Option<usize> {
    if total == 0 {
        None
    } else {
        match selected {
            Some(i) => if i < total - 1 {
                Some((i + 1) as usize)
            } else {
                Some((total - 1) as usize)
            },
            None => Some((total - 1) as usize),
        }
    }
}

/// Scrolling selects a row of the log, and one step down undoes one step up
/// but at the top.
pub proof fn scrolling_stays_in_the_log(total: int, selected: usize)
    requires
        0 <= selected < total,
    ensures
        row_above(total, Some(selected)) matches Some(i) && i < total,
        row_below(total, Some(selected)) matches Some(i) && i < total,
        selected > 0 ==> row_below(total, row_above(total, Some(selected))) == Some(selected),
{
}

impl AppState {
    /// An empty dashboard.
    pub fn new(cfg: &Config) -> (state: AppState)
        ensures
            state@ == initial(cfg.connection_lines.enabled),
            state@.well_formed(),
    {
        let state: AppState = AppState {
            dots: VecDeque::new(),
            log: VecDeque::new(),
            per_ip: tally::new_ip_map(),
            per_country: tally::new_country_map(),
            stats: Stats::default(),
            focused: Panel::WorldMap,
            paused: false,
            clear_requested: false,
            connection_lines: cfg.connection_lines.enabled,
            throughput_ring: VecDeque::new(),
            bin_start: None,
            should_quit: false,
            log_selected: None,
            map_hidden: false,
        };
        assert(state@ =~= initial(cfg.connection_lines.enabled));
        state
    }

    /// Whether the map is frozen.
    pub fn is_paused(&self) -> (yes: bool)
        ensures
            yes == self@.paused,
    {
        self.paused
    }

    /// Freezes or unfreezes the map.
    pub fn toggle_pause(&mut self)
        ensures
            final(self)@ == (AppView { paused: !old(self)@.paused, ..old(self)@ }),
    {
        self.paused = !self.paused;
    }

    /// Asks for all dots to be wiped on the next tick.
    pub fn request_clear(&mut self)
        ensures
            final(self)@ == (AppView { clear_requested: true, ..old(self)@ }),
    {
        self.clear_requested = true;
    }

    /// Asks for the main loop to end.
    pub fn quit(&mut self)
        ensures
            final(self)@ == (AppView { should_quit: true, ..old(self)@ }),
    {
        self.should_quit = true;
    }

    /// Whether the main loop should end.
    pub fn quit_requested(&self) -> (yes: bool)
        ensures
            yes == self@.should_quit,
    {
        self.should_quit
    }

    /// Selects a panel.
    pub fn set_focus(&mut self, p: Panel)
        ensures
            final(self)@ == (AppView { focused: p, ..old(self)@ }),
    {
        self.focused = p;
    }

    /// Selects the next panel.
    pub fn cycle_focus(&mut self)
        ensures
            final(self)@ == (AppView {
                focused: map_renderer::next_panel(old(self)@.focused),
                ..old(self)@
            }),
    {
        self.focused = map_renderer::focus_target(self.focused);
    }

    /// Switches the connection lines off or on.
    pub fn toggle_lines(&mut self)
        ensures
            final(self)@ == (AppView {
                connection_lines: !old(self)@.connection_lines,
                ..old(self)@
            }),
    {
        self.connection_lines = !self.connection_lines;
    }

    /// Selects the row above in the log.
    pub fn scroll_up(&mut self)
        ensures
            final(self)@ == (AppView {
                log_selected: row_above(old(self)@.log.len() as int, old(self)@.log_selected),
                ..old(self)@
            }),
    {
        let total: usize = self.log.len();
        assert(self@.log.len() == total);
        self.log_selected = if total == 0 {
            None
        } else {
            match self.log_selected {
                Some(i) => if i > total {
                    Some(total - 1)
                } else if i > 0 {
                    Some(i - 1)
                } else {
                    Some(0)
                },
                None => Some(total - 1),
            }
        };
    }

    /// Selects the row below in the log.
    pub fn scroll_down(&mut self)
        ensures
            final(self)@ == (AppView {
                log_selected: row_below(old(self)@.log.len() as int, old(self)@.log_selected),
                ..old(self)@
            }),
    {
        let total: usize = self.log.len();
        assert(self@.log.len() == total);
        self.log_selected = if total == 0 {
            None
        } else {
            match self.log_selected {
                Some(i) => if i < total - 1 {
                    Some(i + 1)
                } else {
                    Some(total - 1)
                },
                None => Some(total - 1),
            }
        };
    }

    /// Called once per frame: wipes the dots if that was asked for, forgets
    /// old ones unless the map is frozen, and moves the throughput ring on.
    pub fn tick(&mut self, cfg: &Config, now: u64)
        requires
            old(self)@.well_formed(),
        ensures
            final(self)@ == after_tick(
                old(self)@,
                cfg.marker_ttl_seconds,
                cfg.max_markers as int,
                now,
            ),
            final(self)@.well_formed(),
    {
        let ghost before = self@;
        if self.clear_requested {
            self.dots.clear();
            assert(dot_views(self.dots@) =~= Seq::empty());
        }
        self.clear_requested = false;
        if !self.paused {
            expire_dots(&mut self.dots, now, cfg.marker_ttl());
            let ghost alive = self.dots@;
            rolling::trim_to(&mut self.dots, cfg.max_markers);
            assert(dot_views(self.dots@) =~= rolling::keep_last(
                dot_views(alive),
                cfg.max_markers as int,
            ));
        }
        assert(dot_views(self.dots@) =~= dots_after_tick(
            before,
            cfg.marker_ttl_seconds,
            cfg.max_markers as int,
            now,
        ));
        let (bins, start): (u64, u64) = match self.bin_start {
            None => (1, now),
            Some(s) => if now > s {
                let k: u64 = (now - s) / NANOS_PER_SECOND;
                (k, s + k * NANOS_PER_SECOND)
            } else {
                (0, s)
            },
        };
        self.bin_start = Some(start);
        rolling::begin_bins(&mut self.throughput_ring, bins);
        self.stats.events_per_sec = ring_rate(&self.throughput_ring);
        self.stats.proxy_pct = share_of_proxies(&self.dots, ProxyClass::Any);
        self.stats.datacenter_pct = share_of_proxies(&self.dots, ProxyClass::Datacenter);
        self.stats.tor_pct = share_of_proxies(&self.dots, ProxyClass::Tor);
        assert(self@ =~= after_tick(
            before,
            cfg.marker_ttl_seconds,
            cfg.max_markers as int,
            now,
        ));
    }

    /// Whether the counters can take an event with the given number of bytes.
    pub fn has_room(&self, bytes: Option<u64>) -> (yes: bool)
        ensures
            yes == self@.has_room(bytes),
    {
        let n: u64 = match bytes {
            Some(n) => n,
            None => 0,
        };
        self.stats.total_events < u64::MAX && self.stats.bytes_total <= u64::MAX - n
    }

    /// Pushes a freshly ingested event, whose geolocation is `info`, into all
    /// the structures.
    pub fn ingest(
        &mut self,
        ev: ConnectionEvent,
        info: Option<&GeoInfo>,
        cfg: &Config,
        now: u64,
    )
        requires
            old(self)@.well_formed(),
            old(self)@.has_room(ev.bytes),
        ensures
            final(self)@ == after_event(
                old(self)@,
                ev@,
                geo_view(info),
                cfg.max_markers as int,
                now,
            ),
            final(self)@.well_formed(),
    {
        let ghost before = self@;
        let ghost event = ev@;
        let hits: u64 = tally::count_ip(&mut self.per_ip, ev.src_ip.key(), ev.timestamp);
        let proxy: Option<ProxyKind> = match info {
            Some(geo) => geo.proxy_kind,
            None => None,
        };
        let severity: Severity = escalate(hits, proxy, ev.severity);
        let dot: Option<MapDot> = make_dot(ev.src_ip, info, severity, now);
        add_dot(&mut self.dots, !self.paused, dot, cfg.max_markers);
        if let Some(geo) = info {
            let key: String = make_country_key(geo);
            assert(before.per_country.contains_key(key@) ==> before.per_country[key@]
                <= before.stats.total_events);
            tally::count_country(&mut self.per_country, key);
        }
        let bytes: Option<u64> = ev.bytes;
        let row: LogRow = make_row(ev, info, severity);
        self.push_log_row(row);
        rolling::count_in_ring(&mut self.throughput_ring);
        if let Some(n) = bytes {
            self.stats.bytes_total = self.stats.bytes_total + n;
        }
        self.stats.total_events = self.stats.total_events + 1;
        assert(self@ =~= after_event(
            before,
            event,
            geo_view(info),
            cfg.max_markers as int,
            now,
        ));
        proof {
            event_keeps_bounds(before, event, geo_view(info), cfg.max_markers as int, now);
        }
    }

    fn push_log_row(&mut self, row: LogRow)
        requires
            old(self)@.log.len() <= MAX_LOG_ROWS,
        ensures
            final(self)@ == (AppView {
                log: rolling::rolled(old(self)@.log, row@, MAX_LOG_ROWS as int),
                log_selected: Some(
                    (rolling::rolled(old(self)@.log, row@, MAX_LOG_ROWS as int).len()
                        - 1) as usize,
                ),
                ..old(self)@
            }),
            final(self).paused == old(self).paused,
    {
        let ghost before = self.log@;
        rolling::roll(&mut self.log, row, MAX_LOG_ROWS);
        assert(row_views(self.log@) =~= rolling::rolled(
            row_views(before),
            row@,
            MAX_LOG_ROWS as int,
        ));
        self.log_selected = Some(self.log.len() - 1);
    }
}

/// Every event keeps the bounds of the state.
pub proof fn event_keeps_bounds(
    a: AppView,
    ev: EventView,
    info: Option<GeoView>,
    max_markers: int,
    now: u64,
)
    requires
        a.well_formed(),
        a.has_room(ev.bytes),
    ensures
        after_event(a, ev, info, max_markers, now).well_formed(),
{
    let b = after_event(a, ev, info, max_markers, now);
    let ring = a.throughput_ring;
    if ring.len() > 0 {
        rolling::item_at_most_sum(ring, ring.len() - 1);
        assert(rolling::counted(ring).drop_last() =~= ring.drop_last());
    }
    assert forall|k: Key| b.per_ip.contains_key(k) implies (#[trigger] b.per_ip[k]).hits
        <= b.stats.total_events by {
        let key = ip::key_of(ev.src_ip);
        if k == key {
            if a.per_ip.contains_key(key) {
                assert(a.per_ip[key].hits <= a.stats.total_events);
            }
        } else {
            assert(a.per_ip.contains_key(k));
        }
    }
    assert forall|c: Seq<char>| b.per_country.contains_key(c) implies #[trigger] b.per_country[c]
        <= b.stats.total_events by {
        match info {
            None => {
                assert(a.per_country.contains_key(c));
            },
            Some(geo) => {
                let key = country_key(geo);
                if c == key {
                    if a.per_country.contains_key(key) {
                        assert(a.per_country[key] <= a.stats.total_events);
                    }
                } else {
                    assert(a.per_country.contains_key(c));
                }
            },
        }
    }
}

/// Every tick keeps the bounds of the state.
pub proof fn tick_keeps_bounds(a: AppView, ttl: u64, max_markers: int, now: u64)
    requires
        a.well_formed(),
    ensures
        after_tick(a, ttl, max_markers, now).well_formed(),
{
    rolling::advancing_adds_nothing(a.throughput_ring, new_bins(a.bin_start, now));
}

/// While the map is frozen, events and ticks leave its dots alone; events are
/// counted and logged all the same.
pub proof fn pause_freezes_the_map(
    a: AppView,
    ev: EventView,
    info: Option<GeoView>,
    ttl: u64,
    max_markers: int,
    now: u64,
)
    requires
        a.well_formed(),
        a.has_room(ev.bytes),
        a.paused,
    ensures
        after_event(a, ev, info, max_markers, now).dots == a.dots,
        !a.clear_requested ==> after_tick(a, ttl, max_markers, now).dots == a.dots,
        after_event(a, ev, info, max_markers, now).stats.total_events == a.stats.total_events + 1,
        after_event(a, ev, info, max_markers, now).log.last().src_ip == ev.src_ip,
{
}

/// Once a clear was asked for, the next tick wipes all dots, frozen or not,
/// and the request is done with.
pub proof fn clear_wipes_all_dots(a: AppView, ttl: u64, max_markers: int, now: u64)
    requires
        a.clear_requested,
        max_markers >= 0,
    ensures
        after_tick(a, ttl, max_markers, now).dots.len() == 0,
        !after_tick(a, ttl, max_markers, now).clear_requested,
{
}

/// Private, loopback, link-local and unspecified addresses are never plotted,
/// but they still appear in the live log.
pub proof fn unplottable_addresses_are_only_logged(
    a: AppView,
    ev: EventView,
    info: Option<GeoView>,
    max_markers: int,
    now: u64,
)
    requires
        !event::plottable(ev.src_ip),
    ensures
        after_event(a, ev, info, max_markers, now).dots == a.dots,
        after_event(a, ev, info, max_markers, now).log.last() == row_for(
            ev,
            info,
            after_event(a, ev, info, max_markers, now).log.last().severity,
        ),
{
}

/// From its thirtieth event on an address is shown as a warning; before that,
/// traffic of proxies is an alert, and all other traffic has the severity of
/// its event.
pub proof fn severity_rules(
    a: AppView,
    ev: EventView,
    info: Option<GeoView>,
    max_markers: int,
    now: u64,
)
    ensures
        ({
            let seen = tally::hits_of(a.per_ip, ip::key_of(ev.src_ip));
            let shown = after_event(a, ev, info, max_markers, now).log.last().severity;
            &&& seen >= 29 ==> shown == Severity::Warn
            &&& seen < 29 && proxy_of(info) is Some ==> shown == Severity::Alert
            &&& seen < 29 && proxy_of(info) is None ==> shown == ev.severity
        }),
{
}

/// Whether dots stand in the order in which they appeared.
pub open spec fn in_order(dots: Seq<DotView>) -> bool {
    forall|i: int, j: int|
        0 <= i < j < dots.len() ==> (#[trigger] dots[i]).created_at <= (
        #[trigger] dots[j]).created_at
}

proof fn unexpired_are_fresh(dots: Seq<DotView>, now: u64, ttl: u64)
    requires
        in_order(dots),
    ensures
        in_order(unexpired(dots, now, ttl)),
        unexpired(dots, now, ttl).len() <= dots.len(),
        forall|i: int|
            0 <= i < unexpired(dots, now, ttl).len() ==> !expired(
                #[trigger] unexpired(dots, now, ttl)[i],
                now,
                ttl,
            ),
    decreases dots.len(),
{
    if dots.len() > 0 && expired(dots[0], now, ttl) {
        assert(in_order(dots.skip(1))) by {
            assert forall|i: int, j: int|
                0 <= i < j < dots.skip(1).len() implies (#[trigger] dots.skip(1)[i]).created_at
                <= (#[trigger] dots.skip(1)[j]).created_at by {
                assert(dots[i + 1].created_at <= dots[j + 1].created_at);
            }
        }
        unexpired_are_fresh(dots.skip(1), now, ttl);
    } else {
        assert forall|i: int| 0 <= i < dots.len() implies !expired(
            #[trigger] dots[i],
            now,
            ttl,
        ) by {
            if i > 0 {
                assert(dots[0].created_at <= dots[i].created_at);
            }
        }
    }
}

/// After a tick of an unfrozen map no dot has outlived its time, there are no
/// more dots than allowed, and they are still in the order in which they
/// appeared.
pub proof fn tick_forgets_old_dots(a: AppView, ttl: u64, max_markers: int, now: u64)
    requires
        !a.paused,
        in_order(a.dots),
        max_markers >= 0,
    ensures
        ({
            let dots = after_tick(a, ttl, max_markers, now).dots;
            &&& dots.len() <= max_markers
            &&& in_order(dots)
            &&& forall|i: int| 0 <= i < dots.len() ==> !expired(#[trigger] dots[i], now, ttl)
        }),
{
    let cleared = if a.clear_requested {
        Seq::empty()
    } else {
        a.dots
    };
    unexpired_are_fresh(cleared, now, ttl);
    let alive = unexpired(cleared, now, ttl);
    let dots = rolling::keep_last(alive, max_markers);
    let gone = alive.len() - dots.len();
    assert(forall|i: int| 0 <= i < dots.len() ==> #[trigger] dots[i] == alive[i + gone]);
}

/// A dot that has not expired survives a tick, unless a clear was asked for or
/// there are too many newer ones.
pub proof fn fresh_dots_stay(a: AppView, ttl: u64, max_markers: int, now: u64, i: int)
    requires
        !a.paused,
        !a.clear_requested,
        in_order(a.dots),
        0 <= i < a.dots.len(),
        a.dots.len() - i <= max_markers,
        !expired(a.dots[i], now, ttl),
    ensures
        after_tick(a, ttl, max_markers, now).dots.contains(a.dots[i]),
{
    fresh_dot_is_unexpired(a.dots, now, ttl, i);
    let alive = unexpired(a.dots, now, ttl);
    let j = i - (a.dots.len() - alive.len());
    let dots = rolling::keep_last(alive, max_markers);
    let k = j - (alive.len() - dots.len());
    assert(dots[k] == a.dots[i]);
}

proof fn fresh_dot_is_unexpired(dots: Seq<DotView>, now: u64, ttl: u64, i: int)
    requires
        0 <= i < dots.len(),
        !expired(dots[i], now, ttl),
    ensures
        ({
            let alive = unexpired(dots, now, ttl);
            let j = i - (dots.len() - alive.len());
            0 <= j < alive.len() <= dots.len() && alive[j] == dots[i]
        }),
    decreases dots.len(),
{
    if expired(dots[0], now, ttl) {
        fresh_dot_is_unexpired(dots.skip(1), now, ttl, i - 1);
    }
}

/// A plotted event's dot is the newest on the map, and there are no more dots
/// than allowed if there were not before.
pub proof fn plotting_adds_the_newest_dot(
    a: AppView,
    ev: EventView,
    geo: GeoView,
    max_markers: int,
    now: u64,
)
    requires
        !a.paused,
        event::plottable(ev.src_ip),
        geo.latitude is Some,
        geo.longitude is Some,
        max_markers > 0,
        a.dots.len() <= max_markers,
    ensures
        ({
            let dots = after_event(a, ev, Some(geo), max_markers, now).dots;
            &&& dots.len() <= max_markers
            &&& dots.len() > 0
            &&& dots.last().src_ip == ev.src_ip
            &&& dots.last().created_at == now
            &&& Some(dots.last().lat) == geo.latitude
            &&& Some(dots.last().lon) == geo.longitude
        }),
{
}

/// An event becomes the last row of the log, and that row is selected. It shows
/// what the event says and what is known of its address: country, city and
/// proxy. Of the rows before it all stay, but the first one where there are two
/// thousand.
pub proof fn an_event_is_logged(
    a: AppView,
    ev: EventView,
    info: Option<GeoView>,
    max_markers: int,
    now: u64,
)
    requires
        a.log.len() <= 2000,
    ensures
        ({
            let b = after_event(a, ev, info, max_markers, now);
            let row = b.log.last();
            &&& b.log.len() == if a.log.len() < 2000 {
                a.log.len() + 1
            } else {
                2000
            }
            &&& forall|i: int|
                0 <= i < b.log.len() - 1 ==> #[trigger] b.log[i] == a.log[i + a.log.len() + 1
                    - b.log.len()]
            &&& b.log_selected == Some((b.log.len() - 1) as usize)
            &&& row.timestamp == ev.timestamp
            &&& row.src_ip == ev.src_ip
            &&& row.http_status == ev.http_status
            &&& row.http_method == ev.http_method
            &&& row.http_path == ev.http_path
            &&& row.user_agent == ev.user_agent
            &&& row.protocol == ev.protocol
            &&& row.source == ev.source
            &&& ev.bytes matches Some(n) ==> row.bytes == n
            &&& ev.bytes is None ==> row.bytes == 0
            &&& info matches Some(geo) ==> row.proxy == geo.proxy_kind
            &&& info matches Some(geo) ==> (geo.country_name matches Some(name) ==> row.country
                == name)
            &&& info matches Some(geo) ==> (geo.country_name is None ==> row.country.len() == 0)
            &&& info matches Some(geo) ==> (geo.city matches Some(name) ==> row.city == name)
            &&& info matches Some(geo) ==> (geo.city is None ==> row.city.len() == 0)
            &&& info is None ==> row.proxy is None && row.country.len() == 0 && row.city.len() == 0
        }),
{
    let b = after_event(a, ev, info, max_markers, now);
    assert forall|i: int| 0 <= i < b.log.len() - 1 implies #[trigger] b.log[i] == a.log[i
        + a.log.len() + 1 - b.log.len()] by {}
}

/// An event counts once: as an event, with its bytes, for its address, for its
/// country if it is known, and in the running second. Nothing else of the
/// counters changes.
pub proof fn an_event_is_counted(
    a: AppView,
    ev: EventView,
    info: Option<GeoView>,
    max_markers: int,
    now: u64,
    k: Key,
    c: Seq<char>,
)
    requires
        a.well_formed(),
        a.has_room(ev.bytes),
    ensures
        ({
            let b = after_event(a, ev, info, max_markers, now);
            let own = ip::key_of(ev.src_ip);
            let ring = a.throughput_ring;
            &&& b.stats.total_events == a.stats.total_events + 1
            &&& ev.bytes matches Some(n) ==> b.stats.bytes_total == a.stats.bytes_total + n
            &&& ev.bytes is None ==> b.stats.bytes_total == a.stats.bytes_total
            &&& b.stats.events_per_sec == a.stats.events_per_sec
            &&& b.stats.proxy_pct == a.stats.proxy_pct
            &&& b.stats.datacenter_pct == a.stats.datacenter_pct
            &&& b.stats.tor_pct == a.stats.tor_pct
            &&& b.per_ip.contains_key(own)
            &&& b.per_ip[own].last_seen == ev.timestamp
            &&& b.per_ip[own].hits == if a.per_ip.contains_key(own) {
                a.per_ip[own].hits + 1
            } else {
                1
            }
            &&& k != own ==> b.per_ip.contains_key(k) == a.per_ip.contains_key(k)
            &&& k != own ==> b.per_ip[k] == a.per_ip[k]
            &&& info is None ==> b.per_country == a.per_country
            &&& info matches Some(geo) ==> {
                let home = if geo.country_code is Some {
                    geo.country_code->0
                } else if geo.country_name is Some {
                    geo.country_name->0
                } else {
                    "??"@
                };
                &&& b.per_country.contains_key(home)
                &&& b.per_country[home] == if a.per_country.contains_key(home) {
                    a.per_country[home] + 1
                } else {
                    1
                }
                &&& c != home ==> b.per_country.contains_key(c) == a.per_country.contains_key(c)
                &&& c != home ==> b.per_country[c] == a.per_country[c]
            }
            &&& b.throughput_ring.len() == ring.len()
            &&& ring.len() > 0 ==> b.throughput_ring.last() == ring.last() + 1
            &&& forall|i: int|
                0 <= i < ring.len() - 1 ==> #[trigger] b.throughput_ring[i] == ring[i]
        }),
{
    let own = ip::key_of(ev.src_ip);
    let ring = a.throughput_ring;
    if a.per_ip.contains_key(own) {
        assert(a.per_ip[own].hits <= a.stats.total_events);
    }
    if ring.len() > 0 {
        rolling::item_at_most_sum(ring, ring.len() - 1);
    }
    if info is Some {
        let home = country_key(info->0);
        if a.per_country.contains_key(home) {
            assert(a.per_country[home] <= a.stats.total_events);
        }
    }
}

/// An event leaves the switches of the dashboard alone.
pub proof fn an_event_moves_no_switch(
    a: AppView,
    ev: EventView,
    info: Option<GeoView>,
    max_markers: int,
    now: u64,
)
    ensures
        ({
            let b = after_event(a, ev, info, max_markers, now);
            &&& b.focused == a.focused
            &&& b.paused == a.paused
            &&& b.clear_requested == a.clear_requested
            &&& b.connection_lines == a.connection_lines
            &&& b.should_quit == a.should_quit
            &&& b.map_hidden == a.map_hidden
            &&& b.bin_start == a.bin_start
        }),
{
}

/// An event gets a dot if and only if the map is not frozen, both coordinates
/// are known and the address can be plotted. The dot stands where the address
/// is, and shows what the row in the log shows. Of the other dots all stay, but
/// the oldest one where there would be too many.
pub proof fn an_event_is_plotted(
    a: AppView,
    ev: EventView,
    info: Option<GeoView>,
    max_markers: int,
    now: u64,
)
    requires
        max_markers > 0,
    ensures
        ({
            let b = after_event(a, ev, info, max_markers, now);
            let d = b.dots.last();
            let row = b.log.last();
            let located = info is Some && info->0.latitude is Some && info->0.longitude is Some;
            let gone = a.dots.len() + 1 - b.dots.len();
            &&& a.paused || !located || !event::plottable(ev.src_ip) ==> b.dots == a.dots
            &&& !a.paused && located && event::plottable(ev.src_ip) ==> {
                &&& gone == if a.dots.len() < max_markers {
                    0int
                } else {
                    1
                }
                &&& forall|i: int|
                    0 <= i < b.dots.len() - 1 ==> #[trigger] b.dots[i] == a.dots[i + gone]
                &&& b.dots.len() > 0
                &&& Some(d.lat) == info->0.latitude
                &&& Some(d.lon) == info->0.longitude
                &&& d.src_ip == ev.src_ip
                &&& d.created_at == now
                &&& d.proxy == info->0.proxy_kind
                &&& d.severity == row.severity
                &&& d.country == row.country
                &&& d.city == row.city
            }
        }),
{
}

/// The severity that is shown, in plain numbers: with its thirtieth event an
/// address becomes a warning and stays one; until then a known proxy is an
/// alert, and everybody else is as severe as the event itself.
pub proof fn shown_severity(
    a: AppView,
    ev: EventView,
    info: Option<GeoView>,
    max_markers: int,
    now: u64,
)
    ensures
        ({
            let own = ip::key_of(ev.src_ip);
            let many = a.per_ip.contains_key(own) && a.per_ip[own].hits >= 29;
            let proxy = info is Some && info->0.proxy_kind is Some;
            let shown = after_event(a, ev, info, max_markers, now).log.last().severity;
            &&& many ==> shown == Severity::Warn
            &&& !many && proxy ==> shown == Severity::Alert
            &&& !many && !proxy ==> shown == ev.severity
        }),
{
}

/// Where `unexpired` cuts: it drops dots from the front only, each of them
/// older than the lifetime, and stops at the first that is not.
pub proof fn only_old_dots_expire(dots: Seq<DotView>, now: u64, ttl: u64)
    ensures
        ({
            let alive = unexpired(dots, now, ttl);
            let gone = dots.len() - alive.len();
            &&& 0 <= gone
            &&& alive == dots.skip(gone)
            &&& forall|i: int|
                0 <= i < gone ==> (#[trigger] dots[i]).created_at + ttl * 1_000_000_000 < now
            &&& alive.len() > 0 ==> alive[0].created_at + ttl * 1_000_000_000 >= now
        }),
    decreases dots.len(),
{
    let alive = unexpired(dots, now, ttl);
    if dots.len() > 0 && expired(dots[0], now, ttl) {
        let rest = dots.skip(1);
        only_old_dots_expire(rest, now, ttl);
        let gone = rest.len() - alive.len();
        assert(rest.skip(gone) =~= dots.skip(gone + 1));
        assert forall|i: int| 0 <= i < gone + 1 implies (#[trigger] dots[i]).created_at + ttl
            * 1_000_000_000 < now by {
            if i > 0 {
                assert(rest[i - 1] == dots[i]);
            }
        }
    } else {
        assert(dots.skip(0) =~= dots);
    }
}

/// A tick forgets exactly the dots that are too old or too many: what is left
/// are the newest dots, none older than the lifetime in seconds, at most as
/// many as allowed; and of the last ones allowed each that is not too old is
/// still there. While the map is frozen none is forgotten.
pub proof fn a_tick_ages_the_map(a: AppView, ttl: u64, max_markers: int, now: u64)
    requires
        in_order(a.dots),
        max_markers >= 0,
        !a.clear_requested,
    ensures
        ({
            let dots = after_tick(a, ttl, max_markers, now).dots;
            let gone = a.dots.len() - dots.len();
            &&& 0 <= gone
            &&& dots == a.dots.skip(gone)
            &&& a.paused ==> gone == 0
            &&& !a.paused ==> dots.len() <= max_markers
            &&& !a.paused ==> forall|i: int|
                0 <= i < dots.len() ==> (#[trigger] dots[i]).created_at + ttl * 1_000_000_000
                    >= now
            &&& !a.paused ==> forall|i: int|
                0 <= i < gone && a.dots.len() - i <= max_markers ==> (
                #[trigger] a.dots[i]).created_at + ttl * 1_000_000_000 < now
        }),
{
    let dots = after_tick(a, ttl, max_markers, now).dots;
    if a.paused {
        assert(a.dots.skip(0) =~= a.dots);
    } else {
        only_old_dots_expire(a.dots, now, ttl);
        let alive = unexpired(a.dots, now, ttl);
        let cut = a.dots.len() - alive.len();
        let gone = a.dots.len() - dots.len();
        assert(dots =~= a.dots.skip(gone));
        assert forall|i: int| 0 <= i < dots.len() implies (#[trigger] dots[i]).created_at + ttl
            * 1_000_000_000 >= now by {
            assert(dots[i] == a.dots[i + gone]);
            assert(alive[0] == a.dots[cut]);
            if i + gone > cut {
                assert(a.dots[cut].created_at <= a.dots[i + gone].created_at);
            }
        }
        assert forall|i: int| 0 <= i < gone && a.dots.len() - i <= max_markers implies (
        #[trigger] a.dots[i]).created_at + ttl * 1_000_000_000 < now by {
            assert(i < cut);
        }
    }
}

/// A tick begins one bin for every full second that has passed since the last
/// bin began, and the first bin on the first tick. The bins stay in their
/// order, new ones are empty, and the last one hundred and twenty are kept. The
/// rate is the number of events in them over their number, and the shares are
/// those of the dots that are left.
pub proof fn a_tick_moves_the_clock(a: AppView, ttl: u64, max_markers: int, now: u64)
    requires
        a.well_formed(),
    ensures
        ({
            let b = after_tick(a, ttl, max_markers, now);
            let begun = if a.bin_start is None {
                1int
            } else if now > a.bin_start->0 {
                (now - a.bin_start->0) / 1_000_000_000
            } else {
                0
            };
            let bins = a.throughput_ring.len() + begun;
            let ring = b.throughput_ring;
            &&& a.bin_start is None ==> b.bin_start == Some(now)
            &&& a.bin_start matches Some(start) ==> b.bin_start == Some(
                (start + begun * 1_000_000_000) as u64,
            )
            &&& a.bin_start matches Some(start) ==> now > start ==> b.bin_start->0 <= now < b.bin_start->0
                + 1_000_000_000
            &&& ring.len() == if bins < 120 {
                bins
            } else {
                120
            }
            &&& forall|i: int|
                0 <= i < ring.len() ==> #[trigger] ring[i] == if i + bins - ring.len()
                    < a.throughput_ring.len() {
                    a.throughput_ring[i + bins - ring.len()]
                } else {
                    0
                }
            &&& b.stats.events_per_sec.part == rolling::sum(ring)
            &&& b.stats.events_per_sec.whole == if ring.len() > 0 {
                ring.len()
            } else {
                1
            }
            &&& b.stats.total_events == a.stats.total_events
            &&& b.stats.bytes_total == a.stats.bytes_total
        }),
{
    let n = new_bins(a.bin_start, now);
    rolling::advancing_adds_nothing(a.throughput_ring, n);
}

/// A tick leaves log, counters and switches alone, but for the request to
/// clear the map.
pub proof fn a_tick_forgets_nothing_else(a: AppView, ttl: u64, max_markers: int, now: u64)
    ensures
        ({
            let b = after_tick(a, ttl, max_markers, now);
            &&& b.log == a.log
            &&& b.log_selected == a.log_selected
            &&& b.per_ip == a.per_ip
            &&& b.per_country == a.per_country
            &&& b.focused == a.focused
            &&& b.paused == a.paused
            &&& !b.clear_requested
            &&& b.connection_lines == a.connection_lines
            &&& b.should_quit == a.should_quit
            &&& b.map_hidden == a.map_hidden
        }),
{
}

/// The shares in the metrics panel: of all dots, those whose address is a
/// proxy of any kind, a datacenter, or a Tor exit; nothing of one where there
/// are no dots.
pub proof fn shares_count_proxies(dots: Seq<DotView>)
    requires
        dots.len() <= u64::MAX,
    ensures
        dots.len() == 0 ==> proxy_share(dots, ProxyClass::Any) == (Share { part: 0, whole: 1 }),
        dots.len() == 0 ==> proxy_share(dots, ProxyClass::Datacenter) == (Share {
            part: 0,
            whole: 1,
        }),
        dots.len() == 0 ==> proxy_share(dots, ProxyClass::Tor) == (Share { part: 0, whole: 1 }),
        dots.len() > 0 ==> {
            &&& proxy_share(dots, ProxyClass::Any).whole == dots.len()
            &&& proxy_share(dots, ProxyClass::Datacenter).whole == dots.len()
            &&& proxy_share(dots, ProxyClass::Tor).whole == dots.len()
            &&& proxy_share(dots, ProxyClass::Any).part == dots.filter(
                |d: DotView| d.proxy is Some,
            ).len()
            &&& proxy_share(dots, ProxyClass::Datacenter).part == dots.filter(
                |d: DotView| d.proxy == Some(ProxyKind::Hosting),
            ).len()
            &&& proxy_share(dots, ProxyClass::Tor).part == dots.filter(
                |d: DotView| d.proxy == Some(ProxyKind::Tor),
            ).len()
        },
{
    counted_by_filter(dots);
    shares_are_of_the_dots(dots, ProxyClass::Any);
    shares_are_of_the_dots(dots, ProxyClass::Datacenter);
    shares_are_of_the_dots(dots, ProxyClass::Tor);
}

proof fn counted_by_filter(dots: Seq<DotView>)
    ensures
        dots_in(dots, ProxyClass::Any) == dots.filter(|d: DotView| d.proxy is Some).len(),
        dots_in(dots, ProxyClass::Datacenter) == dots.filter(
            |d: DotView| d.proxy == Some(ProxyKind::Hosting),
        ).len(),
        dots_in(dots, ProxyClass::Tor) == dots.filter(
            |d: DotView| d.proxy == Some(ProxyKind::Tor),
        ).len(),
    decreases dots.len(),
{
    reveal(Seq::filter);
    if dots.len() > 0 {
        counted_by_filter(dots.drop_last());
    }
}

/// A tick shows the shares of the dots that it leaves on the map.
pub proof fn a_tick_shows_the_shares(a: AppView, ttl: u64, max_markers: int, now: u64)
    ensures
        ({
            let b = after_tick(a, ttl, max_markers, now);
            &&& b.stats.proxy_pct == proxy_share(b.dots, ProxyClass::Any)
            &&& b.stats.datacenter_pct == proxy_share(b.dots, ProxyClass::Datacenter)
            &&& b.stats.tor_pct == proxy_share(b.dots, ProxyClass::Tor)
        }),
{
}

/// A dashboard starts without dots, rows and counts, with the map selected and
/// nothing switched, but for the lines, which are as configured.
pub proof fn a_dashboard_starts_empty(lines: bool)
    ensures
        ({
            let a = initial(lines);
            &&& a.dots.len() == 0 && a.log.len() == 0 && a.throughput_ring.len() == 0
            &&& a.per_ip =~= Map::empty() && a.per_country =~= Map::empty()
            &&& a.stats.total_events == 0 && a.stats.bytes_total == 0
            &&& a.stats.events_per_sec.part == 0 && a.stats.events_per_sec.whole == 1
            &&& a.stats.proxy_pct == a.stats.events_per_sec
            &&& a.stats.datacenter_pct == a.stats.events_per_sec
            &&& a.stats.tor_pct == a.stats.events_per_sec
            &&& a.focused == Panel::WorldMap
            &&& !a.paused && !a.clear_requested && !a.should_quit && !a.map_hidden
            &&& a.connection_lines == lines
            &&& a.bin_start is None && a.log_selected is None
        }),
{
}

/// Scrolling moves the selection by one row and stops at the ends; without a
/// selection it goes to the last row, and in an empty log there is none.
pub proof fn scrolling_moves_by_one(total: int, selected: Option<usize>)
    requires
        0 <= total <= usize::MAX,
        selected matches Some(i) ==> i < total,
    ensures
        total == 0 ==> row_above(total, selected) is None && row_below(total, selected) is None,
        total > 0 && selected is None ==> row_above(total, selected) == Some(
            (total - 1) as usize,
        ) && row_below(total, selected) == Some((total - 1) as usize),
        selected matches Some(i) ==> {
            &&& i > 0 ==> row_above(total, selected) == Some((i - 1) as usize)
            &&& i == 0 ==> row_above(total, selected) == Some(0usize)
            &&& i < total - 1 ==> row_below(total, selected) == Some((i + 1) as usize)
            &&& i == total - 1 ==> row_below(total, selected) == Some(i)
        },
{
}

// ---------------------------------------------------------------------------
// Rows as text
// ---------------------------------------------------------------------------

/// A text, or a dash where it is empty.
pub open spec fn or_dash(s: Seq<char>) -> Seq<char> {
    if s.len() == 0 {
        "\u{2014}"@
    } else {
        s
    }
}

/// A copy of a text, or a dash where it is empty.
pub fn text_or_dash(s: &String) -> (out: String)
    ensures
        out@ == or_dash(s@),
{
    if s.as_str().unicode_len() == 0 {
        "\u{2014}".to_owned()
    } else {
        s.clone()
    }
}

/// The tag of a proxy category, or four blanks.
pub open spec fn proxy_tag(proxy: Option<ProxyKind>) -> Seq<char> {
    match proxy {
        Some(p) => p.tag(),
        None => "    "@,
    }
}

/// The tag of a proxy category, or four blanks.
pub fn proxy_label(proxy: Option<ProxyKind>) -> (text: &'static str)
    ensures
        text@ == proxy_tag(proxy),
{
    match proxy {
        Some(p) => p.label(),
        None => "    ",
    }
}

/// A status as text, or `otherwise`.
pub open spec fn status_or(status: Option<u16>, otherwise: Seq<char>) -> Seq<char> {
    match status {
        Some(n) => text::decimal(n as nat),
        None => otherwise,
    }
}

/// A status as text, or `otherwise`.
pub fn status_text(status: Option<u16>, otherwise: &'static str) -> (text: String)
    ensures
        text@ == status_or(status, otherwise@),
{
    match status {
        Some(n) => text::decimal_text(n as u64),
        None => otherwise.to_owned(),
    }
}

/// A path shortened to `n` bytes, or nothing where there is none.
pub open spec fn path_or_empty(path: Option<Seq<char>>, n: int) -> Seq<char> {
    match path {
        Some(p) => slices::shortened(p, n),
        None => Seq::empty(),
    }
}

/// Whether a path can be shortened to `n` bytes.
pub open spec fn path_fits(path: Option<Seq<char>>, n: int) -> bool {
    match path {
        Some(p) => slices::can_shorten(p, n),
        None => true,
    }
}

/// Whether a path can be shortened to `n` bytes without cutting a character in
/// two.
pub fn can_shorten_path(path: &Option<String>, n: usize) -> (yes: bool)
    requires
        n < 1000,
    ensures
        yes == path_fits(text::text_of(*path), n as int),
{
    match path {
        Some(p) => slices::shorten(p.as_str(), n).is_some(),
        None => true,
    }
}

/// Shortens a path to `n` bytes.
pub fn short_path(path: &Option<String>, n: usize) -> (out: String)
    requires
        n < 1000,
        path_fits(text::text_of(*path), n as int),
    ensures
        out@ == path_or_empty(text::text_of(*path), n as int),
{
    match path {
        Some(p) => match slices::shorten(p.as_str(), n) {
            Some(out) => out,
            None => String::new(),
        },
        None => String::new(),
    }
}

/// How many bytes of a path a log line shows.
pub const LINE_PATH_BYTES: usize = 32;

/// A row as one line of text.
pub open spec fn line_of(r: RowView) -> Seq<char> {
    clock::time_of_day(r.timestamp) + " "@ + text::pad_right(ip::ip_text(r.src_ip), 15) + " "@
        + text::pad_right(or_dash(r.country), 14) + " "@ + text::pad_right(or_dash(r.city), 14)
        + " ["@ + proxy_tag(r.proxy) + "] ["@ + r.severity.tag() + "] "@ + text::pad_right(
        r.protocol,
        5,
    ) + " "@ + text::pad_right(status_or(r.http_status, "   "@), 3) + " "@ + path_or_empty(
        r.http_path,
        LINE_PATH_BYTES as int,
    )
}

impl LogRow {
    /// The row as one line of text.
    pub fn fmt_line(&self) -> (line: String)
        requires
            self.timestamp.valid(),
            path_fits(self@.http_path, LINE_PATH_BYTES as int),
        ensures
            line@ == line_of(self@),
    {
        let mut out: String = clock::clock_text(self.timestamp);
        out.append(" ");
        text::push_padded(&mut out, self.src_ip.to_text().as_str(), 15);
        out.append(" ");
        text::push_padded(&mut out, text_or_dash(&self.country).as_str(), 14);
        out.append(" ");
        text::push_padded(&mut out, text_or_dash(&self.city).as_str(), 14);
        out.append(" [");
        out.append(proxy_label(self.proxy));
        out.append("] [");
        out.append(self.severity.label());
        out.append("] ");
        text::push_padded(&mut out, self.protocol.as_str(), 5);
        out.append(" ");
        text::push_padded(&mut out, status_text(self.http_status, "   ").as_str(), 3);
        out.append(" ");
        out.append(short_path(&self.http_path, LINE_PATH_BYTES).as_str());
        out
    }
}

/// A row as a line: the time, the address in a field of fifteen, country and
/// city (or a dash) in fields of fourteen, the tags of proxy and severity in
/// brackets, the protocol in a field of five, the status in a field of three
/// and at most thirty-two bytes of the path.
pub proof fn lines_show_their_row(r: RowView)
    ensures
        ({
            let dash = "\u{2014}"@;
            let country = if r.country.len() > 0 {
                r.country
            } else {
                dash
            };
            let city = if r.city.len() > 0 {
                r.city
            } else {
                dash
            };
            let proxy = if r.proxy is Some {
                r.proxy->0.tag()
            } else {
                "    "@
            };
            let status = if r.http_status is Some {
                text::decimal(r.http_status->0 as nat)
            } else {
                "   "@
            };
            let path = if r.http_path is Some {
                slices::shortened(r.http_path->0, 32)
            } else {
                Seq::empty()
            };
            line_of(r) == clock::time_of_day(r.timestamp) + " "@ + text::pad_right(
                ip::ip_text(r.src_ip),
                15,
            ) + " "@ + text::pad_right(country, 14) + " "@ + text::pad_right(city, 14) + " ["@
                + proxy + "] ["@ + r.severity.tag() + "] "@ + text::pad_right(r.protocol, 5) + " "@
                + text::pad_right(status, 3) + " "@ + path
        }),
{
}

/// The view of a dot hides nothing of it.
pub proof fn views_show_all_of_a_dot(d: MapDot)
    ensures
        d@.lat == d.lat && d@.lon == d.lon && d@.country == d.country@ && d@.city == d.city@,
        d@.severity == d.severity && d@.src_ip == d.src_ip && d@.proxy == d.proxy,
        d@.created_at == d.created_at,
{
}

/// The view of a row hides nothing of it.
pub proof fn views_show_all_of_a_row(r: LogRow)
    ensures
        r@.timestamp == r.timestamp && r@.src_ip == r.src_ip && r@.country == r.country@,
        r@.city == r.city@ && r@.proxy == r.proxy && r@.http_status == r.http_status,
        r@.protocol == r.protocol@ && r@.bytes == r.bytes && r@.source == r.source,
        r@.severity == r.severity,
        r.http_method matches Some(s) ==> r@.http_method == Some(s@),
        r.http_path matches Some(s) ==> r@.http_path == Some(s@),
        r.user_agent matches Some(s) ==> r@.user_agent == Some(s@),
        r.http_method is None ==> r@.http_method is None,
        r.http_path is None ==> r@.http_path is None,
        r.user_agent is None ==> r@.user_agent is None,
{
}

/// The view of the dashboard shows its dots and rows one by one, and its
/// switches and counters as they are.
pub proof fn views_show_all_of_the_dashboard(a: AppState, i: int)
    ensures
        a@.dots.len() == a.dots@.len() && a@.log.len() == a.log@.len(),
        0 <= i < a.dots@.len() ==> a@.dots[i] == a.dots@[i]@,
        0 <= i < a.log@.len() ==> a@.log[i] == a.log@[i]@,
        a@.stats == a.stats && a@.focused == a.focused && a@.paused == a.paused,
        a@.clear_requested == a.clear_requested && a@.connection_lines == a.connection_lines,
        a@.throughput_ring == a.throughput_ring@ && a@.bin_start == a.bin_start,
        a@.should_quit == a.should_quit && a@.log_selected == a.log_selected,
        a@.map_hidden == a.map_hidden,
{
}

/// There is room for an event as long as neither the events nor the bytes can
/// no longer be counted.
pub proof fn room_is_left_until_a_counter_is_full(a: AppView, bytes: Option<u64>)
    ensures
        a.has_room(None) <==> a.stats.total_events < u64::MAX,
        a.stats.total_events < u64::MAX ==> (bytes matches Some(n) ==> (a.has_room(bytes) <==> n
            <= u64::MAX - a.stats.bytes_total)),
{
}

/// A path can be shown unless shortening it would cut a character in two; one
/// that is not there can be shown too.
pub proof fn paths_fit_unless_a_character_is_cut(p: Seq<char>, n: int)
    ensures
        path_fits(None, n),
        path_fits(Some(p), n) <==> slices::can_shorten(p, n),
{
}

/// Whatever was selected, scrolling ends on a row of the log.
pub proof fn scrolling_ends_in_the_log(total: int, selected: Option<usize>)
    requires
        0 < total <= usize::MAX,
    ensures
        row_above(total, selected) matches Some(i) && i < total,
        row_below(total, selected) matches Some(i) && i < total,
        selected matches Some(i) ==> (i >= total ==> row_above(total, selected) == Some(
            (total - 1) as usize,
        ) && row_below(total, selected) == Some((total - 1) as usize)),
{
}

} // verus!
