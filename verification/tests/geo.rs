//! Geolocation, databases and the home address.

use geotop::db_downloader::{
    ensure_databases, file_changed, first_bin, hot_reload, update_config, DbConfig, EnsureStage,
    ReloadStage, DEFAULT_GEO_URL, DEFAULT_PROXY_URL, LOCATION_DB_NAME, PROXY_DB_NAME,
};
use geotop::geo::cache::{GeoLookup, CACHE_CAPACITY};
use geotop::geo::lookup::{
    classify_proxy, lookup_uncached, proxy_kind_of, GeoInfo, LocationRecord, ProxyKind,
    ProxyRecord, ProxyStatus,
};
use geotop::home::{after_reply, detect, label_place, Reply, Step, ENDPOINTS};
use geotop::ieee::Double;
use geotop::ip::IpAddr;
use geotop::ui::map_renderer::HomeLocation;

fn double(x: f64) -> Double {
    Double { bits: x.to_bits() }
}

fn record() -> LocationRecord {
    LocationRecord {
        country_code: Some("GB".to_string()),
        country_name: Some("United Kingdom".to_string()),
        region: Some("England".to_string()),
        city: Some("London".to_string()),
        latitude: Some(double(51.5)),
        longitude: Some(double(-0.1)),
        isp: None,
    }
}

fn proxy(status: Option<ProxyStatus>, description: Option<&str>) -> Option<ProxyRecord> {
    Some(ProxyRecord { status, description: description.map(|s| s.to_string()) })
}

#[test]
fn which_records_are_of_proxies() {
    assert_eq!(proxy_kind_of(None), None);
    let vpn = Some("VPN");
    for (status, kind) in [
        (None, Some(ProxyKind::Vpn)),
        (Some(ProxyStatus::Unreadable), Some(ProxyKind::Vpn)),
        (Some(ProxyStatus::NotAProxy), None),
        (Some(ProxyStatus::Proxy), Some(ProxyKind::Vpn)),
        (Some(ProxyStatus::DataCenter), Some(ProxyKind::Vpn)),
    ] {
        assert_eq!(proxy_kind_of(proxy(status, vpn)), kind, "{:?}", status);
    }
    let nameless = proxy(Some(ProxyStatus::Proxy), None);
    assert_eq!(proxy_kind_of(nameless), Some(ProxyKind::PublicProxy));
    assert_eq!(proxy_kind_of(proxy(Some(ProxyStatus::NotAProxy), None)), None);
}

#[test]
fn proxy_classes() {
    for (text, kind) in [
        (None, ProxyKind::PublicProxy),
        (Some("TOR"), ProxyKind::Tor),
        (Some("VPN"), ProxyKind::Vpn),
        (Some("Anonymous VPN"), ProxyKind::AnonymousVpn),
        (Some("tor vpn"), ProxyKind::Tor),
        (Some("Web hosting"), ProxyKind::Hosting),
        (Some("DataCenter"), ProxyKind::Hosting),
        (Some("data center"), ProxyKind::Hosting),
        (Some("Residential"), ProxyKind::ResidentialProxy),
        (Some("Search engine"), ProxyKind::SearchEngineBot),
        (Some("robot"), ProxyKind::SearchEngineBot),
        (Some("SES"), ProxyKind::PublicProxy),
        (Some(""), ProxyKind::PublicProxy),
    ] {
        assert_eq!(classify_proxy(text), kind, "{:?}", text);
    }
}

#[test]
fn proxy_tags() {
    for (kind, label) in [
        (ProxyKind::Anonymous, "ANON"),
        (ProxyKind::AnonymousVpn, "AVPN"),
        (ProxyKind::Hosting, "DC "),
        (ProxyKind::PublicProxy, "PROX"),
        (ProxyKind::ResidentialProxy, "RESI"),
        (ProxyKind::Tor, "TOR "),
        (ProxyKind::Vpn, "VPN "),
        (ProxyKind::SearchEngineBot, "BOT "),
    ] {
        assert_eq!(kind.label(), label);
    }
}

#[test]
fn a_located_address() {
    let ip = IpAddr::v4(8, 8, 8, 8);
    let info = lookup_uncached(ip, Some(record()), proxy(Some(ProxyStatus::Proxy), Some("VPN"))).unwrap();
    assert_eq!(info.ip, ip);
    assert_eq!(info.country_code.as_deref(), Some("GB"));
    assert_eq!(info.country_name.as_deref(), Some("United Kingdom"));
    assert_eq!(info.region.as_deref(), Some("England"));
    assert_eq!(info.city.as_deref(), Some("London"));
    assert_eq!(info.latitude, Some(double(51.5)));
    assert_eq!(info.longitude, Some(double(-0.1)));
    assert_eq!(info.proxy_kind, Some(ProxyKind::Vpn));
    assert_eq!(info.isp, None);
    let info = lookup_uncached(ip, Some(record()), None).unwrap();
    assert_eq!(info.proxy_kind, None);
    let denied = proxy(Some(ProxyStatus::NotAProxy), Some("-"));
    let info = lookup_uncached(ip, Some(record()), denied).unwrap();
    assert_eq!(info.proxy_kind, None);
    let info = lookup_uncached(ip, Some(record()), proxy(Some(ProxyStatus::Proxy), None)).unwrap();
    assert_eq!(info.proxy_kind, Some(ProxyKind::PublicProxy));
}

#[test]
fn an_address_without_coordinates() {
    let ip = IpAddr::v4(8, 8, 8, 8);
    assert!(lookup_uncached(ip, None, None).is_none());
    let half = LocationRecord { longitude: None, ..record() };
    assert!(lookup_uncached(ip, Some(half), None).is_none());
    let half = LocationRecord { latitude: None, ..record() };
    assert!(lookup_uncached(ip, Some(half), None).is_none());
}

#[test]
fn lookups_are_remembered() {
    let mut geo = GeoLookup::new();
    let a = IpAddr::v4(1, 1, 1, 1);
    let b = IpAddr::V6(1);
    assert!(geo.cached(a).is_none());
    let info = geo.resolve(a, Some(record()), None).unwrap();
    assert_eq!(info.city.as_deref(), Some("London"));
    let hit = geo.cached(a).unwrap().unwrap();
    assert_eq!(hit.city.as_deref(), Some("London"));
    assert_eq!(hit.ip, a);
    // That nothing is known is remembered too.
    assert!(geo.resolve(b, None, None).is_none());
    assert!(matches!(geo.cached(b), Some(None)));
    assert!(geo.cached(IpAddr::v4(0, 0, 0, 1)).is_none());
}

#[test]
fn the_first_answer_stays() {
    let mut geo = GeoLookup::new();
    let a = IpAddr::v4(1, 1, 1, 1);
    let first = geo.lookup(a, Some(record()), None).unwrap();
    assert_eq!(first.proxy_kind, None);
    // The databases are not asked again.
    let second = geo.lookup(a, None, proxy(None, None)).unwrap();
    assert_eq!(second.city.as_deref(), Some("London"));
    assert_eq!(second.proxy_kind, None);
    let other = geo.lookup(IpAddr::v4(2, 2, 2, 2), Some(record()), proxy(Some(ProxyStatus::Proxy), None)).unwrap();
    assert_eq!(other.proxy_kind, Some(ProxyKind::PublicProxy));
}

#[test]
fn answers_stay_while_few_others_are_asked_for() {
    let mut geo = GeoLookup::new();
    let a = IpAddr::v4(1, 1, 1, 1);
    let b = IpAddr::v4(1, 1, 1, 2);
    geo.lookup(a, Some(record()), None);
    assert!(geo.lookup(b, None, None).is_none());
    // Others are asked for, each of them twice, until one more would push the
    // first address out.
    for i in 0..CACHE_CAPACITY as u32 - 2 {
        for _ in 0..2 {
            geo.lookup(IpAddr::V4(0x0200_0000 + i), Some(record()), None);
        }
    }
    assert!(geo.lookup(b, Some(record()), None).is_none());
    let kept = geo.lookup(a, None, None).unwrap();
    assert_eq!(kept.city.as_deref(), Some("London"));
    // By now both are the most recent ones again.
    assert!(matches!(geo.cached(b), Some(None)));
}

#[test]
fn the_least_recently_used_is_forgotten() {
    let mut geo = GeoLookup::new();
    for i in 0..CACHE_CAPACITY as u32 {
        geo.resolve(IpAddr::V4(i), None, None);
    }
    // The oldest one is used again, so the second oldest has to go.
    assert!(geo.cached(IpAddr::V4(0)).is_some());
    geo.resolve(IpAddr::V4(u32::MAX), None, None);
    assert!(geo.cached(IpAddr::V4(0)).is_some());
    assert!(geo.cached(IpAddr::V4(1)).is_none());
    assert!(geo.cached(IpAddr::V4(2)).is_some());
    assert_eq!(CACHE_CAPACITY, 20_000);
}

#[test]
fn database_defaults() {
    let c = DbConfig::default();
    assert_eq!(c.data_dir, "./data");
    assert_eq!(c.geo_db, LOCATION_DB_NAME);
    assert_eq!(c.proxy_db, PROXY_DB_NAME);
    assert_eq!(LOCATION_DB_NAME, "IP2LOCATION-LITE-DB11.BIN");
    assert_eq!(PROXY_DB_NAME, "IP2PROXY-LITE-PX11.BIN");
    assert_eq!(c.max_age_days, 30);
    assert_eq!(c.geo_url, DEFAULT_GEO_URL);
    assert_eq!(c.proxy_url, DEFAULT_PROXY_URL);
    assert_eq!(c.token, "");
    assert!(c.proxy_enabled && !c.geo_staged && !c.proxy_staged);
    assert_eq!(c.geo_path(), "./data/IP2LOCATION-LITE-DB11.BIN");
    assert_eq!(c.proxy_path(), "./data/IP2PROXY-LITE-PX11.BIN");
    assert_eq!(c.zip_path("X.BIN"), "./data/X.BIN.zip");
    let dbs = c.resolved();
    assert_eq!(dbs.location_db, c.geo_path());
    assert_eq!(dbs.proxy_db, Some(c.proxy_path()));
    let off = DbConfig { proxy_enabled: false, ..DbConfig::default() };
    assert_eq!(off.resolved().proxy_db, None);
}

#[test]
fn paths_are_joined_like_paths() {
    for (dir, name) in [("/a", "b"), ("/a/", "b"), ("", "b"), ("a", "/b"), ("a", ""), ("/", "x/y")] {
        let c = DbConfig {
            data_dir: dir.to_string(),
            geo_db: name.to_string(),
            ..DbConfig::default()
        };
        let expected = std::path::Path::new(dir).join(name);
        assert_eq!(c.geo_path(), expected.to_str().unwrap());
    }
}

#[test]
fn download_addresses() {
    let mut c = DbConfig::default();
    assert_eq!(
        c.download_url(DEFAULT_GEO_URL),
        "https://www.ip2location.com/download?file=DB11LITEBIN"
    );
    c.token = "abc".to_string();
    assert_eq!(
        c.download_url(DEFAULT_PROXY_URL),
        "https://www.ip2location.com/download?file=PX11LITEBIN&token=abc"
    );
    let update = update_config("/db", "abc");
    assert_eq!(update.data_dir, "/db");
    assert_eq!(update.token, "abc");
    assert_eq!(update.geo_db, LOCATION_DB_NAME);
}

#[test]
fn old_databases_are_refreshed() {
    let c = DbConfig::default();
    let limit = 30 * 86_400;
    assert!(c.needs_refresh(None));
    assert!(!c.needs_refresh(Some((0, 0))));
    assert!(!c.needs_refresh(Some((limit, 0))));
    assert!(c.needs_refresh(Some((limit, 1))));
    assert!(c.needs_refresh(Some((limit + 1, 0))));
    assert!(c.geo_needs_refresh(None) && c.proxy_needs_refresh(None));
}

#[test]
fn staged_databases_are_not_refreshed() {
    let c = DbConfig { geo_staged: true, ..DbConfig::default() };
    assert!(!c.geo_needs_refresh(None));
    assert!(c.proxy_needs_refresh(None));
    let c = DbConfig { proxy_staged: true, ..DbConfig::default() };
    assert!(c.geo_needs_refresh(None));
    assert!(!c.proxy_needs_refresh(None));
}

#[test]
fn changed_files_are_noticed_once() {
    let mut last = 0;
    assert!(!file_changed(&mut last, None));
    assert_eq!(last, 0);
    assert!(!file_changed(&mut last, Some(100)));
    assert!(!file_changed(&mut last, Some(100)));
    assert!(file_changed(&mut last, Some(99)));
    assert!(!file_changed(&mut last, Some(99)));
    assert!(!file_changed(&mut last, None));
    assert_eq!(last, 99);
}

#[test]
fn the_database_in_an_archive() {
    let names = |v: &[&str]| v.iter().map(|s| s.to_string()).collect::<Vec<String>>();
    assert_eq!(first_bin(&names(&["README.TXT", "A.BIN", "B.BIN"])), Some(1));
    assert_eq!(first_bin(&names(&["a.bin", "BIN", "A.BIN.zip"])), None);
    assert_eq!(first_bin(&names(&[".BIN"])), Some(0));
    assert_eq!(first_bin(&names(&[])), None);
}

/// Runs all stages with fixed answers and lists them.
fn stages(proxy: bool, stale: bool, ok: bool) -> Vec<EnsureStage> {
    let mut stage = EnsureStage::CheckGeo;
    let mut seen = vec![stage];
    while stage != EnsureStage::Done && stage != EnsureStage::Failed {
        let yes = match stage {
            EnsureStage::CheckGeo | EnsureStage::CheckProxy => stale,
            _ => ok,
        };
        stage = ensure_databases(stage, proxy, yes);
        seen.push(stage);
    }
    seen
}

#[test]
fn the_order_of_refreshing() {
    assert_eq!(
        stages(true, true, true),
        [
            EnsureStage::CheckGeo,
            EnsureStage::DownloadGeo,
            EnsureStage::CheckProxy,
            EnsureStage::DownloadProxy,
            EnsureStage::LoadGeo,
            EnsureStage::LoadProxy,
            EnsureStage::Done,
        ]
    );
    assert_eq!(
        stages(false, true, true),
        [EnsureStage::CheckGeo, EnsureStage::DownloadGeo, EnsureStage::LoadGeo, EnsureStage::Done]
    );
    assert_eq!(
        stages(true, true, false),
        [EnsureStage::CheckGeo, EnsureStage::DownloadGeo, EnsureStage::Failed]
    );
    assert_eq!(
        stages(true, false, false),
        [EnsureStage::CheckGeo, EnsureStage::CheckProxy, EnsureStage::LoadGeo, EnsureStage::Failed]
    );
    // A proxy database that cannot be loaded is no failure.
    assert_eq!(ensure_databases(EnsureStage::LoadProxy, true, false), EnsureStage::Done);
}

#[test]
fn the_order_of_reloading() {
    let s = ReloadStage::CheckGeo;
    assert_eq!(hot_reload(s, true, true), ReloadStage::LoadGeo);
    assert_eq!(hot_reload(s, true, false), ReloadStage::CheckProxy);
    assert_eq!(hot_reload(s, false, false), ReloadStage::Done);
    assert_eq!(hot_reload(ReloadStage::LoadGeo, true, true), ReloadStage::CheckProxy);
    assert_eq!(hot_reload(ReloadStage::LoadGeo, true, false), ReloadStage::Failed);
    assert_eq!(hot_reload(ReloadStage::CheckProxy, true, true), ReloadStage::LoadProxy);
    assert_eq!(hot_reload(ReloadStage::CheckProxy, true, false), ReloadStage::Done);
    assert_eq!(hot_reload(ReloadStage::LoadProxy, true, false), ReloadStage::Failed);
    assert_eq!(hot_reload(ReloadStage::LoadProxy, true, true), ReloadStage::Done);
}

#[test]
fn the_public_address_is_searched_for() {
    assert_eq!(
        ENDPOINTS,
        [
            "https://ipv4.icanhazip.com",
            "https://api4.ipify.org",
            "https://icanhazip.com",
            "https://api.ipify.org",
            "https://ifconfig.me/ip",
        ]
    );
    assert_eq!(after_reply(0, &Reply::Unreachable), Step::Ask(1));
    assert_eq!(after_reply(1, &Reply::Refused), Step::Ask(2));
    assert_eq!(after_reply(2, &Reply::Unreadable), Step::Ask(3));
    assert_eq!(after_reply(3, &Reply::Text("no address".to_string())), Step::Ask(4));
    assert_eq!(after_reply(4, &Reply::Unreachable), Step::GiveUp);
    assert_eq!(
        after_reply(0, &Reply::Text(" 1.2.3.4\n".to_string())),
        Step::Found(IpAddr::v4(1, 2, 3, 4))
    );
    assert_eq!(after_reply(4, &Reply::Text("::1".to_string())), Step::Found(IpAddr::V6(1)));
}

#[test]
fn places_are_named() {
    let s = |t: &str| Some(t.to_string());
    assert_eq!(label_place(&s("France"), &s("Paris")), "France, Paris");
    assert_eq!(label_place(&s("France"), &s("")), "France");
    assert_eq!(label_place(&s("France"), &None), "France");
    assert_eq!(label_place(&s(""), &s("Paris")), "Paris");
    assert_eq!(label_place(&None, &s("Paris")), "Paris");
    assert_eq!(label_place(&None, &s("")), "Unknown");
    assert_eq!(label_place(&None, &None), "Unknown");
}

fn fallback() -> HomeLocation {
    HomeLocation { lat: double(39.0), lon: double(-77.0), ip: None, label: None }
}

fn info(lat: Option<f64>, country: Option<&str>, city: Option<&str>) -> GeoInfo {
    GeoInfo {
        ip: IpAddr::v4(1, 2, 3, 4),
        country_code: None,
        country_name: country.map(|s| s.to_string()),
        region: None,
        city: city.map(|s| s.to_string()),
        latitude: lat.map(double),
        longitude: Some(double(2.0)),
        proxy_kind: None,
        isp: None,
    }
}

#[test]
fn the_home_marker() {
    let ip = IpAddr::v4(1, 2, 3, 4);
    let none = detect(None, None, fallback());
    assert_eq!((none.lat, none.lon, none.ip, none.label), (double(39.0), double(-77.0), None, None));
    let unknown = detect(Some(ip), None, fallback());
    assert_eq!((unknown.lat, unknown.ip, unknown.label), (double(39.0), Some(ip), None));
    let half = detect(Some(ip), Some(info(None, None, Some("Paris"))), fallback());
    assert_eq!((half.lat, half.ip, half.label.as_deref()), (double(39.0), Some(ip), Some("Paris")));
    let found = detect(Some(ip), Some(info(Some(48.9), Some("France"), Some("Paris"))), fallback());
    assert_eq!((found.lat, found.lon, found.ip), (double(48.9), double(2.0), Some(ip)));
    assert_eq!(found.label.as_deref(), Some("France, Paris"));
}
