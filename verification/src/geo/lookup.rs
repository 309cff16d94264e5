//! Geolocation records and how they are put together.
//!
//! The two databases (location and proxy) are read by the program around this
//! library. Here the plain fields of their records become a [`GeoInfo`], and
//! answers are kept in a cache.

use vstd::prelude::*;

use crate::ieee::Double;
use crate::ip::IpAddr;
use crate::text;

verus! {

/// Proxy detection categories.
#[derive(Clone, Copy, Debug, PartialEq, Eq, Structural)]
pub enum ProxyKind {
    Anonymous,
    AnonymousVpn,
    Hosting,
    PublicProxy,
    ResidentialProxy,
    Tor,
    Vpn,
    SearchEngineBot,
}

impl ProxyKind {
    /// The short tag of a category.
    pub open spec fn tag(self) -> Seq<char> {
        match self {
            ProxyKind::Anonymous => "ANON"@,
            ProxyKind::AnonymousVpn => "AVPN"@,
            ProxyKind::Hosting => "DC "@,
            ProxyKind::PublicProxy => "PROX"@,
            ProxyKind::ResidentialProxy => "RESI"@,
            ProxyKind::Tor => "TOR "@,
            ProxyKind::Vpn => "VPN "@,
            ProxyKind::SearchEngineBot => "BOT "@,
        }
    }

    /// The short tag of a category.
    pub fn label(self) -> (text: &'static str)
        ensures
            text@ == self.tag(),
    {
        match self {
            ProxyKind::Anonymous => "ANON",
            ProxyKind::AnonymousVpn => "AVPN",
            ProxyKind::Hosting => "DC ",
            ProxyKind::PublicProxy => "PROX",
            ProxyKind::ResidentialProxy => "RESI",
            ProxyKind::Tor => "TOR ",
            ProxyKind::Vpn => "VPN ",
            ProxyKind::SearchEngineBot => "BOT ",
        }
    }
}

/// The category that the proxy database's description stands for. The first
/// of the tests that holds decides; letter case does not count.
pub open spec fn proxy_class(description: Option<Seq<char>>) -> ProxyKind {
    match description {
        None => ProxyKind::PublicProxy,
        Some(s) => {
            let lc = text::lower(s);
            if text::occurs_in(lc, "tor"@) {
                ProxyKind::Tor
            } else if text::occurs_in(lc, "vpn"@) && text::occurs_in(lc, "anon"@) {
                ProxyKind::AnonymousVpn
            } else if text::occurs_in(lc, "vpn"@) {
                ProxyKind::Vpn
            } else if text::occurs_in(lc, "host"@) || text::occurs_in(lc, "datacenter"@)
                || text::occurs_in(lc, "data center"@) {
                ProxyKind::Hosting
            } else if text::occurs_in(lc, "residential"@) {
                ProxyKind::ResidentialProxy
            } else if text::occurs_in(lc, "search"@) || text::occurs_in(lc, "bot"@) {
                ProxyKind::SearchEngineBot
            } else {
                ProxyKind::PublicProxy
            }
        },
    }
}

/// Classifies the proxy database's description of an address.
pub fn classify_proxy(description: Option<&str>) -> (kind: ProxyKind)
    ensures
        kind == proxy_class(
            match description {
                Some(s) => Some(s@),
                None => None,
            },
        ),
{
    let lowered: String = match description {
        Some(s) => text::to_lower(s),
        None => {
            return ProxyKind::PublicProxy;
        },
    };
    let lc: &str = lowered.as_str();
    if text::contains(lc, "tor") {
        ProxyKind::Tor
    } else if text::contains(lc, "vpn") && text::contains(lc, "anon") {
        ProxyKind::AnonymousVpn
    } else if text::contains(lc, "vpn") {
        ProxyKind::Vpn
    } else if text::contains(lc, "host") || text::contains(lc, "datacenter") || text::contains(
        lc,
        "data center",
    ) {
        ProxyKind::Hosting
    } else if text::contains(lc, "residential") {
        ProxyKind::ResidentialProxy
    } else if text::contains(lc, "search") || text::contains(lc, "bot") {
        ProxyKind::SearchEngineBot
    } else {
        ProxyKind::PublicProxy
    }
}

/// Lightweight geolocation record used by the dashboard.
#[derive(Debug)]
pub struct GeoInfo {
    pub ip: IpAddr,
    pub country_code: Option<String>,
    pub country_name: Option<String>,
    pub region: Option<String>,
    pub city: Option<String>,
    pub latitude: Option<Double>,
    pub longitude: Option<Double>,
    /// Proxy / VPN / TOR / datacenter flags (aggregated).
    pub proxy_kind: Option<ProxyKind>,
    pub isp: Option<String>,
}

/// What a [`GeoInfo`] says.
#[verifier::ext_equal]
pub struct GeoView {
    pub ip: IpAddr,
    pub country_code: Option<Seq<char>>,
    pub country_name: Option<Seq<char>>,
    pub region: Option<Seq<char>>,
    pub city: Option<Seq<char>>,
    pub latitude: Option<Double>,
    pub longitude: Option<Double>,
    pub proxy_kind: Option<ProxyKind>,
    pub isp: Option<Seq<char>>,
}

impl View for GeoInfo {
    type V = GeoView;

    open spec fn view(&self) -> GeoView {
        GeoView {
            ip: self.ip,
            country_code: text::text_of(self.country_code),
            country_name: text::text_of(self.country_name),
            region: text::text_of(self.region),
            city: text::text_of(self.city),
            latitude: self.latitude,
            longitude: self.longitude,
            proxy_kind: self.proxy_kind,
            isp: text::text_of(self.isp),
        }
    }
}

impl Clone for GeoInfo {
    fn clone(&self) -> (copy: GeoInfo)
        ensures
            copy == *self,
    {
        GeoInfo {
            ip: self.ip,
            country_code: text::copy_text(&self.country_code),
            country_name: text::copy_text(&self.country_name),
            region: text::copy_text(&self.region),
            city: text::copy_text(&self.city),
            latitude: self.latitude,
            longitude: self.longitude,
            proxy_kind: self.proxy_kind,
            isp: text::copy_text(&self.isp),
        }
    }
}

/// The view of an optional record.
pub open spec fn info_view(info: Option<GeoInfo>) -> Option<GeoView> {
    match info {
        Some(i) => Some(i@),
        None => None,
    }
}

/// A copy of an optional record.
pub fn copy_info(info: &Option<GeoInfo>) -> (copy: Option<GeoInfo>)
    ensures
        copy == *info,
{
    match info {
        Some(i) => Some(i.clone()),
        None => None,
    }
}

/// The fields of a record of the location database.
#[derive(Debug)]
pub struct LocationRecord {
    pub country_code: Option<String>,
    pub country_name: Option<String>,
    pub region: Option<String>,
    pub city: Option<String>,
    pub latitude: Option<Double>,
    pub longitude: Option<Double>,
    pub isp: Option<String>,
}

/// What the proxy database says an address is.
#[derive(Clone, Copy, Debug, PartialEq, Eq, Structural)]
pub enum ProxyStatus {
    /// The record could not be read.
    Unreadable,
    /// No known proxy.
    NotAProxy,
    /// A known proxy.
    Proxy,
    /// An address of a data center or a hosting provider.
    DataCenter,
}

/// The fields of a record of the proxy database.
#[derive(Debug)]
pub struct ProxyRecord {
    pub status: Option<ProxyStatus>,
    /// What kind of proxy it is.
    pub description: Option<String>,
}

/// Whether a record is one of a proxy: all are, but those that deny it.
pub open spec fn is_proxy(record: ProxyRecord) -> bool {
    record.status != Some(ProxyStatus::NotAProxy)
}

/// The category of the proxy at an address, given the record that the proxy
/// database holds of it, if it holds one.
pub open spec fn proxy_of(record: Option<ProxyRecord>) -> Option<ProxyKind> {
    match record {
        None => None,
        Some(r) => if is_proxy(r) {
            Some(proxy_class(text::text_of(r.description)))
        } else {
            None
        },
    }
}

/// Finds the category of the proxy at an address, if there is one.
pub fn proxy_kind_of(record: Option<ProxyRecord>) -> (kind: Option<ProxyKind>)
    ensures
        kind == proxy_of(record),
{
    let r: ProxyRecord = match record {
        Some(r) => r,
        None => {
            return None;
        },
    };
    match r.status {
        Some(ProxyStatus::NotAProxy) => None,
        _ => match r.description {
            Some(s) => Some(classify_proxy(Some(s.as_str()))),
            None => Some(classify_proxy(None)),
        },
    }
}

/// The geolocation of an address, given the records that the two databases
/// hold of it, if they hold any. Without both coordinates there is none.
pub open spec fn assembled(
    ip: IpAddr,
    location: Option<LocationRecord>,
    proxy: Option<ProxyRecord>,
) -> Option<GeoView> {
    match location {
        None => None,
        Some(loc) => if loc.latitude is None || loc.longitude is None {
            None
        } else {
            Some(
                GeoView {
                    ip,
                    country_code: text::text_of(loc.country_code),
                    country_name: text::text_of(loc.country_name),
                    region: text::text_of(loc.region),
                    city: text::text_of(loc.city),
                    latitude: loc.latitude,
                    longitude: loc.longitude,
                    proxy_kind: proxy_of(proxy),
                    isp: text::text_of(loc.isp),
                },
            )
        },
    }
}

/// Puts the geolocation of an address together.
pub fn lookup_uncached(
    ip: IpAddr,
    location: Option<LocationRecord>,
    proxy: Option<ProxyRecord>,
) -> (info: Option<GeoInfo>)
    ensures
        info_view(info) == assembled(ip, location, proxy),
{
    let loc: LocationRecord = match location {
        Some(loc) => loc,
        None => {
            return None;
        },
    };
    if loc.latitude.is_none() || loc.longitude.is_none() {
        return None;
    }
    Some(
        GeoInfo {
            ip,
            country_code: loc.country_code,
            country_name: loc.country_name,
            region: loc.region,
            city: loc.city,
            latitude: loc.latitude,
            longitude: loc.longitude,
            proxy_kind: proxy_kind_of(proxy),
            isp: loc.isp,
        },
    )
}

// ---------------------------------------------------------------------------
// What a record means
// ---------------------------------------------------------------------------

/// A description is classified by the words in it, whatever their case: Tor
/// before anything else, then virtual networks, hosting, residential lines and
/// search engines; what is left is a public proxy.
pub proof fn descriptions_are_classified(s: Seq<char>)
    ensures
        ({
            let says = |word: Seq<char>| text::occurs_in(text::lower(s), word);
            let kind = proxy_class(Some(s));
            let hosted = says("host"@) || says("datacenter"@) || says("data center"@);
            let machine = says("search"@) || says("bot"@);
            &&& kind == ProxyKind::Tor <==> says("tor"@)
            &&& kind == ProxyKind::AnonymousVpn <==> !says("tor"@) && says("vpn"@) && says("anon"@)
            &&& kind == ProxyKind::Vpn <==> !says("tor"@) && says("vpn"@) && !says("anon"@)
            &&& kind == ProxyKind::Hosting <==> !says("tor"@) && !says("vpn"@) && hosted
            &&& kind == ProxyKind::ResidentialProxy <==> !says("tor"@) && !says("vpn"@) && !hosted
                && says("residential"@)
            &&& kind == ProxyKind::SearchEngineBot <==> !says("tor"@) && !says("vpn"@) && !hosted
                && !says("residential"@) && machine
            &&& kind == ProxyKind::PublicProxy <==> !says("tor"@) && !says("vpn"@) && !hosted && !says(
                "residential"@,
            ) && !machine
        }),
        proxy_class(None) == ProxyKind::PublicProxy,
{
}

/// The case of a description makes no difference.
pub proof fn case_does_not_count(s: Seq<char>, t: Seq<char>)
    requires
        text::lower(s) == text::lower(t),
    ensures
        proxy_class(Some(s)) == proxy_class(Some(t)),
{
}

/// An address is a proxy if and only if the database holds a record of it that
/// does not deny it; its kind is that of the description.
pub proof fn only_denied_records_are_no_proxies(record: ProxyRecord)
    ensures
        proxy_of(None) is None,
        proxy_of(Some(record)) is None <==> record.status == Some(ProxyStatus::NotAProxy),
        record.status != Some(ProxyStatus::NotAProxy) ==> {
            &&& record.description matches Some(d) ==> proxy_of(Some(record)) == Some(
                proxy_class(Some(d@)),
            )
            &&& record.description is None ==> proxy_of(Some(record)) == Some(
                ProxyKind::PublicProxy,
            )
        },
{
}

/// A geolocation repeats the location record, field by field, for the address
/// that was asked for, and there is one if and only if both coordinates are
/// known.
pub proof fn locations_repeat_their_record(
    ip: IpAddr,
    location: Option<LocationRecord>,
    proxy: Option<ProxyRecord>,
)
    ensures
        assembled(ip, location, proxy) is Some <==> location is Some && location->0.latitude is Some
            && location->0.longitude is Some,
        assembled(ip, location, proxy) matches Some(info) ==> {
            let loc = location->0;
            &&& info.ip == ip
            &&& info.latitude == loc.latitude && info.longitude == loc.longitude
            &&& loc.country_code matches Some(t) ==> info.country_code == Some(t@)
            &&& loc.country_name matches Some(t) ==> info.country_name == Some(t@)
            &&& loc.region matches Some(t) ==> info.region == Some(t@)
            &&& loc.city matches Some(t) ==> info.city == Some(t@)
            &&& loc.isp matches Some(t) ==> info.isp == Some(t@)
            &&& loc.country_code is None ==> info.country_code is None
            &&& loc.country_name is None ==> info.country_name is None
            &&& loc.region is None ==> info.region is None
            &&& loc.city is None ==> info.city is None
            &&& loc.isp is None ==> info.isp is None
            &&& info.proxy_kind == proxy_of(proxy)
        },
{
}

/// Tags tell the kinds of proxies apart.
pub proof fn tags_tell_proxies_apart(a: ProxyKind, b: ProxyKind)
    ensures
        a.tag() == b.tag() ==> a == b,
        ProxyKind::Tor.tag() == "TOR "@ && ProxyKind::Vpn.tag() == "VPN "@
            && ProxyKind::Hosting.tag() == "DC "@ && ProxyKind::PublicProxy.tag() == "PROX"@,
        ProxyKind::Anonymous.tag() == "ANON"@ && ProxyKind::AnonymousVpn.tag() == "AVPN"@
            && ProxyKind::ResidentialProxy.tag() == "RESI"@ && ProxyKind::SearchEngineBot.tag()
            == "BOT "@,
{
    reveal_strlit("ANON");
    reveal_strlit("AVPN");
    reveal_strlit("DC ");
    reveal_strlit("PROX");
    reveal_strlit("RESI");
    reveal_strlit("TOR ");
    reveal_strlit("VPN ");
    reveal_strlit("BOT ");
    assert("ANON"@[1] == 'N' && "AVPN"@[1] == 'V');
    assert("ANON"@[0] == 'A' && "AVPN"@[0] == 'A' && "DC "@[0] == 'D' && "PROX"@[0] == 'P'
        && "RESI"@[0] == 'R' && "TOR "@[0] == 'T' && "VPN "@[0] == 'V' && "BOT "@[0] == 'B');
}

/// The view of a record hides nothing of it.
pub proof fn views_show_all_of_a_record(info: GeoInfo)
    ensures
        info@.ip == info.ip && info@.proxy_kind == info.proxy_kind,
        info@.latitude == info.latitude && info@.longitude == info.longitude,
        info.country_code matches Some(s) ==> info@.country_code == Some(s@),
        info.country_name matches Some(s) ==> info@.country_name == Some(s@),
        info.region matches Some(s) ==> info@.region == Some(s@),
        info.city matches Some(s) ==> info@.city == Some(s@),
        info.isp matches Some(s) ==> info@.isp == Some(s@),
        info.country_code is None ==> info@.country_code is None,
        info.country_name is None ==> info@.country_name is None,
        info.region is None ==> info@.region is None,
        info.city is None ==> info@.city is None,
        info.isp is None ==> info@.isp is None,
        info_view(Some(info)) == Some(info@),
        info_view(None) is None,
{
}

} // verus!
