//! Finding out where the machine itself sits.
//!
//! Public "what is my IP" services are asked one after the other; the first
//! address that one of them names is geolocated. All of it is best effort:
//! what cannot be found out is taken from the configured fallback.

use vstd::prelude::*;
use vstd::string::StringExecFns;

use crate::geo::lookup::{GeoInfo, GeoView};
use crate::ip;
use crate::ip::IpAddr;
use crate::text;
use crate::ui::map_renderer::{HomeLocation, HomeView};

verus! {

/// The services to ask, in order: first those that are reached by IPv4 alone,
/// which the location database covers far better than IPv6.
pub const ENDPOINTS: [&'static str; 5] = [
    "https://ipv4.icanhazip.com",
    "https://api4.ipify.org",
    "https://icanhazip.com",
    "https://api.ipify.org",
    "https://ifconfig.me/ip",
];

/// What came of asking a service.
#[derive(Debug)]
pub enum Reply {
    /// It could not be reached.
    Unreachable,
    /// It answered with an error status.
    Refused,
    /// Its answer could not be read.
    Unreadable,
    /// Its answer.
    Text(String),
}

/// The address that a reply names: its text, without white space around it.
pub open spec fn address_in(reply: Reply) -> Option<IpAddr> {
    match reply {
        Reply::Text(t) => ip::ip_from_text(text::trimmed(t@)),
        _ => None,
    }
}

/// What to do next to find the public address.
#[derive(Clone, Copy, Debug, PartialEq, Eq, Structural)]
pub enum Step {
    /// Ask the service at this position.
    Ask(usize),
    /// This is the address.
    Found(IpAddr),
    /// No service named one.
    GiveUp,
}

/// The step after service `asked` replied.
pub open spec fn next_step(asked: usize, reply: Reply) -> Step {
    match address_in(reply) {
        Some(address) => Step::Found(address),
        None => if asked + 1 < ENDPOINTS@.len() {
            Step::Ask((asked + 1) as usize)
        } else {
            Step::GiveUp
        },
    }
}

/// Decides what to do after service `asked` replied.
pub fn after_reply(asked: usize, reply: &Reply) -> (step: Step)
    requires
        asked < ENDPOINTS@.len(),
    ensures
        step == next_step(asked, *reply),
{
    let found: Option<IpAddr> = match reply {
        Reply::Text(t) => {
            let chars: Vec<char> = text::chars_of(t.as_str());
            let trimmed: Vec<char> = text::trim_chars(&chars);
            let candidate: String = text::string_of(&trimmed, 0, trimmed.len());
            assert(trimmed@.subrange(0, trimmed@.len() as int) =~= trimmed@);
            IpAddr::from_text(candidate.as_str())
        },
        _ => None,
    };
    match found {
        Some(address) => Step::Found(address),
        None => if asked + 1 < ENDPOINTS.len() {
            Step::Ask(asked + 1)
        } else {
            Step::GiveUp
        },
    }
}

/// Where asking the services from position `asked` on ends, if they reply with
/// `replies`, one reply for each service.
pub open spec fn search(asked: int, replies: Seq<Reply>) -> Step
    decreases replies.len() - asked,
{
    if 0 <= asked < replies.len() && replies.len() == ENDPOINTS@.len() {
        match next_step(asked as usize, replies[asked]) {
            Step::Ask(i) => search(asked + 1, replies),
            step => step,
        }
    } else {
        Step::GiveUp
    }
}

/// The search ends with the address of the first reply that names one, and
/// gives up if and only if none does.
pub proof fn first_named_address_is_found(replies: Seq<Reply>)
    requires
        replies.len() == ENDPOINTS@.len(),
    ensures
        match search(0, replies) {
            Step::Ask(i) => false,
            Step::Found(address) => exists|i: int|
                0 <= i < replies.len() && address_in(#[trigger] replies[i]) == Some(address)
                    && forall|k: int| 0 <= k < i ==> address_in(#[trigger] replies[k]) is None,
            Step::GiveUp => forall|k: int|
                0 <= k < replies.len() ==> address_in(#[trigger] replies[k]) is None,
        },
{
    search_from(0, replies);
}

proof fn search_from(asked: int, replies: Seq<Reply>)
    requires
        replies.len() == ENDPOINTS@.len(),
        0 <= asked <= replies.len(),
        forall|k: int| 0 <= k < asked ==> address_in(#[trigger] replies[k]) is None,
    ensures
        match search(asked, replies) {
            Step::Ask(i) => false,
            Step::Found(address) => exists|i: int|
                0 <= i < replies.len() && address_in(#[trigger] replies[i]) == Some(address)
                    && forall|k: int| 0 <= k < i ==> address_in(#[trigger] replies[k]) is None,
            Step::GiveUp => forall|k: int|
                0 <= k < replies.len() ==> address_in(#[trigger] replies[k]) is None,
        },
    decreases replies.len() - asked,
{
    if asked < replies.len() {
        match next_step(asked as usize, replies[asked]) {
            Step::Ask(i) => {
                search_from(asked + 1, replies);
            },
            Step::Found(address) => {
                assert(address_in(replies[asked]) == Some(address));
            },
            Step::GiveUp => {},
        }
    }
}

/// A text, unless it is missing or empty.
pub open spec fn non_empty(s: Option<Seq<char>>) -> Option<Seq<char>> {
    match s {
        Some(t) => if t.len() > 0 {
            Some(t)
        } else {
            None
        },
        None => None,
    }
}

/// What a geolocated place is called: country and city, as far as known.
pub open spec fn place_label(country: Option<Seq<char>>, city: Option<Seq<char>>) -> Seq<char> {
    match (non_empty(country), non_empty(city)) {
        (Some(c), Some(ci)) => c + ", "@ + ci,
        (Some(c), None) => c,
        (None, Some(ci)) => ci,
        (None, None) => "Unknown"@,
    }
}

/// The home location, given the public address and its geolocation as far as
/// they were found out.
pub open spec fn home_view(
    ip: Option<IpAddr>,
    info: Option<GeoView>,
    fallback: HomeView,
) -> HomeView {
    match (ip, info) {
        (None, _) => fallback,
        (Some(address), None) => HomeView { ip: Some(address), ..fallback },
        (Some(address), Some(geo)) => match (geo.latitude, geo.longitude) {
            (Some(lat), Some(lon)) => HomeView {
                lat,
                lon,
                ip: Some(address),
                label: Some(place_label(geo.country_name, geo.city)),
            },
            _ => HomeView {
                ip: Some(address),
                label: match geo.country_name {
                    Some(c) => Some(c),
                    None => geo.city,
                },
                ..fallback
            },
        },
    }
}

fn is_filled(s: &Option<String>) -> (yes: bool)
    ensures
        yes == (non_empty(text::text_of(*s)) is Some),
{
    match s {
        Some(t) => t.as_str().unicode_len() > 0,
        None => false,
    }
}

/// Names a geolocated place.
pub fn label_place(country: &Option<String>, city: &Option<String>) -> (label: String)
    ensures
        label@ == place_label(text::text_of(*country), text::text_of(*city)),
{
    let mut out: String = if is_filled(country) {
        text::copy_or_empty(country)
    } else {
        String::new()
    };
    if is_filled(city) {
        if is_filled(country) {
            out.append(", ");
        } else {
            out = String::new();
        }
        out.append(text::copy_or_empty(city).as_str());
    } else if !is_filled(country) {
        out = "Unknown".to_owned();
    }
    assert(out@ =~= place_label(text::text_of(*country), text::text_of(*city)));
    out
}

/// Puts the home location together: `ip` is the public address, if a service
/// named one, and `info` its geolocation, if there is one.
pub fn detect(ip: Option<IpAddr>, info: Option<GeoInfo>, fallback: HomeLocation) -> (home:
    HomeLocation)
    ensures
        home@ == home_view(
            ip,
            match info {
                Some(i) => Some(i@),
                None => None,
            },
            fallback@,
        ),
{
    let address: IpAddr = match ip {
        Some(address) => address,
        None => {
            return fallback;
        },
    };
    let geo: GeoInfo = match info {
        Some(geo) => geo,
        None => {
            return HomeLocation {
                lat: fallback.lat,
                lon: fallback.lon,
                ip: Some(address),
                label: fallback.label,
            };
        },
    };
    match (geo.latitude, geo.longitude) {
        (Some(lat), Some(lon)) => HomeLocation {
            lat,
            lon,
            ip: Some(address),
            label: Some(label_place(&geo.country_name, &geo.city)),
        },
        _ => HomeLocation {
            lat: fallback.lat,
            lon: fallback.lon,
            ip: Some(address),
            label: match geo.country_name {
                Some(c) => Some(c),
                None => geo.city,
            },
        },
    }
}

/// A reply names the address that its text, trimmed, is read as; no other reply
/// names any. A named address ends the search, and else the next of the five
/// services is asked, until there is none.
pub proof fn services_are_asked_in_turn(asked: usize, reply: Reply, text: String)
    requires
        asked < 5,
    ensures
        address_in(Reply::Text(text)) == ip::ip_from_text(text::trimmed(text@)),
        address_in(Reply::Unreachable) is None,
        address_in(Reply::Refused) is None,
        address_in(Reply::Unreadable) is None,
        address_in(reply) matches Some(a) ==> next_step(asked, reply) == Step::Found(a),
        address_in(reply) is None && asked < 4 ==> next_step(asked, reply) == Step::Ask(
            (asked + 1) as usize,
        ),
        address_in(reply) is None && asked == 4 ==> next_step(asked, reply) == Step::GiveUp,
{
}

/// Home is where the public address is, if that can be told: its coordinates
/// are taken where both are known, and else those of the fallback. The address
/// is kept as soon as there is one, and without one the fallback holds.
pub proof fn home_is_where_the_address_is(
    ip: Option<IpAddr>,
    info: Option<GeoView>,
    fallback: HomeView,
)
    ensures
        ({
            let home = home_view(ip, info, fallback);
            let located = ip is Some && info is Some && info->0.latitude is Some
                && info->0.longitude is Some;
            &&& ip is None ==> home == fallback
            &&& ip is Some ==> home.ip == ip
            &&& located ==> Some(home.lat) == info->0.latitude && Some(home.lon)
                == info->0.longitude
            &&& !located ==> home.lat == fallback.lat && home.lon == fallback.lon
            &&& located ==> home.label == Some(place_label(info->0.country_name, info->0.city))
            &&& ip is Some && info is None ==> home.label == fallback.label
            &&& ip is Some && info is Some && !located ==> {
                &&& info->0.country_name is Some ==> home.label == info->0.country_name
                &&& info->0.country_name is None ==> home.label == info->0.city
            }
        }),
{
}

/// A place is called by its country and its city, as far as they are known and
/// not empty.
pub proof fn places_are_named(country: Seq<char>, city: Seq<char>, none: Option<Seq<char>>)
    requires
        country.len() > 0,
        city.len() > 0,
        none matches Some(t) ==> t.len() == 0,
    ensures
        place_label(Some(country), Some(city)) == country + ", "@ + city,
        place_label(Some(country), none) == country,
        place_label(none, Some(city)) == city,
        place_label(none, none) == "Unknown"@,
{
}

} // verus!
