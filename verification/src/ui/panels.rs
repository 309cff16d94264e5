//! What the panels of the terminal dashboard say: map overlay, metrics, live
//! log and footer.
//!
//! Numbers with a fraction arrive here as text.

use vstd::prelude::*;
use vstd::string::StringExecFns;

use crate::clock;
use crate::event::Severity;
use crate::ip;
use crate::text;
use crate::ui::app;
use crate::ui::app::{AppState, LogRow, Panel, RowView};
use crate::ui::layout::Area;
use crate::ui::tally;
use crate::units;

verus! {

/// The colors that text can have.
#[derive(Clone, Copy, Debug, PartialEq, Eq, Structural)]
pub enum Tint {
    White,
    Info,
    Warn,
    Alert,
    Focus,
    Dim,
}

/// A piece of text in one style.
#[derive(Debug)]
pub struct Span {
    pub text: String,
    pub tint: Tint,
    pub bold: bool,
}

/// What a [`Span`] says.
#[verifier::ext_equal]
pub struct SpanView {
    pub text: Seq<char>,
    pub tint: Tint,
    pub bold: bool,
}

impl View for Span {
    type V = SpanView;

    open spec fn view(&self) -> SpanView {
        SpanView { text: self.text@, tint: self.tint, bold: self.bold }
    }
}

/// The views of a list of spans.
pub open spec fn span_views(v: Seq<Span>) -> Seq<SpanView> {
    v.map_values(|s: Span| s@)
}

/// A span in normal weight.
pub open spec fn plain(text: Seq<char>, tint: Tint) -> SpanView {
    SpanView { text, tint, bold: false }
}

/// A span in bold.
pub open spec fn strong(text: Seq<char>, tint: Tint) -> SpanView {
    SpanView { text, tint, bold: true }
}

fn say(out: &mut Vec<Span>, text: &str, tint: Tint)
    ensures
        span_views(final(out)@) == span_views(old(out)@).push(plain(text@, tint)),
{
    let ghost before = out@;
    let span: Span = Span { text: text.to_owned(), tint, bold: false };
    out.push(span);
    assert(span_views(out@) =~= span_views(before).push(span@));
}

fn shout(out: &mut Vec<Span>, text: &str, tint: Tint)
    ensures
        span_views(final(out)@) == span_views(old(out)@).push(strong(text@, tint)),
{
    let ghost before = out@;
    let span: Span = Span { text: text.to_owned(), tint, bold: true };
    out.push(span);
    assert(span_views(out@) =~= span_views(before).push(span@));
}

/// The color of a severity.
pub open spec fn tint_of(severity: Severity) -> Tint {
    match severity {
        Severity::Info => Tint::Info,
        Severity::Warn => Tint::Warn,
        Severity::Alert => Tint::Alert,
    }
}

/// Finds the color of a severity.
pub fn severity_tint(severity: Severity) -> (tint: Tint)
    ensures
        tint == tint_of(severity),
{
    match severity {
        Severity::Info => Tint::Info,
        Severity::Warn => Tint::Warn,
        Severity::Alert => Tint::Alert,
    }
}

/// The color of the title of a panel.
pub open spec fn tint_of_title(focused: Panel, panel: Panel) -> Tint {
    if focused == panel {
        Tint::Focus
    } else {
        Tint::White
    }
}

/// Exactly the panel that has the focus is highlighted.
pub proof fn the_focus_is_highlighted(focused: Panel, panel: Panel)
    ensures
        tint_of_title(focused, panel) == Tint::Focus <==> focused == panel,
        tint_of_title(focused, panel) == Tint::White <==> focused != panel,
{
}

/// The color of the title of a panel: highlighted where it has the focus.
pub fn title_tint(focused: Panel, panel: Panel) -> (tint: Tint)
    ensures
        tint == tint_of_title(focused, panel),
{
    if focused == panel {
        Tint::Focus
    } else {
        Tint::White
    }
}

// ---------------------------------------------------------------------------
// Map panel
// ---------------------------------------------------------------------------

/// The first line over the map: dots, events per second and proxies.
pub open spec fn overlay_line(dots: nat, rate: Seq<char>, proxies: Seq<char>) -> Seq<SpanView> {
    seq![
        plain(" \u{25CF} "@, Tint::Info),
        plain(text::decimal(dots) + " active "@, Tint::White),
        plain(rate + " evt/s "@, Tint::White),
        plain("Proxy: "@ + proxies + "% "@, Tint::Alert),
    ]
}

/// The first line over the map; `rate` and `proxies` are the texts of the
/// events per second and the percentage of proxies.
pub fn overlay_spans(dots: usize, rate: &str, proxies: &str) -> (spans: Vec<Span>)
    ensures
        span_views(spans@) == overlay_line(dots as nat, rate@, proxies@),
{
    let mut out: Vec<Span> = Vec::new();
    say(&mut out, " \u{25CF} ", Tint::Info);
    let mut active: String = text::decimal_text(dots as u64);
    active.append(" active ");
    say(&mut out, active.as_str(), Tint::White);
    let mut per_second: String = rate.to_owned();
    per_second.append(" evt/s ");
    say(&mut out, per_second.as_str(), Tint::White);
    let mut share: String = "Proxy: ".to_owned();
    share.append(proxies);
    share.append("% ");
    say(&mut out, share.as_str(), Tint::Alert);
    assert(span_views(out@) =~= overlay_line(dots as nat, rate@, proxies@));
    out
}

/// Where the lines over the map go.
pub open spec fn area_of_overlay(inner: Area) -> Option<Area> {
    if inner.width > 2 {
        Some(
            Area {
                x: (inner.x + 1) as u16,
                y: inner.y,
                width: (inner.width - 2) as u16,
                height: 2,
            },
        )
    } else {
        None
    }
}

/// The lines over the map are two, at the top, and leave one cell free at both
/// sides; where there would be none between, they are left out.
pub proof fn the_overlay_leaves_a_margin(inner: Area)
    requires
        inner.width > 2 ==> inner.x < u16::MAX,
    ensures
        area_of_overlay(inner) is Some <==> inner.width > 2,
        area_of_overlay(inner) matches Some(a) ==> {
            &&& a.y == inner.y && a.height == 2
            &&& a.x == inner.x + 1
            &&& a.x + a.width == inner.x + inner.width - 1
        },
{
}

/// Where the lines over the map go: the top of the panel's inside, with one
/// cell free at both sides; nowhere, if it is too narrow.
pub fn overlay_area(inner: Area) -> (area: Option<Area>)
    requires
        inner.width > 2 ==> inner.x < u16::MAX,
    ensures
        area == area_of_overlay(inner),
{
    if inner.width > 2 {
        Some(Area { x: inner.x + 1, y: inner.y, width: inner.width - 2, height: 2 })
    } else {
        None
    }
}

// ---------------------------------------------------------------------------
// Metrics panel
// ---------------------------------------------------------------------------

/// A country and its count.
pub type Talker = (Seq<char>, u64);

/// The views of a list of countries.
pub open spec fn talkers(list: Seq<(String, u64)>) -> Seq<Talker> {
    list.map_values(|e: (String, u64)| (e.0@, e.1))
}

/// How many at the front of a list have at least the count `n`.
pub open spec fn ahead_of(list: Seq<Talker>, n: u64) -> int
    decreases list.len(),
{
    if list.len() == 0 || list[0].1 < n {
        0
    } else {
        1 + ahead_of(list.skip(1), n)
    }
}

/// A list from large counts to small ones; among equal counts, what came first
/// stays first.
pub open spec fn ranked(list: Seq<Talker>) -> Seq<Talker>
    decreases list.len(),
{
    if list.len() == 0 {
        Seq::empty()
    } else {
        let before = ranked(list.drop_last());
        before.insert(ahead_of(before, list.last().1), list.last())
    }
}

proof fn ahead_of_in_range(list: Seq<Talker>, n: u64)
    ensures
        0 <= ahead_of(list, n) <= list.len(),
        forall|k: int| 0 <= k < ahead_of(list, n) ==> (#[trigger] list[k]).1 >= n,
        ahead_of(list, n) < list.len() ==> list[ahead_of(list, n)].1 < n,
    decreases list.len(),
{
    if list.len() > 0 && list[0].1 >= n {
        ahead_of_in_range(list.skip(1), n);
        assert forall|k: int| 0 <= k < ahead_of(list, n) implies (#[trigger] list[k]).1 >= n by {
            if k > 0 {
                assert(list.skip(1)[k - 1] == list[k]);
            }
        }
    }
}

proof fn ahead_of_is(list: Seq<Talker>, n: u64, i: int)
    requires
        0 <= i <= list.len(),
        forall|k: int| 0 <= k < i ==> (#[trigger] list[k]).1 >= n,
        i < list.len() ==> list[i].1 < n,
    ensures
        ahead_of(list, n) == i,
{
    ahead_of_in_range(list, n);
    let a = ahead_of(list, n);
    if a < i {
        assert(list[a].1 >= n);
    }
    if i < a {
        assert(list[i].1 >= n);
    }
}

/// A ranked list holds the same entries, from large counts to small ones.
pub proof fn ranking_sorts(list: Seq<Talker>)
    ensures
        ranked(list).to_multiset() == list.to_multiset(),
        ranked(list).len() == list.len(),
        forall|i: int, j: int|
            0 <= i < j < ranked(list).len() ==> (#[trigger] ranked(list)[i]).1 >= (
            #[trigger] ranked(list)[j]).1,
    decreases list.len(),
{
    if list.len() > 0 {
        let init = list.drop_last();
        let x = list.last();
        let before = ranked(init);
        ranking_sorts(init);
        ahead_of_in_range(before, x.1);
        let at = ahead_of(before, x.1);
        let after = before.insert(at, x);
        vstd::seq_lib::to_multiset_insert(before, at, x);
        vstd::seq_lib::to_multiset_build(init, x);
        assert(list =~= init.push(x));
        assert forall|i: int, j: int| 0 <= i < j < after.len() implies (#[trigger] after[i]).1 >= (
        #[trigger] after[j]).1 by {
            let p = if i < at {
                i
            } else {
                i - 1
            };
            let q = if j < at {
                j
            } else {
                j - 1
            };
            if i != at && j != at {
                assert(before[p].1 >= before[q].1);
            } else if i == at {
                if q > at {
                    assert(before[at].1 >= before[q].1);
                }
            }
        }
    } else {
        assert(list =~= Seq::empty());
    }
}

/// How many countries are shown.
pub const TOP_TALKERS: usize = 10;

/// The countries with the largest counts, largest first.
pub open spec fn leaders(list: Seq<Talker>) -> Seq<Talker> {
    if list.len() > TOP_TALKERS {
        ranked(list).take(TOP_TALKERS as int)
    } else {
        ranked(list)
    }
}

/// The countries with the largest counts, largest first.
pub fn top_talkers(list: Vec<(String, u64)>) -> (top: Vec<(String, u64)>)
    ensures
        talkers(top@) == leaders(talkers(list@)),
{
    let ghost all = talkers(list@);
    let mut top: Vec<(String, u64)> = Vec::new();
    let mut i: usize = 0;
    proof {
        assert(all.take(0) =~= Seq::empty());
        assert(talkers(top@) =~= Seq::empty());
    }
    while i < list.len()
        invariant
            i <= list@.len(),
            all == talkers(list@),
            talkers(top@) == ranked(all.take(i as int)),
        decreases list@.len() - i,
    {
        let n: u64 = list[i].1;
        let mut at: usize = 0;
        while at < top.len() && top[at].1 >= n
            invariant
                at <= top@.len(),
                forall|k: int| 0 <= k < at ==> (#[trigger] talkers(top@)[k]).1 >= n,
            decreases top@.len() - at,
        {
            assert(talkers(top@)[at as int].1 == top@[at as int].1);
            at = at + 1;
        }
        let entry: (String, u64) = (list[i].0.clone(), n);
        proof {
            if at < top@.len() {
                assert(talkers(top@)[at as int].1 == top@[at as int].1);
            }
            ahead_of_is(talkers(top@), n, at as int);
            assert(all.take(i + 1).drop_last() =~= all.take(i as int));
            assert(all.take(i + 1).last() == (entry.0@, entry.1));
            assert(talkers(top@.insert(at as int, entry)) =~= talkers(top@).insert(
                at as int,
                (entry.0@, entry.1),
            ));
        }
        top.insert(at, entry);
        i = i + 1;
    }
    proof {
        assert(all.take(all.len() as int) =~= all);
        ranking_sorts(all);
    }
    let ghost whole = top@;
    if top.len() > TOP_TALKERS {
        top.truncate(TOP_TALKERS);
        assert(talkers(top@) =~= talkers(whole).take(TOP_TALKERS as int));
    }
    top
}

/// The countries of a dashboard with the largest counts. Among equal counts
/// the order is that of the map of counters, which is not fixed.
pub fn leading_countries(state: &AppState) -> (top: Vec<(String, u64)>)
    ensures
        exists|list: Seq<(String, u64)>|
            #![trigger talkers(list)]
            tally::lists_map(list, state@.per_country) && talkers(top@) == leaders(talkers(list)),
{
    let list: Vec<(String, u64)> = tally::country_list(&state.per_country);
    top_talkers(list)
}

/// The largest bar, in cells.
pub const BAR_CELLS: u64 = 18;

/// How long the bar of a count is, where the largest count is `max`.
pub open spec fn bar_length(n: u64, max: u64) -> int {
    n * BAR_CELLS / if max == 0 {
        1
    } else {
        max as int
    }
}

/// A bar of the given length.
pub open spec fn bar(n: nat) -> Seq<char> {
    Seq::new(n, |i: int| '\u{2588}')
}

/// One line of the top talkers: the country, a bar and the count.
pub open spec fn talker_line(country: Seq<char>, n: u64, max: u64) -> Seq<SpanView> {
    seq![
        plain(" "@ + text::pad_right(country, 3) + " "@, Tint::White),
        plain(bar(bar_length(n, max) as nat), Tint::Info),
        plain(" "@ + text::decimal(n as nat), Tint::Dim),
    ]
}

/// One line of the top talkers; `max` is the largest count of all.
pub fn talker_spans(country: &str, n: u64, max: u64) -> (spans: Vec<Span>)
    requires
        n <= max,
    ensures
        span_views(spans@) == talker_line(country@, n, max),
{
    let mut out: Vec<Span> = Vec::new();
    let mut name: String = " ".to_owned();
    text::push_padded(&mut name, country, 3);
    name.append(" ");
    say(&mut out, name.as_str(), Tint::White);
    let whole: u128 = if max == 0 {
        1
    } else {
        max as u128
    };
    let weighted: u128 = n as u128 * 18;
    let length: u128 = weighted / whole;
    proof {
        assert(length <= 18) by (nonlinear_arith)
            requires
                length == n as int * 18 / whole as int,
                0 <= n <= whole,
                whole > 0,
        ;
    }
    let mut cells: String = String::new();
    let mut i: u128 = 0;
    while i < length
        invariant
            i <= length,
            cells@ == bar(i as nat),
        decreases length - i,
    {
        cells.push('\u{2588}');
        i = i + 1;
        assert(cells@ =~= bar(i as nat));
    }
    say(&mut out, cells.as_str(), Tint::Info);
    let mut count: String = " ".to_owned();
    count.append(text::decimal_text(n).as_str());
    say(&mut out, count.as_str(), Tint::Dim);
    assert(span_views(out@) =~= talker_line(country@, n, max));
    out
}

/// The count that a list starts with, at least one.
pub open spec fn first_count(list: Seq<Talker>) -> u64 {
    if list.len() > 0 && list[0].1 > 1 {
        list[0].1
    } else {
        1
    }
}

/// In a ranked list no count is more than the first, so every bar fits; and
/// where there is more than one event, the first bar is a full one.
pub proof fn the_first_count_is_the_largest(list: Seq<Talker>, i: int)
    requires
        0 <= i < list.len(),
        list.len() <= u64::MAX,
    ensures
        ranked(list)[i].1 <= first_count(ranked(list)),
        first_count(ranked(list)) >= 1,
        first_count(ranked(list)) == 1 || first_count(ranked(list)) == ranked(list)[0].1,
        ranked(list)[0].1 > 1 ==> bar_length(ranked(list)[0].1, first_count(ranked(list))) == 18,
{
    ranking_sorts(list);
    if i > 0 {
        assert(ranked(list)[0].1 >= ranked(list)[i].1);
    }
    let n = ranked(list)[0].1;
    if n > 1 {
        assert(n as int * 18 / n as int == 18) by (nonlinear_arith)
            requires
                n > 0,
        ;
    }
}

/// The largest count, of at least one, in a list that starts with it.
pub fn largest_count(top: &Vec<(String, u64)>) -> (max: u64)
    ensures
        max == first_count(talkers(top@)),
{
    assert(top@.len() > 0 ==> talkers(top@)[0].1 == top@[0].1);
    if top.len() > 0 && top[0].1 > 1 {
        top[0].1
    } else {
        1
    }
}

/// The label of the proxy gauge, from the texts of three percentages.
pub open spec fn gauge_text(proxies: Seq<char>, datacenters: Seq<char>, tor: Seq<char>) -> Seq<
    char,
> {
    "Proxy "@ + proxies + "%  Datacenter "@ + datacenters + "%  Tor "@ + tor + "%"@
}

/// The label of the proxy gauge.
pub fn gauge_label(proxies: &str, datacenters: &str, tor: &str) -> (label: String)
    ensures
        label@ == gauge_text(proxies@, datacenters@, tor@),
{
    let mut out: String = "Proxy ".to_owned();
    out.append(proxies);
    out.append("%  Datacenter ");
    out.append(datacenters);
    out.append("%  Tor ");
    out.append(tor);
    out.append("%");
    out
}

/// Where the proxy gauge goes.
pub open spec fn area_of_gauge(panel: Area, screen_height: u16) -> Option<Area> {
    let y = panel.y + if panel.height > 0 {
        panel.height - 1
    } else {
        0
    };
    if y < screen_height && panel.width > 0 {
        Some(Area { x: panel.x, y: y as u16, width: panel.width, height: 1 })
    } else {
        None
    }
}

/// The gauge is the last line of its panel, as wide as the panel, and it is left
/// out if and only if that line is off the screen or has no width.
pub proof fn the_gauge_is_the_last_line(panel: Area, screen_height: u16)
    requires
        panel.y + panel.height <= u16::MAX,
        panel.height > 0,
    ensures
        area_of_gauge(panel, screen_height) is Some <==> panel.y + panel.height <= screen_height
            && panel.width > 0,
        area_of_gauge(panel, screen_height) matches Some(a) ==> {
            &&& a.height == 1
            &&& a.y + a.height == panel.y + panel.height
            &&& a.x == panel.x && a.width == panel.width
        },
{
}

/// Where the proxy gauge goes: the last line of the lower metrics panel;
/// nowhere, if that is off the screen or has no width.
pub fn gauge_area(panel: Area, screen_height: u16) -> (area: Option<Area>)
    requires
        panel.y + panel.height <= u16::MAX,
    ensures
        area == area_of_gauge(panel, screen_height),
{
    let y: u16 = if panel.height > 0 {
        panel.y + (panel.height - 1)
    } else {
        panel.y
    };
    if y < screen_height && panel.width > 0 {
        Some(Area { x: panel.x, y, width: panel.width, height: 1 })
    } else {
        None
    }
}

// ---------------------------------------------------------------------------
// Live log panel
// ---------------------------------------------------------------------------

/// How many rows fit into a panel with a border.
pub open spec fn rows_inside(height: u16) -> int {
    if height > 2 {
        height - 2
    } else {
        0
    }
}

/// The first row that the log panel shows: the selected one, but not so late
/// that the panel would not be full; the last rows where none is selected.
pub open spec fn first_row(total: int, inside: int, selected: Option<usize>) -> int {
    let latest = if total > inside {
        total - inside
    } else {
        0
    };
    match selected {
        Some(i) => if i < latest {
            i as int
        } else {
            latest
        },
        None => latest,
    }
}

/// The selected row, counted from the first one that is shown.
pub open spec fn highlighted(first: int, selected: Option<usize>) -> Option<usize> {
    match selected {
        Some(i) => if i >= first {
            Some((i - first) as usize)
        } else {
            None
        },
        None => None,
    }
}

/// The row that is highlighted is the selected one, and it is inside the panel;
/// without a selection the last rows are shown and none is highlighted. The
/// panel is never emptier than it has to be.
pub proof fn the_log_panel_shows_the_selection(total: int, height: u16, selected: Option<usize>)
    requires
        0 <= total <= usize::MAX,
        height > 2,
    ensures
        ({
            let first = first_row(total, rows_inside(height), selected);
            let shown = height - 2;
            &&& 0 <= first
            &&& first + shown >= total ==> first == 0 || first + shown == total
            &&& selected is None ==> highlighted(first, selected) is None && (first == 0 || first
                + shown == total)
            &&& selected matches Some(i) ==> (i < total ==> {
                &&& highlighted(first, selected) matches Some(h) && first + h == i && h < shown
                &&& first <= i
            })
        }),
{
}

/// Which rows the log panel shows: the first one, and the selected one counted
/// from there.
pub fn log_window(total: usize, height: u16, selected: Option<usize>) -> (window: (
    usize,
    Option<usize>,
))
    ensures
        window.0 == first_row(total as int, rows_inside(height), selected),
        window.1 == highlighted(window.0 as int, selected),
{
    let inside: usize = if height > 2 {
        (height - 2) as usize
    } else {
        0
    };
    let latest: usize = if total > inside {
        total - inside
    } else {
        0
    };
    let start: usize = match selected {
        Some(i) => if i < latest {
            i
        } else {
            latest
        },
        None => latest,
    };
    let highlight: Option<usize> = match selected {
        Some(i) => if i >= start {
            Some(i - start)
        } else {
            None
        },
        None => None,
    };
    (start, highlight)
}

/// The selected row of the log is always one of the rows that are shown, if
/// any are.
pub proof fn selected_row_is_shown(total: int, height: u16, selected: usize)
    requires
        selected < total,
        rows_inside(height) > 0,
    ensures
        ({
            let first = first_row(total, rows_inside(height), Some(selected));
            0 <= first <= selected < first + rows_inside(height)
        }),
{
}

/// How many bytes of a path the log panel shows.
pub const PANEL_PATH_BYTES: usize = 30;

/// A row of the log panel.
pub open spec fn row_line(r: RowView) -> Seq<SpanView> {
    seq![
        plain(" "@ + clock::time_of_day(r.timestamp) + " "@, Tint::Dim),
        plain(text::pad_right(ip::ip_text(r.src_ip), 15), Tint::White),
        strong(" ["@ + app::proxy_tag(r.proxy) + "] "@, tint_of(r.severity)),
        plain(" "@ + text::pad_right(app::or_dash(r.country), 14), Tint::White),
        plain(" "@ + text::pad_right(app::or_dash(r.city), 14), Tint::Dim),
        plain(
            " "@ + text::pad_right(app::status_or(r.http_status, "   "@), 3) + " "@,
            tint_of(r.severity),
        ),
        plain(
            " "@ + app::path_or_empty(r.http_path, PANEL_PATH_BYTES as int),
            Tint::White,
        ),
    ]
}

/// A row of the log panel.
pub fn log_row_item(r: &LogRow) -> (spans: Vec<Span>)
    requires
        r.timestamp.valid(),
        app::path_fits(r@.http_path, PANEL_PATH_BYTES as int),
    ensures
        span_views(spans@) == row_line(r@),
{
    let tint: Tint = severity_tint(r.severity);
    let mut out: Vec<Span> = Vec::new();
    let mut time: String = " ".to_owned();
    time.append(clock::clock_text(r.timestamp).as_str());
    time.append(" ");
    say(&mut out, time.as_str(), Tint::Dim);
    let mut address: String = String::new();
    text::push_padded(&mut address, r.src_ip.to_text().as_str(), 15);
    assert(address@ =~= text::pad_right(ip::ip_text(r.src_ip), 15));
    say(&mut out, address.as_str(), Tint::White);
    let mut proxy: String = " [".to_owned();
    proxy.append(app::proxy_label(r.proxy));
    proxy.append("] ");
    shout(&mut out, proxy.as_str(), tint);
    let mut country: String = " ".to_owned();
    text::push_padded(&mut country, app::text_or_dash(&r.country).as_str(), 14);
    say(&mut out, country.as_str(), Tint::White);
    let mut city: String = " ".to_owned();
    text::push_padded(&mut city, app::text_or_dash(&r.city).as_str(), 14);
    say(&mut out, city.as_str(), Tint::Dim);
    let mut status: String = " ".to_owned();
    text::push_padded(&mut status, app::status_text(r.http_status, "   ").as_str(), 3);
    status.append(" ");
    say(&mut out, status.as_str(), tint);
    let mut path: String = " ".to_owned();
    path.append(app::short_path(&r.http_path, PANEL_PATH_BYTES).as_str());
    say(&mut out, path.as_str(), Tint::White);
    assert(span_views(out@) =~= row_line(r@));
    out
}

// ---------------------------------------------------------------------------
// Footer
// ---------------------------------------------------------------------------

/// `on` or `off`.
pub open spec fn switch_text(on: bool) -> Seq<char> {
    if on {
        "on"@
    } else {
        "off"@
    }
}

fn switch_word(on: bool) -> (word: &'static str)
    ensures
        word@ == switch_text(on),
{
    if on {
        "on"
    } else {
        "off"
    }
}

/// The note that the map is frozen, or nothing.
pub open spec fn pause_note(paused: bool) -> Seq<SpanView> {
    if paused {
        seq![strong(" \u{23F8} PAUSED "@, Tint::Alert)]
    } else {
        Seq::empty()
    }
}

/// The footer: the keys, the state of the switches, and the totals. The note
/// that the map is frozen stands before the quit key.
pub open spec fn footer_line(state: app::AppView, rate: Seq<char>) -> Seq<SpanView> {
    seq![
        plain(" \u{2328}  "@, Tint::Dim),
        plain("[Tab]"@, Tint::Focus),
        plain(" focus  "@, Tint::Dim),
        plain("[p]"@, Tint::Focus),
        plain(" pause  "@, Tint::Dim),
        plain("[c]"@, Tint::Focus),
        plain(" clear  "@, Tint::Dim),
        plain("[l]"@, Tint::Focus),
        plain(" lines:"@ + switch_text(state.connection_lines) + " "@, Tint::Dim),
        plain("[m]"@, Tint::Focus),
        plain(" map:"@ + switch_text(!state.map_hidden) + " "@, Tint::Dim),
    ] + pause_note(state.paused) + seq![
        plain("[q/Esc]"@, Tint::Focus),
        plain(" quit  "@, Tint::Dim),
        plain(" \u{2502} "@, Tint::Dim),
        plain(
            "events: "@ + text::decimal(state.stats.total_events as nat) + " | "@
                + units::byte_text(state.stats.bytes_total as int) + " | "@ + rate + "/s"@,
            Tint::White,
        ),
    ]
}

/// The footer; `rate` is the text of the events per second.
pub fn footer_spans(state: &AppState, rate: &str) -> (spans: Vec<Span>)
    ensures
        span_views(spans@) == footer_line(state@, rate@),
{
    let mut out: Vec<Span> = Vec::new();
    say(&mut out, " \u{2328}  ", Tint::Dim);
    say(&mut out, "[Tab]", Tint::Focus);
    say(&mut out, " focus  ", Tint::Dim);
    say(&mut out, "[p]", Tint::Focus);
    say(&mut out, " pause  ", Tint::Dim);
    say(&mut out, "[c]", Tint::Focus);
    say(&mut out, " clear  ", Tint::Dim);
    say(&mut out, "[l]", Tint::Focus);
    let mut lines: String = " lines:".to_owned();
    lines.append(switch_word(state.connection_lines));
    lines.append(" ");
    say(&mut out, lines.as_str(), Tint::Dim);
    say(&mut out, "[m]", Tint::Focus);
    let mut map: String = " map:".to_owned();
    map.append(switch_word(!state.map_hidden));
    map.append(" ");
    say(&mut out, map.as_str(), Tint::Dim);
    if state.paused {
        shout(&mut out, " \u{23F8} PAUSED ", Tint::Alert);
    }
    say(&mut out, "[q/Esc]", Tint::Focus);
    say(&mut out, " quit  ", Tint::Dim);
    say(&mut out, " \u{2502} ", Tint::Dim);
    let mut totals: String = "events: ".to_owned();
    totals.append(text::decimal_text(state.stats.total_events).as_str());
    totals.append(" | ");
    totals.append(units::human_bytes(state.stats.bytes_total).as_str());
    totals.append(" | ");
    totals.append(rate);
    totals.append("/s");
    say(&mut out, totals.as_str(), Tint::White);
    assert(span_views(out@) =~= footer_line(state@, rate@));
    out
}

// ---------------------------------------------------------------------------
// What the panels say
// ---------------------------------------------------------------------------

/// Every severity has the color of its name.
pub proof fn severities_have_their_tint()
    ensures
        tint_of(Severity::Info) == Tint::Info,
        tint_of(Severity::Warn) == Tint::Warn,
        tint_of(Severity::Alert) == Tint::Alert,
{
}

/// The line over the map tells the number of dots, the rate and the share of
/// proxies, in this order.
pub proof fn the_overlay_tells_the_numbers(dots: nat, rate: Seq<char>, proxies: Seq<char>)
    ensures
        ({
            let line = overlay_line(dots, rate, proxies);
            &&& line.len() == 4
            &&& line[0].text == " \u{25CF} "@ && line[0].tint == Tint::Info
            &&& line[1].text == text::decimal(dots) + " active "@ && line[1].tint == Tint::White
            &&& line[2].text == rate + " evt/s "@ && line[2].tint == Tint::White
            &&& line[3].text == "Proxy: "@ + proxies + "% "@ && line[3].tint == Tint::Alert
            &&& !line[0].bold && !line[1].bold && !line[2].bold && !line[3].bold
        }),
{
}

/// Bars are as long as their count is large: a full one for the largest, none
/// for zero, never longer for less, and within a cell of the exact share.
pub proof fn bars_are_in_proportion(n: u64, m: u64, max: u64)
    requires
        n <= m <= max,
        max > 0,
    ensures
        0 <= bar_length(n, max) <= bar_length(m, max) <= 18,
        bar_length(0, max) == 0,
        bar_length(max, max) == 18,
        bar_length(n, max) * max <= n * 18 < (bar_length(n, max) + 1) * max,
{
    let (a, b, c) = (n as int, m as int, max as int);
    vstd::arithmetic::div_mod::lemma_div_is_ordered(a * 18, b * 18, c);
    vstd::arithmetic::div_mod::lemma_div_is_ordered(b * 18, c * 18, c);
    vstd::arithmetic::div_mod::lemma_div_is_ordered(0, a * 18, c);
    vstd::arithmetic::div_mod::lemma_fundamental_div_mod(a * 18, c);
    vstd::arithmetic::div_mod::lemma_mod_bound(a * 18, c);
    assert(c * 18 / c == 18 && 0int / c == 0) by (nonlinear_arith)
        requires
            c > 0,
    ;
    let q = a * 18 / c;
    assert(q * c == c * q && (q + 1) * c == c * q + c) by (nonlinear_arith);
}

/// A line of the top talkers is the country in a field of three, its bar and its
/// count.
pub proof fn talkers_are_shown_with_their_bar(country: Seq<char>, n: u64, max: u64, i: int)
    requires
        n <= max,
    ensures
        ({
            let line = talker_line(country, n, max);
            &&& line.len() == 3
            &&& line[0].text == " "@ + text::pad_right(country, 3) + " "@
            &&& line[1].text.len() == bar_length(n, max)
            &&& 0 <= i < line[1].text.len() ==> line[1].text[i] == '\u{2588}'
            &&& line[2].text == " "@ + text::decimal(n as nat)
            &&& line[0].tint == Tint::White && line[1].tint == Tint::Info && line[2].tint
                == Tint::Dim
        }),
{
    assert(bar_length(n, max) >= 0) by (nonlinear_arith)
        requires
            bar_length(n, max) == n * 18 / if max == 0 {
                1
            } else {
                max as int
            },
            n >= 0,
            max >= 0,
    ;
}

/// The gauge names the three shares, proxies, datacenters and Tor.
pub proof fn the_gauge_names_the_shares(proxies: Seq<char>, datacenters: Seq<char>, tor: Seq<char>)
    ensures
        gauge_text(proxies, datacenters, tor) == "Proxy "@ + proxies + "%  Datacenter "@
            + datacenters + "%  Tor "@ + tor + "%"@,
{
}

/// A row of the log panel: the time, the address in a field of fifteen, the tag
/// of the proxy in brackets, country and city (or a dash) in fields of
/// fourteen, the status in a field of three and at most thirty bytes of the
/// path. Tag and status have the color of the severity.
pub proof fn log_rows_show_their_fields(r: RowView)
    ensures
        ({
            let line = row_line(r);
            let tint = if r.severity == Severity::Info {
                Tint::Info
            } else if r.severity == Severity::Warn {
                Tint::Warn
            } else {
                Tint::Alert
            };
            &&& line.len() == 7
            &&& line[0].text == " "@ + clock::time_of_day(r.timestamp) + " "@
            &&& line[1].text == text::pad_right(ip::ip_text(r.src_ip), 15)
            &&& r.proxy matches Some(p) ==> line[2].text == " ["@ + p.tag() + "] "@
            &&& r.proxy is None ==> line[2].text == " ["@ + "    "@ + "] "@
            &&& line[2].tint == tint && line[2].bold
            &&& r.country.len() > 0 ==> line[3].text == " "@ + text::pad_right(r.country, 14)
            &&& r.country.len() == 0 ==> line[3].text == " "@ + text::pad_right("\u{2014}"@, 14)
            &&& r.city.len() > 0 ==> line[4].text == " "@ + text::pad_right(r.city, 14)
            &&& r.city.len() == 0 ==> line[4].text == " "@ + text::pad_right("\u{2014}"@, 14)
            &&& r.http_status matches Some(n) ==> line[5].text == " "@ + text::pad_right(
                text::decimal(n as nat),
                3,
            ) + " "@
            &&& r.http_status is None ==> line[5].text == " "@ + text::pad_right("   "@, 3) + " "@
            &&& line[5].tint == tint
            &&& r.http_path matches Some(p) ==> line[6].text == " "@ + crate::slices::shortened(p, 30)
            &&& r.http_path is None ==> line[6].text == " "@ + Seq::<char>::empty()
        }),
{
}

/// The footer tells whether the lines are on and the map is shown, names the
/// totals and the rate at its end, and says that the map is frozen if and only
/// if it is.
pub proof fn the_footer_tells_the_state(state: app::AppView, rate: Seq<char>)
    ensures
        ({
            let line = footer_line(state, rate);
            let n = line.len() as int;
            &&& n == if state.paused {
                16int
            } else {
                15
            }
            &&& state.paused ==> line[11].text == " \u{23F8} PAUSED "@ && line[11].tint
                == Tint::Alert && line[11].bold
            &&& state.connection_lines ==> line[8].text == " lines:"@ + "on"@ + " "@
            &&& !state.connection_lines ==> line[8].text == " lines:"@ + "off"@ + " "@
            &&& state.map_hidden ==> line[10].text == " map:"@ + "off"@ + " "@
            &&& !state.map_hidden ==> line[10].text == " map:"@ + "on"@ + " "@
            &&& line[n - 1].text == "events: "@ + text::decimal(state.stats.total_events as nat)
                + " | "@ + units::byte_text(state.stats.bytes_total as int) + " | "@ + rate + "/s"@
            &&& line[1].text == "[Tab]"@ && line[3].text == "[p]"@ && line[5].text == "[c]"@
            &&& line[7].text == "[l]"@ && line[9].text == "[m]"@ && line[n - 4].text == "[q/Esc]"@
            &&& line[2].text == " focus  "@ && line[4].text == " pause  "@ && line[6].text
                == " clear  "@ && line[n - 3].text == " quit  "@
        }),
{
}

/// The countries that are shown are the ten with the largest counts: every one
/// that is left out has no more than every one that is shown.
pub proof fn the_largest_counts_are_shown(list: Seq<Talker>, i: int, j: int)
    requires
        0 <= i < 10 <= j < list.len(),
    ensures
        ranked(list).take(10)[i].1 >= ranked(list)[j].1,
        ranked(list).len() == list.len(),
        ranked(list).to_multiset() == list.to_multiset(),
{
    ranking_sorts(list);
    assert(ranked(list)[i].1 >= ranked(list)[j].1);
}

/// Up to ten countries are all shown; of more, ten are. They stand in the order
/// of their counts, the largest first, and none that is left out has more.
pub proof fn ten_countries_lead(list: Seq<Talker>, i: int, j: int)
    ensures
        list.len() <= 10 ==> leaders(list).len() == list.len() && leaders(list).to_multiset()
            == list.to_multiset(),
        list.len() > 10 ==> leaders(list).len() == 10,
        0 <= i < j < leaders(list).len() ==> leaders(list)[i].1 >= leaders(list)[j].1,
        0 <= i < leaders(list).len() ==> leaders(list)[i] == ranked(list)[i],
        0 <= i < 10 <= j < list.len() ==> leaders(list)[i].1 >= ranked(list)[j].1,
{
    ranking_sorts(list);
    if 0 <= i < j < list.len() {
        assert(ranked(list)[i].1 >= ranked(list)[j].1);
    }
}

/// In the footer the keys stand out from what they do: a key is tinted as the
/// focus and what follows it is dim; only the note that the map is frozen is
/// bold, and the totals are white.
pub proof fn keys_stand_out_in_the_footer(state: app::AppView, rate: Seq<char>, i: int)
    requires
        0 <= i < footer_line(state, rate).len(),
    ensures
        ({
            let line = footer_line(state, rate);
            let n = line.len() as int;
            let key = i == 1 || i == 3 || i == 5 || i == 7 || i == 9 || i == n - 4;
            let note = state.paused && i == 11;
            &&& key ==> line[i].tint == Tint::Focus
            &&& i == n - 1 ==> line[i].tint == Tint::White
            &&& !key && !note && i != n - 1 ==> line[i].tint == Tint::Dim
            &&& line[i].bold <==> note
            &&& line[0].text == " \u{2328}  "@
            &&& line[n - 2].text == " \u{2502} "@
        }),
{
}

/// In a row of the log panel the address, the country and the path are white,
/// the time and the city dim, and the tag alone is bold, whatever the row says.
pub proof fn log_rows_have_fixed_tints(r: RowView, i: int)
    requires
        0 <= i < row_line(r).len(),
    ensures
        i == 1 || i == 3 || i == 6 ==> row_line(r)[i].tint == Tint::White,
        i == 0 || i == 4 ==> row_line(r)[i].tint == Tint::Dim,
        row_line(r)[i].bold <==> i == 2,
{
}

} // verus!
