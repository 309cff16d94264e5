//! What the command line and the keyboard ask for.
//!
//! The program around this library reads arguments, environment and keys; here
//! it is decided what they mean.

use vstd::prelude::*;

use crate::db_downloader;
use crate::db_downloader::{DbConfig, DbConfigView};
use crate::paths;
use crate::text;
use crate::ui::app;
use crate::ui::app::{AppState, AppView, Panel};
use crate::ui::map_renderer;

verus! {

// ---------------------------------------------------------------------------
// Arguments
// ---------------------------------------------------------------------------

/// The log level of a verbosity.
pub open spec fn level_for(verbosity: int) -> Seq<char> {
    if verbosity <= 0 {
        "info"@
    } else if verbosity == 1 {
        "debug"@
    } else {
        "trace"@
    }
}

/// Without a `-v` the log informs, with one it debugs, and from two on it
/// traces.
pub proof fn verbosity_raises_the_level(more: int)
    requires
        more >= 2,
    ensures
        level_for(0) == "info"@,
        level_for(1) == "debug"@,
        level_for(more) == "trace"@,
{
}

/// The default log level: `-v` raises it to `debug`, `-vv` to `trace`.
pub fn log_level(verbosity: u8) -> (level: &'static str)
    ensures
        level@ == level_for(verbosity as int),
{
    match verbosity {
        0 => "info",
        1 => "debug",
        _ => "trace",
    }
}

/// What is said where there is nothing to watch.
pub const NO_SOURCE: &'static str =
    "must supply at least one of `-i IFACE`, `--all-interfaces`, or `-f /path/to/access.log`.\nTry `geotop --help`.";

/// Whether there is something to watch: an interface or a log file.
pub open spec fn can_watch(interfaces: nat, all_interfaces: bool, files: nat) -> bool {
    interfaces > 0 || all_interfaces || files > 0
}

/// Any one source is enough, and with none there is nothing to watch.
pub proof fn any_source_is_enough(interfaces: nat, all_interfaces: bool, files: nat)
    ensures
        can_watch(interfaces + 1, all_interfaces, files),
        can_watch(interfaces, true, files),
        can_watch(interfaces, all_interfaces, files + 1),
        !can_watch(0, false, 0),
{
}

/// Checks that there is something to watch: an interface or a log file.
pub fn check_sources(interfaces: &Vec<String>, all_interfaces: bool, files: &Vec<String>) -> (checked:
    Result<(), &'static str>)
    ensures
        checked is Ok <==> (interfaces@.len() > 0 || all_interfaces || files@.len() > 0),
        checked is Ok <==> can_watch(interfaces@.len(), all_interfaces, files@.len()),
        checked matches Err(message) ==> message@ == NO_SOURCE@,
{
    if interfaces.len() == 0 && !all_interfaces && files.len() == 0 {
        Err(NO_SOURCE)
    } else {
        Ok(())
    }
}

/// The interfaces to sniff, out of those that there are and those that were
/// asked for.
pub open spec fn interfaces_to_sniff<A>(all_interfaces: bool, listed: A, asked: A) -> A {
    if all_interfaces {
        listed
    } else {
        asked
    }
}

/// Asking for all interfaces sniffs what there is, whatever else was asked for;
/// not asking for all sniffs what was asked for, whatever there is.
pub proof fn all_interfaces_means_all<A>(listed: A, asked: A, other: A)
    ensures
        interfaces_to_sniff(true, listed, asked) == listed,
        interfaces_to_sniff(true, listed, asked) == interfaces_to_sniff(true, listed, other),
        interfaces_to_sniff(false, listed, asked) == asked,
        interfaces_to_sniff(false, listed, asked) == interfaces_to_sniff(false, other, asked),
{
}

/// The interfaces to sniff: all that there are, or those that were asked for.
pub fn sniffed_interfaces(all_interfaces: bool, listed: Vec<String>, asked: Vec<String>) -> (names:
    Vec<String>)
    ensures
        names == interfaces_to_sniff(all_interfaces, listed, asked),
{
    if all_interfaces {
        listed
    } else {
        asked
    }
}

/// Where a token is to be had.
pub const SIGNUP_URL: &'static str = "https://www.ip2location.com/free/download?file=DB11LITEBIN";

/// What is said where a token is missing.
pub const TOKEN_HELP: &'static str =
    "no GEOTOP_DOWNLOAD_TOKEN set.\n\n1. Sign up for a free token at https://www.ip2location.com/free/download?file=DB11LITEBIN\n2. Export it in your shell: export GEOTOP_DOWNLOAD_TOKEN=<your-token>\n3. Or stage the .BIN files manually with --db-path / --proxy-db-path\n4. Or provide the token on the command line with --download-token <your-token>\n5. Re-run geotop\n";

/// The arguments that say where the databases are. Paths to files are
/// absolute.
#[derive(Debug)]
pub struct DbArgs {
    /// `--db-dir`
    pub db_dir: Option<String>,
    /// `--db-path`
    pub db_path: Option<String>,
    /// `--proxy-db-path`
    pub proxy_db_path: Option<String>,
    /// The directory that holds the file of `--db-path`.
    pub db_path_parent: Option<String>,
    /// `--no-proxy`
    pub no_proxy: bool,
    /// The token, from `--download-token` or the environment; empty if there
    /// is none.
    pub token: String,
}

/// The directory of the databases: the one that was asked for, else `data` in
/// the user's data directory for this program, else `./data`.
pub open spec fn db_dir(asked: Option<Seq<char>>, user_dir: Option<Seq<char>>) -> Seq<char> {
    match asked {
        Some(d) => d,
        None => match user_dir {
            Some(d) => paths::joined(d, "data"@),
            None => "./data"@,
        },
    }
}

/// The directory of the databases.
pub fn default_db_dir(asked: &Option<String>, user_dir: &Option<String>) -> (dir: String)
    ensures
        dir@ == db_dir(text::text_of(*asked), text::text_of(*user_dir)),
{
    match asked {
        Some(d) => d.clone(),
        None => match user_dir {
            Some(d) => paths::join(d.as_str(), "data"),
            None => "./data".to_owned(),
        },
    }
}

/// Whether a token is missing.
pub open spec fn token_missing(args: DbArgs, db_exists: bool) -> bool {
    args.token@.len() == 0 && args.db_path is None && args.db_dir is None && !db_exists
}

/// A token, a staged database, a directory that was asked for, or a database of
/// before: each of them is enough, and without all four a token is missing.
pub proof fn tokens_are_asked_for_last(args: DbArgs, db_exists: bool)
    ensures
        args.token@.len() > 0 ==> !token_missing(args, db_exists),
        args.db_path is Some ==> !token_missing(args, db_exists),
        args.db_dir is Some ==> !token_missing(args, db_exists),
        db_exists ==> !token_missing(args, db_exists),
        args.token@.len() == 0 && args.db_path is None && args.db_dir is None && !db_exists
            ==> token_missing(args, db_exists),
{
}

/// Whether the user has to get a token first: there is none, no database was
/// staged, and none was downloaded before.
pub fn needs_token(args: &DbArgs, db_exists: bool) -> (yes: bool)
    ensures
        yes == token_missing(*args, db_exists),
{
    args.token.as_str().unicode_len() == 0 && args.db_path.is_none() && args.db_dir.is_none()
        && !db_exists
}

/// The configuration of the databases that the arguments ask for; `user_dir`
/// is the user's data directory for this program.
pub open spec fn asked_dbs(args: DbArgs, user_dir: Option<Seq<char>>) -> DbConfigView {
    let chosen = db_dir(text::text_of(args.db_dir), user_dir);
    let defaults = db_downloader::default_db_config();
    DbConfigView {
        data_dir: if args.db_dir is None && args.db_path is Some && args.db_path_parent is Some {
            args.db_path_parent->0@
        } else {
            chosen
        },
        geo_db: match args.db_path {
            Some(p) => p@,
            None => defaults.geo_db,
        },
        proxy_db: match args.proxy_db_path {
            Some(p) => p@,
            None => defaults.proxy_db,
        },
        token: args.token@,
        proxy_enabled: !args.no_proxy,
        geo_staged: args.db_path is Some,
        proxy_staged: args.proxy_db_path is Some,
        ..defaults
    }
}

/// Builds the configuration of the databases that the arguments ask for.
pub fn db_config(args: &DbArgs, user_dir: &Option<String>) -> (config: DbConfig)
    ensures
        config@ == asked_dbs(*args, text::text_of(*user_dir)),
{
    let mut config: DbConfig = DbConfig::default();
    config.data_dir = default_db_dir(&args.db_dir, user_dir);
    config.token = args.token.clone();
    config.proxy_enabled = !args.no_proxy;
    if let Some(p) = &args.db_path {
        config.geo_db = p.clone();
        config.geo_staged = true;
        if args.db_dir.is_none() {
            if let Some(d) = &args.db_path_parent {
                config.data_dir = d.clone();
            }
        }
    }
    if let Some(p) = &args.proxy_db_path {
        config.proxy_db = p.clone();
        config.proxy_staged = true;
    }
    config
}

/// A staged file is used exactly: its absolute path is where the database is
/// looked for, whatever directory was asked for besides.
pub proof fn staged_files_are_used_exactly(args: DbArgs, user_dir: Option<Seq<char>>)
    ensures
        ({
            let config = asked_dbs(args, user_dir);
            &&& args.db_path matches Some(p) ==> (paths::rooted(p@) ==> paths::joined(
                config.data_dir,
                config.geo_db,
            ) == p@)
            &&& args.proxy_db_path matches Some(p) ==> (paths::rooted(p@) ==> paths::joined(
                config.data_dir,
                config.proxy_db,
            ) == p@)
        }),
{
}

/// The position of the first comma, or the length where there is none.
pub open spec fn comma_at(s: Seq<char>) -> int
    decreases s.len(),
{
    if s.len() == 0 || s[0] == ',' {
        0
    } else {
        1 + comma_at(s.skip(1))
    }
}

/// The two coordinates in `s`: what stands before the first comma and what
/// stands behind it, without the space around them.
pub open spec fn coordinates(s: Seq<char>) -> Option<(Seq<char>, Seq<char>)> {
    let at = comma_at(s);
    if 0 <= at < s.len() {
        Some((text::trimmed(s.take(at)), text::trimmed(s.skip(at + 1))))
    } else {
        None
    }
}

proof fn comma_is_at(s: Seq<char>, n: int)
    requires
        0 <= n <= s.len(),
        n < s.len() ==> s[n] == ',',
        forall|k: int| 0 <= k < n ==> s[k] != ',',
    ensures
        comma_at(s) == n,
    decreases n,
{
    if n > 0 {
        assert forall|k: int| 0 <= k < n - 1 implies s.skip(1)[k] != ',' by {
            assert(s.skip(1)[k] == s[k + 1]);
        }
        comma_is_at(s.skip(1), n - 1);
    }
}

/// Splits the argument of `--home` into latitude and longitude; `None` where
/// it has no comma.
pub fn split_home(s: &str) -> (parts: Option<(String, String)>)
    ensures
        match parts {
            Some((lat, lon)) => coordinates(s@) == Some((lat@, lon@)),
            None => coordinates(s@) is None,
        },
{
    let chars: Vec<char> = text::chars_of(s);
    let mut at: usize = 0;
    while at < chars.len() && chars[at] != ','
        invariant
            at <= chars@.len(),
            forall|k: int| 0 <= k < at ==> chars@[k] != ',',
        decreases chars@.len() - at,
    {
        at = at + 1;
    }
    proof {
        comma_is_at(s@, at as int);
    }
    if at == chars.len() {
        return None;
    }
    let left: String = text::string_of(&chars, 0, at);
    let right: String = text::string_of(&chars, at + 1, chars.len());
    let before: Vec<char> = text::trim_chars(&text::chars_of(left.as_str()));
    let behind: Vec<char> = text::trim_chars(&text::chars_of(right.as_str()));
    assert(left@ =~= s@.take(at as int));
    assert(right@ =~= s@.skip(at + 1));
    let lat: String = text::string_of(&before, 0, before.len());
    let lon: String = text::string_of(&behind, 0, behind.len());
    assert(lat@ =~= before@);
    assert(lon@ =~= behind@);
    Some((lat, lon))
}

/// Where the configuration comes from.
#[derive(Clone, Copy, Debug, PartialEq, Eq, Structural)]
pub enum ConfigSource {
    /// The file that was asked for.
    Asked,
    /// The user's own file.
    UserFile,
    /// Nowhere: the defaults hold.
    BuiltIn,
}

/// Where the configuration comes from.
pub open spec fn source_of(asked: bool, user_file_exists: bool) -> ConfigSource {
    if asked {
        ConfigSource::Asked
    } else if user_file_exists {
        ConfigSource::UserFile
    } else {
        ConfigSource::BuiltIn
    }
}

/// A file that was asked for always wins, the user's own file comes next, and
/// only without both the defaults hold.
pub proof fn asked_files_come_first(asked: bool, user_file_exists: bool)
    ensures
        source_of(asked, user_file_exists) == ConfigSource::Asked <==> asked,
        source_of(asked, user_file_exists) == ConfigSource::UserFile <==> !asked
            && user_file_exists,
        source_of(asked, user_file_exists) == ConfigSource::BuiltIn <==> !asked
            && !user_file_exists,
{
}

/// Chooses where the configuration comes from: the file that was asked for,
/// else the user's own file if there is one, else the defaults.
pub fn config_source(asked: bool, user_file_exists: bool) -> (source: ConfigSource)
    ensures
        source == source_of(asked, user_file_exists),
{
    if asked {
        ConfigSource::Asked
    } else if user_file_exists {
        ConfigSource::UserFile
    } else {
        ConfigSource::BuiltIn
    }
}

/// How the terminal's cells are measured.
#[derive(Clone, Copy, Debug, PartialEq, Eq, Structural)]
pub enum FontChoice {
    /// The configured size.
    Configured { width: u16, height: u16 },
    /// The size that the terminal reported.
    Reported,
    /// No size: half blocks are drawn.
    HalfBlocks,
}

/// How the terminal's cells are measured, given the size that is configured and
/// the one that is reported.
pub open spec fn font_for(
    configured: (Option<u16>, Option<u16>),
    reported: (u16, u16),
) -> FontChoice {
    match configured {
        (Some(w), Some(h)) => FontChoice::Configured { width: w, height: h },
        _ => if reported.0 <= reported.1 {
            FontChoice::HalfBlocks
        } else {
            FontChoice::Reported
        },
    }
}

/// A size that is configured in full always wins; else the reported one is
/// taken if it is wider than high, and half blocks are drawn if it is not.
pub proof fn configured_fonts_come_first(
    configured: (Option<u16>, Option<u16>),
    reported: (u16, u16),
    w: u16,
    h: u16,
)
    ensures
        font_for((Some(w), Some(h)), reported) == (FontChoice::Configured { width: w, height: h }),
        configured.0 is None || configured.1 is None ==> {
            &&& font_for(configured, reported) == FontChoice::Reported <==> reported.0 > reported.1
            &&& font_for(configured, reported) == FontChoice::HalfBlocks <==> reported.0
                <= reported.1
        },
{
}

/// Chooses the font size: a configured one overrides what the terminal
/// reports; a reported cell that is not wider than high is ignored.
pub fn choose_font(configured: (Option<u16>, Option<u16>), reported: (u16, u16)) -> (choice:
    FontChoice)
    ensures
        choice == font_for(configured, reported),
{
    match configured {
        (Some(w), Some(h)) => FontChoice::Configured { width: w, height: h },
        _ => if reported.0 <= reported.1 {
            FontChoice::HalfBlocks
        } else {
            FontChoice::Reported
        },
    }
}

// ---------------------------------------------------------------------------
// Keys
// ---------------------------------------------------------------------------

/// A key of the terminal.
#[derive(Clone, Copy, Debug, PartialEq, Eq, Structural)]
pub enum KeyCode {
    Char(char),
    Esc,
    Tab,
    Up,
    Down,
    Other,
}

/// The dashboard after a key was pressed.
pub open spec fn after_key(a: AppView, key: KeyCode) -> AppView {
    match key {
        KeyCode::Esc => AppView { should_quit: true, ..a },
        KeyCode::Tab => AppView { focused: map_renderer::next_panel(a.focused), ..a },
        KeyCode::Up => AppView {
            log_selected: app::row_above(a.log.len() as int, a.log_selected),
            ..a
        },
        KeyCode::Down => AppView {
            log_selected: app::row_below(a.log.len() as int, a.log_selected),
            ..a
        },
        KeyCode::Char(c) => if c == 'q' {
            AppView { should_quit: true, ..a }
        } else if c == 'p' {
            AppView { paused: !a.paused, ..a }
        } else if c == 'c' {
            AppView { clear_requested: true, ..a }
        } else if c == 'l' {
            AppView { connection_lines: !a.connection_lines, ..a }
        } else if c == '1' {
            AppView { focused: Panel::WorldMap, ..a }
        } else if c == '2' {
            AppView { focused: Panel::Log, ..a }
        } else if c == '3' {
            AppView { focused: Panel::Metrics, ..a }
        } else {
            a
        },
        KeyCode::Other => a,
    }
}

/// The state after a key event of the terminal.
pub open spec fn after_input(a: AppView, pressed: bool, key: KeyCode) -> AppView {
    if pressed {
        after_key(a, key)
    } else {
        a
    }
}

/// A key does its work when it is pressed, and nothing when it is let go.
pub proof fn only_presses_count(a: AppView, key: KeyCode)
    ensures
        after_input(a, true, key) == after_key(a, key),
        after_input(a, false, key) == a,
        after_input(after_input(a, true, key), false, key) == after_key(a, key),
{
}

/// Handles a key event of the terminal; only a press does anything.
pub fn handle_event(state: &mut AppState, pressed: bool, key: KeyCode)
    ensures
        final(state)@ == after_input(old(state)@, pressed, key),
{
    if !pressed {
        return;
    }
    match key {
        KeyCode::Esc => state.quit(),
        KeyCode::Tab => state.cycle_focus(),
        KeyCode::Up => state.scroll_up(),
        KeyCode::Down => state.scroll_down(),
        KeyCode::Char(c) => {
            if c == 'q' {
                state.quit();
            } else if c == 'p' {
                state.toggle_pause();
            } else if c == 'c' {
                state.request_clear();
            } else if c == 'l' {
                state.toggle_lines();
            } else if c == '1' {
                state.set_focus(Panel::WorldMap);
            } else if c == '2' {
                state.set_focus(Panel::Log);
            } else if c == '3' {
                state.set_focus(Panel::Metrics);
            }
        },
        KeyCode::Other => {},
    }
}

/// No key changes what was counted, logged or plotted.
pub proof fn keys_keep_what_was_seen(a: AppView, key: KeyCode)
    ensures
        ({
            let b = after_key(a, key);
            &&& b.dots == a.dots
            &&& b.log == a.log
            &&& b.per_ip == a.per_ip
            &&& b.per_country == a.per_country
            &&& b.stats == a.stats
        }),
{
}

/// Pause and the connection lines are switched back by the same key.
pub proof fn switches_switch_back(a: AppView)
    ensures
        after_key(after_key(a, KeyCode::Char('p')), KeyCode::Char('p')) == a,
        after_key(after_key(a, KeyCode::Char('l')), KeyCode::Char('l')) == a,
{
}

/// What every key does: `q` and Esc ask to quit, `p` freezes or unfreezes the
/// map, `c` asks to clear it, `l` switches the lines, Tab and the digits move
/// the focus, and the arrows move the selection in the log. No key does
/// anything besides.
pub proof fn keys_do_what_they_say(a: AppView, key: KeyCode)
    ensures
        ({
            let b = after_key(a, key);
            &&& b.should_quit == (a.should_quit || key == KeyCode::Esc || key == KeyCode::Char('q'))
            &&& b.paused == (a.paused != (key == KeyCode::Char('p')))
            &&& b.clear_requested == (a.clear_requested || key == KeyCode::Char('c'))
            &&& b.connection_lines == (a.connection_lines != (key == KeyCode::Char('l')))
            &&& key == KeyCode::Char('1') ==> b.focused == Panel::WorldMap
            &&& key == KeyCode::Char('2') ==> b.focused == Panel::Log
            &&& key == KeyCode::Char('3') ==> b.focused == Panel::Metrics
            &&& key == KeyCode::Tab && a.focused == Panel::WorldMap ==> b.focused == Panel::Log
            &&& key == KeyCode::Tab && a.focused == Panel::Log ==> b.focused == Panel::Metrics
            &&& key == KeyCode::Tab && a.focused == Panel::Metrics ==> b.focused == Panel::WorldMap
            &&& key != KeyCode::Tab && key != KeyCode::Char('1') && key != KeyCode::Char('2') && key
                != KeyCode::Char('3') ==> b.focused == a.focused
            &&& key != KeyCode::Up && key != KeyCode::Down ==> b.log_selected == a.log_selected
            &&& a.log_selected matches Some(i) ==> {
                &&& key == KeyCode::Up && 0 < i < a.log.len() ==> b.log_selected == Some(
                    (i - 1) as usize,
                )
                &&& key == KeyCode::Down && i + 1 < a.log.len() ==> b.log_selected == Some(
                    (i + 1) as usize,
                )
            }
            &&& b.dots == a.dots && b.log == a.log && b.stats == a.stats
            &&& b.per_ip == a.per_ip && b.per_country == a.per_country
            &&& b.throughput_ring == a.throughput_ring && b.bin_start == a.bin_start
            &&& b.map_hidden == a.map_hidden
        }),
{
}

/// The directory of the databases: what was asked for, whatever else there is;
/// else `data` in the user's directory; else `./data`.
pub proof fn asked_directories_come_first(asked: Option<Seq<char>>, user_dir: Option<Seq<char>>)
    ensures
        asked matches Some(d) ==> db_dir(asked, user_dir) == d,
        asked is None ==> (user_dir matches Some(d) ==> db_dir(asked, user_dir) == paths::joined(
            d,
            "data"@,
        )),
        asked is None && user_dir is None ==> db_dir(asked, user_dir) == "./data"@,
{
}

/// The arguments reach the databases: the token as it was given, the proxy
/// database unless it was switched off, the staged files in place of the
/// downloaded ones, and as directory the one that was asked for, else that of
/// the staged file, else the default.
pub proof fn arguments_reach_the_databases(args: DbArgs, user_dir: Option<Seq<char>>)
    ensures
        ({
            let config = asked_dbs(args, user_dir);
            let defaults = db_downloader::default_db_config();
            &&& config.token == args.token@
            &&& config.proxy_enabled == !args.no_proxy
            &&& config.geo_staged == (args.db_path is Some)
            &&& config.proxy_staged == (args.proxy_db_path is Some)
            &&& args.db_path matches Some(p) ==> config.geo_db == p@
            &&& args.db_path is None ==> config.geo_db == defaults.geo_db
            &&& args.proxy_db_path matches Some(p) ==> config.proxy_db == p@
            &&& args.proxy_db_path is None ==> config.proxy_db == defaults.proxy_db
            &&& config.geo_url == defaults.geo_url
            &&& config.proxy_url == defaults.proxy_url
            &&& config.max_age_days == defaults.max_age_days
            &&& args.db_dir matches Some(d) ==> config.data_dir == d@
            &&& args.db_dir is None && args.db_path is Some ==> (args.db_path_parent matches Some(d)
                ==> config.data_dir == d@)
            &&& args.db_dir is None && (args.db_path is None || args.db_path_parent is None)
                ==> config.data_dir == db_dir(None, user_dir)
        }),
{
}

/// Coordinates are what stands before and behind the first comma, without the
/// space around them; without a comma there are none.
pub proof fn coordinates_stand_around_a_comma(lat: Seq<char>, lon: Seq<char>, s: Seq<char>)
    requires
        forall|k: int| 0 <= k < lat.len() ==> #[trigger] lat[k] != ',',
        forall|k: int| 0 <= k < s.len() ==> #[trigger] s[k] != ',',
    ensures
        coordinates(lat + seq![','] + lon) == Some((text::trimmed(lat), text::trimmed(lon))),
        coordinates(s) is None,
{
    let whole = lat + seq![','] + lon;
    assert forall|k: int| 0 <= k < lat.len() implies whole[k] != ',' by {
        assert(whole[k] == lat[k]);
    }
    assert(whole[lat.len() as int] == ',');
    comma_is_at(whole, lat.len() as int);
    comma_is_at(s, s.len() as int);
    assert(whole.take(lat.len() as int) =~= lat);
    assert(whole.skip(lat.len() as int + 1) =~= lon);
}

} // verus!
