//! Keeping the IP databases on disk fresh.
//!
//! The program around this library downloads, unpacks and opens the files;
//! here it is decided which, from where and when.

use vstd::prelude::*;
use vstd::string::StringExecFns;

use crate::paths;
use crate::text;

verus! {

/// Where the location database comes from.
pub const DEFAULT_GEO_URL: &'static str = "https://www.ip2location.com/download?file=DB11LITEBIN";

/// Where the proxy database comes from.
pub const DEFAULT_PROXY_URL: &'static str = "https://www.ip2location.com/download?file=PX11LITEBIN";

/// File name of the location database.
pub const LOCATION_DB_NAME: &'static str = "IP2LOCATION-LITE-DB11.BIN";

/// File name of the proxy database.
pub const PROXY_DB_NAME: &'static str = "IP2PROXY-LITE-PX11.BIN";

/// After how many days a database is downloaded again.
pub const DEFAULT_MAX_AGE_DAYS: u64 = 30;

/// Configuration of the databases.
#[derive(Debug)]
pub struct DbConfig {
    pub data_dir: String,
    pub geo_db: String,
    pub proxy_db: String,
    pub max_age_days: u64,
    pub geo_url: String,
    pub proxy_url: String,
    pub token: String,
    pub proxy_enabled: bool,
    /// The user staged the location database: it is never downloaded.
    pub geo_staged: bool,
    /// The user staged the proxy database: it is never downloaded.
    pub proxy_staged: bool,
}

/// What a [`DbConfig`] says.
#[verifier::ext_equal]
pub struct DbConfigView {
    pub data_dir: Seq<char>,
    pub geo_db: Seq<char>,
    pub proxy_db: Seq<char>,
    pub max_age_days: u64,
    pub geo_url: Seq<char>,
    pub proxy_url: Seq<char>,
    pub token: Seq<char>,
    pub proxy_enabled: bool,
    pub geo_staged: bool,
    pub proxy_staged: bool,
}

impl View for DbConfig {
    type V = DbConfigView;

    open spec fn view(&self) -> DbConfigView {
        DbConfigView {
            data_dir: self.data_dir@,
            geo_db: self.geo_db@,
            proxy_db: self.proxy_db@,
            max_age_days: self.max_age_days,
            geo_url: self.geo_url@,
            proxy_url: self.proxy_url@,
            token: self.token@,
            proxy_enabled: self.proxy_enabled,
            geo_staged: self.geo_staged,
            proxy_staged: self.proxy_staged,
        }
    }
}

/// The default configuration.
pub open spec fn default_db_config() -> DbConfigView {
    DbConfigView {
        data_dir: "./data"@,
        geo_db: LOCATION_DB_NAME@,
        proxy_db: PROXY_DB_NAME@,
        max_age_days: DEFAULT_MAX_AGE_DAYS,
        geo_url: DEFAULT_GEO_URL@,
        proxy_url: DEFAULT_PROXY_URL@,
        token: Seq::empty(),
        proxy_enabled: true,
        geo_staged: false,
        proxy_staged: false,
    }
}

impl Default for DbConfig {
    fn default() -> (config: DbConfig)
        ensures
            config@ == default_db_config(),
    {
        DbConfig {
            data_dir: "./data".to_owned(),
            geo_db: LOCATION_DB_NAME.to_owned(),
            proxy_db: PROXY_DB_NAME.to_owned(),
            max_age_days: DEFAULT_MAX_AGE_DAYS,
            geo_url: DEFAULT_GEO_URL.to_owned(),
            proxy_url: DEFAULT_PROXY_URL.to_owned(),
            token: String::new(),
            proxy_enabled: true,
            geo_staged: false,
            proxy_staged: false,
        }
    }
}

/// The address to download from: with the token as a query parameter, if
/// there is one.
pub open spec fn url_with_token(base: Seq<char>, token: Seq<char>) -> Seq<char> {
    if token.len() == 0 {
        base
    } else {
        base + "&token="@ + token
    }
}

/// How many seconds a day has.
pub const SECONDS_PER_DAY: u64 = 86_400;

/// Where the databases are.
#[derive(Debug)]
pub struct ResolvedDbs {
    pub location_db: String,
    pub proxy_db: Option<String>,
}

impl DbConfig {
    /// Where the location database is.
    pub fn geo_path(&self) -> (path: String)
        ensures
            path@ == paths::joined(self.data_dir@, self.geo_db@),
    {
        paths::join(self.data_dir.as_str(), self.geo_db.as_str())
    }

    /// Where the proxy database is.
    pub fn proxy_path(&self) -> (path: String)
        ensures
            path@ == paths::joined(self.data_dir@, self.proxy_db@),
    {
        paths::join(self.data_dir.as_str(), self.proxy_db.as_str())
    }

    /// Both paths, the second only if proxies are looked up.
    pub fn resolved(&self) -> (dbs: ResolvedDbs)
        ensures
            (dbs.location_db@, text::text_of(dbs.proxy_db)) == databases_in(
                self.data_dir@,
                self.geo_db@,
                self.proxy_db@,
                self.proxy_enabled,
            ),
    {
        ResolvedDbs {
            location_db: self.geo_path(),
            proxy_db: if self.proxy_enabled {
                Some(self.proxy_path())
            } else {
                None
            },
        }
    }

    /// The address to download `base_url` from.
    pub fn download_url(&self, base_url: &str) -> (url: String)
        ensures
            url@ == url_with_token(base_url@, self.token@),
    {
        let mut url: String = base_url.to_owned();
        if self.token.as_str().unicode_len() > 0 {
            url.append("&token=");
            url.append(self.token.as_str());
        }
        url
    }

    /// Where the archive with the database `expected_name` is downloaded to.
    pub fn zip_path(&self, expected_name: &str) -> (path: String)
        ensures
            path@ == paths::joined(self.data_dir@, expected_name@ + ".zip"@),
    {
        let mut name: String = expected_name.to_owned();
        name.append(".zip");
        paths::join(self.data_dir.as_str(), name.as_str())
    }

    /// Whether a file of the given age (seconds, nanoseconds) is too old; a
    /// file that is not there has no age.
    pub open spec fn stale(self, age: Option<(u64, u32)>) -> bool {
        match age {
            None => true,
            Some((secs, nanos)) => {
                let limit = self.max_age_days * SECONDS_PER_DAY;
                secs > limit || (secs == limit && nanos > 0)
            },
        }
    }

    /// Whether a database has to be downloaded, given how long ago its file
    /// was written (seconds, nanoseconds); `None` if there is no file.
    pub fn needs_refresh(&self, age: Option<(u64, u32)>) -> (yes: bool)
        requires
            self.max_age_days * SECONDS_PER_DAY <= u64::MAX,
        ensures
            yes == self.stale(age),
    {
        match age {
            None => true,
            Some((secs, nanos)) => {
                let limit: u64 = self.max_age_days * SECONDS_PER_DAY;
                secs > limit || (secs == limit && nanos > 0)
            },
        }
    }
}

impl DbConfig {
    /// Whether the location database has to be downloaded, given the age of
    /// its file. One that the user staged is used as it is.
    pub fn geo_needs_refresh(&self, age: Option<(u64, u32)>) -> (yes: bool)
        requires
            self.max_age_days * SECONDS_PER_DAY <= u64::MAX,
        ensures
            yes == (!self.geo_staged && self.stale(age)),
    {
        !self.geo_staged && self.needs_refresh(age)
    }

    /// Whether the proxy database has to be downloaded, given the age of its
    /// file. One that the user staged is used as it is.
    pub fn proxy_needs_refresh(&self, age: Option<(u64, u32)>) -> (yes: bool)
        requires
            self.max_age_days * SECONDS_PER_DAY <= u64::MAX,
        ensures
            yes == (!self.proxy_staged && self.stale(age)),
    {
        !self.proxy_staged && self.needs_refresh(age)
    }
}

/// The configuration of the `update-dbs` command: the defaults, in a directory
/// and with a token.
pub fn update_config(dir: &str, token: &str) -> (config: DbConfig)
    ensures
        config@ == (DbConfigView { data_dir: dir@, token: token@, ..default_db_config() }),
{
    let mut config: DbConfig = DbConfig::default();
    config.data_dir = dir.to_owned();
    config.token = token.to_owned();
    config
}

/// Whether a file changed since `last`, its modification time at the last look
/// (0 if there was none yet); `mtime` is its modification time now, `None` if
/// there is no file.
pub open spec fn changed_since(last: u64, mtime: Option<u64>) -> bool {
    last != 0 && mtime is Some && mtime != Some(last)
}

/// The modification time that is noted after a look.
pub open spec fn noted(last: u64, mtime: Option<u64>) -> u64 {
    match mtime {
        Some(m) => m,
        None => last,
    }
}

/// Whether a file changed on disk since the modification time `last` (in
/// seconds, 0 before the first look). The present time `mtime` is noted.
pub fn file_changed(last: &mut u64, mtime: Option<u64>) -> (changed: bool)
    ensures
        changed == changed_since(*old(last), mtime),
        *final(last) == noted(*old(last), mtime),
{
    match mtime {
        None => false,
        Some(m) => {
            let prev: u64 = *last;
            *last = m;
            m != prev && prev != 0
        },
    }
}

/// A change on disk is reported once: the next look at the same file finds
/// none.
pub proof fn a_change_is_reported_once(last: u64, mtime: Option<u64>)
    ensures
        !changed_since(noted(last, mtime), mtime),
{
}

/// Whether an archive entry is a database.
pub open spec fn bin_name(name: Seq<char>) -> bool {
    text::found_at(name, ".BIN"@, name.len() - 4)
}

/// The position of the first database among the names of an archive's
/// entries.
pub fn first_bin(names: &Vec<String>) -> (found: Option<usize>)
    ensures
        match found {
            Some(i) => i < names@.len() && bin_name(names@[i as int]@) && forall|k: int|
                0 <= k < i ==> !bin_name(#[trigger] names@[k]@),
            None => forall|k: int| 0 <= k < names@.len() ==> !bin_name(#[trigger] names@[k]@),
        },
{
    proof {
        reveal_strlit(".BIN");
    }
    let mut i: usize = 0;
    while i < names.len()
        invariant
            i <= names@.len(),
            ".BIN"@.len() == 4,
            forall|k: int| 0 <= k < i ==> !bin_name(#[trigger] names@[k]@),
        decreases names@.len() - i,
    {
        if paths::ends_with(names[i].as_str(), ".BIN") {
            return Some(i);
        }
        i = i + 1;
    }
    None
}

// ---------------------------------------------------------------------------
// The order of work
// ---------------------------------------------------------------------------

/// The stages of making sure that both databases are there and loaded.
#[derive(Clone, Copy, Debug, PartialEq, Eq, Structural)]
pub enum EnsureStage {
    /// Find out whether the location database needs a refresh.
    CheckGeo,
    /// Download it.
    DownloadGeo,
    /// Find out whether the proxy database needs a refresh.
    CheckProxy,
    /// Download it.
    DownloadProxy,
    /// Load the location database.
    LoadGeo,
    /// Load the proxy database.
    LoadProxy,
    /// Both are there.
    Done,
    /// A step failed.
    Failed,
}

/// The stage after `stage`, whose outcome was `yes`: that a refresh is needed,
/// or that the step succeeded. A proxy database that cannot be loaded is no
/// failure: the program goes on without proxy detection.
pub open spec fn ensure_next(stage: EnsureStage, proxy_enabled: bool, yes: bool) -> EnsureStage {
    let behind_geo = if proxy_enabled {
        EnsureStage::CheckProxy
    } else {
        EnsureStage::LoadGeo
    };
    match stage {
        EnsureStage::CheckGeo => if yes {
            EnsureStage::DownloadGeo
        } else {
            behind_geo
        },
        EnsureStage::DownloadGeo => if yes {
            behind_geo
        } else {
            EnsureStage::Failed
        },
        EnsureStage::CheckProxy => if yes {
            EnsureStage::DownloadProxy
        } else {
            EnsureStage::LoadGeo
        },
        EnsureStage::DownloadProxy => if yes {
            EnsureStage::LoadGeo
        } else {
            EnsureStage::Failed
        },
        EnsureStage::LoadGeo => if !yes {
            EnsureStage::Failed
        } else if proxy_enabled {
            EnsureStage::LoadProxy
        } else {
            EnsureStage::Done
        },
        EnsureStage::LoadProxy => EnsureStage::Done,
        EnsureStage::Done => EnsureStage::Done,
        EnsureStage::Failed => EnsureStage::Failed,
    }
}

/// Decides what comes after a stage with the given outcome.
pub fn ensure_databases(stage: EnsureStage, proxy_enabled: bool, yes: bool) -> (next: EnsureStage)
    ensures
        next == ensure_next(stage, proxy_enabled, yes),
{
    let behind_geo: EnsureStage = if proxy_enabled {
        EnsureStage::CheckProxy
    } else {
        EnsureStage::LoadGeo
    };
    match stage {
        EnsureStage::CheckGeo => if yes {
            EnsureStage::DownloadGeo
        } else {
            behind_geo
        },
        EnsureStage::DownloadGeo => if yes {
            behind_geo
        } else {
            EnsureStage::Failed
        },
        EnsureStage::CheckProxy => if yes {
            EnsureStage::DownloadProxy
        } else {
            EnsureStage::LoadGeo
        },
        EnsureStage::DownloadProxy => if yes {
            EnsureStage::LoadGeo
        } else {
            EnsureStage::Failed
        },
        EnsureStage::LoadGeo => if !yes {
            EnsureStage::Failed
        } else if proxy_enabled {
            EnsureStage::LoadProxy
        } else {
            EnsureStage::Done
        },
        EnsureStage::LoadProxy => EnsureStage::Done,
        EnsureStage::Done => EnsureStage::Done,
        EnsureStage::Failed => EnsureStage::Failed,
    }
}

/// The stage after all outcomes in `answers`, starting from `stage`.
pub open spec fn ensure_run(
    stage: EnsureStage,
    proxy_enabled: bool,
    answers: Seq<bool>,
) -> EnsureStage
    decreases answers.len(),
{
    if answers.len() == 0 {
        stage
    } else {
        ensure_run(
            ensure_next(stage, proxy_enabled, answers[0]),
            proxy_enabled,
            answers.skip(1),
        )
    }
}

/// How many steps are left at most.
pub open spec fn ensure_steps_left(stage: EnsureStage) -> nat {
    match stage {
        EnsureStage::CheckGeo => 6,
        EnsureStage::DownloadGeo => 5,
        EnsureStage::CheckProxy => 4,
        EnsureStage::DownloadProxy => 3,
        EnsureStage::LoadGeo => 2,
        EnsureStage::LoadProxy => 1,
        EnsureStage::Done => 0,
        EnsureStage::Failed => 0,
    }
}

/// Whatever the outcomes are, six steps settle the matter.
pub proof fn ensuring_ends(stage: EnsureStage, proxy_enabled: bool, answers: Seq<bool>)
    requires
        answers.len() >= ensure_steps_left(stage),
    ensures
        ensure_run(stage, proxy_enabled, answers) is Done || ensure_run(
            stage,
            proxy_enabled,
            answers,
        ) is Failed,
    decreases answers.len(),
{
    if answers.len() > 0 {
        ensuring_ends(
            ensure_next(stage, proxy_enabled, answers[0]),
            proxy_enabled,
            answers.skip(1),
        );
    }
}

/// A database that needs no refresh, such as one that the user staged, is never
/// downloaded: a download follows only where a refresh is needed.
pub proof fn downloads_follow_a_need(stage: EnsureStage, proxy_enabled: bool, yes: bool)
    ensures
        ensure_next(stage, proxy_enabled, yes) is DownloadGeo ==> stage is CheckGeo && yes,
        ensure_next(stage, proxy_enabled, yes) is DownloadProxy ==> stage is CheckProxy && yes,
{
}

/// With proxy detection switched off the proxy database is never touched.
pub proof fn disabled_proxy_is_left_alone(stage: EnsureStage, answers: Seq<bool>)
    requires
        !(stage is CheckProxy || stage is DownloadProxy || stage is LoadProxy),
    ensures
        !(ensure_run(stage, false, answers) is CheckProxy || ensure_run(
            stage,
            false,
            answers,
        ) is DownloadProxy || ensure_run(stage, false, answers) is LoadProxy),
    decreases answers.len(),
{
    if answers.len() > 0 {
        disabled_proxy_is_left_alone(ensure_next(stage, false, answers[0]), answers.skip(1));
    }
}

/// The stages of looking for databases that changed on disk.
#[derive(Clone, Copy, Debug, PartialEq, Eq, Structural)]
pub enum ReloadStage {
    /// Find out whether the location database changed.
    CheckGeo,
    /// Load it again.
    LoadGeo,
    /// Find out whether the proxy database changed.
    CheckProxy,
    /// Load it again.
    LoadProxy,
    /// All that changed was loaded.
    Done,
    /// A step failed.
    Failed,
}

/// The stage after `stage`, whose outcome was `yes`: that the file changed, or
/// that the step succeeded.
pub open spec fn reload_next(stage: ReloadStage, proxy_enabled: bool, yes: bool) -> ReloadStage {
    let behind_geo = if proxy_enabled {
        ReloadStage::CheckProxy
    } else {
        ReloadStage::Done
    };
    match stage {
        ReloadStage::CheckGeo => if yes {
            ReloadStage::LoadGeo
        } else {
            behind_geo
        },
        ReloadStage::LoadGeo => if yes {
            behind_geo
        } else {
            ReloadStage::Failed
        },
        ReloadStage::CheckProxy => if yes {
            ReloadStage::LoadProxy
        } else {
            ReloadStage::Done
        },
        ReloadStage::LoadProxy => if yes {
            ReloadStage::Done
        } else {
            ReloadStage::Failed
        },
        ReloadStage::Done => ReloadStage::Done,
        ReloadStage::Failed => ReloadStage::Failed,
    }
}

/// Decides what comes after a stage with the given outcome.
pub fn hot_reload(stage: ReloadStage, proxy_enabled: bool, yes: bool) -> (next: ReloadStage)
    ensures
        next == reload_next(stage, proxy_enabled, yes),
{
    let behind_geo: ReloadStage = if proxy_enabled {
        ReloadStage::CheckProxy
    } else {
        ReloadStage::Done
    };
    match stage {
        ReloadStage::CheckGeo => if yes {
            ReloadStage::LoadGeo
        } else {
            behind_geo
        },
        ReloadStage::LoadGeo => if yes {
            behind_geo
        } else {
            ReloadStage::Failed
        },
        ReloadStage::CheckProxy => if yes {
            ReloadStage::LoadProxy
        } else {
            ReloadStage::Done
        },
        ReloadStage::LoadProxy => if yes {
            ReloadStage::Done
        } else {
            ReloadStage::Failed
        },
        ReloadStage::Done => ReloadStage::Done,
        ReloadStage::Failed => ReloadStage::Failed,
    }
}

// ---------------------------------------------------------------------------
// What the decisions mean
// ---------------------------------------------------------------------------

/// A token is added as the last parameter of an address, and nothing is added
/// where there is none.
pub proof fn tokens_are_added_to_addresses(base: Seq<char>, token: Seq<char>)
    ensures
        url_with_token(base, Seq::empty()) == base,
        token.len() > 0 ==> url_with_token(base, token) == base + "&token="@ + token,
{
}

/// A database is too old if it is not there, or was written longer ago than the
/// days allowed; one that was written just that long ago is not.
pub proof fn old_databases_are_stale(config: DbConfig, secs: u64, nanos: u32)
    requires
        nanos < 1_000_000_000,
    ensures
        config.stale(None),
        config.stale(Some((secs, nanos))) <==> secs * 1_000_000_000 + nanos > config.max_age_days
            * 86_400 * 1_000_000_000,
{
    let limit = config.max_age_days * 86_400;
    assert(limit == config.max_age_days * SECONDS_PER_DAY);
}

/// A file changed if it was seen before and has another time now. The time that
/// is noted is the present one, or that of before where there is no file.
pub proof fn changes_on_disk_are_noticed(last: u64, now: u64)
    ensures
        changed_since(last, Some(now)) <==> last != 0 && now != last,
        !changed_since(last, None),
        noted(last, Some(now)) == now,
        noted(last, None) == last,
{
}

/// An entry is a database if and only if its name ends so.
pub proof fn databases_end_in_bin(name: Seq<char>, stem: Seq<char>)
    ensures
        bin_name(stem + ".BIN"@),
        bin_name(name) ==> name.len() >= 4 && name.skip(name.len() - 4) == ".BIN"@,
{
    reveal_strlit(".BIN");
    let whole = stem + ".BIN"@;
    assert(whole.subrange(whole.len() - 4, whole.len() as int) =~= ".BIN"@);
    if bin_name(name) {
        assert(name.subrange(name.len() - 4, name.len() as int) =~= name.skip(name.len() - 4));
    }
}

/// When each stage of making sure is reached. Only a failed download, or a
/// location database that cannot be loaded, is a failure; the location database
/// is loaded behind whatever had to be downloaded; and the proxy database comes
/// in only where proxies are looked up.
pub proof fn making_sure_step_by_step(stage: EnsureStage, proxy_enabled: bool, yes: bool)
    ensures
        ({
            let next = ensure_next(stage, proxy_enabled, yes);
            let geo_settled = (stage is CheckGeo && !yes) || (stage is DownloadGeo && yes);
            let proxy_settled = (stage is CheckProxy && !yes) || (stage is DownloadProxy && yes);
            &&& !(next is CheckGeo)
            &&& next is DownloadGeo <==> stage is CheckGeo && yes
            &&& next is CheckProxy <==> geo_settled && proxy_enabled
            &&& next is DownloadProxy <==> stage is CheckProxy && yes
            &&& next is LoadGeo <==> proxy_settled || (geo_settled && !proxy_enabled)
            &&& next is LoadProxy <==> stage is LoadGeo && yes && proxy_enabled
            &&& next is Done <==> (stage is LoadGeo && yes && !proxy_enabled) || stage is LoadProxy
                || stage is Done
            &&& next is Failed <==> (!yes && (stage is DownloadGeo || stage is DownloadProxy
                || stage is LoadGeo)) || stage is Failed
        }),
{
}

/// When each stage of a reload is reached. What did not change is not loaded,
/// what changed is, and only a load that fails is a failure.
pub proof fn reloading_step_by_step(stage: ReloadStage, proxy_enabled: bool, yes: bool)
    ensures
        ({
            let next = reload_next(stage, proxy_enabled, yes);
            let geo_settled = (stage is CheckGeo && !yes) || (stage is LoadGeo && yes);
            let proxy_settled = (stage is CheckProxy && !yes) || (stage is LoadProxy && yes);
            &&& !(next is CheckGeo)
            &&& next is LoadGeo <==> stage is CheckGeo && yes
            &&& next is CheckProxy <==> geo_settled && proxy_enabled
            &&& next is LoadProxy <==> stage is CheckProxy && yes
            &&& next is Done <==> proxy_settled || (geo_settled && !proxy_enabled) || stage is Done
            &&& next is Failed <==> (!yes && (stage is LoadGeo || stage is LoadProxy))
                || stage is Failed
        }),
{
}

/// The databases by default: in `./data`, under the names and from the addresses
/// of the free editions, refreshed after thirty days, proxies and all.
pub proof fn databases_by_default()
    ensures
        ({
            let c = default_db_config();
            &&& c.data_dir == "./data"@
            &&& c.geo_db == "IP2LOCATION-LITE-DB11.BIN"@
            &&& c.proxy_db == "IP2PROXY-LITE-PX11.BIN"@
            &&& c.geo_url == "https://www.ip2location.com/download?file=DB11LITEBIN"@
            &&& c.proxy_url == "https://www.ip2location.com/download?file=PX11LITEBIN"@
            &&& c.max_age_days == 30
            &&& c.token.len() == 0
            &&& c.proxy_enabled && !c.geo_staged && !c.proxy_staged
        }),
{
}

/// The paths of the two databases in a directory, the second only if proxies are
/// looked up.
pub open spec fn databases_in(
    dir: Seq<char>,
    geo: Seq<char>,
    proxy: Seq<char>,
    proxy_enabled: bool,
) -> (Seq<char>, Option<Seq<char>>) {
    (
        paths::joined(dir, geo),
        if proxy_enabled {
            Some(paths::joined(dir, proxy))
        } else {
            None
        },
    )
}

/// The databases stand in the directory under their own names; the one of the
/// proxies is there if and only if proxies are looked up, and makes no
/// difference to the other.
pub proof fn databases_stand_in_their_directory(
    dir: Seq<char>,
    geo: Seq<char>,
    proxy: Seq<char>,
    enabled: bool,
)
    ensures
        databases_in(dir, geo, proxy, enabled).0 == paths::joined(dir, geo),
        databases_in(dir, geo, proxy, enabled).0 == databases_in(dir, geo, geo, !enabled).0,
        databases_in(dir, geo, proxy, true).1 == Some(databases_in(dir, proxy, geo, enabled).0),
        databases_in(dir, geo, proxy, false).1 is None,
{
}

} // verus!
