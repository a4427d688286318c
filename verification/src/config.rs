//! The configuration: where the history lives, how many entries it keeps
//! or for how long, and where the configuration file is.  Reading and
//! writing the file and moving the data are left to the caller.

use vstd::prelude::*;
use crate::layout::{join, join_spec};
use crate::text::{concat, owned};
use crate::timefmt::{now, valid_timestamp};
use crate::model::opt_str;

verus! {

/// How the history is pruned: entries older than some days, or all but
/// the most recent entries.
pub enum PrunePolicy {
    MaxAge { days: u64 },
    MaxCount { count: usize },
}

impl Default for PrunePolicy {
    /// Keep every entry.
    fn default() -> (r: PrunePolicy)
        ensures
            r == (PrunePolicy::MaxCount { count: usize::MAX }),
    {
        PrunePolicy::MaxCount { count: usize::MAX }
    }
}

/// The application's configuration.
pub struct AppConfig {
    pub max_items: Option<usize>,
    pub override_data_dir: Option<String>,
    pub pruning: Option<PrunePolicy>,
    pub version: Option<String>,
}

impl Default for AppConfig {
    /// Nothing set.
    fn default() -> (r: AppConfig)
        ensures
            r.max_items is None,
            r.override_data_dir is None,
            r.pruning is None,
            r.version is None,
    {
        AppConfig { max_items: None, override_data_dir: None, pruning: None, version: None }
    }
}

/// What to prune: that many of the oldest entries, or the entries last
/// seen before a time.
pub enum PruneDirective {
    ByCount(usize),
    ByDate(i64),
}

#[verifier::external_type_specification]
#[verifier::external_body]
pub struct ExProjectDirs(directories::ProjectDirs);

/// `ProjectDirs::from`: the platform's directories for the project, when
/// the user's home directory is known.  What they are depends on the
/// platform and the environment, so nothing is stated of them.
#[verifier::external_body]
fn project_dirs_from(qualifier: &str, organization: &str, application: &str) -> Option<
    directories::ProjectDirs,
> {
    directories::ProjectDirs::from(qualifier, organization, application)
}

/// `ProjectDirs::config_dir`, lossily as text.  It depends on the
/// environment, so nothing is stated of it.
#[verifier::external_body]
fn config_dir_of(dirs: &directories::ProjectDirs) -> String {
    dirs.config_dir().to_string_lossy().into_owned()
}

/// `ProjectDirs::data_dir`, lossily as text.  It depends on the
/// environment, so nothing is stated of it.
#[verifier::external_body]
fn data_dir_of(dirs: &directories::ProjectDirs) -> String {
    dirs.data_dir().to_string_lossy().into_owned()
}

/// The organisation under which the application's directories are made.
pub const ORGANIZATION: &'static str = "clippith";

/// The application's name.
pub const APP_NAME: &'static str = "get_clipboard";

/// Where the configuration and the data live by default.
pub struct ConfigPaths {
    pub config_dir: String,
    pub config_file: String,
    pub data_dir: String,
}

/// The paths made from given configuration and data directories:
/// `config.json` in the first.
pub fn config_paths_from(config_dir: String, data_dir: String) -> (r: ConfigPaths)
    ensures
        r.config_dir@ == config_dir@,
        r.data_dir@ == data_dir@,
        r.config_file@ == join_spec(config_dir@, "config.json"@),
{
    let config_file = join(config_dir.as_str(), "config.json");
    ConfigPaths { config_dir, config_file, data_dir }
}

/// The default paths: the platform's configuration and data directories
/// for the application, and `config.json` in the first; `None` when the
/// platform gives no directories.
pub fn resolve_paths() -> (r: Option<ConfigPaths>)
    ensures
        r matches Some(p) ==> p.config_file@ == join_spec(p.config_dir@, "config.json"@),
{
    let dirs = match project_dirs_from("com", ORGANIZATION, APP_NAME) {
        Some(d) => d,
        None => {
            return None;
        },
    };
    Some(config_paths_from(config_dir_of(&dirs), data_dir_of(&dirs)))
}

/// The configuration file, when the platform gives directories.
pub fn config_file_path() -> (r: Option<String>)
    ensures
        r matches Some(f) ==> exists|d: Seq<char>| f@ == join_spec(d, "config.json"@),
{
    match resolve_paths() {
        Some(p) => Some(p.config_file),
        None => None,
    }
}

/// The cutoff of an age policy: `days` days before `now`, the day count
/// taken as a signed 64-bit number (`days as i64`).
pub open spec fn age_cutoff(now: int, days: u64) -> int {
    now - (days as i64) * 86400
}

/// The age policy's cutoff can be computed from this time: the age in
/// seconds fits a signed 64-bit count and the cutoff is a representable
/// date.
pub open spec fn age_in_range(now: int, days: u64) -> bool {
    &&& i64::MIN <= (days as i64) * 86400 <= i64::MAX
    &&& valid_timestamp(age_cutoff(now, days))
}

/// The pruning that a policy asks for when the history holds `total`
/// entries at time `now`.
pub open spec fn prune_spec(policy: Option<PrunePolicy>, total: usize, now: int) -> Option<PruneDirective> {
    match policy {
        Some(PrunePolicy::MaxAge { days }) => Some(PruneDirective::ByDate(age_cutoff(now, days) as i64)),
        Some(PrunePolicy::MaxCount { count }) => if total > count {
            Some(PruneDirective::ByCount((total - count) as usize))
        } else {
            None
        },
        None => None,
    }
}

impl AppConfig {
    /// The data directory given the platform's paths: the one set in the
    /// configuration, else the platform's data directory, else none.
    pub fn data_dir_with(&self, paths: Option<ConfigPaths>) -> (r: Option<String>)
        ensures
            opt_str(r) == match self.override_data_dir {
                Some(p) => Some(p@),
                None => match paths {
                    Some(ps) => Some(ps.data_dir@),
                    None => None,
                },
            },
    {
        match &self.override_data_dir {
            Some(p) => Some(p.clone()),
            None => match paths {
                Some(ps) => Some(ps.data_dir),
                None => None,
            },
        }
    }

    /// The data directory: the one set in the configuration, else the
    /// platform's (`None` when the platform gives none).
    pub fn data_dir(&self) -> (r: Option<String>)
        ensures
            self.override_data_dir matches Some(p) ==> (r matches Some(d) && d@ == p@),
    {
        match &self.override_data_dir {
            Some(p) => Some(p.clone()),
            None => self.data_dir_with(resolve_paths()),
        }
    }

    /// The pruning due when the history holds `total` entries at time
    /// `now`: the oldest entries beyond the count limit, or the entries
    /// older than the age limit.
    pub fn should_prune_at(&self, total_items: usize, now: i64) -> (r: Option<PruneDirective>)
        requires
            self.pruning matches Some(PrunePolicy::MaxAge { days }) ==> age_in_range(now as int, days),
        ensures
            r == prune_spec(self.pruning, total_items, now as int),
    {
        match &self.pruning {
            Some(PrunePolicy::MaxAge { days }) => {
                let d: i64 = *days as i64;
                let secs: i64 = d * 86400;
                Some(PruneDirective::ByDate(now - secs))
            },
            Some(PrunePolicy::MaxCount { count }) => {
                if total_items > *count {
                    Some(PruneDirective::ByCount(total_items - *count))
                } else {
                    None
                }
            },
            None => None,
        }
    }

    /// The pruning due now.  An age limit whose cutoff falls outside the
    /// representable dates is an error.
    pub fn should_prune(&self, total_items: usize) -> (r: Result<Option<PruneDirective>, String>)
        ensures
            !(self.pruning matches Some(PrunePolicy::MaxAge { .. })) ==> r == Ok::<
                Option<PruneDirective>,
                String,
            >(prune_spec(self.pruning, total_items, 0)),
            self.pruning matches Some(PrunePolicy::MaxAge { days }) ==> match r {
                Ok(Some(PruneDirective::ByDate(c))) => valid_timestamp(c as int) && exists|t: int|
                    valid_timestamp(t) && age_in_range(t, days) && c == age_cutoff(t, days),
                Ok(_) => false,
                Err(e) => e@ == "Pruning age is out of range"@,
            },
    {
        let t = now();
        match &self.pruning {
            Some(PrunePolicy::MaxAge { days }) => {
                let d: i64 = *days as i64;
                if d > i64::MAX / 86400 || d < i64::MIN / 86400 {
                    return Err("Pruning age is out of range".to_string());
                }
                let secs: i64 = d * 86400;
                if (secs > 0 && t < crate::timefmt::MIN_TIMESTAMP + secs) || (secs < 0
                    && t > crate::timefmt::MAX_TIMESTAMP + secs) {
                    return Err("Pruning age is out of range".to_string());
                }
                let r = self.should_prune_at(total_items, t);
                assert(age_cutoff(t as int, *days) == t - secs);
                assert(age_in_range(t as int, *days));
                Ok(r)
            },
            _ => Ok(self.should_prune_at(total_items, t)),
        }
    }
}

/// The configuration with its data directory set to `dir`.
pub fn with_data_dir(config: AppConfig, dir: String) -> (r: AppConfig)
    ensures
        r.override_data_dir == Some(dir),
        r.max_items == config.max_items,
        r.pruning == config.pruning,
        r.version == config.version,
{
    AppConfig { override_data_dir: Some(dir), ..config }
}

/// The configuration as saved: stamped with the application's version.
pub fn stamped(config: AppConfig, version: &str) -> (r: AppConfig)
    ensures
        r.version matches Some(v) && v@ == version@,
        r.max_items == config.max_items,
        r.override_data_dir == config.override_data_dir,
        r.pruning == config.pruning,
{
    AppConfig { version: Some(owned(version)), ..config }
}

/// Whether the data may move from `current` to `target`: not when they are
/// the same directory.
pub fn check_move(current: &str, target: &str) -> (r: Result<(), String>)
    ensures
        crate::snapshot::path_eq(current@, target@) ==> (r matches Err(e) && e@
            == "Directory already set to "@ + current@),
        !crate::snapshot::path_eq(current@, target@) ==> r is Ok,
{
    if crate::snapshot::paths_equal(current, target) {
        Err(concat("Directory already set to ", current))
    } else {
        Ok(())
    }
}

/// The configuration after setting the data directory: the loaded
/// configuration (or the default when none could be loaded) with its data
/// directory set to the normalized path.
pub fn set_data_dir(loaded: Option<AppConfig>, normalized: String) -> (r: AppConfig)
    ensures
        r.override_data_dir == Some(normalized),
        loaded matches Some(c) ==> r.max_items == c.max_items && r.pruning == c.pruning
            && r.version == c.version,
        loaded is None ==> r.max_items is None && r.pruning is None && r.version is None,
{
    let config = match loaded {
        Some(c) => c,
        None => AppConfig::default(),
    };
    with_data_dir(config, normalized)
}

/// Pruning by count removes just enough of the oldest entries to leave the
/// limit, and asks for nothing when the history is within it.
pub proof fn law_prune_by_count_keeps_limit(count: usize, total: usize, now: int)
    ensures
        total > count ==> (prune_spec(Some(PrunePolicy::MaxCount { count }), total, now) matches Some(
            PruneDirective::ByCount(n),
        ) && total - n == count),
        total <= count ==> prune_spec(Some(PrunePolicy::MaxCount { count }), total, now) is None,
{
}

} // verus!
