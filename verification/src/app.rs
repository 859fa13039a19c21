//! Registry bookkeeping and the decision logic of the check/download
//! pipeline.
//!
//! The caller runs one concurrent unit of work per app. Inside a unit it
//! probes the local version, queries the latest release and, when an update
//! is due, fetches the matching asset; those effects are outside work, so a
//! unit hands their results in as [`CheckEvents`] / [`DownloadEvents`] and
//! this module decides, per app and independently of every other app, which
//! [`UpdateOutcome`] the unit reports. One app's failure never touches a
//! sibling's outcome: the batch functions relate every outcome to its own
//! app's events alone.

use vstd::prelude::*;
use vstd::string::StringExecFns;
use crate::compare_release_version::compare_defined;
use crate::compare_release_version::compare_err;
use crate::compare_release_version::compare_is_latest;
use crate::compare_release_version::Compare;
use crate::error::GrabError;
use crate::github_release::select_asset;
use crate::github_release::selected_asset;
use crate::github_release::Asset;
use crate::github_release::Release;
use crate::github_version::Version;
use crate::models::App;
use crate::text::contains_seq;
use crate::text::contains_sub;
use crate::text::lower_of;
use crate::text::lowercase;
use crate::text::trim;
use crate::text::trim_spec;

verus! {

/// What one app's unit of work reports at the end of a run.
#[derive(Debug, Clone, PartialEq, Eq)]
pub enum UpdateOutcome {
    /// The local version token equals the latest release's.
    UpToDate,
    /// An update was due; this asset was selected (and, when the run
    /// downloads, fetched).
    Updated(Asset),
    /// This app's unit failed; siblings are unaffected.
    Failed(GrabError),
}

/// The outside results one app's check unit gathered: the local version
/// probe, the latest-release query, and — consulted only when an update is
/// due — the release's asset list and the download attempt.
pub struct CheckEvents {
    pub probe: core::result::Result<String, GrabError>,
    pub version: core::result::Result<Version, GrabError>,
    pub release: core::result::Result<Release, GrabError>,
    pub download: core::result::Result<(), GrabError>,
}

/// The outside results one app's unconditional-download unit gathered.
pub struct DownloadEvents {
    pub release: core::result::Result<Release, GrabError>,
    pub download: core::result::Result<(), GrabError>,
}

/// What the download tail of a unit reports: the release fetch failure, the
/// missing asset, the download failure, or the selected asset.
pub open spec fn download_outcome_rel(
    pattern: Seq<char>,
    release: core::result::Result<Release, GrabError>,
    download: core::result::Result<(), GrabError>,
    with_download: bool,
    r: UpdateOutcome,
) -> bool {
    match release {
        Err(e) => r == UpdateOutcome::Failed(e),
        Ok(rel) => match selected_asset(rel.assets@, pattern) {
            None => r matches UpdateOutcome::Failed(e) && (e matches GrabError::AssetNotFound(m)
                && m@ == pattern),
            Some(a) => if with_download {
                match download {
                    Ok(u) => r == UpdateOutcome::Updated(a),
                    Err(e) => r == UpdateOutcome::Failed(e),
                }
            } else {
                r == UpdateOutcome::Updated(a)
            },
        },
    }
}

/// What one check unit reports, given its app's events: any failure among
/// probe, release query and comparison fails this unit alone; an equal
/// version token reports up to date; otherwise the download tail decides.
pub open spec fn check_outcome_rel(
    pattern: Seq<char>,
    ev: CheckEvents,
    download_on_update: bool,
    r: UpdateOutcome,
) -> bool {
    match ev.probe {
        Err(e) => r == UpdateOutcome::Failed(e),
        Ok(raw) => match ev.version {
            Err(e) => r == UpdateOutcome::Failed(e),
            Ok(ver) => {
                let local = trim_spec(raw@);
                let tag = ver.tag_name@;
                if !compare_defined(tag, local) {
                    r matches UpdateOutcome::Failed(e) && compare_err(tag, local, e)
                } else if compare_is_latest(tag, local) {
                    r == UpdateOutcome::UpToDate
                } else {
                    download_outcome_rel(pattern, ev.release, ev.download, download_on_update, r)
                }
            },
        },
    }
}

/// Decides the download tail of a unit: selects the asset and, when the run
/// downloads, folds the download attempt in.
pub fn download_outcome(
    pattern: &str,
    release: core::result::Result<Release, GrabError>,
    download: core::result::Result<(), GrabError>,
    with_download: bool,
) -> (r: UpdateOutcome)
    ensures
        download_outcome_rel(pattern@, release, download, with_download, r),
{
    let rel = match release {
        Ok(rel) => rel,
        Err(e) => { return UpdateOutcome::Failed(e); },
    };
    let asset = match select_asset(&rel.assets, pattern) {
        Ok(a) => a,
        Err(e) => { return UpdateOutcome::Failed(e); },
    };
    if with_download {
        match download {
            Ok(_) => UpdateOutcome::Updated(asset),
            Err(e) => UpdateOutcome::Failed(e),
        }
    } else {
        UpdateOutcome::Updated(asset)
    }
}

/// Decides one check unit's outcome from its app's events.
pub fn check_outcome(pattern: &str, ev: CheckEvents, download_on_update: bool) -> (r:
    UpdateOutcome)
    ensures
        check_outcome_rel(pattern@, ev, download_on_update, r),
{
    let raw = match ev.probe {
        Ok(raw) => raw,
        Err(e) => { return UpdateOutcome::Failed(e); },
    };
    let ver = match ev.version {
        Ok(ver) => ver,
        Err(e) => { return UpdateOutcome::Failed(e); },
    };
    let local = trim(raw.as_str());
    let cmp = match Compare::new(ver.tag_name.as_str(), local.as_str()) {
        Ok(c) => c,
        Err(e) => { return UpdateOutcome::Failed(e); },
    };
    if cmp.is_latest {
        UpdateOutcome::UpToDate
    } else {
        download_outcome(pattern, ev.release, ev.download, download_on_update)
    }
}

/// Runs the decision step of a whole check batch: one outcome per app, each
/// related to its own app's events alone, so no unit's failure can abort or
/// distort a sibling's outcome.
pub fn run_check(apps: &Vec<App>, events: Vec<CheckEvents>, download_on_update: bool) -> (r: Vec<
    UpdateOutcome,
>)
    requires
        apps@.len() == events@.len(),
    ensures
        r@.len() == apps@.len(),
        forall|i: int|
            0 <= i < r@.len() ==> check_outcome_rel(
                apps@[i].asset_pattern@,
                #[trigger] events@[i],
                download_on_update,
                r@[i],
            ),
{
    let ghost orig = events@;
    let mut events = events;
    let mut outcomes: Vec<UpdateOutcome> = Vec::new();
    let n = apps.len();
    let mut k: usize = 0;
    while k < n
        invariant
            k <= n,
            n == apps@.len(),
            events@ =~= orig.skip(k as int),
            orig.len() == n,
            outcomes@.len() == k,
            forall|i: int|
                0 <= i < k ==> check_outcome_rel(
                    apps@[i].asset_pattern@,
                    #[trigger] orig[i],
                    download_on_update,
                    outcomes@[i],
                ),
        decreases n - k,
    {
        let ev = events.remove(0);
        assert(ev == orig[k as int]);
        let outcome = check_outcome(apps[k].asset_pattern.as_str(), ev, download_on_update);
        outcomes.push(outcome);
        k = k + 1;
    }
    outcomes
}

/// Runs the decision step of a whole unconditional-download batch: one
/// outcome per app, each related to its own app's events alone.
pub fn run_download(apps: &Vec<App>, events: Vec<DownloadEvents>) -> (r: Vec<UpdateOutcome>)
    requires
        apps@.len() == events@.len(),
    ensures
        r@.len() == apps@.len(),
        forall|i: int|
            0 <= i < r@.len() ==> download_outcome_rel(
                apps@[i].asset_pattern@,
                (#[trigger] events@[i]).release,
                events@[i].download,
                true,
                r@[i],
            ),
{
    let ghost orig = events@;
    let mut events = events;
    let mut outcomes: Vec<UpdateOutcome> = Vec::new();
    let n = apps.len();
    let mut k: usize = 0;
    while k < n
        invariant
            k <= n,
            n == apps@.len(),
            events@ =~= orig.skip(k as int),
            orig.len() == n,
            outcomes@.len() == k,
            forall|i: int|
                0 <= i < k ==> download_outcome_rel(
                    apps@[i].asset_pattern@,
                    (#[trigger] orig[i]).release,
                    orig[i].download,
                    true,
                    outcomes@[i],
                ),
        decreases n - k,
    {
        let ev = events.remove(0);
        assert(ev == orig[k as int]);
        let outcome = download_outcome(apps[k].asset_pattern.as_str(), ev.release, ev.download, true);
        outcomes.push(outcome);
        k = k + 1;
    }
    outcomes
}

/// Appends an app to the registry; the only other mutation path is
/// [`remove_app`].
pub fn add_app(apps: &mut Vec<App>, app: App)
    ensures
        final(apps)@ == old(apps)@.push(app),
{
    apps.push(app);
}

/// Removes the app at the given one-based index. Index zero and indices past
/// the end are rejected and leave the registry unchanged.
pub fn remove_app(apps: &mut Vec<App>, index: usize) -> (r: core::result::Result<(), GrabError>)
    ensures
        match r {
            Ok(u) => 1 <= index <= old(apps)@.len() && final(apps)@ == old(apps)@.remove(
                index - 1,
            ),
            Err(e) => final(apps)@ == old(apps)@ && if index == 0 {
                e matches GrabError::InvalidInput(m) && m@ == "Index must be greater than 0"@
            } else {
                index > old(apps)@.len() && (e matches GrabError::NotFound(m) && m@
                    == "No app found at index "@ + crate::text::dec_rep(index as nat))
            },
        },
{
    if index == 0 {
        return Err(GrabError::InvalidInput(String::from_str("Index must be greater than 0")));
    }
    if index > apps.len() {
        let mut msg = String::from_str("No app found at index ");
        let rendered = crate::text::usize_to_string(index);
        msg.append(rendered.as_str());
        return Err(GrabError::NotFound(msg));
    }
    apps.remove(index - 1);
    Ok(())
}

/// The app matches the query when its lowercased name, owner or repo
/// contains the lowercased query.
pub open spec fn app_matches(app: App, query_lower: Seq<char>) -> bool {
    ||| contains_seq(lower_of(app.name@), query_lower)
    ||| contains_seq(lower_of(app.owner@), query_lower)
    ||| contains_seq(lower_of(app.repo@), query_lower)
}

/// The matching apps at or after `i`, each paired with its one-based
/// registry index, in registry order.
pub open spec fn search_results(apps: Seq<App>, query_lower: Seq<char>, i: int) -> Seq<
    (usize, App),
>
    decreases apps.len() - i,
{
    if 0 <= i < apps.len() {
        let rest = search_results(apps, query_lower, i + 1);
        if app_matches(apps[i], query_lower) {
            seq![((i + 1) as usize, apps[i])] + rest
        } else {
            rest
        }
    } else {
        Seq::empty()
    }
}

fn app_matches_exec(app: &App, query_lower: &str) -> (r: bool)
    ensures
        r == app_matches(*app, query_lower@),
{
    let name_l = lowercase(app.name.as_str());
    if contains_sub(name_l.as_str(), query_lower) {
        return true;
    }
    let owner_l = lowercase(app.owner.as_str());
    if contains_sub(owner_l.as_str(), query_lower) {
        return true;
    }
    let repo_l = lowercase(app.repo.as_str());
    contains_sub(repo_l.as_str(), query_lower)
}

/// Case-insensitive search over name, owner and repo: the hits in registry
/// order, each with its one-based index.
pub fn search_apps(apps: Vec<App>, query: &str) -> (r: Vec<(usize, App)>)
    ensures
        r@ == search_results(apps@, lower_of(query@), 0),
{
    let query_lower = lowercase(query);
    let n = apps.len();
    let mut results: Vec<(usize, App)> = Vec::new();
    let ghost all = apps@;
    let mut apps = apps;
    let mut i: usize = 0;
    while i < n
        invariant
            i <= n,
            n == all.len(),
            apps@ =~= all.skip(i as int),
            query_lower@ == lower_of(query@),
            results@ + search_results(all, lower_of(query@), i as int) =~= search_results(
                all,
                lower_of(query@),
                0,
            ),
        decreases n - i,
    {
        let app = apps.remove(0);
        assert(app == all[i as int]);
        let matched = app_matches_exec(&app, query_lower.as_str());
        if matched {
            results.push((i + 1, app));
        }
        i = i + 1;
    }
    results
}

/// The whole registry with one-based indices, cut to `limit` entries when
/// one is given.
pub fn list_apps(apps: Vec<App>, limit: Option<usize>) -> (r: Vec<(usize, App)>)
    ensures
        r@.len() == (match limit {
            Some(l) => if l < apps@.len() {
                l as int
            } else {
                apps@.len() as int
            },
            None => apps@.len() as int,
        }),
        forall|i: int| 0 <= i < r@.len() ==> r@[i] == ((i + 1) as usize, apps@[i]),
{
    let n = apps.len();
    let ghost all = apps@;
    let mut apps = apps;
    let mut results: Vec<(usize, App)> = Vec::new();
    let mut i: usize = 0;
    while i < n
        invariant
            i <= n,
            n == all.len(),
            apps@ =~= all.skip(i as int),
            results@.len() == i,
            forall|k: int| 0 <= k < i ==> results@[k] == ((k + 1) as usize, all[k]),
        decreases n - i,
    {
        let app = apps.remove(0);
        assert(app == all[i as int]);
        results.push((i + 1, app));
        i = i + 1;
    }
    if let Some(lim) = limit {
        results.truncate(lim);
    }
    results
}

} // verus!
