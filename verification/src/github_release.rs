//! Release assets and the selection of the one matching the configured
//! pattern.

use vstd::prelude::*;
use vstd::string::StringExecFns;
use crate::error::GrabError;
use crate::text::contains_seq;
use crate::text::contains_sub;

verus! {

/// One downloadable file attached to a release.
#[derive(Debug, Clone, PartialEq, Eq)]
pub struct Asset {
    pub name: String,
    pub browser_download_url: String,
}

/// A release, reduced to its ordered list of downloadable assets.
#[derive(Debug, Clone, PartialEq, Eq)]
pub struct Release {
    pub assets: Vec<Asset>,
}

/// Index of the first asset, at or after `i`, whose name contains the
/// pattern.
pub open spec fn first_match_idx(assets: Seq<Asset>, pattern: Seq<char>, i: int) -> Option<int>
    decreases assets.len() - i,
{
    if 0 <= i < assets.len() {
        if contains_seq(assets[i].name@, pattern) {
            Some(i)
        } else {
            first_match_idx(assets, pattern, i + 1)
        }
    } else {
        None
    }
}

/// The asset the selection policy picks: the first one, in provider order,
/// whose name contains the pattern as a case-sensitive substring.
pub open spec fn selected_asset(assets: Seq<Asset>, pattern: Seq<char>) -> Option<Asset> {
    match first_match_idx(assets, pattern, 0) {
        Some(i) => Some(assets[i]),
        None => None,
    }
}

/// Picks the first asset whose name contains `pattern`; when none matches,
/// fails naming the pattern.
pub fn select_asset(assets: &Vec<Asset>, pattern: &str) -> (r: core::result::Result<
    Asset,
    GrabError,
>)
    ensures
        match r {
            Ok(a) => selected_asset(assets@, pattern@) == Some(a),
            Err(e) => selected_asset(assets@, pattern@) is None && (e
                matches GrabError::AssetNotFound(m) && m@ == pattern@),
        },
{
    let n = assets.len();
    let mut i: usize = 0;
    while i < n
        invariant
            i <= n,
            n == assets@.len(),
            first_match_idx(assets@, pattern@, 0) == first_match_idx(assets@, pattern@, i as int),
        decreases n - i,
    {
        let a = &assets[i];
        if contains_sub(a.name.as_str(), pattern) {
            let picked = Asset {
                name: a.name.clone(),
                browser_download_url: a.browser_download_url.clone(),
            };
            assert(picked == assets@[i as int]);
            return Ok(picked);
        }
        i = i + 1;
    }
    Err(GrabError::AssetNotFound(String::from_str(pattern)))
}

} // verus!
