//! The fixed provider endpoint for latest-release queries.

use vstd::prelude::*;
use vstd::string::StringExecFns;

verus! {

/// The endpoint that reports the latest release of `owner`'s `repo`.
pub fn github_latest_release_url(owner: &str, repo: &str) -> (r: String)
    ensures
        r@ == "https://api.github.com/repos/"@ + owner@ + "/"@ + repo@ + "/releases/latest"@,
{
    let mut url = String::from_str("https://api.github.com/repos/");
    url.append(owner);
    url.append("/");
    url.append(repo);
    url.append("/releases/latest");
    assert(url@ =~= "https://api.github.com/repos/"@ + owner@ + "/"@ + repo@
        + "/releases/latest"@);
    url
}

} // verus!
