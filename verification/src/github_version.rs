//! The slice of release metadata the check needs: the tag and its page.

use vstd::prelude::*;

verus! {

/// Latest-release metadata: the tag that names the version and the page that
/// presents the release.
#[derive(Debug, Clone, PartialEq, Eq)]
pub struct Version {
    pub tag_name: String,
    pub html_url: String,
}

} // verus!
