//! Extraction of the canonical version token — the first dotted triplet of
//! digit groups — and the equality decision between two such tokens.

use vstd::prelude::*;
use vstd::string::StrSliceExecFns;
use vstd::string::StringExecFns;
use crate::error::GrabError;

verus! {

/// A decimal digit.
pub open spec fn is_digit_char(c: char) -> bool {
    '0' <= c && c <= '9'
}

pub fn is_digit(c: char) -> (r: bool)
    ensures
        r == is_digit_char(c),
{
    '0' <= c && c <= '9'
}

/// End of the run of digits that starts at `i`: the first position at or
/// after `i` holding no digit.
pub open spec fn digit_run_end(s: Seq<char>, i: int) -> int
    decreases s.len() - i,
{
    if 0 <= i < s.len() && is_digit_char(s[i]) {
        digit_run_end(s, i + 1)
    } else {
        i
    }
}

/// Where the dotted triplet starting at `i` ends, if one starts there: a
/// non-empty digit run, a dot, a second run, a dot, and a third run, each
/// run as long as the digits allow.
pub open spec fn triplet_end_at(s: Seq<char>, i: int) -> Option<int> {
    let a = digit_run_end(s, i);
    if a == i || !(a < s.len() && s[a] == '.') {
        None
    } else {
        let b = digit_run_end(s, a + 1);
        if b == a + 1 || !(b < s.len() && s[b] == '.') {
            None
        } else {
            let c = digit_run_end(s, b + 1);
            if c == b + 1 {
                None
            } else {
                Some(c)
            }
        }
    }
}

/// The first position at or after `i` where a dotted triplet starts.
pub open spec fn first_triplet_start(s: Seq<char>, i: int) -> Option<int>
    decreases s.len() - i,
{
    if 0 <= i < s.len() {
        if triplet_end_at(s, i) is Some {
            Some(i)
        } else {
            first_triplet_start(s, i + 1)
        }
    } else {
        None
    }
}

/// The string contains a dotted triplet of digit groups.
pub open spec fn has_triplet(s: Seq<char>) -> bool {
    exists|i: int| #[trigger] triplet_end_at(s, i) is Some
}

/// The first dotted triplet in the string, or nothing when none occurs.
pub open spec fn extract_triplet(s: Seq<char>) -> Option<Seq<char>> {
    match first_triplet_start(s, 0) {
        Some(k) => match triplet_end_at(s, k) {
            Some(e) => Some(s.subrange(k, e)),
            None => None,
        },
        None => None,
    }
}

/// A triplet can start only inside the string.
proof fn lemma_triplet_start_in_range(s: Seq<char>, i: int)
    requires
        triplet_end_at(s, i) is Some,
    ensures
        0 <= i < s.len(),
{
    if !(0 <= i < s.len()) {
        assert(digit_run_end(s, i) == i);
    }
}

/// The scan for the first triplet finds one whenever one exists at or after
/// its starting point.
proof fn lemma_first_triplet_finds(s: Seq<char>, i: int, j: int)
    requires
        0 <= i <= j,
        triplet_end_at(s, j) is Some,
    ensures
        first_triplet_start(s, i) is Some,
    decreases j - i,
{
    lemma_triplet_start_in_range(s, j);
    if i < j && triplet_end_at(s, i) is None {
        lemma_first_triplet_finds(s, i + 1, j);
    }
}

/// A string with a triplet yields a token; one without yields none.
pub proof fn lemma_extract_triplet_some(s: Seq<char>)
    ensures
        extract_triplet(s) is Some <==> has_triplet(s),
{
    if has_triplet(s) {
        let j = choose|j: int| #[trigger] triplet_end_at(s, j) is Some;
        if j >= 0 {
            lemma_first_triplet_finds(s, 0, j);
        } else {
            lemma_triplet_start_in_range(s, j);
        }
        lemma_first_triplet_start_hit(s, 0);
    }
    if extract_triplet(s) is Some {
        lemma_first_triplet_start_hit(s, 0);
    }
}

/// Where the scan reports a start, a triplet does start there.
proof fn lemma_first_triplet_start_hit(s: Seq<char>, i: int)
    requires
        first_triplet_start(s, i) is Some,
    ensures
        triplet_end_at(s, first_triplet_start(s, i).unwrap()) is Some,
        i <= first_triplet_start(s, i).unwrap(),
    decreases s.len() - i,
{
    if 0 <= i < s.len() && triplet_end_at(s, i) is None {
        lemma_first_triplet_start_hit(s, i + 1);
    }
}

fn digit_run_end_exec(s: &str, i: usize, len: usize) -> (r: usize)
    requires
        len == s@.len(),
        i <= len,
    ensures
        r == digit_run_end(s@, i as int),
        i <= r <= len,
    decreases len - i,
{
    if i < len && is_digit(s.get_char(i)) {
        digit_run_end_exec(s, i + 1, len)
    } else {
        i
    }
}

fn triplet_end_at_exec(s: &str, i: usize, len: usize) -> (r: Option<usize>)
    requires
        len == s@.len(),
        i <= len,
    ensures
        match r {
            Some(e) => triplet_end_at(s@, i as int) == Some(e as int) && i < e <= len,
            None => triplet_end_at(s@, i as int) is None,
        },
{
    let a = digit_run_end_exec(s, i, len);
    if a == i || !(a < len && s.get_char(a) == '.') {
        return None;
    }
    let b = digit_run_end_exec(s, a + 1, len);
    if b == a + 1 || !(b < len && s.get_char(b) == '.') {
        return None;
    }
    let c = digit_run_end_exec(s, b + 1, len);
    if c == b + 1 {
        return None;
    }
    Some(c)
}

/// The first dotted triplet in the string, or nothing when none occurs.
pub fn find_triplet(s: &str) -> (r: Option<String>)
    ensures
        match r {
            Some(t) => extract_triplet(s@) == Some(t@),
            None => extract_triplet(s@) is None,
        },
{
    let len = s.unicode_len();
    let mut i: usize = 0;
    while i < len
        invariant
            i <= len,
            len == s@.len(),
            first_triplet_start(s@, 0) == first_triplet_start(s@, i as int),
        decreases len - i,
    {
        match triplet_end_at_exec(s, i, len) {
            Some(e) => {
                let sub = s.substring_char(i, e);
                return Some(sub.to_owned());
            },
            None => {
                i = i + 1;
            },
        }
    }
    None
}

/// The result of holding a remote release tag against a local version text.
#[derive(Debug, Clone, Copy, PartialEq, Eq)]
pub struct Compare {
    pub is_latest: bool,
}

/// Both inputs carry a version token, so the comparison is defined.
pub open spec fn compare_defined(release: Seq<char>, version: Seq<char>) -> bool {
    extract_triplet(release) is Some && extract_triplet(version) is Some
}

/// The two version tokens are equal, character for character.
pub open spec fn compare_is_latest(release: Seq<char>, version: Seq<char>) -> bool {
    compare_defined(release, version) && extract_triplet(release) == extract_triplet(version)
}

/// The failure [`Compare::new`] reports when an input has no version token:
/// the release tag is blamed first.
pub open spec fn compare_err(release: Seq<char>, version: Seq<char>, e: GrabError) -> bool {
    &&& !compare_defined(release, version)
    &&& e matches GrabError::InvalidRegexInput(m) && m@ == (if extract_triplet(release) is None {
        "Invalid release version"@
    } else {
        "Invalid current version"@
    })
}

impl Compare {
    /// Extracts the version token of each input and reports whether the two
    /// are byte-for-byte equal; an input with no token is rejected.
    pub fn new(release: &str, version: &str) -> (r: core::result::Result<Compare, GrabError>)
        ensures
            match r {
                Ok(c) => compare_defined(release@, version@) && c.is_latest == compare_is_latest(
                    release@,
                    version@,
                ),
                Err(e) => compare_err(release@, version@, e),
            },
    {
        let release_match = match find_triplet(release) {
            Some(t) => t,
            None => {
                return Err(
                    GrabError::InvalidRegexInput(String::from_str("Invalid release version")),
                );
            },
        };
        let version_match = match find_triplet(version) {
            Some(t) => t,
            None => {
                return Err(
                    GrabError::InvalidRegexInput(String::from_str("Invalid current version")),
                );
            },
        };
        let is_latest = release_match == version_match;
        Ok(Compare { is_latest })
    }
}

/// Law: a string that contains a dotted triplet compares as latest against
/// itself.
pub proof fn lemma_compare_reflexive(s: Seq<char>)
    requires
        has_triplet(s),
    ensures
        compare_defined(s, s),
        compare_is_latest(s, s),
{
    lemma_extract_triplet_some(s);
}

} // verus!
