//! The tracked-app record and its validation.

use vstd::prelude::*;
use vstd::string::StringExecFns;
use crate::error::GrabError;
use crate::text::trim_spec;

verus! {

/// One tracked app: its local command name, the repository that publishes it,
/// the substring that picks the right release asset, and the flag that makes
/// the local command print its version.
#[derive(Debug, Clone, PartialEq, Eq)]
pub struct App {
    pub name: String,
    pub owner: String,
    pub repo: String,
    pub asset_pattern: String,
    pub version_flag: String,
}

/// The field contents of an [`App`], for specifications.
pub ghost struct AppFields {
    pub name: Seq<char>,
    pub owner: Seq<char>,
    pub repo: Seq<char>,
    pub asset_pattern: Seq<char>,
    pub version_flag: Seq<char>,
}

impl App {
    /// The field contents of this app.
    pub open spec fn fields(&self) -> AppFields {
        AppFields {
            name: self.name@,
            owner: self.owner@,
            repo: self.repo@,
            asset_pattern: self.asset_pattern@,
            version_flag: self.version_flag@,
        }
    }

    /// A valid app has every field non-empty and free of surrounding
    /// white space.
    pub open spec fn wf(&self) -> bool {
        &&& trim_spec(self.name@) == self.name@ && self.name@.len() > 0
        &&& trim_spec(self.owner@) == self.owner@ && self.owner@.len() > 0
        &&& trim_spec(self.repo@) == self.repo@ && self.repo@.len() > 0
        &&& trim_spec(self.asset_pattern@) == self.asset_pattern@ && self.asset_pattern@.len() > 0
        &&& trim_spec(self.version_flag@) == self.version_flag@ && self.version_flag@.len() > 0
    }

    /// Builds an app from raw field values: each is trimmed, and a field that
    /// is blank (empty once trimmed) is rejected. Fields are checked in
    /// declaration order, so the error names the first blank one.
    pub fn new(
        name: String,
        owner: String,
        repo: String,
        asset_pattern: String,
        version_flag: String,
    ) -> (r: core::result::Result<App, GrabError>)
        ensures
            app_new_rel(name@, owner@, repo@, asset_pattern@, version_flag@, r),
            r matches Ok(a) ==> a.wf(),
    {
        let ghost n0 = name@;
        let ghost o0 = owner@;
        let ghost r0 = repo@;
        let ghost p0 = asset_pattern@;
        let ghost f0 = version_flag@;
        let name = match Self::validate_non_empty(name, "Name") {
            Ok(v) => v,
            Err(e) => { return Err(e); },
        };
        let owner = match Self::validate_non_empty(owner, "Owner") {
            Ok(v) => v,
            Err(e) => { return Err(e); },
        };
        let repo = match Self::validate_non_empty(repo, "Repo") {
            Ok(v) => v,
            Err(e) => { return Err(e); },
        };
        let asset_pattern = match Self::validate_non_empty(asset_pattern, "Asset pattern") {
            Ok(v) => v,
            Err(e) => { return Err(e); },
        };
        let version_flag = match Self::validate_non_empty(version_flag, "Version flag") {
            Ok(v) => v,
            Err(e) => { return Err(e); },
        };
        proof {
            lemma_trim_idempotent(n0);
            lemma_trim_idempotent(o0);
            lemma_trim_idempotent(r0);
            lemma_trim_idempotent(p0);
            lemma_trim_idempotent(f0);
        }
        Ok(App { name, owner, repo, asset_pattern, version_flag })
    }

    /// Trims the field and rejects it when nothing but white space is left;
    /// the error message starts with `field_name`.
    pub fn validate_non_empty(field: String, field_name: &str) -> (r: core::result::Result<
        String,
        GrabError,
    >)
        ensures
            match r {
                Ok(s) => trim_spec(field@).len() > 0 && s@ == trim_spec(field@),
                Err(e) => trim_spec(field@).len() == 0 && (e matches GrabError::InvalidInput(m)
                    && m@ == field_name@ + " cannot be empty"@),
            },
    {
        let trimmed = crate::text::trim(field.as_str());
        if trimmed.as_str().unicode_len() == 0 {
            assert(trim_spec(field@).len() == 0);
            let msg = String::from_str(field_name).concat(" cannot be empty");
            Err(GrabError::InvalidInput(msg))
        } else {
            Ok(trimmed)
        }
    }
}

/// What [`App::new`] returns: the trimmed fields on success, and the error
/// that names the first blank field otherwise.
pub open spec fn app_new_rel(
    name: Seq<char>,
    owner: Seq<char>,
    repo: Seq<char>,
    asset_pattern: Seq<char>,
    version_flag: Seq<char>,
    r: core::result::Result<App, GrabError>,
) -> bool {
    if trim_spec(name).len() == 0 {
        r matches Err(e) && blank_field_err(e, "Name"@)
    } else if trim_spec(owner).len() == 0 {
        r matches Err(e) && blank_field_err(e, "Owner"@)
    } else if trim_spec(repo).len() == 0 {
        r matches Err(e) && blank_field_err(e, "Repo"@)
    } else if trim_spec(asset_pattern).len() == 0 {
        r matches Err(e) && blank_field_err(e, "Asset pattern"@)
    } else if trim_spec(version_flag).len() == 0 {
        r matches Err(e) && blank_field_err(e, "Version flag"@)
    } else {
        r matches Ok(a) && a.fields() == (AppFields {
            name: trim_spec(name),
            owner: trim_spec(owner),
            repo: trim_spec(repo),
            asset_pattern: trim_spec(asset_pattern),
            version_flag: trim_spec(version_flag),
        })
    }
}

/// The rejection of a blank field: invalid input, named after the field.
pub open spec fn blank_field_err(e: GrabError, field_name: Seq<char>) -> bool {
    e matches GrabError::InvalidInput(m) && m@ == field_name + " cannot be empty"@
}

/// Trimming leaves nothing more to trim.
pub proof fn lemma_trim_idempotent(s: Seq<char>)
    ensures
        trim_spec(trim_spec(s)) == trim_spec(s),
{
    crate::text::lemma_skip_ws_bounds(s, 0);
    crate::text::lemma_trim_end_bounds(s, s.len() as int);
    let a = crate::text::trim_start_idx(s, 0);
    let b = crate::text::trim_end_idx(s, s.len() as int);
    let t = trim_spec(s);
    if a < b {
        assert(t == s.subrange(a, b));
        assert(!crate::text::is_ws_char(t[0]));
        assert(!crate::text::is_ws_char(t[t.len() - 1]));
        assert(crate::text::trim_start_idx(t, 0) == 0);
        assert(crate::text::trim_end_idx(t, t.len() as int) == t.len() as int);
        assert(trim_spec(t) =~= t);
    } else {
        assert(t =~= Seq::<char>::empty());
        assert(trim_spec(t) =~= t);
    }
}

} // verus!
