//! The registry file format: a JSON array of app objects, each object the
//! five fields in declaration order. The writer emits the compact form; the
//! reader also tolerates white space between tokens, escaped characters in
//! field values, and proves that whatever the writer emitted decodes back to
//! the same apps.

use vstd::prelude::*;
use vstd::string::StrSliceExecFns;
use vstd::string::StringExecFns;
use crate::error::GrabError;
use crate::models::App;
use crate::models::AppFields;
use crate::text::is_ws_char;
use crate::text::push_char;
use crate::text::skip_ws;
use crate::text::skip_ws_exec;
use crate::text::str_eq;

verus! {

// ---------------------------------------------------------------------------
// Encoding
// ---------------------------------------------------------------------------
/// How one character is written inside a JSON string: quote and backslash
/// get a backslash escape, everything else stands as itself.
pub open spec fn esc_char(c: char) -> Seq<char> {
    if c == '"' || c == '\\' {
        seq!['\\', c]
    } else {
        seq![c]
    }
}

/// How a field value is written inside its quotes.
pub open spec fn esc(s: Seq<char>) -> Seq<char>
    decreases s.len(),
{
    if s.len() == 0 {
        Seq::empty()
    } else {
        esc_char(s[0]) + esc(s.skip(1))
    }
}

/// One `"key":"value"` member.
pub open spec fn field_enc(key: Seq<char>, val: Seq<char>) -> Seq<char> {
    seq!['"'] + key + seq!['"', ':', '"'] + esc(val) + seq!['"']
}

/// One app object, the five fields in declaration order.
pub open spec fn app_enc(f: AppFields) -> Seq<char> {
    seq!['{'] + field_enc("name"@, f.name) + seq![','] + field_enc("owner"@, f.owner) + seq![',']
        + field_enc("repo"@, f.repo) + seq![','] + field_enc("asset_pattern"@, f.asset_pattern)
        + seq![','] + field_enc("version_flag"@, f.version_flag) + seq!['}']
}

/// The second and later array elements, each after a comma.
pub open spec fn apps_enc_rest(rest: Seq<AppFields>) -> Seq<char>
    decreases rest.len(),
{
    if rest.len() == 0 {
        Seq::empty()
    } else {
        seq![','] + app_enc(rest[0]) + apps_enc_rest(rest.skip(1))
    }
}

/// The whole registry text.
pub open spec fn apps_enc(apps: Seq<AppFields>) -> Seq<char> {
    if apps.len() == 0 {
        seq!['[', ']']
    } else {
        seq!['['] + app_enc(apps[0]) + apps_enc_rest(apps.skip(1)) + seq![']']
    }
}

/// The field contents of each app in the sequence.
pub open spec fn fields_seq(apps: Seq<App>) -> Seq<AppFields> {
    Seq::new(apps.len(), |i: int| apps[i].fields())
}

fn esc_exec(s: &str, i: usize, len: usize) -> (r: String)
    requires
        len == s@.len(),
        i <= len,
    ensures
        r@ == esc(s@.skip(i as int)),
    decreases len - i,
{
    if i >= len {
        assert(s@.skip(i as int) =~= Seq::<char>::empty());
        String::new()
    } else {
        let c = s.get_char(i);
        let mut out = String::new();
        if c == '"' || c == '\\' {
            push_char(&mut out, '\\');
        }
        push_char(&mut out, c);
        let tail = esc_exec(s, i + 1, len);
        let out = out.concat(tail.as_str());
        proof {
            let t = s@.skip(i as int);
            assert(t[0] == s@[i as int]);
            assert(t.skip(1) =~= s@.skip(i as int + 1));
            assert(out@ =~= esc_char(t[0]) + esc(t.skip(1)));
        }
        out
    }
}

fn field_enc_exec(key: &str, val: &str) -> (r: String)
    ensures
        r@ == field_enc(key@, val@),
{
    let mut out = String::from_str("\"");
    out.append(key);
    out.append("\":\"");
    let escaped = esc_exec(val, 0, val.unicode_len());
    out.append(escaped.as_str());
    out.append("\"");
    proof {
        reveal_strlit("\"");
        reveal_strlit("\":\"");
        assert(val@.skip(0) =~= val@);
        assert(out@ =~= field_enc(key@, val@));
    }
    out
}

fn app_enc_exec(a: &App) -> (r: String)
    ensures
        r@ == app_enc(a.fields()),
{
    let mut out = String::from_str("{");
    let f = field_enc_exec("name", a.name.as_str());
    out.append(f.as_str());
    out.append(",");
    let f = field_enc_exec("owner", a.owner.as_str());
    out.append(f.as_str());
    out.append(",");
    let f = field_enc_exec("repo", a.repo.as_str());
    out.append(f.as_str());
    out.append(",");
    let f = field_enc_exec("asset_pattern", a.asset_pattern.as_str());
    out.append(f.as_str());
    out.append(",");
    let f = field_enc_exec("version_flag", a.version_flag.as_str());
    out.append(f.as_str());
    out.append("}");
    proof {
        reveal_strlit("{");
        reveal_strlit(",");
        reveal_strlit("}");
        assert(out@ =~= app_enc(a.fields()));
    }
    out
}

fn apps_enc_rest_exec(apps: &Vec<App>, i: usize) -> (r: String)
    requires
        i <= apps@.len(),
    ensures
        r@ == apps_enc_rest(fields_seq(apps@).skip(i as int)),
    decreases apps@.len() - i,
{
    if i >= apps.len() {
        assert(fields_seq(apps@).skip(i as int) =~= Seq::<AppFields>::empty());
        String::new()
    } else {
        let mut out = String::from_str(",");
        let obj = app_enc_exec(&apps[i]);
        out.append(obj.as_str());
        let tail = apps_enc_rest_exec(apps, i + 1);
        out.append(tail.as_str());
        proof {
            reveal_strlit(",");
            let t = fields_seq(apps@).skip(i as int);
            assert(t[0] == apps@[i as int].fields());
            assert(t.skip(1) =~= fields_seq(apps@).skip(i as int + 1));
            assert(out@ =~= seq![','] + app_enc(t[0]) + apps_enc_rest(t.skip(1)));
        }
        out
    }
}

/// Renders the registry in its file format. The caller persists the text;
/// [`load_apps`] inverts it, as [`lemma_save_load_roundtrip`] states.
pub fn save_apps(apps: &Vec<App>) -> (r: String)
    ensures
        r@ == apps_enc(fields_seq(apps@)),
{
    if apps.len() == 0 {
        let out = String::from_str("[]");
        proof {
            reveal_strlit("[]");
            assert(out@ =~= seq!['[', ']']);
        }
        out
    } else {
        let mut out = String::from_str("[");
        let obj = app_enc_exec(&apps[0]);
        out.append(obj.as_str());
        let tail = apps_enc_rest_exec(apps, 1);
        out.append(tail.as_str());
        out.append("]");
        proof {
            reveal_strlit("[");
            reveal_strlit("]");
            let fs = fields_seq(apps@);
            assert(fs[0] == apps@[0].fields());
            assert(out@ =~= seq!['['] + app_enc(fs[0]) + apps_enc_rest(fs.skip(1)) + seq![']']);
        }
        out
    }
}

// ---------------------------------------------------------------------------
// Decoding
// ---------------------------------------------------------------------------
/// The escapes the reader understands; the writer only ever emits the first
/// two.
pub open spec fn unesc_char(c: char) -> Option<char> {
    if c == '"' {
        Some('"')
    } else if c == '\\' {
        Some('\\')
    } else if c == '/' {
        Some('/')
    } else if c == 'n' {
        Some('\n')
    } else if c == 't' {
        Some('\t')
    } else if c == 'r' {
        Some('\r')
    } else {
        None
    }
}

/// Reads a string body from just after its opening quote up to and over its
/// closing quote: the decoded value and the position after the quote.
pub open spec fn parse_str_body(s: Seq<char>, i: int) -> Option<(Seq<char>, int)>
    decreases s.len() - i,
{
    if !(0 <= i < s.len()) {
        None
    } else if s[i] == '"' {
        Some((Seq::empty(), i + 1))
    } else if s[i] == '\\' {
        if i + 1 < s.len() {
            match unesc_char(s[i + 1]) {
                Some(c) => match parse_str_body(s, i + 2) {
                    Some(tj) => Some((seq![c] + tj.0, tj.1)),
                    None => None,
                },
                None => None,
            }
        } else {
            None
        }
    } else {
        match parse_str_body(s, i + 1) {
            Some(tj) => Some((seq![s[i]] + tj.0, tj.1)),
            None => None,
        }
    }
}

/// Reads the exact text `lit` at `i`: the position after it.
pub open spec fn parse_lit(s: Seq<char>, i: int, lit: Seq<char>) -> Option<int> {
    if 0 <= i && i + lit.len() <= s.len() && s.subrange(i, i + lit.len()) == lit {
        Some(i + lit.len())
    } else {
        None
    }
}

/// Reads one `"key":"value"` member whose key is exactly `key`.
pub open spec fn parse_field(s: Seq<char>, i: int, key: Seq<char>) -> Option<(Seq<char>, int)> {
    match parse_lit(s, i, seq!['"'] + key + seq!['"']) {
        Some(j) => {
            let j2 = skip_ws(s, j);
            if 0 <= j2 < s.len() && s[j2] == ':' {
                let j3 = skip_ws(s, j2 + 1);
                if 0 <= j3 < s.len() && s[j3] == '"' {
                    parse_str_body(s, j3 + 1)
                } else {
                    None
                }
            } else {
                None
            }
        },
        None => None,
    }
}

/// Reads a comma and then one member.
pub open spec fn parse_sep_field(s: Seq<char>, i: int, key: Seq<char>) -> Option<
    (Seq<char>, int),
> {
    let j = skip_ws(s, i);
    if 0 <= j < s.len() && s[j] == ',' {
        parse_field(s, skip_ws(s, j + 1), key)
    } else {
        None
    }
}

/// Reads one app object: the five members, in declaration order.
pub open spec fn parse_app_obj(s: Seq<char>, i: int) -> Option<(AppFields, int)> {
    if 0 <= i < s.len() && s[i] == '{' {
        match parse_field(s, skip_ws(s, i + 1), "name"@) {
            Some(nj) => match parse_sep_field(s, nj.1, "owner"@) {
                Some(oj) => match parse_sep_field(s, oj.1, "repo"@) {
                    Some(rj) => match parse_sep_field(s, rj.1, "asset_pattern"@) {
                        Some(pj) => match parse_sep_field(s, pj.1, "version_flag"@) {
                            Some(fj) => {
                                let j = skip_ws(s, fj.1);
                                if 0 <= j < s.len() && s[j] == '}' {
                                    Some(
                                        (
                                            AppFields {
                                                name: nj.0,
                                                owner: oj.0,
                                                repo: rj.0,
                                                asset_pattern: pj.0,
                                                version_flag: fj.0,
                                            },
                                            j + 1,
                                        ),
                                    )
                                } else {
                                    None
                                }
                            },
                            None => None,
                        },
                        None => None,
                    },
                    None => None,
                },
                None => None,
            },
            None => None,
        }
    } else {
        None
    }
}

/// Reads the elements after the first one, up to and over the closing
/// bracket.
pub open spec fn parse_apps_rest(s: Seq<char>, i: int) -> Option<(Seq<AppFields>, int)>
    decreases s.len() - i,
{
    if !(0 <= i <= s.len()) {
        None
    } else {
        let j = skip_ws(s, i);
        if 0 <= j < s.len() && s[j] == ']' {
            Some((Seq::empty(), j + 1))
        } else if 0 <= j < s.len() && s[j] == ',' {
            match parse_app_obj(s, skip_ws(s, j + 1)) {
                Some(ak) => {
                    if ak.1 <= i || ak.1 > s.len() {
                        None
                    } else {
                        match parse_apps_rest(s, ak.1) {
                            Some(rm) => Some((seq![ak.0] + rm.0, rm.1)),
                            None => None,
                        }
                    }
                },
                None => None,
            }
        } else {
            None
        }
    }
}

/// Reads a whole registry text: the array, with nothing but white space
/// after it.
pub open spec fn parse_apps(s: Seq<char>) -> Option<Seq<AppFields>> {
    let i = skip_ws(s, 0);
    if 0 <= i < s.len() && s[i] == '[' {
        let j = skip_ws(s, i + 1);
        if 0 <= j < s.len() && s[j] == ']' {
            if skip_ws(s, j + 1) == s.len() {
                Some(Seq::empty())
            } else {
                None
            }
        } else {
            match parse_app_obj(s, j) {
                Some(ak) => match parse_apps_rest(s, ak.1) {
                    Some(rm) => if skip_ws(s, rm.1) == s.len() {
                        Some(seq![ak.0] + rm.0)
                    } else {
                        None
                    },
                    None => None,
                },
                None => None,
            }
        }
    } else {
        None
    }
}

fn parse_lit_exec(s: &str, i: usize, len: usize, lit: &str) -> (r: Option<usize>)
    requires
        len == s@.len(),
        i <= len,
    ensures
        match r {
            Some(j) => parse_lit(s@, i as int, lit@) == Some(j as int) && i <= j <= len,
            None => parse_lit(s@, i as int, lit@) is None,
        },
{
    let ll = lit.unicode_len();
    if len - i < ll {
        return None;
    }
    let sub = s.substring_char(i, i + ll);
    if str_eq(sub, lit) {
        Some(i + ll)
    } else {
        None
    }
}

fn parse_str_body_exec(s: &str, i: usize, len: usize) -> (r: Option<(String, usize)>)
    requires
        len == s@.len(),
        i <= len,
    ensures
        match r {
            Some(tj) => parse_str_body(s@, i as int) == Some((tj.0@, tj.1 as int)) && i < tj.1
                <= len,
            None => parse_str_body(s@, i as int) is None,
        },
    decreases len - i,
{
    if i >= len {
        return None;
    }
    let c = s.get_char(i);
    if c == '"' {
        return Some((String::new(), i + 1));
    }
    if c == '\\' {
        if i + 1 >= len {
            return None;
        }
        let e = s.get_char(i + 1);
        let u = if e == '"' {
            Some('"')
        } else if e == '\\' {
            Some('\\')
        } else if e == '/' {
            Some('/')
        } else if e == 'n' {
            Some('\n')
        } else if e == 't' {
            Some('\t')
        } else if e == 'r' {
            Some('\r')
        } else {
            None
        };
        match u {
            Some(c2) => match parse_str_body_exec(s, i + 2, len) {
                Some((t, j)) => {
                    let mut out = String::new();
                    push_char(&mut out, c2);
                    let out = out.concat(t.as_str());
                    assert(out@ =~= seq![c2] + t@);
                    Some((out, j))
                },
                None => None,
            },
            None => None,
        }
    } else {
        match parse_str_body_exec(s, i + 1, len) {
            Some((t, j)) => {
                let mut out = String::new();
                push_char(&mut out, c);
                let out = out.concat(t.as_str());
                assert(out@ =~= seq![c] + t@);
                Some((out, j))
            },
            None => None,
        }
    }
}

fn parse_field_exec(s: &str, i: usize, len: usize, key: &str) -> (r: Option<(String, usize)>)
    requires
        len == s@.len(),
        i <= len,
    ensures
        match r {
            Some(vj) => parse_field(s@, i as int, key@) == Some((vj.0@, vj.1 as int)) && i < vj.1
                <= len,
            None => parse_field(s@, i as int, key@) is None,
        },
{
    let lit = String::from_str("\"").concat(key).concat("\"");
    proof {
        reveal_strlit("\"");
        assert(lit@ =~= seq!['"'] + key@ + seq!['"']);
    }
    let j = match parse_lit_exec(s, i, len, lit.as_str()) {
        Some(j) => j,
        None => {
            return None;
        },
    };
    let j2 = skip_ws_exec(s, j, len);
    if j2 >= len || s.get_char(j2) != ':' {
        return None;
    }
    let j3 = skip_ws_exec(s, j2 + 1, len);
    if j3 >= len || s.get_char(j3) != '"' {
        return None;
    }
    parse_str_body_exec(s, j3 + 1, len)
}

fn parse_sep_field_exec(s: &str, i: usize, len: usize, key: &str) -> (r: Option<(String, usize)>)
    requires
        len == s@.len(),
        i <= len,
    ensures
        match r {
            Some(vj) => parse_sep_field(s@, i as int, key@) == Some((vj.0@, vj.1 as int)) && i
                < vj.1 <= len,
            None => parse_sep_field(s@, i as int, key@) is None,
        },
{
    let j = skip_ws_exec(s, i, len);
    if j >= len || s.get_char(j) != ',' {
        return None;
    }
    let w = skip_ws_exec(s, j + 1, len);
    parse_field_exec(s, w, len, key)
}

fn parse_app_obj_exec(s: &str, i: usize, len: usize) -> (r: Option<(App, usize)>)
    requires
        len == s@.len(),
        i <= len,
    ensures
        match r {
            Some(aj) => parse_app_obj(s@, i as int) == Some((aj.0.fields(), aj.1 as int)) && i
                < aj.1 <= len,
            None => parse_app_obj(s@, i as int) is None,
        },
{
    if i >= len || s.get_char(i) != '{' {
        return None;
    }
    let w = skip_ws_exec(s, i + 1, len);
    let (name, j) = match parse_field_exec(s, w, len, "name") {
        Some(x) => x,
        None => {
            return None;
        },
    };
    let (owner, j) = match parse_sep_field_exec(s, j, len, "owner") {
        Some(x) => x,
        None => {
            return None;
        },
    };
    let (repo, j) = match parse_sep_field_exec(s, j, len, "repo") {
        Some(x) => x,
        None => {
            return None;
        },
    };
    let (asset_pattern, j) = match parse_sep_field_exec(s, j, len, "asset_pattern") {
        Some(x) => x,
        None => {
            return None;
        },
    };
    let (version_flag, j) = match parse_sep_field_exec(s, j, len, "version_flag") {
        Some(x) => x,
        None => {
            return None;
        },
    };
    let j2 = skip_ws_exec(s, j, len);
    if j2 >= len || s.get_char(j2) != '}' {
        return None;
    }
    let app = App { name, owner, repo, asset_pattern, version_flag };
    Some((app, j2 + 1))
}

fn parse_apps_rest_exec(s: &str, i: usize, len: usize) -> (r: Option<(Vec<App>, usize)>)
    requires
        len == s@.len(),
        i <= len,
    ensures
        match r {
            Some(vj) => parse_apps_rest(s@, i as int) == Some((fields_seq(vj.0@), vj.1 as int))
                && i < vj.1 <= len,
            None => parse_apps_rest(s@, i as int) is None,
        },
    decreases len - i,
{
    let j = skip_ws_exec(s, i, len);
    if j >= len {
        return None;
    }
    let c = s.get_char(j);
    if c == ']' {
        let v: Vec<App> = Vec::new();
        assert(fields_seq(v@) =~= Seq::<AppFields>::empty());
        return Some((v, j + 1));
    }
    if c != ',' {
        return None;
    }
    let w = skip_ws_exec(s, j + 1, len);
    match parse_app_obj_exec(s, w, len) {
        Some((app, k)) => {
            match parse_apps_rest_exec(s, k, len) {
                Some((v, m)) => {
                    let ghost tail = v@;
                    let mut v = v;
                    v.insert(0, app);
                    assert(fields_seq(v@) =~= seq![app.fields()] + fields_seq(tail));
                    Some((v, m))
                },
                None => None,
            }
        },
        None => None,
    }
}

fn parse_failure() -> (e: GrabError)
    ensures
        e matches GrabError::Parse(m) && m@ == "could not parse the app registry"@,
{
    GrabError::Parse(String::from_str("could not parse the app registry"))
}

/// Reads a registry text back into apps. Success is owed exactly on the
/// texts the grammar accepts, and the result is the apps the text spells.
pub fn decode_apps(text: &str) -> (r: core::result::Result<Vec<App>, GrabError>)
    ensures
        match r {
            Ok(v) => parse_apps(text@) == Some(fields_seq(v@)),
            Err(e) => parse_apps(text@) is None && (e matches GrabError::Parse(m) && m@
                == "could not parse the app registry"@),
        },
{
    let len = text.unicode_len();
    let i = skip_ws_exec(text, 0, len);
    if i >= len || text.get_char(i) != '[' {
        return Err(parse_failure());
    }
    let j = skip_ws_exec(text, i + 1, len);
    if j < len && text.get_char(j) == ']' {
        if skip_ws_exec(text, j + 1, len) == len {
            let v: Vec<App> = Vec::new();
            assert(fields_seq(v@) =~= Seq::<AppFields>::empty());
            return Ok(v);
        } else {
            return Err(parse_failure());
        }
    }
    match parse_app_obj_exec(text, j, len) {
        Some((app, k)) => match parse_apps_rest_exec(text, k, len) {
            Some((v, m)) => {
                if skip_ws_exec(text, m, len) == len {
                    let ghost tail = v@;
                    let mut v = v;
                    v.insert(0, app);
                    assert(fields_seq(v@) =~= seq![app.fields()] + fields_seq(tail));
                    Ok(v)
                } else {
                    Err(parse_failure())
                }
            },
            None => Err(parse_failure()),
        },
        None => Err(parse_failure()),
    }
}

/// Loads the registry from the store file's contents; a missing file is an
/// empty registry, not an error.
pub fn load_apps(contents: Option<&String>) -> (r: core::result::Result<Vec<App>, GrabError>)
    ensures
        match contents {
            None => r matches Ok(v) && v@ == Seq::<App>::empty(),
            Some(text) => match r {
                Ok(v) => parse_apps(text@) == Some(fields_seq(v@)),
                Err(e) => parse_apps(text@) is None && (e matches GrabError::Parse(m) && m@
                    == "could not parse the app registry"@),
            },
        },
{
    match contents {
        None => Ok(Vec::new()),
        Some(text) => decode_apps(text.as_str()),
    }
}

// ---------------------------------------------------------------------------
// The round trip
// ---------------------------------------------------------------------------
/// A subrange of a matching subrange matches the corresponding piece.
proof fn lemma_subrange_within(s: Seq<char>, i: int, t: Seq<char>, a: int, b: int)
    requires
        0 <= i,
        i + t.len() <= s.len(),
        s.subrange(i, i + t.len()) == t,
        0 <= a <= b <= t.len(),
    ensures
        s.subrange(i + a, i + b) == t.subrange(a, b),
{
    assert forall|k: int| 0 <= k < b - a implies s.subrange(i + a, i + b)[k] == t.subrange(a, b)[k] by {
        assert(t[a + k] == s.subrange(i, i + t.len())[a + k]);
    }
    assert(s.subrange(i + a, i + b) =~= t.subrange(a, b));
}

/// A character of a matching subrange.
proof fn lemma_char_within(s: Seq<char>, i: int, t: Seq<char>, a: int)
    requires
        0 <= i,
        i + t.len() <= s.len(),
        s.subrange(i, i + t.len()) == t,
        0 <= a < t.len(),
    ensures
        s[i + a] == t[a],
{
    assert(t[a] == s.subrange(i, i + t.len())[a]);
}

proof fn lemma_skip_ws_at(s: Seq<char>, i: int)
    requires
        0 <= i < s.len(),
        !is_ws_char(s[i]),
    ensures
        skip_ws(s, i) == i,
{
}

/// Reading a string body over the writer's escaping yields the value back.
proof fn lemma_parse_str_body_esc(s: Seq<char>, i: int, v: Seq<char>)
    requires
        0 <= i,
        i + esc(v).len() + 1 <= s.len(),
        s.subrange(i, i + esc(v).len() + 1) == esc(v) + seq!['"'],
    ensures
        parse_str_body(s, i) == Some((v, i + esc(v).len() + 1)),
    decreases v.len(),
{
    let t = esc(v) + seq!['"'];
    if v.len() == 0 {
        assert(esc(v) =~= Seq::<char>::empty());
        lemma_char_within(s, i, t, 0);
    } else {
        let c = v[0];
        let rest = v.skip(1);
        assert(esc(v) == esc_char(c) + esc(rest));
        if c == '"' || c == '\\' {
            assert(esc_char(c) =~= seq!['\\', c]);
            lemma_char_within(s, i, t, 0);
            lemma_char_within(s, i, t, 1);
            assert(t[0] == '\\');
            assert(t[1] == c);
            assert(unesc_char(c) == Some(c));
            lemma_subrange_within(s, i, t, 2, t.len() as int);
            assert(t.subrange(2, t.len() as int) =~= esc(rest) + seq!['"']);
            lemma_parse_str_body_esc(s, i + 2, rest);
            assert(seq![c] + rest =~= v);
        } else {
            assert(esc_char(c) =~= seq![c]);
            lemma_char_within(s, i, t, 0);
            assert(t[0] == c);
            lemma_subrange_within(s, i, t, 1, t.len() as int);
            assert(t.subrange(1, t.len() as int) =~= esc(rest) + seq!['"']);
            lemma_parse_str_body_esc(s, i + 1, rest);
            assert(seq![c] + rest =~= v);
        }
    }
}

/// Reading one member over the writer's rendering yields the value back.
proof fn lemma_parse_field_enc(s: Seq<char>, i: int, key: Seq<char>, v: Seq<char>)
    requires
        0 <= i,
        i + field_enc(key, v).len() <= s.len(),
        s.subrange(i, i + field_enc(key, v).len()) == field_enc(key, v),
    ensures
        parse_field(s, i, key) == Some((v, i + field_enc(key, v).len())),
{
    let t = field_enc(key, v);
    let kl = key.len() as int;
    let lit = seq!['"'] + key + seq!['"'];
    lemma_subrange_within(s, i, t, 0, kl + 2);
    assert(t.subrange(0, kl + 2) =~= lit);
    assert(parse_lit(s, i, lit) == Some(i + kl + 2));
    let j = i + kl + 2;
    lemma_char_within(s, i, t, kl + 2);
    assert(t[kl + 2] == ':');
    lemma_skip_ws_at(s, j);
    lemma_char_within(s, i, t, kl + 3);
    assert(t[kl + 3] == '"');
    lemma_skip_ws_at(s, j + 1);
    lemma_subrange_within(s, i, t, kl + 4, t.len() as int);
    assert(t.subrange(kl + 4, t.len() as int) =~= esc(v) + seq!['"']);
    lemma_parse_str_body_esc(s, j + 2, v);
}

/// Reading a comma and a member over the writer's rendering.
proof fn lemma_parse_sep_field_enc(s: Seq<char>, i: int, key: Seq<char>, v: Seq<char>)
    requires
        0 <= i,
        i + 1 + field_enc(key, v).len() <= s.len(),
        s[i] == ',',
        s.subrange(i + 1, i + 1 + field_enc(key, v).len()) == field_enc(key, v),
    ensures
        parse_sep_field(s, i, key) == Some((v, i + 1 + field_enc(key, v).len())),
{
    lemma_skip_ws_at(s, i);
    lemma_char_within(s, i + 1, field_enc(key, v), 0);
    assert(field_enc(key, v)[0] == '"');
    lemma_skip_ws_at(s, i + 1);
    lemma_parse_field_enc(s, i + 1, key, v);
}

/// Reading one app object over the writer's rendering yields the fields
/// back.
#[verifier::rlimit(50)]
proof fn lemma_parse_app_obj_enc(s: Seq<char>, i: int, f: AppFields)
    requires
        0 <= i,
        i + app_enc(f).len() <= s.len(),
        s.subrange(i, i + app_enc(f).len()) == app_enc(f),
    ensures
        parse_app_obj(s, i) == Some((f, i + app_enc(f).len())),
{
    let t = app_enc(f);
    let f1 = field_enc("name"@, f.name);
    let f2 = field_enc("owner"@, f.owner);
    let f3 = field_enc("repo"@, f.repo);
    let f4 = field_enc("asset_pattern"@, f.asset_pattern);
    let f5 = field_enc("version_flag"@, f.version_flag);
    let o1 = 1int;
    let o2 = o1 + f1.len() + 1;
    let o3 = o2 + f2.len() + 1;
    let o4 = o3 + f3.len() + 1;
    let o5 = o4 + f4.len() + 1;
    let oend = o5 + f5.len();
    assert(t.len() == oend + 1);
    lemma_char_within(s, i, t, 0);
    assert(t[0] == '{');
    lemma_subrange_within(s, i, t, o1, o1 + f1.len());
    assert(t.subrange(o1, o1 + f1.len()) =~= f1);
    lemma_char_within(s, i, t, o1 + f1.len());
    assert(t[o1 + f1.len()] == ',');
    lemma_subrange_within(s, i, t, o2, o2 + f2.len());
    assert(t.subrange(o2, o2 + f2.len()) =~= f2);
    lemma_char_within(s, i, t, o2 + f2.len());
    assert(t[o2 + f2.len()] == ',');
    lemma_subrange_within(s, i, t, o3, o3 + f3.len());
    assert(t.subrange(o3, o3 + f3.len()) =~= f3);
    lemma_char_within(s, i, t, o3 + f3.len());
    assert(t[o3 + f3.len()] == ',');
    lemma_subrange_within(s, i, t, o4, o4 + f4.len());
    assert(t.subrange(o4, o4 + f4.len()) =~= f4);
    lemma_char_within(s, i, t, o4 + f4.len());
    assert(t[o4 + f4.len()] == ',');
    lemma_subrange_within(s, i, t, o5, o5 + f5.len());
    assert(t.subrange(o5, o5 + f5.len()) =~= f5);
    lemma_char_within(s, i, t, oend);
    assert(t[oend] == '}');
    lemma_char_within(s, i, t, o1);
    assert(t[o1] == '"');
    lemma_skip_ws_at(s, i + 1);
    lemma_parse_field_enc(s, i + o1, "name"@, f.name);
    lemma_parse_sep_field_enc(s, i + o1 + f1.len(), "owner"@, f.owner);
    lemma_parse_sep_field_enc(s, i + o2 + f2.len(), "repo"@, f.repo);
    lemma_parse_sep_field_enc(s, i + o3 + f3.len(), "asset_pattern"@, f.asset_pattern);
    lemma_parse_sep_field_enc(s, i + o4 + f4.len(), "version_flag"@, f.version_flag);
    lemma_skip_ws_at(s, i + oend);
    assert(parse_app_obj(s, i) == Some((f, i + t.len())));
}

/// Reading the elements after the first over the writer's rendering.
#[verifier::rlimit(50)]
proof fn lemma_parse_apps_rest_enc(s: Seq<char>, i: int, rest: Seq<AppFields>)
    requires
        0 <= i,
        i + apps_enc_rest(rest).len() + 1 <= s.len(),
        s.subrange(i, i + apps_enc_rest(rest).len() + 1) == apps_enc_rest(rest) + seq![']'],
    ensures
        parse_apps_rest(s, i) == Some((rest, i + apps_enc_rest(rest).len() + 1)),
    decreases rest.len(),
{
    let t = apps_enc_rest(rest) + seq![']'];
    if rest.len() == 0 {
        assert(apps_enc_rest(rest) =~= Seq::<char>::empty());
        lemma_char_within(s, i, t, 0);
        assert(t[0] == ']');
        lemma_skip_ws_at(s, i);
        assert(parse_apps_rest(s, i) == Some((Seq::<AppFields>::empty(), i + 1)));
    } else {
        let a0 = rest[0];
        let tail = rest.skip(1);
        let al = app_enc(a0).len() as int;
        assert(apps_enc_rest(rest) == seq![','] + app_enc(a0) + apps_enc_rest(tail));
        lemma_char_within(s, i, t, 0);
        assert(t[0] == ',');
        lemma_skip_ws_at(s, i);
        lemma_subrange_within(s, i, t, 1, 1 + al);
        assert(t.subrange(1, 1 + al) =~= app_enc(a0));
        lemma_char_within(s, i, t, 1);
        assert(t[1] == app_enc(a0)[0]);
        assert(app_enc(a0)[0] == '{');
        lemma_skip_ws_at(s, i + 1);
        lemma_parse_app_obj_enc(s, i + 1, a0);
        let k = i + 1 + al;
        lemma_subrange_within(s, i, t, 1 + al, t.len() as int);
        assert(t.subrange(1 + al, t.len() as int) =~= apps_enc_rest(tail) + seq![']']);
        lemma_parse_apps_rest_enc(s, k, tail);
        assert(seq![a0] + tail =~= rest);
    }
}

/// The non-empty case of the round trip.
#[verifier::rlimit(50)]
proof fn lemma_parse_apps_enc_nonempty(apps: Seq<AppFields>)
    requires
        apps.len() > 0,
    ensures
        parse_apps(apps_enc(apps)) == Some(apps),
{
    let s = apps_enc(apps);
    let a0 = apps[0];
    let tail = apps.skip(1);
    let al = app_enc(a0).len() as int;
    assert(s == seq!['['] + app_enc(a0) + apps_enc_rest(tail) + seq![']']);
    assert(s.subrange(0, s.len() as int) =~= s);
    assert(s[0] == '[');
    lemma_skip_ws_at(s, 0);
    lemma_subrange_within(s, 0, s, 1, 1 + al);
    assert(s.subrange(1, 1 + al) =~= app_enc(a0));
    assert(s[1] == app_enc(a0)[0]);
    assert(app_enc(a0)[0] == '{');
    lemma_skip_ws_at(s, 1);
    lemma_parse_app_obj_enc(s, 1, a0);
    let k = 1 + al;
    lemma_subrange_within(s, 0, s, k, s.len() as int);
    assert(s.subrange(k, s.len() as int) =~= apps_enc_rest(tail) + seq![']']);
    lemma_parse_apps_rest_enc(s, k, tail);
    assert(skip_ws(s, s.len() as int) == s.len() as int);
    assert(seq![a0] + tail =~= apps);
}

/// Law: loading what [`save_apps`] wrote yields the same apps, field for
/// field and in the same order, whatever the field contents.
pub proof fn lemma_save_load_roundtrip(apps: Seq<AppFields>)
    ensures
        parse_apps(apps_enc(apps)) == Some(apps),
{
    if apps.len() == 0 {
        let s = apps_enc(apps);
        assert(s == seq!['[', ']']);
        assert(s[0] == '[' && s[1] == ']');
        lemma_skip_ws_at(s, 0);
        lemma_skip_ws_at(s, 1);
        assert(skip_ws(s, 2) == 2);
        assert(parse_apps(s) == Some(Seq::<AppFields>::empty()));
        assert(apps =~= Seq::<AppFields>::empty());
    } else {
        lemma_parse_apps_enc_nonempty(apps);
    }
}

} // verus!
