//! Catalog search: CKAN and DPF request validation, query construction and result filtering.
use vstd::prelude::*;
use crate::text::{
    is_ws, lemma_delete_char, lemma_replace_absent, lemma_trim_ends, lemma_trim_fixed,    opt_text,    decimal, decimal_seq, lemma_split_nonempty, lemma_split_join, lemma_replace_char_head, lemma_replace_char_append, occurs_at, matches_at, chars_of, string_of_range, concat, join, join_seq, split_on, split_seq, contains, contains_seq, ends_with, ends_with_seq, lowercase_of, push_char, replace,
    replace_seq, starts_with_seq, to_lowercase, trim, trim_seq,
};

verus! {

/// The lower-cased URL names the MLIT data platform host.
pub open spec fn names_dpf_host(lowered: Seq<char>) -> bool {
    contains_seq(lowered, "data-platform.mlit.go.jp"@) || contains_seq(lowered, "mlit-data.jp"@)
}

/// Whether already lower-cased URL text names the MLIT data platform.
pub fn names_dpf(lowered: &str) -> (b: bool)
    ensures
        b == names_dpf_host(lowered@),
{
    contains(lowered, "data-platform.mlit.go.jp") || contains(lowered, "mlit-data.jp")
}

/// Whether a catalog URL points at the MLIT data platform (DPF), compared case-insensitively.
pub fn is_dpf_url(url: &str) -> (b: bool)
    ensures
        b == names_dpf_host(lowercase_of(url@)),
{
    let u = to_lowercase(url);
    names_dpf(u.as_str())
}

/// A CKAN API URL as the server normalises it: trimmed, without CR and LF, ending in `/`.
pub open spec fn ckan_url_normalized(api_url: Seq<char>) -> Seq<char> {
    let u = replace_seq(replace_seq(trim_seq(api_url), "\r"@, ""@), "\n"@, ""@);
    if ends_with_seq(u, "/"@) {
        u
    } else {
        u.push('/')
    }
}

/// The message for a CKAN API URL of an unsupported shape.
pub open spec fn unsupported_ckan_message(url: Seq<char>) -> Seq<char> {
    "未対応の CKAN API URL です: "@ + url
}

/// A normalised CKAN API URL is accepted when it ends in `3/` or `backend/api/`.
pub open spec fn ckan_url_accepted(u: Seq<char>) -> bool {
    ends_with_seq(u, "backend/api/"@) || ends_with_seq(u, "3/"@)
}

/// Normalises a CKAN API base URL and checks that it names an API version 3 root
/// (or a `backend/api/` root).
pub fn validate_ckan_url(api_url: &str) -> (r: Result<String, String>)
    ensures
        ({
            let u = ckan_url_normalized(api_url@);
            match r {
                Ok(v) => ckan_url_accepted(u) && v@ == u,
                Err(e) => !ckan_url_accepted(u) && e@ == unsupported_ckan_message(u),
            }
        }),
{
    proof {
        reveal_strlit("\r");
        reveal_strlit("\n");
        reveal_strlit("/");
    }
    let t = trim(api_url);
    let t = replace(t.as_str(), "\r", "");
    let mut url = replace(t.as_str(), "\n", "");
    if !ends_with(url.as_str(), "/") {
        push_char(&mut url, '/');
    }
    if ends_with(url.as_str(), "backend/api/") {
        return Ok(url);
    }
    if !ends_with(url.as_str(), "3/") {
        return Err(concat("未対応の CKAN API URL です: ", url.as_str()));
    }
    Ok(url)
}

/// Validating an accepted CKAN URL again gives it back unchanged: the normalised URL ends in
/// `/`, is already trimmed and holds no CR or LF.
pub proof fn law_validate_ckan_url_idempotent(api_url: Seq<char>)
    requires
        ckan_url_accepted(ckan_url_normalized(api_url)),
    ensures
        ckan_url_normalized(api_url).len() > 0,
        ckan_url_normalized(api_url).last() == '/',
        trim_seq(ckan_url_normalized(api_url)) == ckan_url_normalized(api_url),
        !ckan_url_normalized(api_url).contains('\r'),
        !ckan_url_normalized(api_url).contains('\n'),
        ckan_url_normalized(ckan_url_normalized(api_url)) == ckan_url_normalized(api_url),
        ckan_url_accepted(ckan_url_normalized(ckan_url_normalized(api_url))),
{
    reveal_strlit("\r");
    reveal_strlit("\n");
    reveal_strlit("/");
    reveal_strlit("");
    assert("\r"@ =~= seq!['\r']);
    assert("\n"@ =~= seq!['\n']);
    assert("/"@ =~= seq!['/']);
    assert(""@ =~= Seq::<char>::empty());
    let t = trim_seq(api_url);
    lemma_trim_ends(api_url);
    lemma_delete_char(t, '\r');
    let u1 = replace_seq(t, seq!['\r'], Seq::empty());
    lemma_delete_char(u1, '\n');
    let u2 = replace_seq(u1, seq!['\n'], Seq::empty());
    assert(!u2.contains('\r')) by {
        if u2.contains('\r') {
            assert(u1.contains('\r'));
        }
    }
    let u = ckan_url_normalized(api_url);
    assert(u2.len() > 0 ==> !is_ws(u2[0]) && !is_ws(u2.last()));
    assert(u.len() > 0 && u.last() == '/') by {
        if !ends_with_seq(u2, "/"@) {
            assert(u == u2.push('/'));
        } else {
            assert(u2.subrange(u2.len() - 1, u2.len() as int)[0] == u2.last());
        }
    }
    assert(!is_ws(u[0])) by {
        if !ends_with_seq(u2, "/"@) && u2.len() > 0 {
            assert(u[0] == u2[0]);
        }
    }
    assert(!u.contains('\r') && !u.contains('\n')) by {
        if u.contains('\r') || u.contains('\n') {
            let j = choose|j: int| 0 <= j < u.len() && (u[j] == '\r' || u[j] == '\n');
            if !ends_with_seq(u2, "/"@) {
                if j < u2.len() {
                    assert(u2[j] == u[j]);
                    assert(u2.contains(u[j]));
                }
            } else {
                assert(u2.contains(u[j]));
            }
        }
    }
    lemma_trim_fixed(u);
    lemma_replace_absent(u, '\r', Seq::empty());
    lemma_replace_absent(u, '\n', Seq::empty());
    assert(u.subrange(u.len() - 1, u.len() as int) == seq!['/']);
}

/// The message when no DPF API key is available.
pub open spec fn missing_key_message() -> Seq<char> {
    "MLIT_DPF_API_KEY 環境変数が必要です"@
}

/// The DPF API key: the key given with the request when it is not blank,
/// else the `MLIT_DPF_API_KEY` environment value (`env_key`), trimmed.
pub open spec fn dpf_api_key_spec(req_key: Option<Seq<char>>, env_key: Option<Seq<char>>) -> Result<Seq<char>, Seq<char>> {
    if req_key is Some && trim_seq(req_key->0).len() > 0 {
        Ok(trim_seq(req_key->0))
    } else {
        match env_key {
            Some(v) => Ok(trim_seq(v)),
            None => Err(missing_key_message()),
        }
    }
}

/// Chooses the DPF API key from the request and the environment value.
pub fn dpf_api_key(req_key: Option<&str>, env_key: Option<&str>) -> (r: Result<String, String>)
    ensures
        match (r, dpf_api_key_spec(
            match req_key { Some(k) => Some(k@), None => None },
            match env_key { Some(k) => Some(k@), None => None },
        )) {
            (Ok(a), Ok(b)) => a@ == b,
            (Err(a), Err(b)) => a@ == b,
            _ => false,
        },
{
    if let Some(k) = req_key {
        let k = trim(k);
        if !k.as_str().is_empty() {
            return Ok(k);
        }
    }
    match env_key {
        Some(v) => Ok(trim(v)),
        None => Err("MLIT_DPF_API_KEY 環境変数が必要です".to_owned()),
    }
}


/// One segment of a dotted path escaped for a JSON Pointer (RFC 6901): `~` as `~0`, `/` as `~1`.
pub open spec fn pointer_segment(seg: Seq<char>) -> Seq<char> {
    replace_seq(replace_seq(seg, "~"@, "~0"@), "/"@, "~1"@)
}

/// The JSON Pointer for a dotted path such as `data.search.totalNumber`.
pub open spec fn json_pointer_seq(path: Seq<char>) -> Seq<char> {
    "/"@ + join_seq(split_seq(path, seq!['.']).map_values(|seg: Seq<char>| pointer_segment(seg)), "/"@)
}

/// Turns a dotted path into a JSON Pointer: each segment escaped, segments joined by `/`,
/// with a leading `/`.
pub fn to_json_pointer(path: &str) -> (r: String)
    ensures
        r@ == json_pointer_seq(path@),
{
    proof {
        reveal_strlit("~");
        reveal_strlit("/");
    }
    let seps = vec!['.'];
    let pieces = split_on(path, &seps);
    let mut parts: Vec<String> = Vec::new();
    let mut i: usize = 0;
    while i < pieces.len()
        invariant
            i <= pieces.len(),
            parts.len() == i,
            forall|k: int| 0 <= k < i ==> #[trigger] parts[k]@ == pointer_segment(pieces[k]@),
        decreases pieces.len() - i,
    {
        proof {
            reveal_strlit("~");
            reveal_strlit("/");
        }
        let a = replace(pieces[i].as_str(), "~", "~0");
        let b = replace(a.as_str(), "/", "~1");
        parts.push(b);
        i += 1;
    }
    assert(seps@ == seq!['.']);
    assert(parts.deep_view() =~= pieces.deep_view().map_values(|seg: Seq<char>| pointer_segment(seg)));
    let joined = join(&parts, "/");
    concat("/", joined.as_str())
}

/// The escape of one character of a JSON Pointer segment: `~` as `~0`, `/` as `~1`.
pub open spec fn escape_char(c: char) -> Seq<char> {
    if c == '~' { seq!['~', '0'] } else if c == '/' { seq!['~', '1'] } else { seq![c] }
}

/// A segment escaped character by character.
pub open spec fn escaped(seg: Seq<char>) -> Seq<char>
    decreases seg.len(),
{
    if seg.len() == 0 { Seq::empty() } else { escape_char(seg[0]) + escaped(seg.drop_first()) }
}

/// A JSON Pointer segment read back (RFC 6901): `~1` becomes `/`, then `~0` becomes `~`.
pub open spec fn unescape_segment(seg: Seq<char>) -> Seq<char> {
    replace_seq(replace_seq(seg, "~1"@, "/"@), "~0"@, "~"@)
}

/// Escaping with the two replacements is escaping character by character, and an escaped
/// segment holds no `/`.
proof fn lemma_pointer_segment_escaped(seg: Seq<char>)
    ensures
        pointer_segment(seg) == escaped(seg),
        !escaped(seg).contains('/'),
    decreases seg.len(),
{
    reveal_strlit("~");
    reveal_strlit("~0");
    reveal_strlit("/");
    reveal_strlit("~1");
    assert("~"@ =~= seq!['~']);
    assert("~0"@ =~= seq!['~', '0']);
    assert("/"@ =~= seq!['/']);
    assert("~1"@ =~= seq!['~', '1']);
    let t0 = seq!['~', '0'];
    let t1 = seq!['~', '1'];
    if seg.len() == 0 {
        assert(escaped(seg) =~= Seq::<char>::empty());
    } else {
        let rest = seg.drop_first();
        lemma_pointer_segment_escaped(rest);
        lemma_replace_char_head(seg, '~', t0);
        let h = if seg[0] == '~' { t0 } else { seq![seg[0]] };
        let r1 = replace_seq(rest, seq!['~'], t0);
        lemma_replace_char_append(h, r1, '/', t1);
        if seg[0] == '/' {
            lemma_replace_char_head(h, '/', t1);
            assert(h.drop_first() =~= Seq::<char>::empty());
            assert(replace_seq(h, seq!['/'], t1) =~= t1);
        } else {
            assert(!h.contains('/')) by {
                if h.contains('/') {
                    let j = choose|j: int| 0 <= j < h.len() && h[j] == '/';
                }
            }
            lemma_replace_absent(h, '/', t1);
        }
        assert(replace_seq(h, seq!['/'], t1) == escape_char(seg[0]));
        let e = escape_char(seg[0]);
        let er = escaped(rest);
        assert(!(e + er).contains('/')) by {
            if (e + er).contains('/') {
                let j = choose|j: int| 0 <= j < (e + er).len() && (e + er)[j] == '/';
                if j >= e.len() {
                    assert(er[j - e.len()] == '/');
                    assert(er.contains('/'));
                }
            }
        }
    }
}

/// Reading an escaped segment back gives the segment: the first replacement undoes the
/// escape of `/`, the second the escape of `~`.
proof fn lemma_unescape_escaped(seg: Seq<char>)
    ensures
        replace_seq(escaped(seg), seq!['~', '1'], seq!['/']) == replace_seq(seg, seq!['~'], seq!['~', '0']),
        replace_seq(replace_seq(seg, seq!['~'], seq!['~', '0']), seq!['~', '0'], seq!['~']) == seg,
    decreases seg.len(),
{
    let t0 = seq!['~', '0'];
    let t1 = seq!['~', '1'];
    if seg.len() > 0 {
        let rest = seg.drop_first();
        lemma_unescape_escaped(rest);
        let er = escaped(rest);
        let r = replace_seq(rest, seq!['~'], t0);
        lemma_replace_char_head(seg, '~', t0);
        let t = escaped(seg);
        assert(t == escape_char(seg[0]) + er);
        if seg[0] == '/' {
            assert(t.subrange(0, 2) =~= t1);
            assert(t.skip(2) =~= er);
            assert(replace_seq(t, t1, seq!['/']) == seq!['/'] + replace_seq(er, t1, seq!['/']));
        } else if seg[0] == '~' {
            assert(!starts_with_seq(t, t1)) by {
                if starts_with_seq(t, t1) {
                    assert(t.subrange(0, 2)[1] == t[1]);
                }
            }
            let t2 = t.drop_first();
            assert(t2 =~= seq!['0'] + er);
            assert(!starts_with_seq(t2, t1)) by {
                if starts_with_seq(t2, t1) {
                    assert(t2.subrange(0, 2)[0] == t2[0]);
                }
            }
            assert(t2.drop_first() =~= er);
            assert(replace_seq(t2, t1, seq!['/']) == seq!['0'] + replace_seq(er, t1, seq!['/']));
            assert(replace_seq(t, t1, seq!['/']) == seq!['~'] + (seq!['0'] + replace_seq(er, t1, seq!['/'])));
            assert(seq!['~'] + (seq!['0'] + r) =~= t0 + r);
        } else {
            assert(!starts_with_seq(t, t1)) by {
                if starts_with_seq(t, t1) {
                    assert(t.subrange(0, 2)[0] == t[0]);
                }
            }
            assert(t.drop_first() =~= er);
        }
        let u = replace_seq(seg, seq!['~'], t0);
        if seg[0] == '~' {
            assert(u == t0 + r);
            assert(u.subrange(0, 2) =~= t0);
            assert(u.skip(2) =~= r);
            assert(replace_seq(u, t0, seq!['~']) == seq!['~'] + rest);
        } else {
            assert(u == seq![seg[0]] + r);
            assert(!starts_with_seq(u, t0)) by {
                if starts_with_seq(u, t0) {
                    assert(u.subrange(0, 2)[0] == u[0]);
                }
            }
            assert(u.drop_first() =~= r);
        }
        assert(seq![seg[0]] + rest =~= seg);
    } else {
        assert(escaped(seg) =~= seg);
    }
}

/// Reading a JSON Pointer back gives the dotted path: after its leading `/`, splitting the
/// pointer at each `/` and unescaping each piece gives the `.`-separated segments of the
/// path, in order.
pub proof fn law_json_pointer_round_trip(path: Seq<char>)
    ensures
        json_pointer_seq(path).len() > 0,
        json_pointer_seq(path)[0] == '/',
        split_seq(json_pointer_seq(path).drop_first(), seq!['/']).map_values(|p: Seq<char>| unescape_segment(p))
            == split_seq(path, seq!['.']),
{
    reveal_strlit("/");
    reveal_strlit("~");
    reveal_strlit("~0");
    reveal_strlit("~1");
    assert("/"@ =~= seq!['/']);
    assert("~"@ =~= seq!['~']);
    assert("~0"@ =~= seq!['~', '0']);
    assert("~1"@ =~= seq!['~', '1']);
    let segs = split_seq(path, seq!['.']);
    lemma_split_nonempty(path, seq!['.']);
    let parts = segs.map_values(|seg: Seq<char>| pointer_segment(seg));
    assert forall|k: int| 0 <= k < parts.len() implies !(#[trigger] parts[k]).contains('/') by {
        lemma_pointer_segment_escaped(segs[k]);
    }
    lemma_split_join(parts, '/');
    let j = join_seq(parts, "/"@);
    assert(json_pointer_seq(path) == seq!['/'] + j);
    assert((seq!['/'] + j).drop_first() =~= j);
    let back = split_seq(json_pointer_seq(path).drop_first(), seq!['/']).map_values(|p: Seq<char>| unescape_segment(p));
    assert forall|k: int| 0 <= k < segs.len() implies #[trigger] back[k] == segs[k] by {
        lemma_pointer_segment_escaped(segs[k]);
        lemma_unescape_escaped(segs[k]);
    }
    assert(back =~= segs);
}

/// The GraphQL clause that selects one DPF catalog id; `"` in the id is escaped.
pub open spec fn catalog_clause(id: Seq<char>) -> Seq<char> {
    "{ attributeName: \"DPF:catalog_id\", is: \""@ + replace_seq(id, "\""@, "\\\""@) + "\" }"@
}

/// The DPF attribute filter for the selected catalog ids: empty when none is selected.
pub open spec fn attribute_filter_seq(groups: Seq<Seq<char>>) -> Seq<char> {
    if groups.len() == 0 {
        Seq::empty()
    } else {
        ", attributeFilter: { OR: [ "@ + join_seq(groups.map_values(|g: Seq<char>| catalog_clause(g)), ", "@) + " ] }"@
    }
}

/// Builds the `attributeFilter` argument of a DPF search for the selected catalog ids.
pub fn dpf_attribute_filter(groups: &[String]) -> (r: String)
    ensures
        r@ == attribute_filter_seq(groups@.map_values(|g: String| g@)),
{
    proof {
        reveal_strlit("\"");
    }
    if groups.len() == 0 {
        return String::new();
    }
    let mut parts: Vec<String> = Vec::new();
    let mut i: usize = 0;
    while i < groups.len()
        invariant
            i <= groups.len(),
            parts.len() == i,
            forall|k: int| 0 <= k < i ==> #[trigger] parts[k]@ == catalog_clause(groups@[k]@),
        decreases groups.len() - i,
    {
        proof {
            reveal_strlit("\"");
        }
        let escaped = replace(groups[i].as_str(), "\"", "\\\"");
        let a = concat("{ attributeName: \"DPF:catalog_id\", is: \"", escaped.as_str());
        let b = concat(a.as_str(), "\" }");
        parts.push(b);
        i += 1;
    }
    assert(parts.deep_view() =~= groups@.map_values(|g: String| g@).map_values(|g: Seq<char>| catalog_clause(g)));
    let joined = join(&parts, ", ");
    let a = concat(", attributeFilter: { OR: [ ", joined.as_str());
    concat(a.as_str(), " ] }")
}


/// The URL of a CKAN action under an API root that ends in `/`.
pub fn ckan_action_url(api_url: &str, action: &str) -> (r: String)
    ensures
        r@ == api_url@ + "action/"@ + action@,
{
    let a = concat(api_url, "action/");
    concat(a.as_str(), action)
}

/// What `reqwest::Url::parse(url)` followed by `Url::path` gives: `None` when `url` does not parse.
pub uninterp spec fn url_path_of(url: Seq<char>) -> Option<Seq<char>>;

/// What `reqwest::Url::parse(url)`, `Url::set_path(path)` and `Url::as_str` give:
/// `None` when `url` does not parse.
pub uninterp spec fn url_with_path(url: Seq<char>, path: Seq<char>) -> Option<Seq<char>>;

/// What `reqwest::Url::parse(url)`, `Url::set_query(None)` and `Url::as_str` give:
/// `None` when `url` does not parse.
pub uninterp spec fn url_without_query(url: Seq<char>) -> Option<Seq<char>>;

/// The path of an absolute URL (`reqwest::Url::path` on the parsed URL).
/// The result is named `url_path_of`; nothing more is stated of it.
#[verifier::external_body]
fn url_path(url: &str) -> (r: Option<String>)
    ensures
        match r {
            Some(p) => url_path_of(url@) == Some(p@),
            None => url_path_of(url@) is None,
        },
{
    match reqwest::Url::parse(url) {
        Ok(u) => Some(u.path().to_string()),
        Err(_) => None,
    }
}

/// The URL with its path replaced (`reqwest::Url::set_path` on the parsed URL, then its
/// serialization). The result is named `url_with_path`; nothing more is stated of it.
#[verifier::external_body]
fn url_set_path(url: &str, path: &str) -> (r: Option<String>)
    ensures
        match r {
            Some(u) => url_with_path(url@, path@) == Some(u@),
            None => url_with_path(url@, path@) is None,
        },
{
    match reqwest::Url::parse(url) {
        Ok(mut u) => {
            u.set_path(path);
            Some(u.as_str().to_string())
        },
        Err(_) => None,
    }
}

/// The URL without its query (`reqwest::Url::set_query(None)` on the parsed URL, then its
/// serialization). The result is named `url_without_query`; nothing more is stated of it.
#[verifier::external_body]
fn url_clear_query(url: &str) -> (r: Option<String>)
    ensures
        match r {
            Some(u) => url_without_query(url@) == Some(u@),
            None => url_without_query(url@) is None,
        },
{
    match reqwest::Url::parse(url) {
        Ok(mut u) => {
            u.set_query(None);
            Some(u.as_str().to_string())
        },
        Err(_) => None,
    }
}

/// For a path ending in `/action/package_search`, the API root path in front of it, with a
/// trailing `/`.
pub open spec fn package_search_root(path: Seq<char>) -> Option<Seq<char>> {
    if ends_with_seq(path, "/action/package_search"@) {
        Some(path.subrange(0, path.len() - "/action/package_search"@.len()).push('/'))
    } else {
        None
    }
}

/// The API root path of a `package_search` path, if the path is one.
pub fn package_search_base(path: &str) -> (r: Option<String>)
    ensures
        match r {
            Some(p) => package_search_root(path@) == Some(p@),
            None => package_search_root(path@) is None,
        },
{
    let suffix = "/action/package_search";
    if !ends_with(path, suffix) {
        return None;
    }
    let v = chars_of(path);
    let s = chars_of(suffix);
    let mut base = string_of_range(&v, 0, v.len() - s.len());
    push_char(&mut base, '/');
    Some(base)
}

/// The canonical API root after a successful probe whose final (redirected) URL is
/// `final_url`: when that URL's path ends in `/action/package_search`, the URL with the
/// path cut back to the API root and no query; otherwise `api_url` unchanged.
pub open spec fn canonical_url_spec(api_url: Seq<char>, final_url: Seq<char>) -> Seq<char> {
    match url_path_of(final_url) {
        Some(path) => match package_search_root(path) {
            Some(root) => match url_with_path(final_url, root) {
                Some(u1) => match url_without_query(u1) {
                    Some(u2) => u2,
                    None => api_url,
                },
                None => api_url,
            },
            None => api_url,
        },
        None => api_url,
    }
}

/// The canonical API root, following the redirect recorded in `final_url`.
/// `final_url` is the serialization of the URL a reply came from, so it always parses.
pub fn canonical_from_final_url(api_url: &str, final_url: &str) -> (r: String)
    ensures
        r@ == canonical_url_spec(api_url@, final_url@),
{
    match url_path(final_url) {
        Some(path) => match package_search_base(path.as_str()) {
            Some(root) => match url_set_path(final_url, root.as_str()) {
                Some(u1) => match url_clear_query(u1.as_str()) {
                    Some(u2) => u2,
                    None => api_url.to_owned(),
                },
                None => api_url.to_owned(),
            },
            None => api_url.to_owned(),
        },
        None => api_url.to_owned(),
    }
}

/// How the probe request to `action/package_search` ended.
#[derive(Debug)]
pub enum ProbeOutcome {
    /// A success status; `final_url` is the URL the reply came from.
    Reached { final_url: String },
    /// A reply with a non-success status, as `status` renders it.
    Refused { status: String },
    /// The request failed, with this error text.
    Failed { error: String },
    /// No reply within the connection timeout.
    TimedOut,
}

/// What resolving the canonical CKAN API root gives for a probe outcome.
pub open spec fn resolve_spec(api_url: Seq<char>, outcome: ProbeOutcome) -> Result<Seq<char>, Seq<char>> {
    match outcome {
        ProbeOutcome::Reached { final_url } => Ok(canonical_url_spec(api_url, final_url@)),
        ProbeOutcome::Refused { status } => Err("接続先が応答しません ("@ + status@ + "): "@ + api_url),
        ProbeOutcome::Failed { error } => Err("接続エラー: "@ + error@ + " ("@ + api_url + ")"@),
        ProbeOutcome::TimedOut => Err("接続タイムアウト: "@ + api_url),
    }
}

/// Resolves the canonical CKAN API root from the outcome of probing it.
pub fn resolve_canonical_url(api_url: &str, outcome: ProbeOutcome) -> (r: Result<String, String>)
    ensures
        match (r, resolve_spec(api_url@, outcome)) {
            (Ok(a), Ok(b)) => a@ == b,
            (Err(a), Err(b)) => a@ == b,
            _ => false,
        },
{
    match outcome {
        ProbeOutcome::Reached { final_url } => Ok(canonical_from_final_url(api_url, final_url.as_str())),
        ProbeOutcome::Refused { status } => {
            let a = concat("接続先が応答しません (", status.as_str());
            let b = concat(a.as_str(), "): ");
            Err(concat(b.as_str(), api_url))
        },
        ProbeOutcome::Failed { error } => {
            let a = concat("接続エラー: ", error.as_str());
            let b = concat(a.as_str(), " (");
            let c = concat(b.as_str(), api_url);
            Err(concat(c.as_str(), ")"))
        },
        ProbeOutcome::TimedOut => Err(concat("接続タイムアウト: ", api_url)),
    }
}


/// The page size and offset of a search: `rows` defaults to 100 and is clamped to
/// `1..=1000`; `start` defaults to 0 and is at least 0.
pub open spec fn search_window_spec(rows: Option<i64>, start: Option<i64>) -> (i64, i64) {
    let r = match rows { Some(r) => r, None => 100 };
    let s = match start { Some(s) => s, None => 0 };
    (if r < 1 { 1 } else if r > 1000 { 1000 } else { r }, if s < 0 { 0 } else { s })
}

/// The page size and offset requested by a search.
pub fn search_window(rows: Option<i64>, start: Option<i64>) -> (r: (i64, i64))
    ensures
        r == search_window_spec(rows, start),
        1 <= r.0 <= 1000,
        0 <= r.1,
{
    let r = match rows { Some(r) => r, None => 100 };
    let s = match start { Some(s) => s, None => 0 };
    let r = if r < 1 { 1 } else if r > 1000 { 1000 } else { r };
    let s = if s < 0 { 0 } else { s };
    (r, s)
}

/// A DPF endpoint: the trimmed URL from the request, or `default` when that is blank,
/// with a trailing `/`.
pub open spec fn dpf_endpoint_spec(api_url: Seq<char>, default: Seq<char>) -> Seq<char> {
    let u = if trim_seq(api_url).len() == 0 { default } else { trim_seq(api_url) };
    if ends_with_seq(u, "/"@) { u } else { u.push('/') }
}

/// The DPF endpoint a request goes to.
pub fn dpf_endpoint(api_url: &str, default: &str) -> (r: String)
    ensures
        r@ == dpf_endpoint_spec(api_url@, default@),
{
    let t = trim(api_url);
    let mut u = if t.as_str().is_empty() { default.to_owned() } else { t };
    if !ends_with(u.as_str(), "/") {
        push_char(&mut u, '/');
    }
    u
}

/// Whether two strings hold the same characters.
pub fn same_text(a: &str, b: &str) -> (r: bool)
    ensures
        r == (a@ == b@),
{
    let x = chars_of(a);
    let y = chars_of(b);
    if x.len() != y.len() {
        return false;
    }
    let r = matches_at(&x, 0, &y);
    assert(x@.subrange(0, x@.len() as int) == x@);
    if !r {
        assert(!occurs_at(x@, 0, y@));
    }
    r
}

/// Whether `x` is one of `v`.
pub fn contains_text(v: &Vec<String>, x: &str) -> (r: bool)
    ensures
        r == v.deep_view().contains(x@),
{
    let mut i: usize = 0;
    while i < v.len()
        invariant
            i <= v.len(),
            forall|k: int| 0 <= k < i ==> v.deep_view()[k] != x@,
        decreases v.len() - i,
    {
        if same_text(v[i].as_str(), x) {
            assert(v.deep_view()[i as int] == x@);
            return true;
        }
        i += 1;
    }
    false
}

/// The separators of a format list: comma, space and ideographic space.
pub open spec fn format_separators() -> Seq<char> {
    seq![',', ' ', '\u{3000}']
}

/// The selected formats of a list of pieces: each piece trimmed and lower-cased, blanks dropped.
pub open spec fn kept_formats(pieces: Seq<Seq<char>>) -> Seq<Seq<char>>
    decreases pieces.len(),
{
    if pieces.len() == 0 {
        Seq::empty()
    } else {
        let rest = kept_formats(pieces.drop_last());
        let f = lowercase_of(trim_seq(pieces.last()));
        if f.len() > 0 { rest.push(f) } else { rest }
    }
}

/// The formats selected by a filter string such as `"GeoJSON, csv"`.
pub open spec fn format_selection(formats: Option<Seq<char>>) -> Seq<Seq<char>> {
    match formats {
        Some(f) => kept_formats(split_seq(f, format_separators())),
        None => Seq::empty(),
    }
}

/// Parses the format filter of a search into the lower-cased formats it selects.
pub fn selected_formats(formats: Option<&str>) -> (r: Vec<String>)
    ensures
        r.deep_view() == format_selection(match formats { Some(f) => Some(f@), None => None }),
{
    let mut out: Vec<String> = Vec::new();
    match formats {
        None => out,
        Some(f) => {
            let seps = vec![',', ' ', '\u{3000}'];
            assert(seps@ == format_separators());
            let pieces = split_on(f, &seps);
            let mut i: usize = 0;
            assert(pieces.deep_view().take(0) == Seq::<Seq<char>>::empty());
            while i < pieces.len()
                invariant
                    i <= pieces.len(),
                    out.deep_view() == kept_formats(pieces.deep_view().take(i as int)),
                decreases pieces.len() - i,
            {
                assert(pieces.deep_view().take(i + 1).drop_last() == pieces.deep_view().take(i as int));
                assert(pieces.deep_view().take(i + 1).last() == pieces[i as int]@);
                let t = trim(pieces[i].as_str());
                let l = to_lowercase(t.as_str());
                if !l.as_str().is_empty() {
                    let ghost before = out.deep_view();
                    out.push(l);
                    assert(out.deep_view() == before.push(l@));
                }
                i += 1;
            }
            assert(pieces.deep_view().take(pieces.len() as int) == pieces.deep_view());
            out
        },
    }
}

/// The text after the last `.` of `s`, if `s` has a `.` (`str::rsplit_once('.')`).
pub open spec fn extension_seq(s: Seq<char>) -> Option<Seq<char>> {
    let pieces = split_seq(s, seq!['.']);
    if pieces.len() > 1 { Some(pieces.last()) } else { None }
}

/// The text after the last `.` of `s`, if any.
pub fn extension(s: &str) -> (r: Option<String>)
    ensures
        match r {
            Some(e) => extension_seq(s@) == Some(e@),
            None => extension_seq(s@) is None,
        },
{
    let seps = vec!['.'];
    let mut pieces = split_on(s, &seps);
    assert(seps@ == seq!['.']);
    if pieces.len() > 1 {
        let ghost dv = pieces.deep_view();
        let last = pieces.pop().unwrap();
        assert(last@ == dv.last());
        Some(last)
    } else {
        None
    }
}

/// `o` as text, the empty text when absent.
pub open spec fn text_or_empty(o: Option<Seq<char>>) -> Seq<char> {
    match o { Some(t) => t, None => Seq::empty() }
}

/// The view of an optional borrowed string.
pub open spec fn opt_view(o: Option<&str>) -> Option<Seq<char>> {
    match o { Some(t) => Some(t@), None => None }
}

/// A DPF file passes the format filter when the extension of its lower-cased
/// `original_path` is one of the selected formats.
pub open spec fn dpf_file_selected(selected: Seq<Seq<char>>, original_path: Option<Seq<char>>) -> bool {
    match extension_seq(lowercase_of(text_or_empty(original_path))) {
        Some(e) => selected.contains(e),
        None => false,
    }
}

/// A DPF file is kept exactly when the extension of its lower-cased `original_path` is a
/// selected format; so letter case in the path makes no difference.
pub proof fn law_dpf_file_extension(selected: Seq<Seq<char>>, path1: Seq<char>, path2: Seq<char>)
    ensures
        dpf_file_selected(selected, Some(path1))
            <==> (extension_seq(lowercase_of(path1)) matches Some(e) && selected.contains(e)),
        lowercase_of(path1) == lowercase_of(path2)
            ==> dpf_file_selected(selected, Some(path1)) == dpf_file_selected(selected, Some(path2)),
{
}

fn owned_or_empty(o: Option<&str>) -> (r: String)
    ensures
        r@ == text_or_empty(opt_view(o)),
{
    match o { Some(t) => t.to_owned(), None => String::new() }
}

/// Whether a DPF file passes the format filter.
pub fn dpf_file_kept(selected: &Vec<String>, original_path: Option<&str>) -> (r: bool)
    ensures
        r == dpf_file_selected(selected.deep_view(), opt_view(original_path)),
{
    let p = owned_or_empty(original_path);
    let l = to_lowercase(p.as_str());
    match extension(l.as_str()) {
        Some(e) => contains_text(selected, e.as_str()),
        None => false,
    }
}

/// What the format filter does with one search result.
#[derive(Debug)]
pub enum ResultFilter {
    /// Keep the result as it came.
    Whole,
    /// Keep the result with only the listed entries (indices, in order) of its file or resource list.
    Entries(Vec<usize>),
    /// Leave the result out.
    Drop,
}

/// The mathematical form of a `ResultFilter`.
pub enum FilterSpec {
    Whole,
    Entries(Seq<usize>),
    Drop,
}

/// The indices of the DPF files that pass the format filter, in order.
pub open spec fn dpf_kept_files(selected: Seq<Seq<char>>, paths: Seq<Option<Seq<char>>>) -> Seq<usize>
    decreases paths.len(),
{
    if paths.len() == 0 {
        Seq::empty()
    } else {
        let rest = dpf_kept_files(selected, paths.drop_last());
        if dpf_file_selected(selected, paths.last()) { rest.push((paths.len() - 1) as usize) } else { rest }
    }
}

/// The view of a list of optional strings.
pub open spec fn opt_strings_view(v: Seq<Option<String>>) -> Seq<Option<Seq<char>>> {
    v.map_values(|o: Option<String>| opt_text(o))
}

/// What the DPF format filter does with a result whose files have these `original_path`s:
/// with no format selected the result stays whole; otherwise only the matching files stay,
/// and a result with none is dropped.
pub open spec fn dpf_result_filter(selected: Seq<Seq<char>>, paths: Seq<Option<Seq<char>>>) -> FilterSpec {
    if selected.len() == 0 {
        FilterSpec::Whole
    } else if dpf_kept_files(selected, paths).len() == 0 {
        FilterSpec::Drop
    } else {
        FilterSpec::Entries(dpf_kept_files(selected, paths))
    }
}

fn as_opt_str(o: &Option<String>) -> (r: Option<&str>)
    ensures
        opt_view(r) == opt_text(*o),
{
    match o { Some(s) => Some(s.as_str()), None => None }
}

/// Applies the DPF format filter to the files (their `original_path`s) of one result.
pub fn filter_dpf_result(selected: &Vec<String>, paths: &Vec<Option<String>>) -> (r: ResultFilter)
    ensures
        match (r, dpf_result_filter(selected.deep_view(), opt_strings_view(paths@))) {
            (ResultFilter::Whole, FilterSpec::Whole) => true,
            (ResultFilter::Drop, FilterSpec::Drop) => true,
            (ResultFilter::Entries(a), FilterSpec::Entries(b)) => a@ == b,
            _ => false,
        },
{
    if selected.len() == 0 {
        return ResultFilter::Whole;
    }
    let ghost pv = opt_strings_view(paths@);
    let mut kept: Vec<usize> = Vec::new();
    let mut i: usize = 0;
    assert(pv.take(0) == Seq::<Option<Seq<char>>>::empty());
    while i < paths.len()
        invariant
            i <= paths.len(),
            pv == opt_strings_view(paths@),
            kept@ == dpf_kept_files(selected.deep_view(), pv.take(i as int)),
        decreases paths.len() - i,
    {
        assert(pv.take(i + 1).drop_last() == pv.take(i as int));
        assert(pv.take(i + 1).last() == opt_text(paths@[i as int]));
        if dpf_file_kept(selected, as_opt_str(&paths[i])) {
            kept.push(i);
        }
        i += 1;
    }
    assert(pv.take(paths.len() as int) == pv);
    if kept.len() == 0 {
        ResultFilter::Drop
    } else {
        ResultFilter::Entries(kept)
    }
}


/// The fields of a CKAN resource that the format filter reads: each is `None` when the
/// resource has no such field or the field is not a string.
#[derive(Debug)]
pub struct ResourceFields {
    pub format: Option<String>,
    pub name: Option<String>,
    pub url: Option<String>,
}

/// The file name part of a lower-cased resource URL: after the last `/`, before the first `?`.
pub open spec fn url_file_part(url: Seq<char>) -> Seq<char> {
    split_seq(split_seq(url, seq!['/']).last(), seq!['?'])[0]
}

/// A CKAN resource passes the format filter when no format is selected, when its
/// lower-cased `format` is selected, or when the extension of its lower-cased `name` or of
/// the file part of its lower-cased `url` is selected.
pub open spec fn ckan_resource_selected(
    selected: Seq<Seq<char>>,
    format: Option<Seq<char>>,
    name: Option<Seq<char>>,
    url: Option<Seq<char>>,
) -> bool {
    ||| selected.len() == 0
    ||| selected.contains(lowercase_of(text_or_empty(format)))
    ||| (extension_seq(lowercase_of(text_or_empty(name))) matches Some(e) && selected.contains(e))
    ||| (extension_seq(url_file_part(lowercase_of(text_or_empty(url)))) matches Some(e) && selected.contains(e))
}

/// The file name part of a URL: after the last `/`, before the first `?`.
pub fn url_file_name(url: &str) -> (r: String)
    ensures
        r@ == url_file_part(url@),
{
    let slash = vec!['/'];
    let mut a = split_on(url, &slash);
    proof { lemma_split_nonempty(url@, slash@); }
    assert(slash@ == seq!['/']);
    let ghost av = a.deep_view();
    let last = a.pop().unwrap();
    assert(last@ == av.last());
    let q = vec!['?'];
    let b = split_on(last.as_str(), &q);
    proof { lemma_split_nonempty(last@, q@); }
    assert(q@ == seq!['?']);
    let first = b[0].as_str().to_owned();
    assert(first@ == b.deep_view()[0]);
    first
}

fn extension_selected(selected: &Vec<String>, s: &str) -> (r: bool)
    ensures
        r == (extension_seq(s@) matches Some(e) && selected.deep_view().contains(e)),
{
    match extension(s) {
        Some(e) => contains_text(selected, e.as_str()),
        None => false,
    }
}

/// Whether a CKAN resource passes the format filter.
pub fn ckan_resource_kept(selected: &Vec<String>, resource: &ResourceFields) -> (r: bool)
    ensures
        r == ckan_resource_selected(
            selected.deep_view(),
            opt_text(resource.format),
            opt_text(resource.name),
            opt_text(resource.url),
        ),
{
    if selected.len() == 0 {
        return true;
    }
    let f = owned_or_empty(as_opt_str(&resource.format));
    let fmt = to_lowercase(f.as_str());
    if contains_text(selected, fmt.as_str()) {
        return true;
    }
    let n = owned_or_empty(as_opt_str(&resource.name));
    let name = to_lowercase(n.as_str());
    let u = owned_or_empty(as_opt_str(&resource.url));
    let url = to_lowercase(u.as_str());
    let file = url_file_name(url.as_str());
    extension_selected(selected, name.as_str()) || extension_selected(selected, file.as_str())
}

/// A CKAN resource passes the format filter when the extension of the file part (after the
/// last `/`, before the first `?`) of its lower-cased URL is a selected format, whatever its
/// format and name say.
pub proof fn law_ckan_url_extension_keeps(
    selected: Seq<Seq<char>>,
    format: Option<Seq<char>>,
    name: Option<Seq<char>>,
    url: Seq<char>,
    ext: Seq<char>,
)
    requires
        extension_seq(url_file_part(lowercase_of(url))) == Some(ext),
        selected.contains(ext),
    ensures
        ckan_resource_selected(selected, format, name, Some(url)),
{
}

/// A CKAN resource passes the format filter when the extension of its lower-cased name, or
/// its lower-cased format itself, is a selected format, whatever its URL says.
pub proof fn law_ckan_name_or_format_keeps(
    selected: Seq<Seq<char>>,
    format: Seq<char>,
    name: Seq<char>,
    url: Option<Seq<char>>,
)
    ensures
        selected.contains(lowercase_of(format)) ==> ckan_resource_selected(selected, Some(format), None, url),
        (extension_seq(lowercase_of(name)) matches Some(e) && selected.contains(e))
            ==> ckan_resource_selected(selected, None, Some(name), url),
{
}

/// Letter case makes no difference to the CKAN format filter: resources whose format, name
/// and URL have the same lower-cased forms are kept or dropped alike; and with no format
/// selected every resource is kept.
pub proof fn law_ckan_filter_ignores_case(
    selected: Seq<Seq<char>>,
    format1: Seq<char>,
    format2: Seq<char>,
    name1: Seq<char>,
    name2: Seq<char>,
    url1: Seq<char>,
    url2: Seq<char>,
)
    requires
        lowercase_of(format1) == lowercase_of(format2),
        lowercase_of(name1) == lowercase_of(name2),
        lowercase_of(url1) == lowercase_of(url2),
    ensures
        ckan_resource_selected(selected, Some(format1), Some(name1), Some(url1))
            == ckan_resource_selected(selected, Some(format2), Some(name2), Some(url2)),
        ckan_resource_selected(Seq::empty(), Some(format1), Some(name1), Some(url1)),
{
}

/// The indices of the CKAN resources that pass the format filter, in order.
pub open spec fn ckan_kept_resources(selected: Seq<Seq<char>>, res: Seq<ResourceFields>) -> Seq<usize>
    decreases res.len(),
{
    if res.len() == 0 {
        Seq::empty()
    } else {
        let rest = ckan_kept_resources(selected, res.drop_last());
        let r = res.last();
        if ckan_resource_selected(selected, opt_text(r.format), opt_text(r.name), opt_text(r.url)) {
            rest.push((res.len() - 1) as usize)
        } else {
            rest
        }
    }
}

/// What the CKAN format filter does with a package: it keeps the resources that pass,
/// and drops the package when none does (also a package without resources).
pub open spec fn ckan_package_filter(selected: Seq<Seq<char>>, res: Seq<ResourceFields>) -> FilterSpec {
    if ckan_kept_resources(selected, res).len() == 0 {
        FilterSpec::Drop
    } else {
        FilterSpec::Entries(ckan_kept_resources(selected, res))
    }
}

/// Applies the CKAN format filter to the resources of one package.
pub fn filter_ckan_package(selected: &Vec<String>, resources: &Vec<ResourceFields>) -> (r: ResultFilter)
    ensures
        match (r, ckan_package_filter(selected.deep_view(), resources@)) {
            (ResultFilter::Drop, FilterSpec::Drop) => true,
            (ResultFilter::Entries(a), FilterSpec::Entries(b)) => a@ == b,
            _ => false,
        },
{
    let mut kept: Vec<usize> = Vec::new();
    let mut i: usize = 0;
    assert(resources@.take(0) == Seq::<ResourceFields>::empty());
    while i < resources.len()
        invariant
            i <= resources.len(),
            kept@ == ckan_kept_resources(selected.deep_view(), resources@.take(i as int)),
        decreases resources.len() - i,
    {
        assert(resources@.take(i + 1).drop_last() == resources@.take(i as int));
        assert(resources@.take(i + 1).last() == resources@[i as int]);
        if ckan_resource_kept(selected, &resources[i]) {
            kept.push(i);
        }
        i += 1;
    }
    assert(resources@.take(resources.len() as int) == resources@);
    if kept.len() == 0 {
        ResultFilter::Drop
    } else {
        ResultFilter::Entries(kept)
    }
}

/// The body of a CKAN `package_search` request.
#[derive(Debug)]
pub struct CkanQuery {
    pub q: String,
    pub rows: i64,
    pub start: i64,
    pub fq: Option<String>,
}

/// The CKAN query text: the trimmed search term, or `*:*` when it is blank.
pub open spec fn ckan_q_spec(query: Seq<char>) -> Seq<char> {
    if trim_seq(query).len() == 0 { "*:*"@ } else { trim_seq(query) }
}

/// The CKAN filter query for the selected groups, if any is selected.
pub open spec fn ckan_fq_spec(groups: Option<Seq<Seq<char>>>) -> Option<Seq<char>> {
    match groups {
        Some(g) => if g.len() > 0 { Some("groups:("@ + join_seq(g, " OR "@) + ")"@) } else { None },
        None => None,
    }
}

/// Builds the body of a CKAN `package_search` request.
pub fn ckan_query(query: &str, rows: i64, start: i64, groups: Option<&Vec<String>>) -> (r: CkanQuery)
    ensures
        r.q@ == ckan_q_spec(query@),
        r.rows == rows,
        r.start == start,
        opt_text(r.fq) == ckan_fq_spec(match groups { Some(g) => Some(g.deep_view()), None => None }),
{
    let t = trim(query);
    let q = if t.as_str().is_empty() { "*:*".to_owned() } else { t };
    let fq = match groups {
        Some(g) => if g.len() > 0 {
            let j = join(g, " OR ");
            let a = concat("groups:(", j.as_str());
            Some(concat(a.as_str(), ")"))
        } else {
            None
        },
        None => None,
    };
    CkanQuery { q, rows, start, fq }
}

/// The GraphQL query of a DPF search: the adapter's template with `{{term}}`, `{{start}}`,
/// `{{rows}}`, `{{attribute_filter}}` and `{{fields}}` replaced, in that order.
pub open spec fn dpf_search_query_spec(
    template: Seq<char>,
    fields: Seq<char>,
    query: Seq<char>,
    start: nat,
    rows: nat,
    groups: Seq<Seq<char>>,
) -> Seq<char> {
    let term = replace_seq(trim_seq(query), "\""@, "\\\""@);
    let a = replace_seq(template, "{{term}}"@, term);
    let b = replace_seq(a, "{{start}}"@, decimal_seq(start));
    let c = replace_seq(b, "{{rows}}"@, decimal_seq(rows));
    let d = replace_seq(c, "{{attribute_filter}}"@, attribute_filter_seq(groups));
    replace_seq(d, "{{fields}}"@, fields)
}

/// Fills in the adapter's search template for a DPF search.
pub fn dpf_search_query(
    template: &str,
    fields: &str,
    query: &str,
    start: i64,
    rows: i64,
    groups: &[String],
) -> (r: String)
    requires
        start >= 0,
        rows >= 0,
    ensures
        r@ == dpf_search_query_spec(template@, fields@, query@, start as nat, rows as nat, groups@.map_values(|g: String| g@)),
{
    proof {
        reveal_strlit("\"");
        reveal_strlit("{{term}}");
        reveal_strlit("{{start}}");
        reveal_strlit("{{rows}}");
        reveal_strlit("{{attribute_filter}}");
        reveal_strlit("{{fields}}");
    }
    let t = trim(query);
    let term = replace(t.as_str(), "\"", "\\\"");
    let filter = dpf_attribute_filter(groups);
    let a = replace(template, "{{term}}", term.as_str());
    let s = decimal(start as u64);
    let b = replace(a.as_str(), "{{start}}", s.as_str());
    let n = decimal(rows as u64);
    let c = replace(b.as_str(), "{{rows}}", n.as_str());
    let d = replace(c.as_str(), "{{attribute_filter}}", filter.as_str());
    replace(d.as_str(), "{{fields}}", fields)
}

/// A file whose download URL is asked of the DPF.
#[derive(Debug)]
pub struct DpfFile {
    pub id: String,
    pub original_path: String,
}

/// A request for the download URLs of DPF files.
#[derive(Debug)]
pub struct DpfDownloadUrlsRequest {
    pub api_url: String,
    pub api_key: String,
    pub files: Vec<DpfFile>,
}

/// The GraphQL item for one file; `"` in the id and path is escaped.
pub open spec fn dpf_file_item(id: Seq<char>, path: Seq<char>) -> Seq<char> {
    "{ id: \""@ + replace_seq(id, "\""@, "\\\""@) + "\", original_path: \""@ + replace_seq(path, "\""@, "\\\""@) + "\" }"@
}

/// The view of a file list as (id, path) pairs.
pub open spec fn dpf_files_view(files: Seq<DpfFile>) -> Seq<Seq<char>> {
    files.map_values(|f: DpfFile| dpf_file_item(f.id@, f.original_path@))
}

/// The GraphQL query for the download URLs: the adapter's template with `{{files}}`
/// replaced by the file items joined with `, `.
pub open spec fn dpf_download_query_spec(template: Seq<char>, files: Seq<DpfFile>) -> Seq<char> {
    replace_seq(template, "{{files}}"@, join_seq(dpf_files_view(files), ", "@))
}

/// Fills in the adapter's download template for the given files.
pub fn dpf_download_query(template: &str, files: &Vec<DpfFile>) -> (r: String)
    ensures
        r@ == dpf_download_query_spec(template@, files@),
{
    let mut items: Vec<String> = Vec::new();
    let mut i: usize = 0;
    while i < files.len()
        invariant
            i <= files.len(),
            items.len() == i,
            forall|k: int| 0 <= k < i ==> #[trigger] items[k]@ == dpf_file_item(files@[k].id@, files@[k].original_path@),
        decreases files.len() - i,
    {
        proof { reveal_strlit("\""); }
        let id = replace(files[i].id.as_str(), "\"", "\\\"");
        let path = replace(files[i].original_path.as_str(), "\"", "\\\"");
        let a = concat("{ id: \"", id.as_str());
        let b = concat(a.as_str(), "\", original_path: \"");
        let c = concat(b.as_str(), path.as_str());
        items.push(concat(c.as_str(), "\" }"));
        i += 1;
    }
    assert(items.deep_view() =~= dpf_files_view(files@));
    let joined = join(&items, ", ");
    proof { reveal_strlit("{{files}}"); }
    replace(template, "{{files}}", joined.as_str())
}

/// A catalog site that can be searched.
#[derive(Debug)]
pub struct CatalogInstance {
    pub title: String,
    pub url: String,
    pub url_api: String,
    pub catalog_type: String,
    pub country: Option<String>,
    pub description: Option<String>,
}

/// A dataset search request.
#[derive(Debug)]
pub struct SearchRequest {
    pub api_url: String,
    pub query: String,
    pub rows: Option<i64>,
    pub start: Option<i64>,
    pub groups: Option<Vec<String>>,
    pub formats: Option<String>,
    pub catalog_type: String,
    pub api_key: Option<String>,
}

/// A request for the groups (categories) of a catalog.
#[derive(Debug)]
pub struct GroupsRequest {
    pub api_url: String,
    pub catalog_type: String,
    pub api_key: Option<String>,
}

/// A group (category) of a catalog.
#[derive(Debug)]
pub struct GroupInfo {
    pub name: String,
    pub title: String,
}

/// Whether a catalog type names the DPF GraphQL catalog.
pub fn is_dpf_catalog(catalog_type: &str) -> (b: bool)
    ensures
        b == (catalog_type@ == "dpf"@),
{
    same_text(catalog_type, "dpf")
}

/// A groups request goes to the DPF when its URL names the DPF or its catalog type is `dpf`.
pub fn groups_from_dpf(req: &GroupsRequest) -> (b: bool)
    ensures
        b == (names_dpf_host(lowercase_of(req.api_url@)) || req.catalog_type@ == "dpf"@),
{
    is_dpf_url(req.api_url.as_str()) || is_dpf_catalog(req.catalog_type.as_str())
}

/// A JSON field as the group parsers read it.
#[derive(Debug)]
pub enum JsonText {
    /// The object has no such field.
    Missing,
    /// The field is present but is not a string.
    NotText,
    /// The field is a string.
    Text(String),
}

/// The text of a field, when it is a string.
pub open spec fn json_text(f: JsonText) -> Option<Seq<char>> {
    match f { JsonText::Text(s) => Some(s@), _ => None }
}

/// A CKAN group from `group_list`: its `name` must be a string; its title is
/// `display_name` when that field is present (else `title`), if that is a string,
/// else the name.
pub open spec fn ckan_group_spec(name: JsonText, display_name: JsonText, title: JsonText) -> Option<(Seq<char>, Seq<char>)> {
    match json_text(name) {
        Some(n) => {
            let shown = if display_name is Missing { title } else { display_name };
            Some((n, match json_text(shown) { Some(t) => t, None => n }))
        },
        None => None,
    }
}

/// Reads one CKAN group entry.
pub fn ckan_group(name: JsonText, display_name: JsonText, title: JsonText) -> (r: Option<GroupInfo>)
    ensures
        match (r, ckan_group_spec(name, display_name, title)) {
            (Some(g), Some(v)) => g.name@ == v.0 && g.title@ == v.1,
            (None, None) => true,
            _ => false,
        },
{
    match name {
        JsonText::Text(n) => {
            let shown = match display_name {
                JsonText::Missing => title,
                other => other,
            };
            let t = match shown {
                JsonText::Text(t) => t,
                _ => n.clone(),
            };
            Some(GroupInfo { name: n, title: t })
        },
        _ => None,
    }
}

/// A DPF catalog from `dataCatalog`: its `id` must be a string; its title is `title` if that
/// is a string, else the id.
pub fn dpf_group(id: Option<String>, title: Option<String>) -> (r: Option<GroupInfo>)
    ensures
        match id {
            Some(i) => r matches Some(g) && g.name@ == i@ && g.title@ == (match title { Some(t) => t@, None => i@ }),
            None => r is None,
        },
{
    match id {
        Some(i) => {
            let t = match title { Some(t) => t, None => i.clone() };
            Some(GroupInfo { name: i, title: t })
        },
        None => None,
    }
}

/// The default DPF endpoint for catalog listings.
pub open spec fn dpf_default_endpoint() -> Seq<char> {
    "https://data-platform.mlit.go.jp/api/v1/"@
}

/// The endpoint a DPF catalog listing goes to.
pub fn dpf_catalog_endpoint(api_url: &str) -> (r: String)
    ensures
        r@ == dpf_endpoint_spec(api_url@, dpf_default_endpoint()),
{
    dpf_endpoint(api_url, "https://data-platform.mlit.go.jp/api/v1/")
}

/// Whether a catalog entry is of type `dpf`.
pub open spec fn is_dpf_instance(c: CatalogInstance) -> bool {
    c.catalog_type@ == "dpf"@
}

/// The built-in entry of the MLIT Data Platform, with its title, site, GraphQL API root,
/// type `dpf`, country `JP` and description.
pub open spec fn is_builtin_dpf(c: CatalogInstance) -> bool {
    &&& c.title@ == "国土交通データプラットフォーム"@
    &&& c.url@ == "https://data-platform.mlit.go.jp/"@
    &&& c.url_api@ == dpf_default_endpoint()
    &&& c.catalog_type@ == "dpf"@
    &&& opt_text(c.country) == Some("JP"@)
    &&& opt_text(c.description) == Some("国土交通省 DPF（GraphQL）"@)
}

/// The built-in DPF catalog entry, added when no listed catalog is of type `dpf`.
pub fn dpf_instance() -> (c: CatalogInstance)
    ensures
        is_builtin_dpf(c),
        is_dpf_instance(c),
{
    CatalogInstance {
        title: "国土交通データプラットフォーム".to_owned(),
        url: "https://data-platform.mlit.go.jp/".to_owned(),
        url_api: "https://data-platform.mlit.go.jp/api/v1/".to_owned(),
        catalog_type: "dpf".to_owned(),
        country: Some("JP".to_owned()),
        description: Some("国土交通省 DPF（GraphQL）".to_owned()),
    }
}

/// All entries of the lists, in order.
pub open spec fn flatten_instances(lists: Seq<Vec<CatalogInstance>>) -> Seq<CatalogInstance>
    decreases lists.len(),
{
    if lists.len() == 0 {
        Seq::empty()
    } else {
        flatten_instances(lists.drop_last()) + lists.last()@
    }
}

fn clone_opt(o: &Option<String>) -> (r: Option<String>)
    ensures
        r == *o,
{
    match o { Some(s) => Some(s.clone()), None => None }
}

/// A copy of a catalog entry.
pub fn clone_instance(c: &CatalogInstance) -> (r: CatalogInstance)
    ensures
        r == *c,
{
    CatalogInstance {
        title: c.title.clone(),
        url: c.url.clone(),
        url_api: c.url_api.clone(),
        catalog_type: c.catalog_type.clone(),
        country: clone_opt(&c.country),
        description: clone_opt(&c.description),
    }
}

/// Merges the catalog lists read from the sources, in order, adding the built-in DPF entry
/// at the end when none of them is of type `dpf`. The result is never empty, so the
/// `Err` case (no catalog at all) never occurs.
pub fn merge_instances(lists: &Vec<Vec<CatalogInstance>>) -> (r: Result<Vec<CatalogInstance>, String>)
    ensures
        r matches Ok(v) && ({
            let all = flatten_instances(lists@);
            if exists|i: int| 0 <= i < all.len() && is_dpf_instance(#[trigger] all[i]) {
                v@ == all
            } else {
                v@.drop_last() == all && is_builtin_dpf(v@.last()) && v@.len() == all.len() + 1
            }
        }),
{
    let mut servers: Vec<CatalogInstance> = Vec::new();
    let mut i: usize = 0;
    assert(lists@.take(0) == Seq::<Vec<CatalogInstance>>::empty());
    while i < lists.len()
        invariant
            i <= lists.len(),
            servers@ == flatten_instances(lists@.take(i as int)),
        decreases lists.len() - i,
    {
        assert(lists@.take(i + 1).drop_last() == lists@.take(i as int));
        let ghost before = servers@;
        let l = &lists[i];
        let mut j: usize = 0;
        while j < l.len()
            invariant
                j <= l.len(),
                servers@ == before + l@.take(j as int),
            decreases l.len() - j,
        {
            servers.push(clone_instance(&l[j]));
            assert(l@.take(j + 1) == l@.take(j as int).push(l@[j as int]));
            j += 1;
        }
        assert(l@.take(l.len() as int) == l@);
        i += 1;
    }
    assert(lists@.take(lists.len() as int) == lists@);
    let mut has_dpf = false;
    let mut k: usize = 0;
    while k < servers.len()
        invariant
            k <= servers.len(),
            has_dpf == exists|m: int| 0 <= m < k && is_dpf_instance(#[trigger] servers@[m]),
        decreases servers.len() - k,
    {
        if is_dpf_catalog(servers[k].catalog_type.as_str()) {
            has_dpf = true;
        }
        k += 1;
    }
    if !has_dpf {
        let ghost before = servers@;
        servers.push(dpf_instance());
        assert(servers@.drop_last() == before);
    }
    if servers.len() == 0 {
        return Err("CKAN カタログ一覧を取得できませんでした".to_owned());
    }
    Ok(servers)
}


/// The entries `(target, source)` of a DPF field map whose source field the result has,
/// in the map's order.
pub open spec fn present_fields(field_map: Seq<(Seq<char>, Seq<char>)>, keys: Seq<Seq<char>>) -> Seq<(Seq<char>, Seq<char>)>
    decreases field_map.len(),
{
    if field_map.len() == 0 {
        Seq::empty()
    } else {
        let rest = present_fields(field_map.drop_last(), keys);
        if keys.contains(field_map.last().1) { rest.push(field_map.last()) } else { rest }
    }
}

/// The view of a list of string pairs.
pub open spec fn pairs_view(p: Seq<(String, String)>) -> Seq<(Seq<char>, Seq<char>)> {
    p.map_values(|e: (String, String)| (e.0@, e.1@))
}

/// Maps a DPF search result to the catalog's own field names: for each `(target, source)`
/// of the adapter's field map whose `source` is among the result's field names `keys`,
/// the result's `source` field is copied to `target`.
pub fn map_dpf_result(field_map: &Vec<(String, String)>, keys: &Vec<String>) -> (r: Vec<(String, String)>)
    ensures
        pairs_view(r@) == present_fields(pairs_view(field_map@), keys.deep_view()),
{
    let ghost fv = pairs_view(field_map@);
    let mut out: Vec<(String, String)> = Vec::new();
    let mut i: usize = 0;
    assert(fv.take(0) == Seq::<(Seq<char>, Seq<char>)>::empty());
    while i < field_map.len()
        invariant
            i <= field_map.len(),
            fv == pairs_view(field_map@),
            pairs_view(out@) == present_fields(fv.take(i as int), keys.deep_view()),
        decreases field_map.len() - i,
    {
        assert(fv.take(i + 1).drop_last() == fv.take(i as int));
        assert(fv.take(i + 1).last() == (field_map@[i as int].0@, field_map@[i as int].1@));
        if contains_text(keys, field_map[i].1.as_str()) {
            let ghost before = out@;
            out.push((field_map[i].0.clone(), field_map[i].1.clone()));
            assert(pairs_view(out@) == pairs_view(before).push((field_map@[i as int].0@, field_map@[i as int].1@)));
        }
        i += 1;
    }
    assert(fv.take(field_map.len() as int) == fv);
    out
}


/// With no format selected, the CKAN filter keeps every resource of a package, in order
/// (so only a package without resources is dropped; for a list that fits in memory).
pub proof fn law_ckan_no_selection_keeps_all(res: Seq<ResourceFields>)
    requires
        res.len() <= usize::MAX,
    ensures
        ckan_kept_resources(Seq::empty(), res).len() == res.len(),
        forall|k: int| 0 <= k < res.len() ==> #[trigger] ckan_kept_resources(Seq::empty(), res)[k] == k,
    decreases res.len(),
{
    if res.len() > 0 {
        law_ckan_no_selection_keeps_all(res.drop_last());
        let rest = ckan_kept_resources(Seq::empty(), res.drop_last());
        let r = res.last();
        assert(ckan_resource_selected(Seq::empty(), opt_text(r.format), opt_text(r.name), opt_text(r.url)));
        assert(ckan_kept_resources(Seq::empty(), res) == rest.push((res.len() - 1) as usize));
    }
}

/// The CKAN filter keeps resources in their order, and each kept one passes the filter
/// (for a list that fits in memory).
pub proof fn law_ckan_kept_pass(selected: Seq<Seq<char>>, res: Seq<ResourceFields>)
    requires
        res.len() <= usize::MAX,
    ensures
        forall|a: int, b: int| 0 <= a < b < ckan_kept_resources(selected, res).len()
            ==> #[trigger] ckan_kept_resources(selected, res)[a] < #[trigger] ckan_kept_resources(selected, res)[b],
        forall|k: int| 0 <= k < ckan_kept_resources(selected, res).len() ==> {
            let i = #[trigger] ckan_kept_resources(selected, res)[k] as int;
            &&& 0 <= i < res.len()
            &&& ckan_resource_selected(selected, opt_text(res[i].format), opt_text(res[i].name), opt_text(res[i].url))
        },
    decreases res.len(),
{
    if res.len() > 0 {
        let prev = res.drop_last();
        law_ckan_kept_pass(selected, prev);
        let rest = ckan_kept_resources(selected, prev);
        let all = ckan_kept_resources(selected, res);
        let last = (res.len() - 1) as usize;
        if ckan_resource_selected(selected, opt_text(res.last().format), opt_text(res.last().name), opt_text(res.last().url)) {
            assert(all == rest.push(last));
        } else {
            assert(all == rest);
        }
        assert forall|k: int| 0 <= k < all.len() implies {
            let i = #[trigger] all[k] as int;
            &&& 0 <= i < res.len()
            &&& ckan_resource_selected(selected, opt_text(res[i].format), opt_text(res[i].name), opt_text(res[i].url))
        } by {
            if k < rest.len() {
                assert(all[k] == rest[k]);
                assert(prev[rest[k] as int] == res[rest[k] as int]);
            } else {
                assert(all[k] == last);
            }
        }
        assert forall|a: int, b: int| 0 <= a < b < all.len() implies #[trigger] all[a] < #[trigger] all[b] by {
            assert(all[a] == rest[a]);
            if b < rest.len() {
                assert(all[b] == rest[b]);
            } else {
                assert(all[b] == last);
                assert((rest[a] as int) < prev.len());
            }
        }
    }
}

/// With no format selected, every DPF result stays whole.
pub proof fn law_dpf_no_selection_keeps_whole(paths: Seq<Option<Seq<char>>>)
    ensures
        dpf_result_filter(Seq::empty(), paths) == FilterSpec::Whole,
{
}

/// The DPF filter keeps files in their order, and each kept one has a selected extension
/// (for a list that fits in memory).
pub proof fn law_dpf_kept_pass(selected: Seq<Seq<char>>, paths: Seq<Option<Seq<char>>>)
    requires
        paths.len() <= usize::MAX,
    ensures
        forall|a: int, b: int| 0 <= a < b < dpf_kept_files(selected, paths).len()
            ==> #[trigger] dpf_kept_files(selected, paths)[a] < #[trigger] dpf_kept_files(selected, paths)[b],
        forall|k: int| 0 <= k < dpf_kept_files(selected, paths).len() ==> {
            let i = #[trigger] dpf_kept_files(selected, paths)[k] as int;
            &&& 0 <= i < paths.len()
            &&& dpf_file_selected(selected, paths[i])
        },
    decreases paths.len(),
{
    if paths.len() > 0 {
        let prev = paths.drop_last();
        law_dpf_kept_pass(selected, prev);
        let rest = dpf_kept_files(selected, prev);
        let all = dpf_kept_files(selected, paths);
        let last = (paths.len() - 1) as usize;
        if dpf_file_selected(selected, paths.last()) {
            assert(all == rest.push(last));
        } else {
            assert(all == rest);
        }
        assert forall|k: int| 0 <= k < all.len() implies {
            let i = #[trigger] all[k] as int;
            &&& 0 <= i < paths.len()
            &&& dpf_file_selected(selected, paths[i])
        } by {
            if k < rest.len() {
                assert(all[k] == rest[k]);
                assert(prev[rest[k] as int] == paths[rest[k] as int]);
            } else {
                assert(all[k] == last);
            }
        }
        assert forall|a: int, b: int| 0 <= a < b < all.len() implies #[trigger] all[a] < #[trigger] all[b] by {
            assert(all[a] == rest[a]);
            if b < rest.len() {
                assert(all[b] == rest[b]);
            } else {
                assert(all[b] == last);
                assert((rest[a] as int) < prev.len());
            }
        }
    }
}

/// The DPF attribute filter is empty exactly when no catalog is selected.
pub proof fn law_attribute_filter_empty_iff_no_groups(groups: Seq<Seq<char>>)
    ensures
        (attribute_filter_seq(groups).len() == 0) == (groups.len() == 0),
{
    reveal_strlit(", attributeFilter: { OR: [ ");
}

} // verus!
