//! Download planning: file names taken from URLs, made safe for the file system, and the
//! folders that downloads go to.
use vstd::prelude::*;
use crate::text::{
    chars_of, is_ws, lemma_trim_empty_iff_all_ws, opt_text, lemma_split_nonempty, lemma_split_append_plain, lemma_split_first_piece, push_char, split_on, split_seq,
    string_of_range, trim, trim_bounds, trim_end_seq, trim_seq, trim_start_seq,
};

verus! {

/// The number of bytes of the UTF-8 encoding of `c`.
pub open spec fn utf8_width(c: char) -> nat {
    if (c as u32) < 0x80 { 1 }
    else if (c as u32) < 0x800 { 2 }
    else if (c as u32) < 0x10000 { 3 }
    else { 4 }
}

/// The number of bytes of the UTF-8 encoding of `s` (`str::len`).
pub open spec fn utf8_len(s: Seq<char>) -> nat
    decreases s.len(),
{
    if s.len() == 0 { 0 } else { utf8_len(s.drop_last()) + utf8_width(s.last()) }
}

/// The longest prefix of `s` whose UTF-8 encoding has at most `limit` bytes.
pub open spec fn prefix_within(s: Seq<char>, limit: nat) -> Seq<char>
    decreases s.len(),
{
    if s.len() == 0 || utf8_len(s) <= limit { s } else { prefix_within(s.drop_last(), limit) }
}

/// The bytes of the UTF-8 encoding of `c`.
pub fn char_width(c: char) -> (w: usize)
    ensures
        w == utf8_width(c),
{
    let u = c as u32;
    if u < 0x80 { 1 } else if u < 0x800 { 2 } else if u < 0x10000 { 3 } else { 4 }
}

/// Characters that Windows does not accept in file names, with `%` and `#`.
pub open spec fn forbidden_in_name(c: char) -> bool {
    c == '<' || c == '>' || c == ':' || c == '"' || c == '/' || c == '\\' || c == '|' || c == '?'
        || c == '*' || c == '%' || c == '#'
}

/// A character made safe for a file name: a forbidden one becomes `_`.
pub open spec fn safe_char(c: char) -> char {
    if forbidden_in_name(c) { '_' } else { c }
}

/// `name` with every forbidden character replaced by `_`, or `resource` when the result is blank.
pub open spec fn sanitized_base(name: Seq<char>) -> Seq<char> {
    let m = name.map_values(|c: char| safe_char(c));
    if trim_seq(m).len() == 0 { "resource"@ } else { m }
}

/// The maximal length of a file name, in UTF-8 bytes.
pub open spec fn max_name_bytes() -> nat {
    200
}

/// Cutting the name down to 200 bytes falls on a character boundary, so it does not panic.
pub open spec fn cut_on_boundary(name: Seq<char>) -> bool {
    let b = sanitized_base(name);
    utf8_len(b) <= max_name_bytes() || utf8_len(prefix_within(b, max_name_bytes())) == max_name_bytes()
}

/// A file name made safe: forbidden characters replaced by `_`, `resource` if blank,
/// and cut to at most 200 bytes.
pub open spec fn sanitized(name: Seq<char>) -> Seq<char> {
    prefix_within(sanitized_base(name), max_name_bytes())
}

proof fn lemma_utf8_len_take_mono(s: Seq<char>, a: int, b: int)
    requires
        0 <= a <= b <= s.len(),
    ensures
        utf8_len(s.take(a)) <= utf8_len(s.take(b)),
    decreases b - a,
{
    if a < b {
        assert(s.take(b).drop_last() == s.take(b - 1));
        lemma_utf8_len_take_mono(s, a, b - 1);
    }
}

proof fn lemma_prefix_within_take(s: Seq<char>, limit: nat, k: int, m: int)
    requires
        0 <= k <= m <= s.len(),
        utf8_len(s.take(k)) <= limit,
        k == s.len() || utf8_len(s.take(k + 1)) > limit,
    ensures
        prefix_within(s.take(m), limit) == s.take(k),
    decreases m - k,
{
    if m > k {
        lemma_utf8_len_take_mono(s, k + 1, m);
        assert(s.take(m).drop_last() == s.take(m - 1));
        lemma_prefix_within_take(s, limit, k, m - 1);
    }
}

/// The length in bytes of the longest prefix of `v` within `limit` bytes, as a char count.
fn prefix_within_count(v: &Vec<char>, limit: usize) -> (k: usize)
    ensures
        k <= v.len(),
        v@.take(k as int) == prefix_within(v@, limit as nat),
        utf8_len(v@.take(k as int)) <= limit,
{
    let n = v.len();
    let mut k: usize = 0;
    let mut total: usize = 0;
    assert(v@.take(0) == Seq::<char>::empty());
    while k < n && total <= limit && char_width(v[k]) <= limit - total
        invariant
            k <= n == v.len(),
            total == utf8_len(v@.take(k as int)),
            total <= limit,
        decreases n - k,
    {
        assert(v@.take(k + 1).drop_last() == v@.take(k as int));
        total = total + char_width(v[k]);
        k += 1;
    }
    if k < n {
        assert(v@.take(k + 1).drop_last() == v@.take(k as int));
    }
    proof {
        lemma_prefix_within_take(v@, limit as nat, k as int, n as int);
        assert(v@.take(n as int) == v@);
    }
    k
}

fn safe(c: char) -> (r: char)
    ensures
        r == safe_char(c),
{
    if c == '<' || c == '>' || c == ':' || c == '"' || c == '/' || c == '\\' || c == '|' || c == '?'
        || c == '*' || c == '%' || c == '#' {
        '_'
    } else {
        c
    }
}

fn sanitized_base_chars(name: &str) -> (r: Vec<char>)
    ensures
        r@ == sanitized_base(name@),
{
    let v = chars_of(name);
    let mut m: Vec<char> = Vec::new();
    let mut i: usize = 0;
    while i < v.len()
        invariant
            i <= v.len(),
            m@ == v@.take(i as int).map_values(|c: char| safe_char(c)),
        decreases v.len() - i,
    {
        m.push(safe(v[i]));
        assert(v@.take(i + 1).map_values(|c: char| safe_char(c))
            == v@.take(i as int).map_values(|c: char| safe_char(c)).push(safe_char(v@[i as int])));
        i += 1;
    }
    assert(v@.take(v.len() as int) == v@);
    let (a, b) = trim_bounds(&m);
    if a == b {
        chars_of("resource")
    } else {
        m
    }
}

/// Whether cutting the safe form of `name` to 200 bytes falls on a character boundary.
pub fn cuts_on_boundary(name: &str) -> (r: bool)
    ensures
        r == cut_on_boundary(name@),
{
    let b = sanitized_base_chars(name);
    let k = prefix_within_count(&b, 200);
    proof { lemma_utf8_len_take_mono(b@, k as int, b@.len() as int); }
    assert(b@.take(b@.len() as int) == b@);
    let mut total: usize = 0;
    let mut i: usize = 0;
    assert(b@.take(0) == Seq::<char>::empty());
    while i < k
        invariant
            i <= k <= b.len(),
            total == utf8_len(b@.take(i as int)),
            utf8_len(b@.take(k as int)) <= 200,
        decreases k - i,
    {
        assert(b@.take(i + 1).drop_last() == b@.take(i as int));
        proof { lemma_utf8_len_take_mono(b@, i + 1, k as int); }
        total = total + char_width(b[i]);
        i += 1;
    }
    total == 200 || k == b.len()
}

/// Makes a name usable as a Windows file name: each of `< > : " / \ | ? * % #` becomes `_`,
/// a blank result becomes `resource`, and the result is cut to at most 200 bytes.
/// Cutting panics off a character boundary, so `requires` leaves those names out.
pub fn sanitize_filename(name: &str) -> (r: String)
    requires
        cut_on_boundary(name@),
    ensures
        r@ == sanitized(name@),
        utf8_len(r@) <= max_name_bytes(),
        r@.len() > 0,
        forall|i: int| 0 <= i < r@.len() ==> !forbidden_in_name(#[trigger] r@[i]),
{
    let b = sanitized_base_chars(name);
    let k = prefix_within_count(&b, 200);
    proof {
        reveal_strlit("resource");
        lemma_base_safe(name@);
        if k == 0 {
            assert(utf8_len(b@.take(0)) == 0);
        }
    }
    string_of_range(&b, 0, k)
}

/// A cut to `limit` bytes keeps as much as fits: the next character would pass the limit.
proof fn lemma_prefix_within_maximal(s: Seq<char>, limit: nat)
    ensures
        prefix_within(s, limit).len() < s.len() ==> utf8_len(s.take(prefix_within(s, limit).len() as int + 1)) > limit,
    decreases s.len(),
{
    if !(s.len() == 0 || utf8_len(s) <= limit) {
        lemma_prefix_within_maximal(s.drop_last(), limit);
        lemma_prefix_within_is_prefix(s.drop_last(), limit);
        let k = prefix_within(s, limit).len() as int;
        if k < s.len() - 1 {
            assert(s.drop_last().take(k + 1) == s.take(k + 1));
        } else {
            assert(s.take(k + 1) == s);
        }
    }
}

/// Making characters safe keeps the UTF-8 length of every prefix.
proof fn lemma_safe_keeps_width(name: Seq<char>, k: int)
    requires
        0 <= k <= name.len(),
    ensures
        utf8_len(name.map_values(|c: char| safe_char(c)).take(k)) == utf8_len(name.take(k)),
    decreases k,
{
    let m = name.map_values(|c: char| safe_char(c));
    if k > 0 {
        lemma_safe_keeps_width(name, k - 1);
        assert(m.take(k).drop_last() == m.take(k - 1));
        assert(name.take(k).drop_last() == name.take(k - 1));
        assert(m.take(k).last() == safe_char(name[k - 1]));
        assert(name.take(k).last() == name[k - 1]);
    }
}

/// Making a name safe keeps its characters in order, turns each of
/// `< > : " / \ | ? * % #` into `_` and keeps every other character, then cuts the result to
/// at most 200 bytes of UTF-8, keeping as many characters as fit; a name made only of
/// whitespace becomes `resource`.
pub proof fn law_sanitize_characters(name: Seq<char>)
    ensures
        (exists|i: int| 0 <= i < name.len() && !is_ws(#[trigger] name[i])) ==> {
            let r = sanitized(name);
            &&& r.len() <= name.len()
            &&& utf8_len(r) <= 200
            &&& (r.len() == name.len() || utf8_len(name.take(r.len() as int + 1)) > 200)
            &&& forall|i: int| 0 <= i < r.len() ==> #[trigger] r[i] == (
                if name[i] == '<' || name[i] == '>' || name[i] == ':' || name[i] == '"' || name[i] == '/'
                    || name[i] == '\\' || name[i] == '|' || name[i] == '?' || name[i] == '*' || name[i] == '%'
                    || name[i] == '#' { '_' } else { name[i] })
        },
        (forall|i: int| 0 <= i < name.len() ==> is_ws(#[trigger] name[i])) ==> sanitized(name) == "resource"@,
{
    let m = name.map_values(|c: char| safe_char(c));
    lemma_trim_empty_iff_all_ws(m);
    lemma_prefix_within_is_prefix(sanitized_base(name), max_name_bytes());
    lemma_prefix_within_bound(sanitized_base(name), max_name_bytes());
    if exists|i: int| 0 <= i < name.len() && !is_ws(#[trigger] name[i]) {
        let i = choose|i: int| 0 <= i < name.len() && !is_ws(#[trigger] name[i]);
        assert(!is_ws(m[i]));
        assert(sanitized_base(name) == m);
        let r = sanitized(name);
        lemma_prefix_within_maximal(m, max_name_bytes());
        if r.len() < name.len() {
            lemma_safe_keeps_width(name, r.len() as int + 1);
        }
        assert forall|k: int| 0 <= k < r.len() implies #[trigger] r[k] == (
            if name[k] == '<' || name[k] == '>' || name[k] == ':' || name[k] == '"' || name[k] == '/'
                || name[k] == '\\' || name[k] == '|' || name[k] == '?' || name[k] == '*' || name[k] == '%'
                || name[k] == '#' { '_' } else { name[k] }) by {
            assert(r[k] == m[k]);
        }
    }
    if forall|i: int| 0 <= i < name.len() ==> is_ws(#[trigger] name[i]) {
        assert forall|i: int| 0 <= i < m.len() implies is_ws(#[trigger] m[i]) by {
            assert(m[i] == safe_char(name[i]));
        }
        reveal_strlit("resource");
        assert(sanitized_base(name) == "resource"@);
        assert(utf8_len("resource"@) <= 200) by {
            let t = "resource"@;
            assert(t.len() == 8);
            assert(utf8_len(t.take(0)) == 0);
            assert(t.take(1).drop_last() =~= t.take(0) && t.take(1).last() == t[0] && (t[0] as u32) < 0x80);
            assert(utf8_len(t.take(1)) == 1);
            assert(t.take(2).drop_last() =~= t.take(1) && t.take(2).last() == t[1] && (t[1] as u32) < 0x80);
            assert(utf8_len(t.take(2)) == 2);
            assert(t.take(3).drop_last() =~= t.take(2) && t.take(3).last() == t[2] && (t[2] as u32) < 0x80);
            assert(utf8_len(t.take(3)) == 3);
            assert(t.take(4).drop_last() =~= t.take(3) && t.take(4).last() == t[3] && (t[3] as u32) < 0x80);
            assert(utf8_len(t.take(4)) == 4);
            assert(t.take(5).drop_last() =~= t.take(4) && t.take(5).last() == t[4] && (t[4] as u32) < 0x80);
            assert(utf8_len(t.take(5)) == 5);
            assert(t.take(6).drop_last() =~= t.take(5) && t.take(6).last() == t[5] && (t[5] as u32) < 0x80);
            assert(utf8_len(t.take(6)) == 6);
            assert(t.take(7).drop_last() =~= t.take(6) && t.take(7).last() == t[6] && (t[6] as u32) < 0x80);
            assert(utf8_len(t.take(7)) == 7);
            assert(t.take(8).drop_last() =~= t.take(7) && t.take(8).last() == t[7] && (t[7] as u32) < 0x80);
            assert(utf8_len(t.take(8)) == 8);
            assert(t.take(8) == t);
        }
    }
}

proof fn lemma_base_safe(name: Seq<char>)
    ensures
        sanitized_base(name).len() > 0,
        forall|i: int| 0 <= i < sanitized_base(name).len() ==> !forbidden_in_name(#[trigger] sanitized_base(name)[i]),
{
    reveal_strlit("resource");
    let m = name.map_values(|c: char| safe_char(c));
    if trim_seq(m).len() > 0 {
        assert(m.len() > 0) by {
            if m.len() == 0 {
                assert(trim_start_seq(m) == m);
                assert(trim_end_seq(m) == m);
            }
        }
    }
}

proof fn lemma_prefix_within_is_prefix(s: Seq<char>, limit: nat)
    ensures
        prefix_within(s, limit).len() <= s.len(),
        prefix_within(s, limit) == s.take(prefix_within(s, limit).len() as int),
    decreases s.len(),
{
    if !(s.len() == 0 || utf8_len(s) <= limit) {
        lemma_prefix_within_is_prefix(s.drop_last(), limit);
        assert(s.drop_last().take(prefix_within(s, limit).len() as int) == s.take(prefix_within(s, limit).len() as int));
    } else {
        assert(s.take(s.len() as int) == s);
    }
}

/// Making a name safe twice changes nothing more than making it safe once, unless the
/// first result is blank (it can be, when the first 200 bytes of a long name are all
/// whitespace); a blank name becomes `resource` the second time.
pub proof fn lemma_sanitize_idempotent(name: Seq<char>)
    requires
        cut_on_boundary(name),
        trim_seq(sanitized(name)).len() > 0,
    ensures
        cut_on_boundary(sanitized(name)),
        sanitized(sanitized(name)) == sanitized(name),
{
    let y = sanitized(name);
    lemma_base_safe(name);
    lemma_prefix_within_is_prefix(sanitized_base(name), max_name_bytes());
    lemma_prefix_within_bound(sanitized_base(name), max_name_bytes());
    assert forall|i: int| 0 <= i < y.len() implies !forbidden_in_name(#[trigger] y[i]) by {
        assert(y[i] == sanitized_base(name)[i]);
    }
    let m = y.map_values(|c: char| safe_char(c));
    assert(m =~= y);
    assert(sanitized_base(y) == y);
}

proof fn lemma_prefix_within_bound(s: Seq<char>, limit: nat)
    ensures
        utf8_len(prefix_within(s, limit)) <= limit,
    decreases s.len(),
{
    if !(s.len() == 0 || utf8_len(s) <= limit) {
        lemma_prefix_within_bound(s.drop_last(), limit);
    }
}


/// The last `/`-separated piece of the part of `url` before the first `?`.
pub open spec fn url_last_segment(url: Seq<char>) -> Seq<char> {
    split_seq(split_seq(url, seq!['?'])[0], seq!['/']).last()
}

/// The file name a URL suggests: its last path segment, or `resource` when that is empty.
pub open spec fn url_file_name_spec(url: Seq<char>) -> Seq<char> {
    let seg = url_last_segment(url);
    if seg.len() == 0 { "resource"@ } else { seg }
}

/// The file name a URL suggests is its last path segment: for a URL made of a path ending in
/// `/` and a non-empty segment without `/` or `?`, optionally followed by a query starting with
/// `?`, it is that segment, whatever the path before it.
pub proof fn law_url_file_name_last_segment(path: Seq<char>, seg: Seq<char>, query: Seq<char>)
    requires
        !path.contains('?'),
        seg.len() > 0,
        !seg.contains('/'),
        !seg.contains('?'),
        query.len() == 0 || query[0] == '?',
    ensures
        url_file_name_spec(path + seq!['/'] + seg + query) == seg,
{
    let before = path + seq!['/'] + seg;
    let url = before + query;
    assert forall|i: int| 0 <= i < before.len() implies !seq!['?'].contains(#[trigger] before[i]) by {
        if seq!['?'].contains(before[i]) {
            assert(before[i] == '?');
            if i < path.len() {
                assert(path[i] == before[i]);
                assert(path.contains('?'));
            } else if i > path.len() {
                assert(seg[i - path.len() - 1] == before[i]);
                assert(seg.contains('?'));
            }
        }
    }
    if query.len() == 0 {
        assert(url =~= before);
        lemma_split_append_plain(Seq::empty(), before, seq!['?']);
        assert(Seq::<char>::empty() + before =~= before);
    } else {
        assert(seq!['?'].contains(query[0])) by {
            assert(seq!['?'][0] == query[0]);
        }
        lemma_split_first_piece(before, query, seq!['?']);
    }
    assert(split_seq(url, seq!['?'])[0] == before);
    assert forall|i: int| 0 <= i < seg.len() implies !seq!['/'].contains(#[trigger] seg[i]) by {
        if seq!['/'].contains(seg[i]) {
            assert(seg[i] == '/');
            assert(seg.contains('/'));
        }
    }
    let pre = path + seq!['/'];
    assert(pre.drop_last() =~= path);
    assert(pre.last() == '/');
    assert(seq!['/'].contains('/')) by {
        assert(seq!['/'][0] == '/');
    }
    lemma_split_nonempty(path, seq!['/']);
    assert(split_seq(pre, seq!['/']) == split_seq(path, seq!['/']).push(Seq::empty()));
    lemma_split_append_plain(pre, seg, seq!['/']);
    assert(Seq::<char>::empty() + seg =~= seg);
    assert(url_last_segment(url) == seg);
}

/// The file name a download URL suggests: the last `/`-separated segment before any `?`,
/// or `resource` when that segment is empty. `idx` is the item's position in the request.
pub fn filename_from_url(url: &str, idx: usize) -> (r: String)
    ensures
        r@ == url_file_name_spec(url@),
        r@.len() > 0,
        !r@.contains('/'),
        !r@.contains('?'),
{
    let q = vec!['?'];
    let parts = split_on(url, &q);
    proof {
        lemma_split_nonempty(url@, q@);
        lemma_split_pieces_avoid(url@, q@);
    }
    assert(q@ == seq!['?']);
    let before_q = parts[0].as_str();
    assert(before_q@ == parts.deep_view()[0]);
    let slash = vec!['/'];
    let mut segs = split_on(before_q, &slash);
    proof {
        lemma_split_nonempty(before_q@, slash@);
        lemma_split_pieces_avoid(before_q@, slash@);
    }
    assert(slash@ == seq!['/']);
    let ghost sv = segs.deep_view();
    let name = segs.pop().unwrap();
    assert(name@ == sv.last());
    proof {
        reveal_strlit("resource");
        assert(!before_q@.contains('?'));
        assert(!sv.last().contains('/'));
        assert forall|i: int| 0 <= i < name@.len() implies name@[i] != '?' by {
            lemma_split_piece_within(before_q@, slash@, sv.len() - 1, i);
        }
    }
    if name.as_str().is_empty() {
        // `idx` could number a fallback name, but the fallback `resource` is never empty.
        let _ = idx;
        "resource".to_owned()
    } else {
        name
    }
}

/// No piece of `split_seq(s, seps)` holds a separator.
pub proof fn lemma_split_pieces_avoid(s: Seq<char>, seps: Seq<char>)
    ensures
        forall|k: int, c: char| 0 <= k < split_seq(s, seps).len() && #[trigger] split_seq(s, seps)[k].contains(c)
            ==> !seps.contains(c),
    decreases s.len(),
{
    if s.len() > 0 {
        lemma_split_pieces_avoid(s.drop_last(), seps);
        lemma_split_nonempty(s.drop_last(), seps);
        let p = split_seq(s.drop_last(), seps);
        if !seps.contains(s.last()) {
            assert forall|k: int, c: char| 0 <= k < split_seq(s, seps).len() && #[trigger] split_seq(s, seps)[k].contains(c)
                implies !seps.contains(c) by {
                if k == p.len() - 1 {
                    let w = p.last().push(s.last());
                    let j = choose|j: int| 0 <= j < w.len() && w[j] == c;
                    if j < p.last().len() {
                        assert(p[k].contains(c));
                    }
                } else {
                    assert(p[k].contains(c));
                }
            }
        } else {
            assert forall|k: int, c: char| 0 <= k < split_seq(s, seps).len() && #[trigger] split_seq(s, seps)[k].contains(c)
                implies !seps.contains(c) by {
                if k < p.len() {
                    assert(p[k].contains(c));
                }
            }
        }
    }
}

/// Every character of a piece of `split_seq(s, seps)` is a character of `s`.
pub proof fn lemma_split_piece_within(s: Seq<char>, seps: Seq<char>, k: int, i: int)
    requires
        0 <= k < split_seq(s, seps).len(),
        0 <= i < split_seq(s, seps)[k].len(),
    ensures
        s.contains(split_seq(s, seps)[k][i]),
    decreases s.len(),
{
    if s.len() > 0 {
        lemma_split_nonempty(s.drop_last(), seps);
        let p = split_seq(s.drop_last(), seps);
        if seps.contains(s.last()) {
            if k < p.len() {
                lemma_split_piece_within(s.drop_last(), seps, k, i);
                let j = choose|j: int| 0 <= j < s.drop_last().len() && s.drop_last()[j] == p[k][i];
                assert(s[j] == p[k][i]);
            }
        } else {
            if k == p.len() - 1 && i == p.last().len() {
                assert(s[s.len() - 1] == s.last());
            } else {
                lemma_split_piece_within(s.drop_last(), seps, k, i);
                let j = choose|j: int| 0 <= j < s.drop_last().len() && s.drop_last()[j] == p[k][i];
                assert(s[j] == p[k][i]);
            }
        }
    }
}


/// One resource to download.
#[derive(Debug)]
pub struct DownloadItem {
    pub url: String,
    pub filename: Option<String>,
    pub catalog_title: Option<String>,
    pub dataset_title: Option<String>,
}

/// A download request: the items, and the folder to save them under.
#[derive(Debug)]
pub struct DownloadRequest {
    pub items: Vec<DownloadItem>,
    pub import_dir: Option<String>,
}

/// What happened to one downloaded item.
#[derive(Debug)]
pub struct DownloadResult {
    pub url: String,
    pub path: String,
    pub status: String,
}

/// The answer to a download request.
#[derive(Debug)]
pub struct DownloadResponse {
    pub imported_dir: String,
    pub results: Vec<DownloadResult>,
}

/// Where one item goes: its trimmed URL, and the catalog folder, dataset folder and file
/// name, each made safe.
#[derive(Debug)]
pub struct DownloadTarget {
    pub url: String,
    pub catalog: String,
    pub dataset: String,
    pub file_name: String,
}

/// The folder used when neither the request nor the environment names one.
pub open spec fn default_import_dir() -> Seq<char> {
    "C:\\kasugai\\data\\import"@
}

/// The folder downloads are saved under: the request's `import_dir`, else the
/// `KASUGAI_IMPORT_DIR` environment value, else `C:\kasugai\data\import`.
pub fn import_base_dir(req_dir: Option<&str>, env_dir: Option<&str>) -> (r: String)
    ensures
        r@ == match req_dir {
            Some(d) => d@,
            None => match env_dir { Some(e) => e@, None => default_import_dir() },
        },
{
    match req_dir {
        Some(d) => d.to_owned(),
        None => match env_dir {
            Some(e) => e.to_owned(),
            None => "C:\\kasugai\\data\\import".to_owned(),
        },
    }
}

/// The file name chosen for an item before it is made safe: its own trimmed `filename`
/// when that is not blank, else the name its URL suggests.
pub open spec fn chosen_name(filename: Option<Seq<char>>, url: Seq<char>) -> Seq<char> {
    match filename {
        Some(f) => if trim_seq(f).len() > 0 { trim_seq(f) } else { url_file_name_spec(trim_seq(url)) },
        None => url_file_name_spec(trim_seq(url)),
    }
}

/// A folder name from an optional title: the title made safe, or `default`.
pub open spec fn folder_name(title: Option<Seq<char>>) -> Seq<char> {
    match title {
        Some(t) => sanitized(t),
        None => "default"@,
    }
}

/// Every name of the item can be cut to 200 bytes on a character boundary.
pub open spec fn item_names_cut_on_boundary(item: DownloadItem) -> bool {
    &&& cut_on_boundary(chosen_name(opt_text(item.filename), item.url@))
    &&& (item.catalog_title matches Some(t) ==> cut_on_boundary(t@))
    &&& (item.dataset_title matches Some(t) ==> cut_on_boundary(t@))
}

fn chosen_file_name(item: &DownloadItem, url: &str, idx: usize) -> (r: String)
    requires
        url@ == trim_seq(item.url@),
    ensures
        r@ == chosen_name(opt_text(item.filename), item.url@),
{
    match &item.filename {
        Some(f) => {
            let t = trim(f.as_str());
            if t.as_str().is_empty() { filename_from_url(url, idx) } else { t }
        },
        None => filename_from_url(url, idx),
    }
}

/// Whether every name of the item can be cut to 200 bytes on a character boundary.
pub fn item_names_cuttable(item: &DownloadItem) -> (r: bool)
    ensures
        r == item_names_cut_on_boundary(*item),
{
    let url = trim(item.url.as_str());
    let name = chosen_file_name(item, url.as_str(), 0);
    let a = cuts_on_boundary(name.as_str());
    let b = match &item.catalog_title { Some(t) => cuts_on_boundary(t.as_str()), None => true };
    let c = match &item.dataset_title { Some(t) => cuts_on_boundary(t.as_str()), None => true };
    a && b && c
}

fn folder(title: &Option<String>) -> (r: String)
    requires
        title matches Some(t) ==> cut_on_boundary(t@),
    ensures
        r@ == folder_name(opt_text(*title)),
{
    match title {
        Some(t) => sanitize_filename(t.as_str()),
        None => "default".to_owned(),
    }
}

/// Plans the download of one item: `None` when its URL is blank (the item is skipped);
/// otherwise its trimmed URL, the safe catalog and dataset folder names (`default` when a
/// title is absent) and the safe file name.
pub fn plan_download(item: &DownloadItem, idx: usize) -> (r: Option<DownloadTarget>)
    requires
        item_names_cut_on_boundary(*item),
    ensures
        trim_seq(item.url@).len() == 0 ==> r is None,
        trim_seq(item.url@).len() > 0 ==> (r matches Some(t) && {
            &&& t.url@ == trim_seq(item.url@)
            &&& t.file_name@ == sanitized(chosen_name(opt_text(item.filename), item.url@))
            &&& t.catalog@ == folder_name(opt_text(item.catalog_title))
            &&& t.dataset@ == folder_name(opt_text(item.dataset_title))
        }),
{
    let url = trim(item.url.as_str());
    if url.as_str().is_empty() {
        return None;
    }
    let name = chosen_file_name(item, url.as_str(), idx);
    let file_name = sanitize_filename(name.as_str());
    let catalog = folder(&item.catalog_title);
    let dataset = folder(&item.dataset_title);
    Some(DownloadTarget { url, catalog, dataset, file_name })
}

/// The planned file name is the given file name, trimmed and made safe, whenever that name is
/// not blank, whatever the URL is; only for an absent or blank file name does it come from the
/// URL's last segment (made safe too).
pub proof fn law_download_name_prefers_given(item: DownloadItem, r: Option<DownloadTarget>)
    requires
        trim_seq(item.url@).len() > 0 ==> (r matches Some(t) && {
            &&& t.url@ == trim_seq(item.url@)
            &&& t.file_name@ == sanitized(chosen_name(opt_text(item.filename), item.url@))
            &&& t.catalog@ == folder_name(opt_text(item.catalog_title))
            &&& t.dataset@ == folder_name(opt_text(item.dataset_title))
        }),
        trim_seq(item.url@).len() > 0,
    ensures
        r matches Some(t) && {
            &&& (item.filename is Some && trim_seq(item.filename->0@).len() > 0)
                ==> t.file_name@ == sanitized(trim_seq(item.filename->0@))
            &&& (item.filename is None || trim_seq(item.filename->0@).len() == 0)
                ==> t.file_name@ == sanitized(url_file_name_spec(trim_seq(item.url@)))
        },
{
}

} // verus!
