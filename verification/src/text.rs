//! Character-level string operations, each specified over `Seq<char>`.
use vstd::prelude::*;

verus! {

/// Unicode `White_Space`, the set that `char::is_whitespace` tests.
pub open spec fn is_ws(c: char) -> bool {
    ||| ('\u{9}' <= c && c <= '\u{d}')
    ||| c == ' '
    ||| c == '\u{85}'
    ||| c == '\u{a0}'
    ||| c == '\u{1680}'
    ||| ('\u{2000}' <= c && c <= '\u{200a}')
    ||| c == '\u{2028}'
    ||| c == '\u{2029}'
    ||| c == '\u{202f}'
    ||| c == '\u{205f}'
    ||| c == '\u{3000}'
}

/// The view of an optional string.
pub open spec fn opt_text(o: Option<String>) -> Option<Seq<char>> {
    match o { Some(s) => Some(s@), None => None }
}

/// `s` without its leading whitespace.
pub open spec fn trim_start_seq(s: Seq<char>) -> Seq<char>
    decreases s.len(),
{
    if s.len() > 0 && is_ws(s[0]) {
        trim_start_seq(s.drop_first())
    } else {
        s
    }
}

/// `s` without its trailing whitespace.
pub open spec fn trim_end_seq(s: Seq<char>) -> Seq<char>
    decreases s.len(),
{
    if s.len() > 0 && is_ws(s.last()) {
        trim_end_seq(s.drop_last())
    } else {
        s
    }
}

/// `s` without leading and trailing whitespace, as `str::trim` gives it.
pub open spec fn trim_seq(s: Seq<char>) -> Seq<char> {
    trim_end_seq(trim_start_seq(s))
}

/// Whether a character is whitespace (`char::is_whitespace`).
pub fn is_whitespace(c: char) -> (b: bool)
    ensures
        b == is_ws(c),
{
    (c >= '\u{9}' && c <= '\u{d}') || c == ' ' || c == '\u{85}' || c == '\u{a0}' || c == '\u{1680}'
        || (c >= '\u{2000}' && c <= '\u{200a}') || c == '\u{2028}' || c == '\u{2029}'
        || c == '\u{202f}' || c == '\u{205f}' || c == '\u{3000}'
}

/// Appends one character to a `String` (std `String::push`).
#[verifier::external_body]
pub(crate) fn push_char(s: &mut String, c: char)
    ensures
        final(s)@ == old(s)@.push(c),
{
    s.push(c);
}

/// The characters of `s`, in order.
pub fn chars_of(s: &str) -> (r: Vec<char>)
    ensures
        r@ == s@,
{
    let mut r: Vec<char> = Vec::new();
    for c in it: s.chars()
        invariant
            r@ == it.seq().take(it.index() as int),
    {
        r.push(c);
    }
    r
}

/// The string made of `v[from..to]`.
pub fn string_of_range(v: &Vec<char>, from: usize, to: usize) -> (r: String)
    requires
        from <= to <= v.len(),
    ensures
        r@ == v@.subrange(from as int, to as int),
{
    let mut r = String::new();
    let mut i = from;
    while i < to
        invariant
            from <= i <= to <= v.len(),
            r@ == v@.subrange(from as int, i as int),
        decreases to - i,
    {
        push_char(&mut r, v[i]);
        assert(v@.subrange(from as int, i + 1) == v@.subrange(from as int, i as int).push(v@[i as int]));
        i += 1;
    }
    r
}

/// The string made of all of `v`.
pub fn string_of(v: &Vec<char>) -> (r: String)
    ensures
        r@ == v@,
{
    let r = string_of_range(v, 0, v.len());
    assert(v@.subrange(0, v@.len() as int) == v@);
    r
}

proof fn lemma_trim_start_skip(s: Seq<char>, i: int)
    requires
        0 <= i < s.len(),
        is_ws(s[i]),
    ensures
        trim_start_seq(s.subrange(i, s.len() as int)) == trim_start_seq(s.subrange(i + 1, s.len() as int)),
{
    assert(s.subrange(i, s.len() as int).drop_first() == s.subrange(i + 1, s.len() as int));
}

proof fn lemma_trim_end_drop(s: Seq<char>, i: int, j: int)
    requires
        0 <= i < j <= s.len(),
        is_ws(s[j - 1]),
    ensures
        trim_end_seq(s.subrange(i, j)) == trim_end_seq(s.subrange(i, j - 1)),
{
    assert(s.subrange(i, j).drop_last() == s.subrange(i, j - 1));
}

proof fn lemma_trim_start_all_ws(s: Seq<char>)
    ensures
        (forall|i: int| 0 <= i < s.len() ==> is_ws(#[trigger] s[i])) ==> trim_start_seq(s).len() == 0,
        (forall|i: int| 0 <= i < trim_start_seq(s).len() ==> is_ws(#[trigger] trim_start_seq(s)[i]))
            ==> (forall|i: int| 0 <= i < s.len() ==> is_ws(#[trigger] s[i])),
    decreases s.len(),
{
    if s.len() > 0 && is_ws(s[0]) {
        lemma_trim_start_all_ws(s.drop_first());
        assert(trim_start_seq(s) == trim_start_seq(s.drop_first()));
        if forall|i: int| 0 <= i < trim_start_seq(s).len() ==> is_ws(#[trigger] trim_start_seq(s)[i]) {
            let t = trim_start_seq(s.drop_first());
            assert(forall|i: int| 0 <= i < t.len() ==> is_ws(#[trigger] t[i]));
            assert(forall|j: int| 0 <= j < s.drop_first().len() ==> is_ws(#[trigger] s.drop_first()[j]));
            assert forall|i: int| 0 <= i < s.len() implies is_ws(#[trigger] s[i]) by {
                if i > 0 {
                    assert(s[i] == s.drop_first()[i - 1]);
                }
            }
        }
        if forall|i: int| 0 <= i < s.len() ==> is_ws(#[trigger] s[i]) {
            assert forall|j: int| 0 <= j < s.drop_first().len() implies is_ws(#[trigger] s.drop_first()[j]) by {
                assert(s.drop_first()[j] == s[j + 1]);
            }
        }
    } else {
        assert(trim_start_seq(s) == s);
    }
}

proof fn lemma_trim_end_empty(s: Seq<char>)
    requires
        trim_end_seq(s).len() == 0,
    ensures
        forall|i: int| 0 <= i < s.len() ==> is_ws(#[trigger] s[i]),
    decreases s.len(),
{
    if s.len() > 0 {
        lemma_trim_end_empty(s.drop_last());
        assert forall|i: int| 0 <= i < s.len() implies is_ws(#[trigger] s[i]) by {
            if i < s.len() - 1 {
                assert(s[i] == s.drop_last()[i]);
            }
        }
    }
}

/// A text trims to nothing exactly when all its characters are whitespace.
pub proof fn lemma_trim_empty_iff_all_ws(s: Seq<char>)
    ensures
        (trim_seq(s).len() == 0) == (forall|i: int| 0 <= i < s.len() ==> is_ws(#[trigger] s[i])),
{
    lemma_trim_start_all_ws(s);
    if trim_seq(s).len() == 0 {
        lemma_trim_end_empty(trim_start_seq(s));
    }
    if forall|i: int| 0 <= i < s.len() ==> is_ws(#[trigger] s[i]) {
        assert(trim_start_seq(s).len() == 0);
        assert(trim_end_seq(trim_start_seq(s)).len() == 0);
    }
}

/// A text that is empty, or starts and ends with non-whitespace, is its own trim.
pub proof fn lemma_trim_fixed(s: Seq<char>)
    requires
        s.len() == 0 || (!is_ws(s[0]) && !is_ws(s.last())),
    ensures
        trim_seq(s) == s,
{
}

/// Trimming leaves no whitespace at either end.
pub proof fn lemma_trim_ends(s: Seq<char>)
    ensures
        trim_seq(s).len() == 0 || (!is_ws(trim_seq(s)[0]) && !is_ws(trim_seq(s).last())),
{
    lemma_trim_start_ends(s);
    lemma_trim_end_ends(trim_start_seq(s));
}

proof fn lemma_trim_start_ends(s: Seq<char>)
    ensures
        trim_start_seq(s).len() == 0 || !is_ws(trim_start_seq(s)[0]),
    decreases s.len(),
{
    if s.len() > 0 && is_ws(s[0]) {
        lemma_trim_start_ends(s.drop_first());
    }
}

proof fn lemma_trim_end_ends(s: Seq<char>)
    requires
        s.len() == 0 || !is_ws(s[0]),
    ensures
        trim_end_seq(s).len() == 0 || (!is_ws(trim_end_seq(s)[0]) && !is_ws(trim_end_seq(s).last())),
    decreases s.len(),
{
    if s.len() > 0 && is_ws(s.last()) {
        lemma_trim_end_ends(s.drop_last());
    }
}

/// Deleting every `c` from `s`: no `c` remains, every remaining character is one of `s`,
/// and a first or last character other than `c` stays first or last.
pub proof fn lemma_delete_char(s: Seq<char>, c: char)
    ensures
        !replace_seq(s, seq![c], Seq::empty()).contains(c),
        forall|x: char| #[trigger] replace_seq(s, seq![c], Seq::empty()).contains(x) ==> s.contains(x),
        s.len() > 0 && s[0] != c ==> replace_seq(s, seq![c], Seq::empty()).len() > 0
            && replace_seq(s, seq![c], Seq::empty())[0] == s[0],
        s.len() > 0 && s.last() != c ==> replace_seq(s, seq![c], Seq::empty()).len() > 0
            && replace_seq(s, seq![c], Seq::empty()).last() == s.last(),
    decreases s.len(),
{
    let p = seq![c];
    let e = Seq::<char>::empty();
    if s.len() > 0 {
        let rest = replace_seq(s.drop_first(), p, e);
        lemma_delete_char(s.drop_first(), c);
        assert(starts_with_seq(s, p) == (s[0] == c)) by {
            if s[0] == c {
                assert(s.subrange(0, 1) == p);
            } else if starts_with_seq(s, p) {
                assert(s.subrange(0, 1)[0] == s[0]);
            }
        }
        if s[0] == c {
            assert(s.skip(1) == s.drop_first());
            assert(replace_seq(s, p, e) == e + rest);
            assert(e + rest == rest);
            assert forall|x: char| #[trigger] replace_seq(s, p, e).contains(x) implies s.contains(x) by {
                assert(rest.contains(x));
                let j = choose|j: int| 0 <= j < s.drop_first().len() && s.drop_first()[j] == x;
                assert(s[j + 1] == x);
            }
            if s.len() > 1 && s.last() != c {
                assert(s.drop_first().last() == s.last());
            }
        } else {
            let r = seq![s[0]] + rest;
            assert(replace_seq(s, p, e) == r);
            assert(!r.contains(c)) by {
                if r.contains(c) {
                    let j = choose|j: int| 0 <= j < r.len() && r[j] == c;
                    assert(j > 0);
                    assert(rest[j - 1] == c);
                }
            }
            assert forall|x: char| #[trigger] r.contains(x) implies s.contains(x) by {
                let j = choose|j: int| 0 <= j < r.len() && r[j] == x;
                if j == 0 {
                    assert(s[0] == x);
                } else {
                    assert(rest[j - 1] == x);
                    assert(rest.contains(x));
                    let k = choose|k: int| 0 <= k < s.drop_first().len() && s.drop_first()[k] == x;
                    assert(s[k + 1] == x);
                }
            }
            if s.len() > 1 && s.last() != c {
                assert(s.drop_first().last() == s.last());
                assert(r.last() == rest.last());
            }
        }
    }
}

/// Replacing a character that does not occur changes nothing.
pub proof fn lemma_replace_absent(s: Seq<char>, c: char, rep: Seq<char>)
    requires
        !s.contains(c),
    ensures
        replace_seq(s, seq![c], rep) == s,
    decreases s.len(),
{
    if s.len() > 0 {
        assert(s[0] != c);
        assert(!starts_with_seq(s, seq![c])) by {
            if starts_with_seq(s, seq![c]) {
                assert(s.subrange(0, 1)[0] == s[0]);
            }
        }
        assert(!s.drop_first().contains(c)) by {
            if s.drop_first().contains(c) {
                let j = choose|j: int| 0 <= j < s.drop_first().len() && s.drop_first()[j] == c;
                assert(s[j + 1] == c);
            }
        }
        lemma_replace_absent(s.drop_first(), c, rep);
        assert(seq![s[0]] + s.drop_first() == s);
    }
}

/// Bounds `(i, j)` such that `trim_seq(v) == v[i..j]`.
pub fn trim_bounds(v: &Vec<char>) -> (r: (usize, usize))
    ensures
        r.0 <= r.1 <= v.len(),
        trim_seq(v@) == v@.subrange(r.0 as int, r.1 as int),
{
    let n = v.len();
    let mut i: usize = 0;
    assert(v@.subrange(0, n as int) == v@);
    while i < n && is_whitespace(v[i])
        invariant
            i <= n == v.len(),
            trim_start_seq(v@) == trim_start_seq(v@.subrange(i as int, n as int)),
        decreases n - i,
    {
        proof { lemma_trim_start_skip(v@, i as int); }
        i += 1;
    }
    assert(trim_start_seq(v@) == v@.subrange(i as int, n as int));
    let mut j: usize = n;
    while j > i && is_whitespace(v[j - 1])
        invariant
            i <= j <= n == v.len(),
            trim_seq(v@) == trim_end_seq(v@.subrange(i as int, j as int)),
        decreases j - i,
    {
        proof { lemma_trim_end_drop(v@, i as int, j as int); }
        j -= 1;
    }
    (i, j)
}

/// `s` without leading and trailing whitespace (`str::trim`).
pub fn trim(s: &str) -> (r: String)
    ensures
        r@ == trim_seq(s@),
{
    let v = chars_of(s);
    let (i, j) = trim_bounds(&v);
    string_of_range(&v, i, j)
}


/// `pat` occurs in `s` at position `i`.
pub open spec fn occurs_at(s: Seq<char>, i: int, pat: Seq<char>) -> bool {
    0 <= i && i + pat.len() <= s.len() && s.subrange(i, i + pat.len()) == pat
}

/// `s` begins with `pre`.
pub open spec fn starts_with_seq(s: Seq<char>, pre: Seq<char>) -> bool {
    occurs_at(s, 0, pre)
}

/// `s` ends with `suf`.
pub open spec fn ends_with_seq(s: Seq<char>, suf: Seq<char>) -> bool {
    suf.len() <= s.len() && occurs_at(s, s.len() - suf.len(), suf)
}

/// `pat` occurs somewhere in `s`.
pub open spec fn contains_seq(s: Seq<char>, pat: Seq<char>) -> bool {
    exists|i: int| occurs_at(s, i, pat)
}

/// Whether `p` occurs in `v` at position `i`.
pub fn matches_at(v: &Vec<char>, i: usize, p: &Vec<char>) -> (b: bool)
    ensures
        b == occurs_at(v@, i as int, p@),
{
    if i > v.len() || p.len() > v.len() - i {
        return false;
    }
    let mut k: usize = 0;
    while k < p.len()
        invariant
            i + p.len() <= v.len(),
            k <= p.len(),
            forall|m: int| 0 <= m < k ==> v@[i + m] == p@[m],
        decreases p.len() - k,
    {
        if v[i + k] != p[k] {
            assert(v@.subrange(i as int, i + p.len())[k as int] != p@[k as int]);
            return false;
        }
        k += 1;
    }
    assert(v@.subrange(i as int, i + p.len()) == p@);
    true
}

/// Whether `s` begins with `pre` (`str::starts_with`).
pub fn starts_with(s: &str, pre: &str) -> (b: bool)
    ensures
        b == starts_with_seq(s@, pre@),
{
    let v = chars_of(s);
    let p = chars_of(pre);
    matches_at(&v, 0, &p)
}

/// Whether `s` ends with `suf` (`str::ends_with`).
pub fn ends_with(s: &str, suf: &str) -> (b: bool)
    ensures
        b == ends_with_seq(s@, suf@),
{
    let v = chars_of(s);
    let p = chars_of(suf);
    if p.len() > v.len() {
        return false;
    }
    matches_at(&v, v.len() - p.len(), &p)
}

/// Whether `pat` occurs in `s` (`str::contains`).
pub fn contains(s: &str, pat: &str) -> (b: bool)
    ensures
        b == contains_seq(s@, pat@),
{
    let v = chars_of(s);
    let p = chars_of(pat);
    if p.len() == 0 {
        assert(v@.subrange(0, 0) == p@);
        assert(occurs_at(v@, 0, p@));
        return true;
    }
    if p.len() > v.len() {
        return false;
    }
    let last = v.len() - p.len();
    let mut i: usize = 0;
    while i <= last
        invariant
            last + p.len() == v.len(),
            p.len() > 0,
            forall|j: int| 0 <= j < i ==> !occurs_at(v@, j, p@),
            v@ == s@,
            p@ == pat@,
        decreases last + 1 - i,
    {
        if matches_at(&v, i, &p) {
            assert(occurs_at(v@, i as int, p@));
            return true;
        }
        i += 1;
    }
    assert forall|j: int| !occurs_at(v@, j, p@) by {
        if j > last {
            assert(!occurs_at(v@, j, p@));
        }
    }
    false
}

/// `s` with every non-overlapping occurrence of `pat`, taken from the left,
/// replaced by `rep` (`str::replace` with a non-empty pattern).
pub open spec fn replace_seq(s: Seq<char>, pat: Seq<char>, rep: Seq<char>) -> Seq<char>
    decreases s.len(),
{
    if s.len() == 0 || pat.len() == 0 {
        s
    } else if starts_with_seq(s, pat) {
        rep + replace_seq(s.skip(pat.len() as int), pat, rep)
    } else {
        seq![s[0]] + replace_seq(s.drop_first(), pat, rep)
    }
}

/// Replaces every occurrence of `pat` in `s` by `rep` (`str::replace`).
pub fn replace(s: &str, pat: &str, rep: &str) -> (r: String)
    requires
        pat@.len() > 0,
    ensures
        r@ == replace_seq(s@, pat@, rep@),
{
    let v = chars_of(s);
    let p = chars_of(pat);
    let n = v.len();
    let mut out = String::new();
    let mut i: usize = 0;
    assert(v@.skip(0) == v@);
    while i < n
        invariant
            i <= n == v.len(),
            p@ == pat@,
            p@.len() > 0,
            replace_seq(v@, p@, rep@) == out@ + replace_seq(v@.skip(i as int), p@, rep@),
        decreases n - i,
    {
        let ghost rest = v@.skip(i as int);
        if matches_at(&v, i, &p) {
            assert(rest.subrange(0, p@.len() as int) == v@.subrange(i as int, i + p@.len()));
            assert(rest.skip(p@.len() as int) == v@.skip(i + p@.len()));
            out.append(rep);
            i += p.len();
        } else {
            assert(!starts_with_seq(rest, p@)) by {
                if starts_with_seq(rest, p@) {
                    assert(rest.subrange(0, p@.len() as int) == v@.subrange(i as int, i + p@.len()));
                }
            }
            assert(rest.drop_first() == v@.skip(i + 1));
            assert(rest[0] == v@[i as int]);
            push_char(&mut out, v[i]);
            i += 1;
        }
    }
    assert(v@.skip(n as int).len() == 0);
    out
}

/// The pieces of `s` between characters of `seps` (`str::split` with a set of separators).
pub open spec fn split_seq(s: Seq<char>, seps: Seq<char>) -> Seq<Seq<char>>
    decreases s.len(),
{
    if s.len() == 0 {
        seq![Seq::empty()]
    } else {
        let p = split_seq(s.drop_last(), seps);
        if seps.contains(s.last()) {
            p.push(Seq::empty())
        } else {
            p.update(p.len() - 1, p.last().push(s.last()))
        }
    }
}

/// `split_seq` always has at least one piece.
pub proof fn lemma_split_nonempty(s: Seq<char>, seps: Seq<char>)
    ensures
        split_seq(s, seps).len() >= 1,
    decreases s.len(),
{
    if s.len() > 0 {
        lemma_split_nonempty(s.drop_last(), seps);
    }
}

/// Splitting `a + b`, where `b` holds none of `seps`, extends the last piece of the split of
/// `a` by `b`.
pub proof fn lemma_split_append_plain(a: Seq<char>, b: Seq<char>, seps: Seq<char>)
    requires
        forall|i: int| 0 <= i < b.len() ==> !seps.contains(#[trigger] b[i]),
    ensures
        split_seq(a + b, seps) == split_seq(a, seps).update(
            split_seq(a, seps).len() - 1,
            split_seq(a, seps).last() + b,
        ),
    decreases b.len(),
{
    lemma_split_nonempty(a, seps);
    let q = split_seq(a, seps);
    if b.len() == 0 {
        assert(a + b =~= a);
        assert(q.last() + b =~= q.last());
        assert(q.update(q.len() - 1, q.last() + b) =~= q);
    } else {
        let b0 = b.drop_last();
        lemma_split_append_plain(a, b0, seps);
        assert((a + b).drop_last() =~= a + b0);
        assert((a + b).last() == b.last());
        assert(!seps.contains(b[b.len() - 1]));
        assert((q.last() + b0).push(b.last()) =~= q.last() + b);
        let p = split_seq(a + b0, seps);
        assert(split_seq(a + b, seps) == p.update(p.len() - 1, p.last().push(b.last())));
        assert(p.update(p.len() - 1, p.last().push(b.last())) =~= q.update(q.len() - 1, q.last() + b));
    }
}

/// The first piece of the split of `a + b` is `a`, when `a` holds no separator and `b`
/// starts with one; there are then at least two pieces.
pub proof fn lemma_split_first_piece(a: Seq<char>, b: Seq<char>, seps: Seq<char>)
    requires
        forall|i: int| 0 <= i < a.len() ==> !seps.contains(#[trigger] a[i]),
        b.len() > 0,
        seps.contains(b[0]),
    ensures
        split_seq(a + b, seps).len() >= 2,
        split_seq(a + b, seps)[0] == a,
    decreases b.len(),
{
    if b.len() == 1 {
        lemma_split_append_plain(Seq::empty(), a, seps);
        assert(Seq::<char>::empty() + a =~= a);
        assert(seq![Seq::<char>::empty()].update(0, a) =~= seq![a]);
        assert((a + b).drop_last() =~= a);
        assert((a + b).last() == b[0]);
    } else {
        lemma_split_first_piece(a, b.drop_last(), seps);
        assert((a + b).drop_last() =~= a + b.drop_last());
        lemma_split_nonempty(a + b.drop_last(), seps);
    }
}

/// Splitting pieces joined by one separator character gives the pieces back, when none of
/// them holds that character.
pub proof fn lemma_split_join(parts: Seq<Seq<char>>, sep: char)
    requires
        parts.len() > 0,
        forall|k: int| 0 <= k < parts.len() ==> !(#[trigger] parts[k]).contains(sep),
    ensures
        split_seq(join_seq(parts, seq![sep]), seq![sep]) == parts,
    decreases parts.len(),
{
    let s = seq![sep];
    let last = parts.last();
    assert(!parts[parts.len() - 1].contains(sep));
    assert forall|i: int| 0 <= i < last.len() implies !s.contains(#[trigger] last[i]) by {
        if s.contains(last[i]) {
            let j = choose|j: int| 0 <= j < s.len() && s[j] == last[i];
            assert(last[i] == sep);
        }
    }
    assert(Seq::<char>::empty() + last =~= last);
    if parts.len() == 1 {
        lemma_split_append_plain(Seq::empty(), last, s);
        assert(seq![Seq::<char>::empty()].update(0, last) =~= parts);
    } else {
        let pre = parts.drop_last();
        assert forall|k: int| 0 <= k < pre.len() implies !(#[trigger] pre[k]).contains(sep) by {
            assert(pre[k] == parts[k]);
        }
        lemma_split_join(pre, sep);
        let x = join_seq(pre, s);
        assert((x + s).drop_last() =~= x);
        assert((x + s).last() == sep);
        assert(s.contains(sep)) by {
            assert(s[0] == sep);
        }
        assert(split_seq(x + s, s) == pre.push(Seq::empty()));
        lemma_split_nonempty(x + s, s);
        lemma_split_append_plain(x + s, last, s);
        assert(join_seq(parts, s) == x + s + last);
        assert(pre.push(Seq::<char>::empty()).update(pre.len() as int, last) =~= parts);
    }
}

/// Replacing a one-character pattern at the head of `s`: the head is replaced when it is
/// that character, and the rest follows.
pub proof fn lemma_replace_char_head(s: Seq<char>, c: char, rep: Seq<char>)
    requires
        s.len() > 0,
    ensures
        replace_seq(s, seq![c], rep) == (if s[0] == c { rep } else { seq![s[0]] })
            + replace_seq(s.drop_first(), seq![c], rep),
{
    assert(starts_with_seq(s, seq![c]) == (s[0] == c)) by {
        if s[0] == c {
            assert(s.subrange(0, 1) =~= seq![c]);
        } else if starts_with_seq(s, seq![c]) {
            assert(s.subrange(0, 1)[0] == s[0]);
        }
    }
    assert(s.skip(1) =~= s.drop_first());
}

/// A one-character pattern is replaced in `a + b` as in `a` and `b` apart.
pub proof fn lemma_replace_char_append(a: Seq<char>, b: Seq<char>, c: char, rep: Seq<char>)
    ensures
        replace_seq(a + b, seq![c], rep) == replace_seq(a, seq![c], rep) + replace_seq(b, seq![c], rep),
    decreases a.len(),
{
    if a.len() == 0 {
        assert(a + b =~= b);
        assert(replace_seq(a, seq![c], rep) + replace_seq(b, seq![c], rep) =~= replace_seq(b, seq![c], rep));
    } else {
        lemma_replace_char_append(a.drop_first(), b, c, rep);
        lemma_replace_char_head(a + b, c, rep);
        lemma_replace_char_head(a, c, rep);
        assert((a + b).drop_first() =~= a.drop_first() + b);
        assert((a + b)[0] == a[0]);
        let h = if a[0] == c { rep } else { seq![a[0]] };
        assert(h + (replace_seq(a.drop_first(), seq![c], rep) + replace_seq(b, seq![c], rep))
            =~= (h + replace_seq(a.drop_first(), seq![c], rep)) + replace_seq(b, seq![c], rep));
    }
}

/// Whether `c` is one of `seps`.
pub fn is_one_of(c: char, seps: &Vec<char>) -> (b: bool)
    ensures
        b == seps@.contains(c),
{
    let mut k: usize = 0;
    while k < seps.len()
        invariant
            k <= seps.len(),
            forall|m: int| 0 <= m < k ==> seps@[m] != c,
        decreases seps.len() - k,
    {
        if seps[k] == c {
            assert(seps@[k as int] == c);
            return true;
        }
        k += 1;
    }
    false
}

/// Splits `s` at every character of `seps`, keeping empty pieces.
pub fn split_on(s: &str, seps: &Vec<char>) -> (r: Vec<String>)
    ensures
        r.deep_view() == split_seq(s@, seps@),
{
    let v = chars_of(s);
    let n = v.len();
    let mut out: Vec<String> = Vec::new();
    let mut cur: Vec<char> = Vec::new();
    let mut i: usize = 0;
    assert(v@.take(0) == Seq::<char>::empty());
    while i < n
        invariant
            i <= n == v.len(),
            v@ == s@,
            split_seq(v@.take(i as int), seps@) == out.deep_view().push(cur@),
        decreases n - i,
    {
        let c = v[i];
        assert(v@.take(i + 1).drop_last() == v@.take(i as int));
        assert(v@.take(i + 1).last() == c);
        let ghost before = out.deep_view();
        if is_one_of(c, seps) {
            let piece = string_of(&cur);
            out.push(piece);
            assert(out.deep_view() == before.push(cur@));
            cur = Vec::new();
        } else {
            cur.push(c);
            assert(before.push(cur@) == before.push(cur@.drop_last()).update(before.len() as int, cur@));
        }
        i += 1;
    }
    let ghost before = out.deep_view();
    out.push(string_of(&cur));
    assert(out.deep_view() == before.push(cur@));
    assert(v@.take(n as int) == v@);
    out
}


/// Progress of `str::split_whitespace` over `s`: the finished words and the word in progress.
pub open spec fn words_state(s: Seq<char>) -> (Seq<Seq<char>>, Seq<char>)
    decreases s.len(),
{
    if s.len() == 0 {
        (Seq::empty(), Seq::empty())
    } else {
        let st = words_state(s.drop_last());
        if is_ws(s.last()) {
            if st.1.len() > 0 {
                (st.0.push(st.1), Seq::empty())
            } else {
                st
            }
        } else {
            (st.0, st.1.push(s.last()))
        }
    }
}

/// The maximal runs of non-whitespace characters of `s`, in order (`str::split_whitespace`).
pub open spec fn words_seq(s: Seq<char>) -> Seq<Seq<char>> {
    let st = words_state(s);
    if st.1.len() > 0 {
        st.0.push(st.1)
    } else {
        st.0
    }
}

/// Splits `s` into its whitespace-separated words (`str::split_whitespace`).
pub fn split_whitespace(s: &str) -> (r: Vec<String>)
    ensures
        r.deep_view() == words_seq(s@),
{
    let v = chars_of(s);
    let n = v.len();
    let mut out: Vec<String> = Vec::new();
    let mut cur: Vec<char> = Vec::new();
    let mut i: usize = 0;
    assert(v@.take(0) == Seq::<char>::empty());
    while i < n
        invariant
            i <= n == v.len(),
            v@ == s@,
            words_state(v@.take(i as int)) == (out.deep_view(), cur@),
        decreases n - i,
    {
        let c = v[i];
        assert(v@.take(i + 1).drop_last() == v@.take(i as int));
        assert(v@.take(i + 1).last() == c);
        let ghost before = out.deep_view();
        if is_whitespace(c) {
            if cur.len() > 0 {
                let piece = string_of(&cur);
                out.push(piece);
                assert(out.deep_view() == before.push(cur@));
                cur = Vec::new();
                assert(cur@ == Seq::<char>::empty());
            }
        } else {
            cur.push(c);
        }
        i += 1;
    }
    assert(v@.take(n as int) == v@);
    if cur.len() > 0 {
        let ghost before = out.deep_view();
        out.push(string_of(&cur));
        assert(out.deep_view() == before.push(cur@));
    }
    out
}

/// The pieces of `parts` with `sep` between consecutive ones (`slice::join`).
pub open spec fn join_seq(parts: Seq<Seq<char>>, sep: Seq<char>) -> Seq<char>
    decreases parts.len(),
{
    if parts.len() == 0 {
        Seq::empty()
    } else if parts.len() == 1 {
        parts[0]
    } else {
        join_seq(parts.drop_last(), sep) + sep + parts.last()
    }
}

/// Joins `parts` with `sep` between consecutive pieces.
pub fn join(parts: &Vec<String>, sep: &str) -> (r: String)
    ensures
        r@ == join_seq(parts.deep_view(), sep@),
{
    let mut r = String::new();
    let mut i: usize = 0;
    assert(parts.deep_view().take(0) == Seq::<Seq<char>>::empty());
    while i < parts.len()
        invariant
            i <= parts.len(),
            r@ == join_seq(parts.deep_view().take(i as int), sep@),
        decreases parts.len() - i,
    {
        assert(parts.deep_view().take(i + 1).drop_last() == parts.deep_view().take(i as int));
        assert(parts.deep_view().take(i + 1).last() == parts[i as int]@);
        if i > 0 {
            r.append(sep);
        }
        r.append(parts[i].as_str());
        i += 1;
    }
    assert(parts.deep_view().take(parts.len() as int) == parts.deep_view());
    r
}

/// The concatenation of `a` and `b`.
pub fn concat(a: &str, b: &str) -> (r: String)
    ensures
        r@ == a@ + b@,
{
    let mut r = a.to_owned();
    r.append(b);
    r
}

/// The decimal digit character for `d < 10`.
pub open spec fn digit_char(d: int) -> char {
    if d == 0 { '0' }
    else if d == 1 { '1' }
    else if d == 2 { '2' }
    else if d == 3 { '3' }
    else if d == 4 { '4' }
    else if d == 5 { '5' }
    else if d == 6 { '6' }
    else if d == 7 { '7' }
    else if d == 8 { '8' }
    else { '9' }
}

/// The decimal numeral of `n`, without leading zeros.
pub open spec fn decimal_seq(n: nat) -> Seq<char>
    decreases n,
{
    if n < 10 {
        seq![digit_char(n as int)]
    } else {
        decimal_seq(n / 10).push(digit_char((n % 10) as int))
    }
}

fn digit(d: u64) -> (c: char)
    requires
        d < 10,
    ensures
        c == digit_char(d as int),
{
    match d {
        0 => '0',
        1 => '1',
        2 => '2',
        3 => '3',
        4 => '4',
        5 => '5',
        6 => '6',
        7 => '7',
        8 => '8',
        _ => '9',
    }
}

/// The decimal form of `n` (`u64::to_string`).
pub fn decimal(n: u64) -> (r: String)
    ensures
        r@ == decimal_seq(n as nat),
    decreases n,
{
    if n < 10 {
        let mut r = String::new();
        push_char(&mut r, digit(n));
        r
    } else {
        let mut r = decimal(n / 10);
        push_char(&mut r, digit(n % 10));
        r
    }
}

/// The decimal numeral of a signed number, with `-` in front of a negative one.
pub open spec fn signed_decimal_seq(n: int) -> Seq<char> {
    if n < 0 { seq!['-'] + decimal_seq((-n) as nat) } else { decimal_seq(n as nat) }
}

/// The decimal form of `n` (`i32::to_string`).
pub fn signed_decimal(n: i32) -> (r: String)
    ensures
        r@ == signed_decimal_seq(n as int),
{
    if n < 0 {
        let m: i64 = -(n as i64);
        let d = decimal(m as u64);
        let mut r = String::new();
        push_char(&mut r, '-');
        r.append(d.as_str());
        assert(r@ == seq!['-'] + d@);
        r
    } else {
        decimal(n as u64)
    }
}

/// A decimal numeral has at least one digit, and at least two from 10 on.
pub proof fn lemma_decimal_len(n: nat)
    ensures
        decimal_seq(n).len() >= 1,
        n >= 10 ==> decimal_seq(n).len() >= 2,
    decreases n,
{
    if n >= 10 {
        lemma_decimal_len(n / 10);
    }
}

proof fn lemma_digit_injective(x: int, y: int)
    requires
        0 <= x < 10,
        0 <= y < 10,
        digit_char(x) == digit_char(y),
    ensures
        x == y,
{
}

/// The value of a decimal digit character.
pub open spec fn digit_value(c: char) -> int {
    (c as int) - ('0' as int)
}

/// Whether `c` is one of `0` to `9`.
pub open spec fn is_digit(c: char) -> bool {
    '0' <= c && c <= '9'
}

/// The number that a string of decimal digits denotes.
pub open spec fn digits_value(s: Seq<char>) -> int
    decreases s.len(),
{
    if s.len() == 0 { 0 } else { digits_value(s.drop_last()) * 10 + digit_value(s.last()) }
}

/// A numeral as `decimal_seq` writes one: digits only, at least one, and no leading zero.
pub open spec fn canonical_decimal(s: Seq<char>) -> bool {
    &&& s.len() > 0
    &&& forall|i: int| 0 <= i < s.len() ==> is_digit(#[trigger] s[i])
    &&& (s.len() == 1 || s[0] != '0')
}

/// Every numeral `decimal_seq` writes is canonical and denotes its number.
pub proof fn lemma_decimal_canonical(n: nat)
    ensures
        canonical_decimal(decimal_seq(n)),
        digits_value(decimal_seq(n)) == n,
        n > 0 ==> decimal_seq(n)[0] != '0',
    decreases n,
{
    if n >= 10 {
        lemma_decimal_canonical(n / 10);
        let p = decimal_seq(n / 10);
        let s = decimal_seq(n);
        assert(s == p.push(digit_char((n % 10) as int)));
        assert(s.drop_last() =~= p);
        assert(s[0] == p[0]);
        assert forall|i: int| 0 <= i < s.len() implies is_digit(#[trigger] s[i]) by {
            if i < p.len() {
                assert(s[i] == p[i]);
            }
        }
        assert(digit_value(digit_char((n % 10) as int)) == n % 10);
        assert(digits_value(s) == digits_value(p) * 10 + digit_value(s.last()));
        assert(n == (n / 10) * 10 + n % 10);
    } else {
        let s = decimal_seq(n);
        assert(s.drop_last() =~= Seq::<char>::empty());
        assert(digit_value(digit_char(n as int)) == n);
        assert(digits_value(s) == digits_value(s.drop_last()) * 10 + digit_value(s.last()));
    }
}

/// A canonical numeral is the one `decimal_seq` writes for its value.
pub proof fn lemma_canonical_decimal(s: Seq<char>)
    requires
        canonical_decimal(s),
    ensures
        decimal_seq(digits_value(s) as nat) == s,
        digits_value(s) >= 0,
        s[0] != '0' ==> digits_value(s) > 0,
        s.len() > 1 ==> digits_value(s) >= 10,
    decreases s.len(),
{
    assert(is_digit(s.last()));
    if s.len() == 1 {
        assert(s.drop_last().len() == 0);
        assert(s.last() == s[0]);
        let d = digit_value(s[0]);
        assert(0 <= d < 10);
        assert(digits_value(s) == digits_value(s.drop_last()) * 10 + d);
        assert(digits_value(s) == d);
        assert(digit_char(d) == s[0]);
        assert(decimal_seq(d as nat) == seq![digit_char(d)]);
        assert(seq![s[0]] =~= s);
    } else {
        let p = s.drop_last();
        assert(p[0] == s[0]);
        assert forall|i: int| 0 <= i < p.len() implies is_digit(#[trigger] p[i]) by {
            assert(p[i] == s[i]);
        }
        lemma_canonical_decimal(p);
        let w = digits_value(p);
        let d = digit_value(s.last());
        let v = digits_value(s);
        assert(v == w * 10 + d);
        assert(v / 10 == w && v % 10 == d);
        assert(decimal_seq(v as nat) == decimal_seq(w as nat).push(digit_char(d)));
        assert(p.push(s.last()) =~= s);
    }
}

/// A prefix of a digit string denotes at most what the whole does.
proof fn lemma_digits_value_prefix(s: Seq<char>, k: int)
    requires
        0 <= k <= s.len(),
        forall|i: int| 0 <= i < s.len() ==> is_digit(#[trigger] s[i]),
    ensures
        0 <= digits_value(s.take(k)) <= digits_value(s),
    decreases s.len(),
{
    if k == s.len() {
        assert(s.take(k) =~= s);
        if s.len() > 0 {
            let p = s.drop_last();
            assert forall|i: int| 0 <= i < p.len() implies is_digit(#[trigger] p[i]) by {
                assert(p[i] == s[i]);
            }
            lemma_digits_value_prefix(p, 0);
            assert(is_digit(s.last()));
        }
    } else {
        let p = s.drop_last();
        assert forall|i: int| 0 <= i < p.len() implies is_digit(#[trigger] p[i]) by {
            assert(p[i] == s[i]);
        }
        lemma_digits_value_prefix(p, k);
        assert(p.take(k) =~= s.take(k));
        assert(is_digit(s.last()));
    }
}

/// The number written by `s` in decimal, as `decimal` writes numbers; `None` when no
/// `u64` is written so (not all digits, a leading zero, empty, or too large).
pub fn parse_decimal(s: &str) -> (r: Option<u64>)
    ensures
        match r {
            Some(n) => decimal_seq(n as nat) == s@,
            None => forall|n: u64| decimal_seq(n as nat) != s@,
        },
{
    let v = chars_of(s);
    if v.len() == 0 || (v.len() > 1 && v[0] == '0') {
        proof {
            assert forall|n: u64| decimal_seq(n as nat) != s@ by {
                lemma_decimal_canonical(n as nat);
            }
        }
        return None;
    }
    let mut acc: u64 = 0;
    let mut i: usize = 0;
    assert(v@.take(0) =~= Seq::<char>::empty());
    while i < v.len()
        invariant
            i <= v.len(),
            v@ == s@,
            v.len() > 0,
            v.len() == 1 || v@[0] != '0',
            acc == digits_value(v@.take(i as int)),
            forall|j: int| 0 <= j < i ==> is_digit(#[trigger] v@[j]),
        decreases v.len() - i,
    {
        let c = v[i];
        assert(v@.take(i + 1).drop_last() =~= v@.take(i as int));
        assert(v@.take(i + 1).last() == c);
        if !(c >= '0' && c <= '9') {
            proof {
                assert forall|n: u64| decimal_seq(n as nat) != s@ by {
                    lemma_decimal_canonical(n as nat);
                    if decimal_seq(n as nat) == s@ {
                        assert(is_digit(s@[i as int]));
                    }
                }
            }
            return None;
        }
        let d: u64 = (c as u32 - 48) as u64;
        assert(d == digit_value(c));
        let next = match acc.checked_mul(10) {
            Some(m) => m.checked_add(d),
            None => None,
        };
        match next {
            Some(x) => {
                acc = x;
            },
            None => {
                proof {
                    assert(digits_value(v@.take(i + 1)) > u64::MAX);
                    assert forall|n: u64| decimal_seq(n as nat) != s@ by {
                        lemma_decimal_canonical(n as nat);
                        if decimal_seq(n as nat) == s@ {
                            lemma_digits_value_prefix(s@, i + 1);
                        }
                    }
                }
                return None;
            },
        }
        i += 1;
    }
    proof {
        assert(v@.take(v.len() as int) =~= v@);
        lemma_canonical_decimal(s@);
    }
    Some(acc)
}

/// Different numbers have different decimal numerals.
pub proof fn lemma_decimal_injective(a: nat, b: nat)
    requires
        decimal_seq(a) == decimal_seq(b),
    ensures
        a == b,
    decreases a + b,
{
    lemma_decimal_len(a);
    lemma_decimal_len(b);
    if a < 10 && b < 10 {
        assert(decimal_seq(a) == seq![digit_char(a as int)]);
        assert(decimal_seq(b) == seq![digit_char(b as int)]);
        assert(decimal_seq(a)[0] == digit_char(a as int));
        assert(decimal_seq(b)[0] == digit_char(b as int));
        lemma_digit_injective(a as int, b as int);
    } else if a >= 10 && b >= 10 {
        assert(decimal_seq(a) == decimal_seq(a / 10).push(digit_char((a % 10) as int)));
        assert(decimal_seq(b) == decimal_seq(b / 10).push(digit_char((b % 10) as int)));
        assert(decimal_seq(a).last() == digit_char((a % 10) as int));
        assert(decimal_seq(b).last() == digit_char((b % 10) as int));
        assert(decimal_seq(a).drop_last() == decimal_seq(a / 10));
        assert(decimal_seq(b).drop_last() == decimal_seq(b / 10));
        lemma_decimal_injective(a / 10, b / 10);
        lemma_digit_injective((a % 10) as int, (b % 10) as int);
    }
}

/// What std `str::to_lowercase` returns for a string: the Unicode lowercase mapping.
pub uninterp spec fn lowercase_of(s: Seq<char>) -> Seq<char>;

/// ASCII letters mapped to lowercase, other characters unchanged.
pub open spec fn ascii_lower_char(c: char) -> char {
    if 'A' <= c && c <= 'Z' {
        ((c as u32) + 32) as char
    } else {
        c
    }
}

/// Every character of `s` is ASCII.
pub open spec fn all_ascii(s: Seq<char>) -> bool {
    forall|i: int| 0 <= i < s.len() ==> (s[i] as u32) < 128
}

/// std `str::to_lowercase`: the result is named `lowercase_of`; on ASCII text
/// it maps `A`..`Z` to `a`..`z` and keeps every other character.
/// Nothing more is stated of other text.
#[verifier::external_body]
pub(crate) fn to_lowercase(s: &str) -> (r: String)
    ensures
        r@ == lowercase_of(s@),
        all_ascii(s@) ==> r@ == s@.map_values(|c: char| ascii_lower_char(c)),
{
    s.to_lowercase()
}

} // verus!
