//! Character-level text handling: conversions between strings and character
//! vectors, comparison, trimming, line splitting, joining and decimal rendering.
//!
//! Each operation is specified by a spec function over `Seq<char>` that says
//! what the text operation means; the executable versions are proved against them.

use vstd::prelude::*;
use vstd::string::*;

verus! {

// ---------------------------------------------------------------------------
// Conversions
// ---------------------------------------------------------------------------

/// The characters of `s`, in order.
pub fn to_chars(s: &str) -> (v: Vec<char>)
    ensures
        v@ == s@,
{
    let mut v: Vec<char> = Vec::new();
    for c in it: s.chars()
        invariant
            v@ == it.seq().take(it.index() as int),
            it.seq() == s@,
    {
        v.push(c);
    }
    v
}

/// Appends one character to `s` (`String::push`).
#[verifier::external_body]
pub(crate) fn push_char(s: &mut String, c: char)
    ensures
        final(s)@ == old(s)@.push(c),
{
    s.push(c);
}

/// Appends the characters `v[lo..hi]` to `s`.
pub fn push_range(s: &mut String, v: &Vec<char>, lo: usize, hi: usize)
    requires
        lo <= hi <= v@.len(),
    ensures
        final(s)@ == old(s)@ + v@.subrange(lo as int, hi as int),
{
    let mut i = lo;
    while i < hi
        invariant
            lo <= i <= hi <= v@.len(),
            s@ == old(s)@ + v@.subrange(lo as int, i as int),
        decreases hi - i,
    {
        assert(v@.subrange(lo as int, i + 1) == v@.subrange(lo as int, i as int).push(v@[i as int]));
        push_char(s, v[i]);
        i = i + 1;
    }
}

/// The string made of the characters `v[lo..hi]`.
pub fn string_from_range(v: &Vec<char>, lo: usize, hi: usize) -> (s: String)
    requires
        lo <= hi <= v@.len(),
    ensures
        s@ == v@.subrange(lo as int, hi as int),
{
    let mut s = String::new();
    push_range(&mut s, v, lo, hi);
    s
}

/// The string made of all the characters of `v`.
pub fn string_from_chars(v: &Vec<char>) -> (s: String)
    ensures
        s@ == v@,
{
    let s = string_from_range(v, 0, v.len());
    assert(v@.subrange(0, v@.len() as int) == v@);
    s
}

/// Whether two character vectors hold the same characters.
pub fn chars_eq(a: &Vec<char>, b: &Vec<char>) -> (r: bool)
    ensures
        r == (a@ == b@),
{
    if a.len() != b.len() {
        return false;
    }
    let mut i: usize = 0;
    while i < a.len()
        invariant
            a@.len() == b@.len(),
            i <= a@.len(),
            forall|j: int| 0 <= j < i ==> a@[j] == b@[j],
        decreases a@.len() - i,
    {
        if a[i] != b[i] {
            return false;
        }
        i = i + 1;
    }
    assert(a@ =~= b@);
    true
}

/// Whether two strings are equal.
pub fn str_eq(a: &str, b: &str) -> (r: bool)
    ensures
        r == (a@ == b@),
{
    let va = to_chars(a);
    let vb = to_chars(b);
    chars_eq(&va, &vb)
}


// ---------------------------------------------------------------------------
// Whitespace and trimming
// ---------------------------------------------------------------------------

/// `char::is_whitespace`: the Unicode `White_Space` property.
pub open spec fn is_ws(c: char) -> bool {
    ||| ('\t' <= c && c <= '\r')
    ||| c == ' '
    ||| c == '\u{85}'
    ||| c == '\u{A0}'
    ||| c == '\u{1680}'
    ||| ('\u{2000}' <= c && c <= '\u{200A}')
    ||| c == '\u{2028}'
    ||| c == '\u{2029}'
    ||| c == '\u{202F}'
    ||| c == '\u{205F}'
    ||| c == '\u{3000}'
}

/// Executable form of [`is_ws`].
pub fn is_whitespace(c: char) -> (r: bool)
    ensures
        r == is_ws(c),
{
    ('\t' <= c && c <= '\r') || c == ' ' || c == '\u{85}' || c == '\u{A0}' || c == '\u{1680}'
        || ('\u{2000}' <= c && c <= '\u{200A}') || c == '\u{2028}' || c == '\u{2029}'
        || c == '\u{202F}' || c == '\u{205F}' || c == '\u{3000}'
}

/// The first position at or after `i` that does not hold whitespace (or the length).
pub open spec fn skip_ws_from(s: Seq<char>, i: int) -> int
    decreases s.len() - i,
{
    if 0 <= i < s.len() && is_ws(s[i]) {
        skip_ws_from(s, i + 1)
    } else {
        i
    }
}

/// The end of `s[lo..j]` once trailing whitespace is removed.
pub open spec fn back_ws_from(s: Seq<char>, lo: int, j: int) -> int
    decreases j - lo,
{
    if lo < j && is_ws(s[j - 1]) {
        back_ws_from(s, lo, j - 1)
    } else {
        j
    }
}

/// Start of the trimmed part of `s`.
pub open spec fn trim_lo(s: Seq<char>) -> int {
    skip_ws_from(s, 0)
}

/// End of the trimmed part of `s`.
pub open spec fn trim_hi(s: Seq<char>) -> int {
    back_ws_from(s, trim_lo(s), s.len() as int)
}

/// `str::trim`: `s` without leading and trailing whitespace.
pub open spec fn trim(s: Seq<char>) -> Seq<char> {
    s.subrange(trim_lo(s), trim_hi(s))
}

pub proof fn lemma_skip_ws_bounds(s: Seq<char>, i: int)
    requires
        0 <= i <= s.len(),
    ensures
        i <= skip_ws_from(s, i) <= s.len(),
    decreases s.len() - i,
{
    if i < s.len() && is_ws(s[i]) {
        lemma_skip_ws_bounds(s, i + 1);
    }
}

pub proof fn lemma_back_ws_bounds(s: Seq<char>, lo: int, j: int)
    requires
        0 <= lo <= j <= s.len(),
    ensures
        lo <= back_ws_from(s, lo, j) <= j,
    decreases j - lo,
{
    if lo < j && is_ws(s[j - 1]) {
        lemma_back_ws_bounds(s, lo, j - 1);
    }
}

pub proof fn lemma_trim_bounds(s: Seq<char>)
    ensures
        0 <= trim_lo(s) <= trim_hi(s) <= s.len(),
{
    lemma_skip_ws_bounds(s, 0);
    lemma_back_ws_bounds(s, trim_lo(s), s.len() as int);
}

pub proof fn lemma_skip_ws_stops(s: Seq<char>, i: int)
    requires
        0 <= i <= s.len(),
    ensures
        skip_ws_from(s, i) == s.len() || !is_ws(s[skip_ws_from(s, i)]),
    decreases s.len() - i,
{
    if i < s.len() && is_ws(s[i]) {
        lemma_skip_ws_stops(s, i + 1);
    }
}

pub proof fn lemma_back_ws_stops(s: Seq<char>, lo: int, j: int)
    requires
        0 <= lo <= j <= s.len(),
    ensures
        back_ws_from(s, lo, j) == lo || !is_ws(s[back_ws_from(s, lo, j) - 1]),
    decreases j - lo,
{
    if lo < j && is_ws(s[j - 1]) {
        lemma_back_ws_stops(s, lo, j - 1);
    }
}

/// Trimming twice is trimming once: a trimmed text neither begins nor ends
/// with whitespace.
pub proof fn lemma_trim_idempotent(s: Seq<char>)
    ensures
        trim(trim(s)) == trim(s),
{
    let t = trim(s);
    lemma_trim_bounds(s);
    let lo = trim_lo(s);
    let hi = trim_hi(s);
    if t.len() == 0 {
        assert(trim(t) =~= t);
    } else {
        lemma_skip_ws_stops(s, 0);
        lemma_back_ws_stops(s, lo, s.len() as int);
        assert(t[0] == s[lo]);
        assert(!is_ws(t[0]));
        assert(skip_ws_from(t, 0) == 0);
        assert(t[t.len() - 1] == s[hi - 1]);
        assert(back_ws_from(t, 0, t.len() as int) == t.len());
        assert(trim(t) =~= t);
    }
}

pub proof fn lemma_skip_ws_push(s: Seq<char>, w: char, i: int)
    requires
        0 <= i <= s.len(),
        is_ws(w),
    ensures
        skip_ws_from(s, i) < s.len() ==> skip_ws_from(s.push(w), i) == skip_ws_from(s, i),
        skip_ws_from(s, i) == s.len() ==> skip_ws_from(s.push(w), i) == s.len() + 1,
    decreases s.len() - i,
{
    let s2 = s.push(w);
    if i < s.len() {
        assert(s2[i] == s[i]);
        if is_ws(s[i]) {
            lemma_skip_ws_push(s, w, i + 1);
        }
    } else {
        assert(s2[i] == w);
        assert(skip_ws_from(s2, i + 1) == i + 1);
    }
}

pub proof fn lemma_back_ws_prefix(s: Seq<char>, s2: Seq<char>, lo: int, j: int)
    requires
        0 <= lo <= j <= s.len(),
        j <= s2.len(),
        forall|k: int| 0 <= k < j ==> s2[k] == s[k],
    ensures
        back_ws_from(s2, lo, j) == back_ws_from(s, lo, j),
    decreases j - lo,
{
    if lo < j {
        assert(s2[j - 1] == s[j - 1]);
        if is_ws(s[j - 1]) {
            lemma_back_ws_prefix(s, s2, lo, j - 1);
        }
    }
}

/// Whitespace added at the end does not change what trimming keeps.
pub proof fn lemma_trim_push_ws(s: Seq<char>, w: char)
    requires
        is_ws(w),
    ensures
        trim(s.push(w)) == trim(s),
{
    let s2 = s.push(w);
    lemma_trim_bounds(s);
    lemma_trim_bounds(s2);
    lemma_skip_ws_bounds(s, 0);
    lemma_skip_ws_push(s, w, 0);
    let lo = trim_lo(s);
    if lo < s.len() {
        assert(back_ws_from(s2, lo, s2.len() as int) == back_ws_from(s2, lo, s.len() as int));
        lemma_back_ws_prefix(s, s2, lo, s.len() as int);
        assert(trim(s2) =~= trim(s));
    } else {
        assert(trim(s) =~= Seq::<char>::empty());
        assert(trim(s2) =~= Seq::<char>::empty());
    }
}

/// The bounds of the trimmed part of `v`.
pub fn trim_bounds(v: &Vec<char>) -> (r: (usize, usize))
    ensures
        r.0 == trim_lo(v@),
        r.1 == trim_hi(v@),
        r.0 <= r.1 <= v@.len(),
{
    let mut lo: usize = 0;
    while lo < v.len() && is_whitespace(v[lo])
        invariant
            lo <= v@.len(),
            skip_ws_from(v@, lo as int) == skip_ws_from(v@, 0),
        decreases v@.len() - lo,
    {
        lo = lo + 1;
    }
    let mut hi: usize = v.len();
    while lo < hi && is_whitespace(v[hi - 1])
        invariant
            lo <= hi <= v@.len(),
            lo == trim_lo(v@),
            back_ws_from(v@, lo as int, hi as int) == back_ws_from(v@, lo as int, v@.len() as int),
        decreases hi - lo,
    {
        hi = hi - 1;
    }
    (lo, hi)
}

/// `str::trim` on a character vector.
pub fn trim_chars(v: &Vec<char>) -> (r: Vec<char>)
    ensures
        r@ == trim(v@),
{
    let (lo, hi) = trim_bounds(v);
    let mut r: Vec<char> = Vec::new();
    let mut i = lo;
    while i < hi
        invariant
            lo <= i <= hi <= v@.len(),
            r@ == v@.subrange(lo as int, i as int),
        decreases hi - i,
    {
        r.push(v[i]);
        i = i + 1;
    }
    r
}

/// `str::trim`.
pub fn trim_str(s: &str) -> (r: String)
    ensures
        r@ == trim(s@),
{
    let v = to_chars(s);
    let (lo, hi) = trim_bounds(&v);
    string_from_range(&v, lo, hi)
}

// ---------------------------------------------------------------------------
// Prefixes, suffixes, substrings
// ---------------------------------------------------------------------------

/// `s` begins with `p`.
pub open spec fn has_prefix<A>(s: Seq<A>, p: Seq<A>) -> bool {
    p.len() <= s.len() && s.subrange(0, p.len() as int) == p
}

/// `s` ends with `p`.
pub open spec fn has_suffix<A>(s: Seq<A>, p: Seq<A>) -> bool {
    p.len() <= s.len() && s.subrange(s.len() - p.len(), s.len() as int) == p
}

/// `p` occurs in `s` starting at position `i`.
pub open spec fn occurs_at(s: Seq<char>, p: Seq<char>, i: int) -> bool {
    0 <= i && i + p.len() <= s.len() && s.subrange(i, i + p.len()) == p
}

/// `p` occurs somewhere in `s`.
pub open spec fn contains_seq(s: Seq<char>, p: Seq<char>) -> bool {
    exists|i: int| occurs_at(s, p, i)
}

/// Whether `p` occurs in `v` at position `i`.
pub fn matches_at(v: &Vec<char>, p: &Vec<char>, i: usize) -> (r: bool)
    ensures
        r == occurs_at(v@, p@, i as int),
{
    if i > v.len() || p.len() > v.len() - i {
        return false;
    }
    let mut k: usize = 0;
    while k < p.len()
        invariant
            i + p@.len() <= v@.len(),
            v@.len() <= usize::MAX,
            k <= p@.len(),
            forall|j: int| 0 <= j < k ==> v@[i + j] == p@[j],
        decreases p@.len() - k,
    {
        if v[i + k] != p[k] {
            assert(v@.subrange(i as int, i + p@.len())[k as int] != p@[k as int]);
            return false;
        }
        k = k + 1;
    }
    assert(v@.subrange(i as int, i + p@.len()) =~= p@);
    true
}

/// `str::ends_with`.
pub fn ends_with(s: &str, p: &str) -> (r: bool)
    ensures
        r == has_suffix(s@, p@),
{
    let v = to_chars(s);
    let q = to_chars(p);
    if q.len() > v.len() {
        return false;
    }
    matches_at(&v, &q, v.len() - q.len())
}

/// `str::contains` with a string pattern.
pub fn contains(s: &str, p: &str) -> (r: bool)
    ensures
        r == contains_seq(s@, p@),
{
    let v = to_chars(s);
    let q = to_chars(p);
    if q.len() > v.len() {
        assert forall|i: int| !occurs_at(v@, q@, i) by {}
        return false;
    }
    let last = v.len() - q.len();
    let mut i: usize = 0;
    loop
        invariant
            last == v@.len() - q@.len(),
            v@ == s@,
            q@ == p@,
            i <= last,
            forall|j: int| 0 <= j < i ==> !occurs_at(v@, q@, j),
        ensures
            forall|j: int| 0 <= j <= last ==> !occurs_at(v@, q@, j),
        decreases last - i,
    {
        if matches_at(&v, &q, i) {
            assert(occurs_at(s@, p@, i as int));
            return true;
        }
        if i == last {
            break;
        }
        i = i + 1;
    }
    assert forall|j: int| !occurs_at(v@, q@, j) by {
        if occurs_at(v@, q@, j) {
            assert(j <= last);
        }
    }
    false
}


// ---------------------------------------------------------------------------
// Lines
// ---------------------------------------------------------------------------

/// The pieces of `s` between `'\n'` characters (always at least one piece).
pub open spec fn split_nl(s: Seq<char>) -> Seq<Seq<char>>
    decreases s.len(),
{
    if s.len() == 0 {
        seq![Seq::<char>::empty()]
    } else {
        let p = split_nl(s.drop_last());
        if s.last() == '\n' {
            p.push(Seq::<char>::empty())
        } else {
            p.update(p.len() - 1, p.last().push(s.last()))
        }
    }
}

pub proof fn lemma_split_nl_nonempty(s: Seq<char>)
    ensures
        split_nl(s).len() >= 1,
    decreases s.len(),
{
    if s.len() > 0 {
        lemma_split_nl_nonempty(s.drop_last());
    }
}

/// The pieces joined again with `'\n'` give back the text.
pub proof fn lemma_join_split_nl(s: Seq<char>)
    ensures
        join(split_nl(s), seq!['\n']) == s,
    decreases s.len(),
{
    if s.len() == 0 {
        assert(join(split_nl(s), seq!['\n']) =~= s);
    } else {
        let t = s.drop_last();
        let c = s.last();
        lemma_join_split_nl(t);
        lemma_split_nl_nonempty(t);
        let p = split_nl(t);
        assert(s =~= t.push(c));
        if c == '\n' {
            let q = p.push(Seq::<char>::empty());
            assert(q.drop_last() =~= p);
            assert(join(q, seq!['\n']) =~= s);
        } else {
            let q = p.update(p.len() - 1, p.last().push(c));
            if p.len() == 1 {
                assert(join(q, seq!['\n']) =~= s);
            } else {
                assert(q.drop_last() =~= p.drop_last());
                assert(join(q, seq!['\n']) =~= s);
            }
        }
    }
}

/// No piece holds a character that the text does not hold.
pub proof fn lemma_split_nl_lacks(s: Seq<char>, x: char)
    requires
        forall|j: int| 0 <= j < s.len() ==> s[j] != x,
    ensures
        forall|i: int, k: int|
            0 <= i < split_nl(s).len() && 0 <= k < split_nl(s)[i].len() ==> split_nl(s)[i][k] != x,
    decreases s.len(),
{
    if s.len() > 0 {
        let t = s.drop_last();
        lemma_split_nl_lacks(t, x);
        lemma_split_nl_nonempty(t);
        let p = split_nl(t);
        let q = split_nl(s);
        assert forall|i: int, k: int| 0 <= i < q.len() && 0 <= k < q[i].len() implies q[i][k]
            != x by {
            if s.last() != '\n' && i == p.len() - 1 {
                if k < p.last().len() {
                    assert(q[i][k] == p[i][k]);
                } else {
                    assert(q[i][k] == s.last());
                }
            }
        }
    }
}

/// A line that was ended by `"\r\n"` loses its `'\r'`.
pub open spec fn strip_cr(l: Seq<char>) -> Seq<char> {
    if l.len() > 0 && l.last() == '\r' {
        l.drop_last()
    } else {
        l
    }
}

/// `str::lines`: the pieces ended by `'\n'` (without a `'\r'` right before it),
/// then the final piece if it is not empty.
pub open spec fn lines(s: Seq<char>) -> Seq<Seq<char>> {
    let p = split_nl(s);
    Seq::new((p.len() - 1) as nat, |i: int| strip_cr(p[i])) + if p.last().len() == 0 {
        Seq::<Seq<char>>::empty()
    } else {
        seq![p.last()]
    }
}

/// The contents of a sequence of character vectors.
pub open spec fn views(vs: Seq<Vec<char>>) -> Seq<Seq<char>> {
    vs.map_values(|x: Vec<char>| x@)
}

/// `l` without a final `'\r'`.
fn strip_cr_chars(l: Vec<char>) -> (r: Vec<char>)
    ensures
        r@ == strip_cr(l@),
{
    let mut l = l;
    if l.len() > 0 && l[l.len() - 1] == '\r' {
        l.pop();
    }
    l
}

/// `str::lines` on a character vector.
pub fn split_lines(v: &Vec<char>) -> (r: Vec<Vec<char>>)
    ensures
        views(r@) == lines(v@),
{
    let mut res: Vec<Vec<char>> = Vec::new();
    let mut cur: Vec<char> = Vec::new();
    proof {
        assert(v@.take(0) =~= Seq::<char>::empty());
    }
    for i in 0..v.len()
        invariant
            split_nl(v@.take(i as int)).len() >= 1,
            cur@ == split_nl(v@.take(i as int)).last(),
            res@.len() == split_nl(v@.take(i as int)).len() - 1,
            forall|k: int|
                0 <= k < res@.len() ==> #[trigger] res@[k]@ == strip_cr(
                    split_nl(v@.take(i as int))[k],
                ),
    {
        let ghost p = split_nl(v@.take(i as int));
        assert(v@.take(i + 1).drop_last() =~= v@.take(i as int));
        assert(v@.take(i + 1).last() == v@[i as int]);
        if v[i] == '\n' {
            let line = strip_cr_chars(cur);
            res.push(line);
            cur = Vec::new();
        } else {
            cur.push(v[i]);
        }
        proof {
            let q = split_nl(v@.take(i + 1));
            assert forall|k: int| 0 <= k < res@.len() implies #[trigger] res@[k]@ == strip_cr(
                q[k],
            ) by {
                assert(q[k] == p[k]);
            }
        }
    }
    assert(v@.take(v@.len() as int) =~= v@);
    let ghost p = split_nl(v@);
    if cur.len() > 0 {
        res.push(cur);
    }
    assert(views(res@) =~= lines(v@));
    res
}

// ---------------------------------------------------------------------------
// Joining
// ---------------------------------------------------------------------------

/// `[T]::join`: the pieces with `sep` between consecutive ones.
pub open spec fn join(ls: Seq<Seq<char>>, sep: Seq<char>) -> Seq<char>
    decreases ls.len(),
{
    if ls.len() == 0 {
        Seq::<char>::empty()
    } else if ls.len() == 1 {
        ls[0]
    } else {
        join(ls.drop_last(), sep) + sep + ls.last()
    }
}

/// The pieces `ls[lo..]` joined with `sep`.
pub fn join_from(ls: &Vec<Vec<char>>, lo: usize, sep: &str) -> (r: String)
    requires
        lo <= ls@.len(),
    ensures
        r@ == join(views(ls@).skip(lo as int), sep@),
{
    let mut s = String::new();
    let mut i = lo;
    assert(views(ls@).subrange(lo as int, lo as int) =~= Seq::<Seq<char>>::empty());
    while i < ls.len()
        invariant
            lo <= i <= ls@.len(),
            s@ == join(views(ls@).subrange(lo as int, i as int), sep@),
        decreases ls@.len() - i,
    {
        let ghost before = views(ls@).subrange(lo as int, i as int);
        let ghost after = views(ls@).subrange(lo as int, i + 1);
        assert(after.drop_last() =~= before);
        assert(after.last() == ls@[i as int]@);
        if i > lo {
            s.append(sep);
        } else {
            assert(after =~= seq![ls@[i as int]@]);
        }
        let line = &ls[i];
        push_range(&mut s, line, 0, line.len());
        assert(line@.subrange(0, line@.len() as int) =~= line@);
        i = i + 1;
    }
    assert(views(ls@).subrange(lo as int, ls@.len() as int) =~= views(ls@).skip(lo as int));
    s
}

/// The contents of a list of strings.
pub open spec fn string_views(v: Seq<String>) -> Seq<Seq<char>> {
    v.map_values(|s: String| s@)
}

/// `[String]::join`: the strings with `sep` between consecutive ones.
pub fn join_strings(v: &Vec<String>, sep: &str) -> (r: String)
    ensures
        r@ == join(string_views(v@), sep@),
{
    let mut s = String::new();
    let mut i: usize = 0;
    assert(string_views(v@).take(0) =~= Seq::<Seq<char>>::empty());
    while i < v.len()
        invariant
            i <= v@.len(),
            s@ == join(string_views(v@).take(i as int), sep@),
        decreases v@.len() - i,
    {
        let ghost before = string_views(v@).take(i as int);
        let ghost after = string_views(v@).take(i + 1);
        assert(after.drop_last() =~= before);
        assert(after.last() == v@[i as int]@);
        if i > 0 {
            s.append(sep);
        } else {
            assert(after =~= seq![v@[i as int]@]);
        }
        s.append(v[i].as_str());
        i = i + 1;
    }
    assert(string_views(v@).take(v@.len() as int) =~= string_views(v@));
    s
}

// ---------------------------------------------------------------------------
// Decimal numbers
// ---------------------------------------------------------------------------

/// The character of a decimal digit.
pub open spec fn digit_char(d: nat) -> char {
    (d + 48) as char
}

/// The decimal digits of `n`, as `Display` writes them.
pub open spec fn decimal(n: nat) -> Seq<char>
    decreases n,
{
    if n < 10 {
        seq![digit_char(n)]
    } else {
        decimal(n / 10).push(digit_char(n % 10))
    }
}

/// A signed integer as `Display` writes it.
pub open spec fn signed_decimal(n: int) -> Seq<char> {
    if n < 0 {
        seq!['-'] + decimal((-n) as nat)
    } else {
        decimal(n as nat)
    }
}

/// Appends the decimal digits of `n` to `s`.
pub fn push_decimal(s: &mut String, n: u64)
    ensures
        final(s)@ == old(s)@ + decimal(n as nat),
    decreases n,
{
    if n >= 10 {
        push_decimal(s, n / 10);
    }
    let d: u8 = (n % 10) as u8;
    let c: char = (d + 48) as char;
    assert(c == digit_char((n % 10) as nat));
    push_char(s, c);
}

/// Appends `n` in decimal, with a leading `'-'` when negative.
pub fn push_signed_decimal(s: &mut String, n: i64)
    ensures
        final(s)@ == old(s)@ + signed_decimal(n as int),
{
    if n < 0 {
        push_char(s, '-');
        let m: u64 = if n == i64::MIN {
            9223372036854775808u64
        } else {
            (-n) as u64
        };
        push_decimal(s, m);
    } else {
        push_decimal(s, n as u64);
    }
}

// ---------------------------------------------------------------------------
// Lower case
// ---------------------------------------------------------------------------

/// Names what `str::to_lowercase` returns for a string: its Unicode lower-case mapping.
pub uninterp spec fn spec_to_lowercase(s: Seq<char>) -> Seq<char>;

/// The lower case of an ASCII character: `A`..`Z` become `a`..`z`, the
/// others stay.
pub open spec fn ascii_lower(c: char) -> char {
    if 'A' <= c && c <= 'Z' {
        ((c as int) + 32) as char
    } else {
        c
    }
}

/// `str::to_lowercase`. Its result is a function of the string alone; on
/// ASCII text it lowers `A`..`Z` and keeps every other character, and the
/// Unicode case tables that define it beyond ASCII are not restated here.
#[verifier::external_body]
pub(crate) fn to_lowercase(s: &str) -> (r: String)
    ensures
        r@ == spec_to_lowercase(s@),
        vstd::utf8::is_ascii_chars(s@) ==> r@ == Seq::new(s@.len(), |i: int| ascii_lower(s@[i])),
{
    s.to_lowercase()
}

} // verus!
