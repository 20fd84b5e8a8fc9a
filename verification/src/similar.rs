//! Edit distance between words and the search for a near miss among known
//! subcommand names.

use vstd::prelude::*;
use crate::text::{spec_to_lowercase, str_eq, to_chars, to_lowercase};

verus! {

/// The smaller of two naturals (`Ord::min`).
pub open spec fn min_nat(x: nat, y: nat) -> nat {
    if x <= y {
        x
    } else {
        y
    }
}

/// The Levenshtein distance: the least number of single-character
/// insertions, deletions and substitutions that turn `a` into `b`.
pub open spec fn lev(a: Seq<char>, b: Seq<char>) -> nat
    decreases a.len() + b.len(),
{
    if a.len() == 0 {
        b.len()
    } else if b.len() == 0 {
        a.len()
    } else {
        let cost: nat = if a.last() == b.last() {
            0
        } else {
            1
        };
        min_nat(
            min_nat(lev(a.drop_last(), b) + 1, lev(a, b.drop_last()) + 1),
            lev(a.drop_last(), b.drop_last()) + cost,
        )
    }
}

/// The distance never exceeds the length of the longer word.
pub proof fn lemma_lev_at_most_longer(a: Seq<char>, b: Seq<char>)
    ensures
        lev(a, b) <= if a.len() >= b.len() {
            a.len()
        } else {
            b.len()
        },
    decreases a.len() + b.len(),
{
    if a.len() > 0 && b.len() > 0 {
        lemma_lev_at_most_longer(a.drop_last(), b.drop_last());
    }
}

/// The edit distance is symmetric: turning `a` into `b` costs as many edits
/// as turning `b` into `a`.
pub proof fn lemma_lev_symmetric(a: Seq<char>, b: Seq<char>)
    ensures
        lev(a, b) == lev(b, a),
    decreases a.len() + b.len(),
{
    if a.len() > 0 && b.len() > 0 {
        lemma_lev_symmetric(a.drop_last(), b);
        lemma_lev_symmetric(a, b.drop_last());
        lemma_lev_symmetric(a.drop_last(), b.drop_last());
    }
}

/// Two words are at distance zero exactly when they are equal.
pub proof fn lemma_lev_zero_iff_equal(a: Seq<char>, b: Seq<char>)
    ensures
        lev(a, b) == 0 <==> a == b,
    decreases a.len() + b.len(),
{
    if a.len() > 0 && b.len() > 0 {
        lemma_lev_zero_iff_equal(a.drop_last(), b.drop_last());
        assert(a =~= a.drop_last().push(a.last()));
        assert(b =~= b.drop_last().push(b.last()));
        if a == b {
            assert(a.drop_last() =~= b.drop_last());
        }
    } else if a.len() == 0 && b.len() > 0 {
        assert(a != b);
    } else if a.len() > 0 && b.len() == 0 {
        assert(a != b);
    } else {
        assert(a =~= b);
    }
}

/// The distance is at least the difference of the lengths.
pub proof fn lemma_lev_at_least_length_difference(a: Seq<char>, b: Seq<char>)
    ensures
        lev(a, b) >= a.len() - b.len(),
        lev(a, b) >= b.len() - a.len(),
    decreases a.len() + b.len(),
{
    if a.len() > 0 && b.len() > 0 {
        lemma_lev_at_least_length_difference(a.drop_last(), b);
        lemma_lev_at_least_length_difference(a, b.drop_last());
        lemma_lev_at_least_length_difference(a.drop_last(), b.drop_last());
    }
}

/// Deleting the last character of `a` costs one edit.
proof fn lemma_lev_drop_first_word(a: Seq<char>, c: Seq<char>)
    requires
        a.len() > 0,
    ensures
        lev(a, c) <= lev(a.drop_last(), c) + 1,
{
}

/// Inserting the last character of `c` costs one edit.
proof fn lemma_lev_drop_second_word(a: Seq<char>, c: Seq<char>)
    requires
        c.len() > 0,
    ensures
        lev(a, c) <= lev(a, c.drop_last()) + 1,
{
}

/// The triangle inequality: going from `a` to `c` never takes more edits
/// than going from `a` to `b` and then from `b` to `c`.
pub proof fn lemma_lev_triangle(a: Seq<char>, b: Seq<char>, c: Seq<char>)
    ensures
        lev(a, c) <= lev(a, b) + lev(b, c),
    decreases a.len() + b.len() + c.len(),
{
    if b.len() == 0 {
        lemma_lev_at_most_longer(a, c);
    } else if a.len() == 0 {
        lemma_lev_at_least_length_difference(b, c);
    } else if c.len() == 0 {
        lemma_lev_at_least_length_difference(a, b);
    } else {
        let a1 = a.drop_last();
        let b1 = b.drop_last();
        let c1 = c.drop_last();
        lemma_lev_drop_first_word(a, c);
        lemma_lev_drop_second_word(a, c);
        if lev(a, b) == lev(a1, b) + 1 {
            lemma_lev_triangle(a1, b, c);
        } else if lev(b, c) == lev(b, c1) + 1 {
            lemma_lev_triangle(a, b, c1);
        } else if lev(a, b) == lev(a, b1) + 1 {
            if lev(b, c) == lev(b1, c) + 1 {
                lemma_lev_triangle(a, b1, c);
            } else {
                lemma_lev_triangle(a, b1, c1);
            }
        } else {
            if lev(b, c) == lev(b1, c) + 1 {
                lemma_lev_triangle(a1, b1, c);
            } else {
                lemma_lev_triangle(a1, b1, c1);
            }
        }
    }
}

/// `x + 1`, or `x` when that would not fit.
fn inc_capped(x: usize) -> (r: usize)
    ensures
        r == if x < usize::MAX {
            x + 1
        } else {
            x as int
        },
{
    if x < usize::MAX {
        x + 1
    } else {
        x
    }
}

/// The edit distance between `a` and `b`, computed row by row over the
/// table of distances between their prefixes.
pub fn edit_distance(a: &str, b: &str) -> (d: usize)
    ensures
        d == lev(a@, b@),
{
    let av = to_chars(a);
    let bv = to_chars(b);
    let n = av.len();
    let m = bv.len();
    let ghost sa = av@;
    let ghost sb = bv@;
    // Row 0: the distance from the empty prefix of `a` to each prefix of `b`.
    let mut prev: Vec<usize> = Vec::new();
    let mut j: usize = 0;
    loop
        invariant_except_break
            prev@.len() == j,
            forall|k: int| 0 <= k < j ==> prev@[k] == lev(sa.take(0), sb.take(k)),
        invariant
            j <= m,
            m == sb.len(),
        ensures
            prev@.len() == m + 1,
            forall|k: int| 0 <= k <= m ==> prev@[k] == lev(sa.take(0), sb.take(k)),
        decreases m - j,
    {
        assert(sa.take(0).len() == 0);
        assert(sb.take(j as int).len() == j);
        prev.push(j);
        if j == m {
            break;
        }
        j = j + 1;
    }
    let row_len = prev.len();
    assert(row_len == prev@.len());
    for i in 0..n
        invariant
            n == sa.len(),
            m == sb.len(),
            av@ == sa,
            bv@ == sb,
            n <= usize::MAX,
            prev@.len() == m + 1,
            m + 1 <= usize::MAX,
            forall|k: int| 0 <= k <= m ==> prev@[k] == lev(sa.take(i as int), sb.take(k)),
    {
        let mut cur: Vec<usize> = Vec::new();
        assert(sb.take(0).len() == 0);
        assert(sa.take(i + 1).len() == i + 1);
        cur.push(i + 1);
        for j in 0..m
            invariant
                n == sa.len(),
                m == sb.len(),
                av@ == sa,
                bv@ == sb,
                i < n,
                n <= usize::MAX,
                prev@.len() == m + 1,
                forall|k: int| 0 <= k <= m ==> prev@[k] == lev(sa.take(i as int), sb.take(k)),
                cur@.len() == j + 1,
                forall|k: int| 0 <= k <= j ==> cur@[k] == lev(sa.take(i + 1), sb.take(k)),
        {
            let ghost x = sa.take(i + 1);
            let ghost y = sb.take(j + 1);
            assert(x.drop_last() =~= sa.take(i as int));
            assert(y.drop_last() =~= sb.take(j as int));
            assert(x.last() == sa[i as int]);
            assert(y.last() == sb[j as int]);
            let cost: usize = if av[i] == bv[j] {
                0
            } else {
                1
            };
            let deletion = inc_capped(prev[j + 1]);
            let insertion = inc_capped(cur[j]);
            proof {
                lemma_lev_at_most_longer(sa.take(i as int), sb.take(j as int));
            }
            let substitution = prev[j] + cost;
            let best = if deletion <= insertion {
                deletion
            } else {
                insertion
            };
            let best = if best <= substitution {
                best
            } else {
                substitution
            };
            cur.push(best);
        }
        prev = cur;
    }
    assert(sa.take(n as int) =~= sa);
    assert(sb.take(m as int) =~= sb);
    prev[m]
}

/// The contents of a list of string slices.
pub open spec fn strs(cs: Seq<&str>) -> Seq<Seq<char>> {
    cs.map_values(|c: &str| c@)
}

/// Some candidate equals the input exactly.
pub open spec fn has_exact(input: Seq<char>, cands: Seq<Seq<char>>) -> bool {
    exists|j: int| 0 <= j < cands.len() && cands[j] == input
}

/// `cands[i]` is within two edits of the input, no candidate is closer, and
/// it comes first among the closest ones.
pub open spec fn is_best_match(input: Seq<char>, cands: Seq<Seq<char>>, i: int) -> bool {
    &&& 0 <= i < cands.len()
    &&& lev(input, cands[i]) <= 2
    &&& forall|j: int| 0 <= j < cands.len() ==> lev(input, cands[i]) <= lev(input, cands[j])
    &&& forall|j: int| 0 <= j < i ==> lev(input, cands[i]) < lev(input, cands[j])
}

/// The near-miss search on an input that is already in lower case: `None` when
/// some candidate matches exactly (it is not a typo) or none is within two
/// edits; otherwise the first of the closest candidates.
pub fn find_similar_lowered<'a>(input_lower: &str, candidates: &[&'a str]) -> (r: Option<&'a str>)
    ensures
        has_exact(input_lower@, strs(candidates@)) ==> r is None,
        !has_exact(input_lower@, strs(candidates@)) ==> (r is None <==> forall|j: int|
            0 <= j < candidates@.len() ==> lev(input_lower@, strs(candidates@)[j]) > 2),
        r matches Some(c) ==> exists|i: int|
            is_best_match(input_lower@, strs(candidates@), i) && c@ == strs(candidates@)[i],
{
    let ghost cs = strs(candidates@);
    let ghost inp = input_lower@;
    let mut best: Option<(usize, usize)> = None;
    for k in 0..candidates.len()
        invariant
            cs == strs(candidates@),
            inp == input_lower@,
            forall|j: int| 0 <= j < k ==> cs[j] != inp,
            best is None ==> forall|j: int| 0 <= j < k ==> lev(inp, cs[j]) > 2,
            best matches Some(p) ==> {
                &&& p.0 < k
                &&& p.1 == lev(inp, cs[p.0 as int])
                &&& p.1 <= 2
                &&& forall|j: int| 0 <= j < k ==> p.1 <= lev(inp, cs[j])
                &&& forall|j: int| 0 <= j < p.0 ==> p.1 < lev(inp, cs[j])
            },
    {
        let candidate: &str = candidates[k];
        assert(cs[k as int] == candidate@);
        if str_eq(input_lower, candidate) {
            assert(has_exact(inp, cs));
            return None;
        }
        let dist = edit_distance(input_lower, candidate);
        if dist <= 2 {
            let better = match best {
                None => true,
                Some(p) => dist < p.1,
            };
            if better {
                best = Some((k, dist));
            }
        }
    }
    assert(!has_exact(inp, cs));
    match best {
        None => None,
        Some(p) => {
            assert(is_best_match(inp, cs, p.0 as int));
            Some(candidates[p.0])
        },
    }
}

/// Finds a candidate within two edits of `input` (compared in lower case).
/// Returns `None` on an exact match, which is no typo.
pub fn find_similar<'a>(input: &str, candidates: &[&'a str]) -> (r: Option<&'a str>)
    ensures
        has_exact(spec_to_lowercase(input@), strs(candidates@)) ==> r is None,
        !has_exact(spec_to_lowercase(input@), strs(candidates@)) ==> (r is None <==> forall|j: int|
            0 <= j < candidates@.len() ==> lev(spec_to_lowercase(input@), strs(candidates@)[j])
                > 2),
        r matches Some(c) ==> exists|i: int|
            is_best_match(spec_to_lowercase(input@), strs(candidates@), i) && c@ == strs(
                candidates@,
            )[i],
{
    let lower = to_lowercase(input);
    find_similar_lowered(lower.as_str(), candidates)
}

} // verus!
