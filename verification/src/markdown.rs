//! Cleaning of model output: markdown code fences and inline backticks are
//! removed, and a suggested fix is split into its command and explanation.

use vstd::prelude::*;
use crate::text::{
    has_prefix, join, join_from, lemma_join_split_nl, lemma_split_nl_lacks, lemma_split_nl_nonempty,
    lemma_trim_bounds, lemma_trim_idempotent, lemma_trim_push_ws, lines, split_lines, split_nl,
    string_from_chars, string_from_range, strip_cr, to_chars, trim, trim_bounds, trim_chars,
    trim_lo, views,
};

verus! {

/// A line whose trimmed text begins with three backticks opens or closes a code block.
pub open spec fn is_fence(line: Seq<char>) -> bool {
    has_prefix(trim(line), seq!['`', '`', '`'])
}

/// `str::replace('`', "")`: the line without its backticks.
pub open spec fn drop_backticks(s: Seq<char>) -> Seq<char>
    decreases s.len(),
{
    if s.len() == 0 {
        Seq::<char>::empty()
    } else {
        let r = drop_backticks(s.drop_last());
        if s.last() == '`' {
            r
        } else {
            r.push(s.last())
        }
    }
}

/// Whether a code block is open after the lines `ls`.
pub open spec fn md_in_code(ls: Seq<Seq<char>>) -> bool
    decreases ls.len(),
{
    if ls.len() == 0 {
        false
    } else {
        let st = md_in_code(ls.drop_last());
        if is_fence(ls.last()) {
            !st
        } else {
            st
        }
    }
}

/// The text kept from the lines `ls`: fence lines are dropped, lines inside a
/// code block are kept as they are, other lines lose their backticks, and
/// every kept line is ended by `'\n'`.
pub open spec fn md_text(ls: Seq<Seq<char>>) -> Seq<char>
    decreases ls.len(),
{
    if ls.len() == 0 {
        Seq::<char>::empty()
    } else {
        let prev = md_text(ls.drop_last());
        let l = ls.last();
        if is_fence(l) {
            prev
        } else {
            prev + (if md_in_code(ls.drop_last()) {
                l
            } else {
                drop_backticks(l)
            }) + seq!['\n']
        }
    }
}

/// What [`strip_markdown`] returns for `text`.
pub open spec fn spec_strip_markdown(text: Seq<char>) -> Seq<char> {
    trim(md_text(lines(text)))
}

/// The cleaned text neither begins nor ends with whitespace.
pub proof fn lemma_strip_markdown_is_trimmed(text: Seq<char>)
    ensures
        trim(spec_strip_markdown(text)) == spec_strip_markdown(text),
{
    lemma_trim_idempotent(md_text(lines(text)));
}

/// `drop_backticks` leaves no backtick.
pub proof fn lemma_drop_backticks_has_none(s: Seq<char>)
    ensures
        forall|k: int| 0 <= k < drop_backticks(s).len() ==> drop_backticks(s)[k] != '`',
    decreases s.len(),
{
    if s.len() > 0 {
        lemma_drop_backticks_has_none(s.drop_last());
        let r = drop_backticks(s.drop_last());
        if s.last() != '`' {
            assert forall|k: int| 0 <= k < r.push(s.last()).len() implies r.push(s.last())[k]
                != '`' by {
                if k < r.len() {
                    assert(r.push(s.last())[k] == r[k]);
                }
            }
        }
    }
}

/// Without any fence line, no code block is ever open and no line keeps a backtick.
proof fn lemma_no_fence_text_has_no_backtick(ls: Seq<Seq<char>>)
    requires
        forall|i: int| 0 <= i < ls.len() ==> !is_fence(#[trigger] ls[i]),
    ensures
        !md_in_code(ls),
        forall|k: int| 0 <= k < md_text(ls).len() ==> md_text(ls)[k] != '`',
    decreases ls.len(),
{
    if ls.len() > 0 {
        let prev = ls.drop_last();
        assert forall|i: int| 0 <= i < prev.len() implies !is_fence(#[trigger] prev[i]) by {
            assert(prev[i] == ls[i]);
        }
        lemma_no_fence_text_has_no_backtick(prev);
        assert(!is_fence(ls[ls.len() - 1]));
        lemma_drop_backticks_has_none(ls.last());
        let piece = drop_backticks(ls.last());
        let whole = md_text(prev) + piece + seq!['\n'];
        assert(md_text(ls) == whole);
        assert forall|k: int| 0 <= k < whole.len() implies whole[k] != '`' by {
            if k < md_text(prev).len() {
            } else if k < md_text(prev).len() + piece.len() {
                assert(whole[k] == piece[k - md_text(prev).len()]);
            } else {
                assert(whole[k] == '\n');
            }
        }
    }
}

/// Inline backticks are stripped: when a reply has no code fence line, its
/// cleaned text holds no backtick.
pub proof fn lemma_no_fence_no_backtick(text: Seq<char>)
    requires
        forall|i: int| 0 <= i < lines(text).len() ==> !is_fence(#[trigger] lines(text)[i]),
    ensures
        forall|k: int|
            0 <= k < spec_strip_markdown(text).len() ==> spec_strip_markdown(text)[k] != '`',
{
    let body = md_text(lines(text));
    lemma_no_fence_text_has_no_backtick(lines(text));
    lemma_trim_bounds(body);
    assert forall|k: int| 0 <= k < spec_strip_markdown(text).len() implies spec_strip_markdown(
        text,
    )[k] != '`' by {
        assert(spec_strip_markdown(text)[k] == body[trim_lo(body) + k]);
    }
}

/// `c` does not occur in `s`.
pub open spec fn lacks(s: Seq<char>, c: char) -> bool {
    forall|j: int| 0 <= j < s.len() ==> s[j] != c
}

/// The lines `ls`, each followed by `'\n'`.
pub open spec fn terminated(ls: Seq<Seq<char>>) -> Seq<char>
    decreases ls.len(),
{
    if ls.len() == 0 {
        Seq::<char>::empty()
    } else {
        terminated(ls.drop_last()) + ls.last() + seq!['\n']
    }
}

proof fn lemma_drop_backticks_plain(s: Seq<char>)
    requires
        lacks(s, '`'),
    ensures
        drop_backticks(s) == s,
    decreases s.len(),
{
    if s.len() > 0 {
        lemma_drop_backticks_plain(s.drop_last());
        assert(s =~= s.drop_last().push(s.last()));
    }
}

/// A line without backticks is no fence.
proof fn lemma_plain_line_is_no_fence(l: Seq<char>)
    requires
        lacks(l, '`'),
    ensures
        !is_fence(l),
{
    lemma_trim_bounds(l);
    let t = trim(l);
    if t.len() >= 3 {
        assert(t[0] == l[trim_lo(l)]);
        assert(t.subrange(0, 3)[0] == t[0]);
    }
}

/// Lines without backticks are kept as they are, each ended by `'\n'`.
proof fn lemma_md_text_plain(ls: Seq<Seq<char>>)
    requires
        forall|i: int| 0 <= i < ls.len() ==> lacks(#[trigger] ls[i], '`'),
    ensures
        md_text(ls) == terminated(ls),
        !md_in_code(ls),
    decreases ls.len(),
{
    if ls.len() > 0 {
        let prev = ls.drop_last();
        assert forall|i: int| 0 <= i < prev.len() implies lacks(#[trigger] prev[i], '`') by {
            assert(prev[i] == ls[i]);
        }
        lemma_md_text_plain(prev);
        assert(lacks(ls[ls.len() - 1], '`'));
        lemma_plain_line_is_no_fence(ls.last());
        lemma_drop_backticks_plain(ls.last());
    }
}

proof fn lemma_terminated_join(ls: Seq<Seq<char>>)
    requires
        ls.len() > 0,
    ensures
        terminated(ls) == join(ls, seq!['\n']) + seq!['\n'],
    decreases ls.len(),
{
    if ls.len() == 1 {
        assert(terminated(ls.drop_last()) =~= Seq::<char>::empty());
        assert(terminated(ls) =~= join(ls, seq!['\n']) + seq!['\n']);
    } else {
        lemma_terminated_join(ls.drop_last());
        assert(terminated(ls) =~= join(ls, seq!['\n']) + seq!['\n']);
    }
}

/// Text without backticks and carriage returns passes through the cleaning
/// untouched apart from trimming.
pub proof fn lemma_plain_text_is_only_trimmed(text: Seq<char>)
    requires
        lacks(text, '`'),
        lacks(text, '\r'),
    ensures
        spec_strip_markdown(text) == trim(text),
{
    let p = split_nl(text);
    lemma_split_nl_nonempty(text);
    lemma_split_nl_lacks(text, '`');
    lemma_split_nl_lacks(text, '\r');
    lemma_join_split_nl(text);
    let n = p.len();
    assert forall|i: int| 0 <= i < n implies strip_cr(p[i]) == p[i] by {
        if p[i].len() > 0 {
            assert(p[i].last() == p[i][p[i].len() - 1]);
        }
    }
    let ls = lines(text);
    let head = Seq::new((n - 1) as nat, |i: int| strip_cr(p[i]));
    assert(head =~= p.take(n - 1));
    assert forall|i: int| 0 <= i < ls.len() implies lacks(#[trigger] ls[i], '`') by {
        if i < n - 1 {
            assert(ls[i] == p[i]);
        } else {
            assert(ls[i] == p[n - 1]);
        }
        assert forall|k: int| 0 <= k < ls[i].len() implies ls[i][k] != '`' by {
            if i < n - 1 {
                assert(ls[i][k] == p[i][k]);
            } else {
                assert(ls[i][k] == p[n - 1][k]);
            }
        }
    }
    lemma_md_text_plain(ls);
    if p.last().len() == 0 {
        assert(ls =~= p.take(n - 1));
        if n == 1 {
            assert(text =~= Seq::<char>::empty());
            assert(md_text(ls) =~= text);
        } else {
            lemma_terminated_join(ls);
            assert(p.drop_last() =~= p.take(n - 1));
            assert(join(p, seq!['\n']) =~= join(p.take(n - 1), seq!['\n']) + seq!['\n']);
            assert(md_text(ls) =~= text);
        }
    } else {
        assert(ls =~= p);
        lemma_terminated_join(ls);
        assert(md_text(ls) =~= text.push('\n'));
        lemma_trim_push_ws(text, '\n');
    }
}

/// The lines that cleaning keeps: every line that is no fence, in order,
/// as it is inside a code block and without its backticks outside one.
pub open spec fn kept_lines(ls: Seq<Seq<char>>) -> Seq<Seq<char>>
    decreases ls.len(),
{
    if ls.len() == 0 {
        Seq::<Seq<char>>::empty()
    } else {
        let prev = kept_lines(ls.drop_last());
        let l = ls.last();
        if is_fence(l) {
            prev
        } else {
            prev.push(
                if md_in_code(ls.drop_last()) {
                    l
                } else {
                    drop_backticks(l)
                },
            )
        }
    }
}

proof fn lemma_md_text_is_terminated_kept(ls: Seq<Seq<char>>)
    ensures
        md_text(ls) == terminated(kept_lines(ls)),
    decreases ls.len(),
{
    if ls.len() > 0 {
        lemma_md_text_is_terminated_kept(ls.drop_last());
        let k = kept_lines(ls);
        if !is_fence(ls.last()) {
            assert(k.drop_last() =~= kept_lines(ls.drop_last()));
        }
    }
}

/// No fence line survives cleaning: every kept line comes from a line that
/// is no fence, either as it is or without its backticks.
pub proof fn lemma_kept_lines_are_not_fences(ls: Seq<Seq<char>>)
    ensures
        forall|j: int|
            0 <= j < kept_lines(ls).len() ==> exists|i: int|
                0 <= i < ls.len() && !is_fence(ls[i]) && (#[trigger] kept_lines(ls)[j] == ls[i]
                    || kept_lines(ls)[j] == drop_backticks(ls[i])),
    decreases ls.len(),
{
    if ls.len() > 0 {
        let prev = ls.drop_last();
        lemma_kept_lines_are_not_fences(prev);
        let k = kept_lines(ls);
        let kp = kept_lines(prev);
        assert forall|j: int| 0 <= j < k.len() implies exists|i: int|
            0 <= i < ls.len() && !is_fence(ls[i]) && (#[trigger] k[j] == ls[i] || k[j]
                == drop_backticks(ls[i])) by {
            if j < kp.len() {
                assert(k[j] == kp[j]);
                let i = choose|i: int|
                    0 <= i < prev.len() && !is_fence(prev[i]) && (#[trigger] kp[j] == prev[i]
                        || kp[j] == drop_backticks(prev[i]));
                assert(prev[i] == ls[i]);
            } else {
                assert(ls[ls.len() - 1] == ls.last());
            }
        }
    }
}

/// The cleaned text is the kept lines joined with `'\n'` and trimmed.
pub proof fn lemma_strip_markdown_is_kept_lines(text: Seq<char>)
    ensures
        spec_strip_markdown(text) == trim(join(kept_lines(lines(text)), seq!['\n'])),
{
    let k = kept_lines(lines(text));
    lemma_md_text_is_terminated_kept(lines(text));
    if k.len() == 0 {
        assert(terminated(k) =~= join(k, seq!['\n']));
    } else {
        lemma_terminated_join(k);
        assert(terminated(k) =~= join(k, seq!['\n']).push('\n'));
        lemma_trim_push_ws(join(k, seq!['\n']), '\n');
    }
}

proof fn lemma_kept_lines_without_fences(ls: Seq<Seq<char>>)
    requires
        forall|i: int| 0 <= i < ls.len() ==> !is_fence(#[trigger] ls[i]),
    ensures
        kept_lines(ls) == ls.map_values(|l: Seq<char>| drop_backticks(l)),
    decreases ls.len(),
{
    if ls.len() > 0 {
        let prev = ls.drop_last();
        assert forall|i: int| 0 <= i < prev.len() implies !is_fence(#[trigger] prev[i]) by {
            assert(prev[i] == ls[i]);
        }
        lemma_kept_lines_without_fences(prev);
        lemma_no_fence_text_has_no_backtick(prev);
        assert(!is_fence(ls[ls.len() - 1]));
        assert(kept_lines(ls) =~= ls.map_values(|l: Seq<char>| drop_backticks(l)));
    }
}

/// A reply without any fence line cleans to its lines, each without its
/// backticks, joined with `'\n'` and trimmed.
pub proof fn lemma_no_fence_text_cleans_to_lines(text: Seq<char>)
    requires
        forall|i: int| 0 <= i < lines(text).len() ==> !is_fence(#[trigger] lines(text)[i]),
    ensures
        spec_strip_markdown(text) == trim(
            join(lines(text).map_values(|l: Seq<char>| drop_backticks(l)), seq!['\n']),
        ),
{
    lemma_kept_lines_without_fences(lines(text));
    lemma_strip_markdown_is_kept_lines(text);
}

/// Cleaning text without backticks and carriage returns twice gives what
/// cleaning it once gives.
pub proof fn lemma_strip_markdown_idempotent_on_plain(text: Seq<char>)
    requires
        lacks(text, '`'),
        lacks(text, '\r'),
    ensures
        spec_strip_markdown(spec_strip_markdown(text)) == spec_strip_markdown(text),
{
    lemma_plain_text_is_only_trimmed(text);
    let t = trim(text);
    lemma_trim_bounds(text);
    assert forall|j: int| 0 <= j < t.len() implies t[j] != '`' && t[j] != '\r' by {
        assert(t[j] == text[trim_lo(text) + j]);
    }
    lemma_plain_text_is_only_trimmed(t);
    lemma_trim_idempotent(text);
}

/// Appends `l` to `out`, leaving out its backticks.
fn push_without_backticks(out: &mut Vec<char>, l: &Vec<char>)
    ensures
        final(out)@ == old(out)@ + drop_backticks(l@),
{
    let mut i: usize = 0;
    while i < l.len()
        invariant
            i <= l@.len(),
            out@ == old(out)@ + drop_backticks(l@.take(i as int)),
        decreases l@.len() - i,
    {
        assert(l@.take(i + 1).drop_last() =~= l@.take(i as int));
        assert(l@.take(i + 1).last() == l@[i as int]);
        if l[i] != '`' {
            out.push(l[i]);
        }
        i = i + 1;
    }
    assert(l@.take(l@.len() as int) =~= l@);
}

/// Appends all of `l` to `out`.
fn push_all(out: &mut Vec<char>, l: &Vec<char>)
    ensures
        final(out)@ == old(out)@ + l@,
{
    let mut i: usize = 0;
    while i < l.len()
        invariant
            i <= l@.len(),
            out@ == old(out)@ + l@.take(i as int),
        decreases l@.len() - i,
    {
        assert(l@.take(i + 1) =~= l@.take(i as int).push(l@[i as int]));
        out.push(l[i]);
        i = i + 1;
    }
    assert(l@.take(l@.len() as int) =~= l@);
}

/// Whether a line opens or closes a code block.
fn fence_line(l: &Vec<char>) -> (r: bool)
    ensures
        r == is_fence(l@),
{
    let t = trim_chars(l);
    let r = t.len() >= 3 && t[0] == '`' && t[1] == '`' && t[2] == '`';
    assert(r == has_prefix(t@, seq!['`', '`', '`'])) by {
        if t@.len() >= 3 {
            if r {
                assert(t@.subrange(0, 3) =~= seq!['`', '`', '`']);
            } else if t@.subrange(0, 3) == seq!['`', '`', '`'] {
                assert(t@.subrange(0, 3)[0] == t@[0]);
                assert(t@.subrange(0, 3)[1] == t@[1]);
                assert(t@.subrange(0, 3)[2] == t@[2]);
            }
        }
    }
    r
}

/// Strips markdown formatting from model output: code fences are removed,
/// backticks outside code blocks are removed, and the result is trimmed.
pub fn strip_markdown(text: &str) -> (r: String)
    ensures
        r@ == spec_strip_markdown(text@),
{
    let v = to_chars(text);
    let ls = split_lines(&v);
    let ghost vls = views(ls@);
    let mut out: Vec<char> = Vec::new();
    let mut in_code = false;
    assert(vls.take(0) =~= Seq::<Seq<char>>::empty());
    for i in 0..ls.len()
        invariant
            vls == views(ls@),
            out@ == md_text(vls.take(i as int)),
            in_code == md_in_code(vls.take(i as int)),
    {
        let line = &ls[i];
        assert(vls.take(i + 1).drop_last() =~= vls.take(i as int));
        assert(vls.take(i + 1).last() == line@);
        if fence_line(line) {
            in_code = !in_code;
        } else {
            if in_code {
                push_all(&mut out, line);
            } else {
                push_without_backticks(&mut out, line);
            }
            out.push('\n');
        }
    }
    assert(vls.take(ls@.len() as int) =~= vls);
    let (lo, hi) = trim_bounds(&out);
    string_from_range(&out, lo, hi)
}

/// The first line of `ls` (empty when there is none).
pub open spec fn first_line(ls: Seq<Seq<char>>) -> Seq<char> {
    if ls.len() > 0 {
        ls[0]
    } else {
        Seq::<char>::empty()
    }
}

/// The lines of `ls` after the first one.
pub open spec fn rest_lines(ls: Seq<Seq<char>>) -> Seq<Seq<char>> {
    if ls.len() > 0 {
        ls.skip(1)
    } else {
        ls
    }
}

/// Splits a model reply to a failed command into the suggested command (the
/// first line of the cleaned reply) and its explanation (the remaining lines,
/// joined with `'\n'`).
pub fn split_fix_response(response: &str) -> (r: (String, String))
    ensures
        r.0@ == first_line(lines(spec_strip_markdown(response@))),
        r.1@ == join(rest_lines(lines(spec_strip_markdown(response@))), "\n"@),
{
    let cleaned = strip_markdown(response);
    let v = to_chars(cleaned.as_str());
    let ls = split_lines(&v);
    let ghost vls = views(ls@);
    if ls.len() > 0 {
        let cmd = string_from_chars(&ls[0]);
        let explanation = join_from(&ls, 1, "\n");
        (cmd, explanation)
    } else {
        assert(vls.skip(0) =~= vls);
        (String::new(), join_from(&ls, 0, "\n"))
    }
}

} // verus!
