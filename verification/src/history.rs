//! Shell history as context for prompts: which files may hold it, and the
//! most recent lines of such a file.

use vstd::prelude::*;
use vstd::string::*;
use crate::paths::{join_path, push_bytes, push_path, str_bytes, user_home_dir};
use crate::text::{join, join_from, lines, split_lines, to_chars, views};

verus! {

/// The lines of a history file that are kept: the last `max_lines` of them
/// (all of them when there are fewer).
pub open spec fn recent_lines(contents: Seq<char>, max_lines: nat) -> Seq<Seq<char>> {
    let ls = lines(contents);
    if ls.len() > max_lines {
        ls.skip(ls.len() - max_lines)
    } else {
        ls
    }
}

/// The most recent `max_lines` lines of a history file's contents, joined
/// with `'\n'`.
pub fn recent_history(contents: &str, max_lines: usize) -> (r: String)
    ensures
        r@ == join(recent_lines(contents@, max_lines as nat), "\n"@),
{
    let v = to_chars(contents);
    let ls = split_lines(&v);
    let start = if ls.len() > max_lines {
        ls.len() - max_lines
    } else {
        0
    };
    assert(views(ls@).skip(0) =~= views(ls@));
    join_from(&ls, start, "\n")
}

/// The history text from the results of reading the candidate files in
/// order (`None` for a file that could not be read): the recent lines of the
/// first file that was read, or nothing when none was.
pub open spec fn spec_history_from_reads(reads: Seq<Option<String>>, max_lines: nat) -> Seq<char>
    decreases reads.len(),
{
    if reads.len() == 0 {
        Seq::<char>::empty()
    } else {
        match reads[0] {
            Some(c) => join(recent_lines(c@, max_lines), "\n"@),
            None => spec_history_from_reads(reads.drop_first(), max_lines),
        }
    }
}

/// The first file that could be read is the one used: when `reads[i]` holds
/// contents and every earlier read failed, the history is the last
/// `max_lines` lines of those contents joined with `'\n'`; when no read
/// succeeded, it is empty.
pub proof fn lemma_history_uses_first_readable(
    reads: Seq<Option<String>>,
    max_lines: nat,
    i: int,
)
    requires
        0 <= i < reads.len(),
        reads[i] is Some,
        forall|j: int| 0 <= j < i ==> reads[j] is None,
    ensures
        spec_history_from_reads(reads, max_lines) == join(
            recent_lines(reads[i]->0@, max_lines),
            "\n"@,
        ),
    decreases i,
{
    if i > 0 {
        let rest = reads.drop_first();
        assert forall|j: int| 0 <= j < i - 1 implies rest[j] is None by {
            assert(rest[j] == reads[j + 1]);
        }
        lemma_history_uses_first_readable(rest, max_lines, i - 1);
        assert(rest[i - 1] == reads[i]);
    }
}

/// No readable file, no history.
pub proof fn lemma_history_empty_without_reads(reads: Seq<Option<String>>, max_lines: nat)
    requires
        forall|j: int| 0 <= j < reads.len() ==> reads[j] is None,
    ensures
        spec_history_from_reads(reads, max_lines) == Seq::<char>::empty(),
    decreases reads.len(),
{
    if reads.len() > 0 {
        let rest = reads.drop_first();
        assert forall|j: int| 0 <= j < rest.len() implies rest[j] is None by {
            assert(rest[j] == reads[j + 1]);
        }
        lemma_history_empty_without_reads(rest, max_lines);
    }
}

/// The recent history from the results of trying the candidate files in
/// order: the first file that could be read gives it; when none could, it
/// is empty (history is context that may be missing).
pub fn history_from_reads(reads: &Vec<Option<String>>, max_lines: usize) -> (r: String)
    ensures
        r@ == spec_history_from_reads(reads@, max_lines as nat),
{
    let mut i: usize = 0;
    assert(reads@.skip(0) =~= reads@);
    while i < reads.len()
        invariant
            i <= reads@.len(),
            spec_history_from_reads(reads@.skip(i as int), max_lines as nat)
                == spec_history_from_reads(reads@, max_lines as nat),
        decreases reads@.len() - i,
    {
        assert(reads@.skip(i as int)[0] == reads@[i as int]);
        assert(reads@.skip(i as int).drop_first() =~= reads@.skip(i + 1));
        match &reads[i] {
            Some(c) => {
                return recent_history(c.as_str(), max_lines);
            },
            None => {},
        }
        i = i + 1;
    }
    assert(reads@.skip(i as int) =~= Seq::<Option<String>>::empty());
    String::new()
}

/// The kept history lines are exactly the last `min(n, max_lines)` lines of
/// the file, in their order.
pub proof fn lemma_recent_lines_are_last(contents: Seq<char>, max_lines: nat)
    ensures
        recent_lines(contents, max_lines).len() == if lines(contents).len() > max_lines {
            max_lines
        } else {
            lines(contents).len()
        },
        forall|i: int|
            0 <= i < recent_lines(contents, max_lines).len() ==> #[trigger] recent_lines(
                contents,
                max_lines,
            )[i] == lines(contents)[lines(contents).len() - recent_lines(
                contents,
                max_lines,
            ).len() + i],
{
}

/// The files that may hold the shell history, in the order they are tried,
/// as path bytes.
pub open spec fn spec_history_candidates(
    histfile: Option<Seq<u8>>,
    home: Option<Seq<u8>>,
) -> Seq<Seq<u8>> {
    let first = match histfile {
        Some(h) => seq![h],
        None => Seq::<Seq<u8>>::empty(),
    };
    let rest = match home {
        Some(d) => seq![
            join_path(d, ".bash_history".spec_bytes()),
            join_path(d, ".zsh_history".spec_bytes()),
        ],
        None => Seq::<Seq<u8>>::empty(),
    };
    first + rest
}

/// The bytes of an optional string slice.
pub open spec fn opt_bytes(o: Option<&str>) -> Option<Seq<u8>> {
    match o {
        Some(s) => Some(s.spec_bytes()),
        None => None,
    }
}

/// The contents of an optional byte slice.
pub open spec fn opt_slice(o: Option<&[u8]>) -> Option<Seq<u8>> {
    match o {
        Some(s) => Some(s@),
        None => None,
    }
}

/// The contents of a list of byte vectors.
pub open spec fn byte_views(v: Seq<Vec<u8>>) -> Seq<Seq<u8>> {
    v.map_values(|b: Vec<u8>| b@)
}

/// The history files to try, as path bytes: `$HISTFILE` when it is set,
/// then `.bash_history` and `.zsh_history` in the home directory when it is
/// known.
pub fn history_candidates_in(histfile: Option<&str>, home: Option<&[u8]>) -> (r: Vec<Vec<u8>>)
    ensures
        byte_views(r@) == spec_history_candidates(opt_bytes(histfile), opt_slice(home)),
{
    let mut r: Vec<Vec<u8>> = Vec::new();
    if let Some(h) = histfile {
        r.push(str_bytes(h));
    }
    if let Some(d) = home {
        let mut bash: Vec<u8> = Vec::new();
        push_bytes(&mut bash, d);
        push_path(&mut bash, ".bash_history");
        let mut zsh: Vec<u8> = Vec::new();
        push_bytes(&mut zsh, d);
        push_path(&mut zsh, ".zsh_history");
        r.push(bash);
        r.push(zsh);
    }
    assert(byte_views(r@) =~= spec_history_candidates(opt_bytes(histfile), opt_slice(home)));
    r
}

/// The history files to try, given the value of `$HISTFILE`; the home
/// directory is the one the `dirs` crate finds.
pub fn history_file_candidates(histfile: Option<&str>) -> (r: Vec<Vec<u8>>)
    ensures
        exists|home: Option<Seq<u8>>|
            byte_views(r@) == #[trigger] spec_history_candidates(opt_bytes(histfile), home),
{
    let home = user_home_dir();
    match home {
        Some(d) => {
            let ds = d.as_slice();
            let r = history_candidates_in(histfile, Some(ds));
            assert(opt_slice(Some(ds)) == Some(d@));
            r
        },
        None => {
            let r = history_candidates_in(histfile, None);
            assert(opt_slice(None) == None::<Seq<u8>>);
            r
        },
    }
}

} // verus!
