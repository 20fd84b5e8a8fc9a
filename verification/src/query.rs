//! Free-form queries given without a subcommand: a word that looks like a
//! misspelled subcommand is reported, anything else is a question.

use vstd::prelude::*;
use crate::similar::{find_similar, has_exact, is_best_match, lev, strs};
use crate::text::{join, join_strings, spec_to_lowercase, string_views};

verus! {

/// The subcommand names, in the order they are compared.
pub open spec fn subcommands() -> Seq<Seq<char>> {
    seq!["fix"@, "explain"@, "suggest"@, "ask"@, "doctor"@, "config"@, "init"@]
}

/// What to do with the words given without a subcommand.
pub enum FreeQuery {
    /// No words: show the help.
    Help,
    /// The first word is within two edits of the subcommand `suggestion`;
    /// `question` is all the words joined, for the hint to use `ask`.
    Typo { word: String, suggestion: String, question: String },
    /// Ask the words, joined with spaces, as a question.
    Ask(String),
}

/// Decides what to do with the words given without a subcommand: nothing
/// shows the help; a first word that is a near miss of a subcommand is
/// reported as a typo; otherwise the words joined with spaces are a question.
pub fn route_free_query(query: &Vec<String>) -> (r: FreeQuery)
    ensures
        query@.len() == 0 <==> r is Help,
        r matches FreeQuery::Typo { word, suggestion, question } ==> {
            let w = spec_to_lowercase(query@[0]@);
            &&& word@ == query@[0]@
            &&& question@ == join(string_views(query@), " "@)
            &&& !has_exact(w, subcommands())
            &&& exists|i: int| is_best_match(w, subcommands(), i) && suggestion@ == subcommands()[i]
        },
        r matches FreeQuery::Ask(q) ==> {
            let w = spec_to_lowercase(query@[0]@);
            &&& q@ == join(string_views(query@), " "@)
            &&& (has_exact(w, subcommands()) || forall|j: int|
                0 <= j < subcommands().len() ==> lev(w, subcommands()[j]) > 2)
        },
{
    if query.len() == 0 {
        return FreeQuery::Help;
    }
    let names: [&str; 7] = ["fix", "explain", "suggest", "ask", "doctor", "config", "init"];
    let slice = names.as_slice();
    assert(strs(slice@) =~= subcommands());
    let first = &query[0];
    let question = join_strings(query, " ");
    match find_similar(first.as_str(), slice) {
        Some(s) => FreeQuery::Typo {
            word: first.clone(),
            suggestion: s.to_owned(),
            question,
        },
        None => FreeQuery::Ask(question),
    }
}

} // verus!
