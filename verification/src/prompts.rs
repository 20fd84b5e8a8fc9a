//! The prompts sent to the model for each subcommand, and the operating-system
//! context that enriches them.

use vstd::prelude::*;
use vstd::string::*;
use crate::text::{
    has_prefix, lines, push_signed_decimal, signed_decimal, split_lines, string_from_range,
    to_chars, trim, views,
};

verus! {

/// System prompt of the `fix` subcommand.
pub const FIX_SYSTEM_PROMPT: &'static str = "You are a shell command expert. The user ran a command that failed. \
    Suggest the corrected command. Reply with EXACTLY two lines: the first line is \
    ONLY the corrected command (no backticks, no explanation), the second line is a \
    brief explanation of what went wrong and what the fix does.";

/// System prompt of the `explain` subcommand.
pub const EXPLAIN_SYSTEM_PROMPT: &'static str = "You are a shell command expert. Explain what the given command does \
    concisely. Break down each flag and argument.";

/// System prompt of the `suggest` subcommand.
pub const SUGGEST_SYSTEM_PROMPT: &'static str = "You are a shell command expert. Suggest a command that accomplishes \
    the user's goal. Reply with EXACTLY two lines: the first line is ONLY the command, \
    the second line is a brief explanation.";

/// System prompt of the `ask` subcommand.
pub const ASK_SYSTEM_PROMPT: &'static str = "You are a knowledgeable shell and Linux expert. Answer the user's \
    question concisely, providing commands when relevant.";

/// The user prompt of the `fix` subcommand.
pub open spec fn spec_fix_user_prompt(
    command: Seq<char>,
    exit_code: int,
    shell: Seq<char>,
    os_context: Seq<char>,
    history: Seq<char>,
) -> Seq<char> {
    let base = "Failed command: "@ + command + "\nExit code: "@ + signed_decimal(exit_code)
        + "\nShell: "@ + shell + "\n"@ + os_context;
    if history.len() == 0 {
        base
    } else {
        base + "\n\nRecent history:\n"@ + history
    }
}

/// Builds the system and user prompts for the `fix` subcommand; the recent
/// history section is present only when there is history.
pub fn fix_prompt(
    command: &str,
    exit_code: i32,
    shell: &str,
    os_context: &str,
    history: &str,
) -> (r: (String, String))
    ensures
        r.0@ == FIX_SYSTEM_PROMPT@,
        r.1@ == spec_fix_user_prompt(command@, exit_code as int, shell@, os_context@, history@),
{
    let system = FIX_SYSTEM_PROMPT.to_owned();
    let mut user = String::new();
    user.append("Failed command: ");
    user.append(command);
    user.append("\nExit code: ");
    push_signed_decimal(&mut user, exit_code as i64);
    user.append("\nShell: ");
    user.append(shell);
    user.append("\n");
    user.append(os_context);
    if !history.is_empty() {
        user.append("\n\nRecent history:\n");
        user.append(history);
    }
    (system, user)
}

/// Builds the system and user prompts for the `explain` subcommand.
pub fn explain_prompt(command: &str, os_context: &str) -> (r: (String, String))
    ensures
        r.0@ == EXPLAIN_SYSTEM_PROMPT@,
        r.1@ == "Command: "@ + command@ + "\n\n"@ + os_context@,
{
    let system = EXPLAIN_SYSTEM_PROMPT.to_owned();
    let mut user = String::new();
    user.append("Command: ");
    user.append(command);
    user.append("\n\n");
    user.append(os_context);
    (system, user)
}

/// Builds the system and user prompts for the `suggest` subcommand.
pub fn suggest_prompt(description: &str, os_context: &str) -> (r: (String, String))
    ensures
        r.0@ == SUGGEST_SYSTEM_PROMPT@,
        r.1@ == description@ + "\n\n"@ + os_context@,
{
    let system = SUGGEST_SYSTEM_PROMPT.to_owned();
    let mut user = String::new();
    user.append(description);
    user.append("\n\n");
    user.append(os_context);
    (system, user)
}

/// Builds the system and user prompts for the `ask` subcommand.
pub fn ask_prompt(question: &str, os_context: &str) -> (r: (String, String))
    ensures
        r.0@ == ASK_SYSTEM_PROMPT@,
        r.1@ == question@ + "\n\n"@ + os_context@,
{
    let system = ASK_SYSTEM_PROMPT.to_owned();
    let mut user = String::new();
    user.append(question);
    user.append("\n\n");
    user.append(os_context);
    (system, user)
}

/// The operating-system context line added to every prompt.
pub fn os_context(pretty_name: &str, shell: &str, arch: &str) -> (r: String)
    ensures
        r@ == "OS: "@ + pretty_name@ + ", Shell: "@ + shell@ + ", Arch: "@ + arch@,
{
    let mut r = String::new();
    r.append("OS: ");
    r.append(pretty_name);
    r.append(", Shell: ");
    r.append(shell);
    r.append(", Arch: ");
    r.append(arch);
    r
}

/// The first position at or after `i` that does not hold `c`.
pub open spec fn skip_char_from(s: Seq<char>, c: char, i: int) -> int
    decreases s.len() - i,
{
    if 0 <= i < s.len() && s[i] == c {
        skip_char_from(s, c, i + 1)
    } else {
        i
    }
}

/// The end of `s[lo..j]` once trailing `c` characters are removed.
pub open spec fn back_char_from(s: Seq<char>, c: char, lo: int, j: int) -> int
    decreases j - lo,
{
    if lo < j && s[j - 1] == c {
        back_char_from(s, c, lo, j - 1)
    } else {
        j
    }
}

/// `str::trim_matches(c)`: `s` without leading and trailing `c` characters.
pub open spec fn trim_char(s: Seq<char>, c: char) -> Seq<char> {
    let lo = skip_char_from(s, c, 0);
    s.subrange(lo, back_char_from(s, c, lo, s.len() as int))
}

/// `v[lo..]` without leading and trailing `c` characters, as a string.
fn trim_char_from(v: &Vec<char>, start: usize, c: char) -> (r: String)
    requires
        start <= v@.len(),
    ensures
        r@ == trim_char(v@.skip(start as int), c),
{
    let ghost s = v@.skip(start as int);
    let mut lo = start;
    while lo < v.len() && v[lo] == c
        invariant
            start <= lo <= v@.len(),
            s == v@.skip(start as int),
            skip_char_from(s, c, lo - start) == skip_char_from(s, c, 0),
        decreases v@.len() - lo,
    {
        lo = lo + 1;
    }
    let mut hi = v.len();
    while lo < hi && v[hi - 1] == c
        invariant
            start <= lo <= hi <= v@.len(),
            s == v@.skip(start as int),
            lo - start == skip_char_from(s, c, 0),
            back_char_from(s, c, lo - start, hi - start) == back_char_from(
                s,
                c,
                lo - start,
                s.len() as int,
            ),
        decreases hi - lo,
    {
        hi = hi - 1;
    }
    let r = string_from_range(v, lo, hi);
    assert(v@.subrange(lo as int, hi as int) =~= s.subrange(lo - start, hi - start));
    r
}

/// The key of the pretty name in `/etc/os-release`.
pub open spec fn pretty_key() -> Seq<char> {
    "PRETTY_NAME="@
}

/// The value of the first `PRETTY_NAME=` line among `ls`, without surrounding quotes.
pub open spec fn pretty_name_in(ls: Seq<Seq<char>>) -> Option<Seq<char>>
    decreases ls.len(),
{
    if ls.len() == 0 {
        None
    } else if has_prefix(ls[0], pretty_key()) {
        Some(trim_char(ls[0].skip(pretty_key().len() as int), '"'))
    } else {
        pretty_name_in(ls.drop_first())
    }
}

/// The pretty name of the operating system in the contents of `/etc/os-release`:
/// the value of the first line that begins with `PRETTY_NAME=`, with the
/// surrounding double quotes removed.
pub fn os_release_pretty_name(content: &str) -> (r: Option<String>)
    ensures
        r matches Some(n) ==> pretty_name_in(lines(content@)) == Some(n@),
        r is None ==> pretty_name_in(lines(content@)) is None,
{
    let v = to_chars(content);
    let ls = split_lines(&v);
    let ghost vls = views(ls@);
    let key = to_chars("PRETTY_NAME=");
    assert(key@ == pretty_key());
    let mut i: usize = 0;
    assert(vls.skip(0) =~= vls);
    while i < ls.len()
        invariant
            i <= ls@.len(),
            vls == views(ls@),
            vls == lines(content@),
            key@ == pretty_key(),
            pretty_name_in(vls.skip(i as int)) == pretty_name_in(vls),
        decreases ls@.len() - i,
    {
        let line = &ls[i];
        assert(vls.skip(i as int)[0] == line@);
        assert(vls.skip(i as int).drop_first() =~= vls.skip(i + 1));
        if crate::text::matches_at(line, &key, 0) {
            return Some(trim_char_from(line, key.len(), '"'));
        }
        i = i + 1;
    }
    assert(vls.skip(i as int) =~= Seq::<Seq<char>>::empty());
    None
}

/// The start of the part of `s[..j]` after its last `c`.
pub open spec fn after_last_from(s: Seq<char>, c: char, j: int) -> int
    decreases j,
{
    if j > 0 && s[j - 1] != c {
        after_last_from(s, c, j - 1)
    } else {
        j
    }
}

/// `s.rsplit(c).next()`: the part of `s` after its last `c` (all of `s` when
/// there is none).
pub open spec fn after_last(s: Seq<char>, c: char) -> Seq<char> {
    s.skip(after_last_from(s, c, s.len() as int))
}

/// The name of the user's shell from the value of `$SHELL`: its last path
/// component, or "unknown" when the variable is not set.
pub fn shell_name(shell_var: Option<&str>) -> (r: String)
    ensures
        shell_var matches Some(s) ==> r@ == after_last(s@, '/'),
        shell_var is None ==> r@ == "unknown"@,
{
    match shell_var {
        Some(s) => {
            let v = to_chars(s);
            let mut j = v.len();
            while j > 0 && v[j - 1] != '/'
                invariant
                    j <= v@.len(),
                    after_last_from(v@, '/', j as int) == after_last_from(v@, '/', v@.len() as int),
                decreases j,
            {
                j = j - 1;
            }
            string_from_range(&v, j, v.len())
        },
        None => "unknown".to_owned(),
    }
}

/// The trimmed text of a command's output, or `fallback` when there is none.
pub fn trimmed_or(output: Option<&str>, fallback: &str) -> (r: String)
    ensures
        output matches Some(o) ==> r@ == trim(o@),
        output is None ==> r@ == fallback@,
{
    match output {
        Some(o) => crate::text::trim_str(o),
        None => fallback.to_owned(),
    }
}

} // verus!
