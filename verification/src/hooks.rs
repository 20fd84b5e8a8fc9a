//! Installing and checking the shell hooks: which files belong to which
//! shell, what is added to the shell's rc file, and how an rc file is judged.

use vstd::prelude::*;
use vstd::string::*;
use crate::paths::{join_path_text, push_path_text};
use crate::text::{
    contains, contains_seq, ends_with, has_prefix, has_suffix, occurs_at, spec_to_lowercase, to_chars,
    to_lowercase, trim, trim_str,
};

verus! {

/// The rc file and hook script for the shell named by `$SHELL`: zsh's when
/// it ends with "zsh", bash's otherwise.
pub fn hook_files_for_shell(shell: &str) -> (r: (&'static str, &'static str))
    ensures
        has_suffix(shell@, "zsh"@) ==> r.0@ == ".zshrc"@ && r.1@ == "hooks.zsh"@,
        !has_suffix(shell@, "zsh"@) ==> r.0@ == ".bashrc"@ && r.1@ == "hooks.bash"@,
{
    if ends_with(shell, "zsh") {
        (".zshrc", "hooks.zsh")
    } else {
        (".bashrc", "hooks.bash")
    }
}

/// Whether an rc file already mentions npushell.
pub fn mentions_npushell(contents: &str) -> (r: bool)
    ensures
        r == contains_seq(contents@, "npushell"@),
{
    contains(contents, "npushell")
}

/// The displayed form of the directory that holds the hook scripts, under
/// the (displayed) home directory.
pub fn hook_data_dir(home: &str) -> (r: String)
    ensures
        r@ == join_path_text(home@, ".local/share/npushell"@),
{
    let mut r = home.to_owned();
    push_path_text(&mut r, ".local/share/npushell");
    r
}

/// The line that loads a hook script.
pub fn hook_source_line(data_dir: &str, hook_file: &str) -> (r: String)
    ensures
        r@ == "source "@ + data_dir@ + "/"@ + hook_file@,
{
    let mut r = String::new();
    r.append("source ");
    r.append(data_dir);
    r.append("/");
    r.append(hook_file);
    r
}

/// What is appended to an rc file to install the hook.
pub open spec fn spec_hook_addition(source_line: Seq<char>) -> Seq<char> {
    "\n# npushell - NPU-powered shell copilot\n"@ + source_line + "\n"@
}

/// Once the hook is appended, the rc file mentions npushell: whatever the rc
/// file held before, `init` run again finds the hook installed and does not
/// append it a second time.
pub proof fn lemma_installed_hook_is_recognised(contents: Seq<char>, source_line: Seq<char>)
    ensures
        contains_seq(contents + spec_hook_addition(source_line), "npushell"@),
{
    reveal_strlit("\n# npushell - NPU-powered shell copilot\n");
    reveal_strlit("npushell");
    let w = contents + spec_hook_addition(source_line);
    let i: int = contents.len() as int + 3;
    assert(w.subrange(i, i + 8) =~= "npushell"@);
    assert(occurs_at(w, "npushell"@, i));
}

/// What is appended to the rc file to install the hook.
pub fn hook_addition(source_line: &str) -> (r: String)
    ensures
        r@ == spec_hook_addition(source_line@),
{
    let mut r = String::new();
    r.append("\n# npushell - NPU-powered shell copilot\n");
    r.append(source_line);
    r.append("\n");
    r
}

/// Whether the answer to "Add hook? [Y/n]" accepts: an empty answer does, and
/// so does one that begins with "y" once trimmed and in lower case.
pub fn install_answer_accepted(answer: &str) -> (r: bool)
    ensures
        r == (trim(answer@).len() == 0 || has_prefix(spec_to_lowercase(trim(answer@)), seq!['y'])),
{
    let t = trim_str(answer);
    let tv = to_chars(t.as_str());
    if tv.len() == 0 {
        return true;
    }
    let lower = to_lowercase(t.as_str());
    let lv = to_chars(lower.as_str());
    let r = lv.len() > 0 && lv[0] == 'y';
    assert(r == has_prefix(lv@, seq!['y'])) by {
        if lv@.len() > 0 {
            if r {
                assert(lv@.subrange(0, 1) =~= seq!['y']);
            } else if lv@.subrange(0, 1) == seq!['y'] {
                assert(lv@.subrange(0, 1)[0] == lv@[0]);
            }
        }
    }
    r
}

/// What `init` does about a shell's rc file.
pub enum HookPlan {
    /// The rc file does not exist: it is left alone.
    RcMissing,
    /// The rc file already mentions npushell: it is left alone.
    AlreadyInstalled,
    /// Ask the user; append the hook only if the answer accepts.
    Ask,
}

/// The plan for an rc file that exists or not, with the contents read from
/// it (empty when it could not be read).
pub open spec fn spec_hook_plan(rc_exists: bool, contents: Seq<char>) -> HookPlan {
    if !rc_exists {
        HookPlan::RcMissing
    } else if contains_seq(contents, "npushell"@) {
        HookPlan::AlreadyInstalled
    } else {
        HookPlan::Ask
    }
}

/// Decides what `init` does about the rc file: nothing when it is missing or
/// already mentions npushell, otherwise ask whether to append the hook.
pub fn plan_hook_install(rc_exists: bool, contents: &str) -> (r: HookPlan)
    ensures
        r == spec_hook_plan(rc_exists, contents@),
{
    if !rc_exists {
        HookPlan::RcMissing
    } else if mentions_npushell(contents) {
        HookPlan::AlreadyInstalled
    } else {
        HookPlan::Ask
    }
}

/// After the hook has been appended to an rc file, `init` run again plans to
/// leave that file alone.
pub proof fn lemma_second_init_leaves_rc_alone(contents: Seq<char>, source_line: Seq<char>)
    ensures
        spec_hook_plan(true, contents + spec_hook_addition(source_line)) is AlreadyInstalled,
{
    lemma_installed_hook_is_recognised(contents, source_line);
}

/// What was found of the hook in a shell's rc file.
pub enum HookState {
    /// The rc file does not exist.
    Missing,
    /// The rc file could not be read.
    Unreadable,
    /// The rc file mentions npushell.
    Installed,
    /// The rc file does not mention npushell.
    NotInstalled,
}

/// Judges an rc file from whether it exists and, if it could be read, its contents.
pub fn hook_state(exists: bool, contents: Option<&str>) -> (r: HookState)
    ensures
        !exists ==> r is Missing,
        exists && contents is None ==> r is Unreadable,
        exists ==> (contents matches Some(c) ==> if contains_seq(c@, "npushell"@) {
            r is Installed
        } else {
            r is NotInstalled
        }),
{
    if !exists {
        return HookState::Missing;
    }
    match contents {
        None => HookState::Unreadable,
        Some(c) => if mentions_npushell(c) {
            HookState::Installed
        } else {
            HookState::NotInstalled
        },
    }
}

/// The status line for one shell's rc file.
pub fn hook_status_line(shell_name: &str, rc_file: &str, state: &HookState) -> (r: String)
    ensures
        *state is Installed ==> r@ == "  "@ + shell_name@ + ": hook installed"@,
        *state is NotInstalled ==> r@ == "  "@ + shell_name@ + ": hook NOT installed in ~/"@
            + rc_file@,
        *state is Unreadable ==> r@ == "  "@ + shell_name@ + ": could not read ~/"@ + rc_file@,
        *state is Missing ==> r@ == "  "@ + shell_name@ + ": ~/"@ + rc_file@ + " not found"@,
{
    let mut r = String::new();
    r.append("  ");
    r.append(shell_name);
    match state {
        HookState::Installed => {
            r.append(": hook installed");
        },
        HookState::NotInstalled => {
            r.append(": hook NOT installed in ~/");
            r.append(rc_file);
        },
        HookState::Unreadable => {
            r.append(": could not read ~/");
            r.append(rc_file);
        },
        HookState::Missing => {
            r.append(": ~/");
            r.append(rc_file);
            r.append(" not found");
        },
    }
    r
}

} // verus!
