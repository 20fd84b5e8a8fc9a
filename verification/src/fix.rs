//! What becomes of a suggested fix for a failed command: the file that the
//! shell hook reads at the next prompt, and the notice written to the terminal.

use vstd::prelude::*;
use vstd::string::*;
use crate::text::{contains_seq, decimal, occurs_at, push_decimal};

verus! {

/// The file in which the suggestion for the shell with process id `pid` is left.
pub fn suggestion_file_path(pid: u32) -> (r: String)
    ensures
        r@ == "/tmp/npushell-suggestion."@ + decimal(pid as nat),
{
    let mut r = String::new();
    r.append("/tmp/npushell-suggestion.");
    push_decimal(&mut r, pid as u64);
    r
}

/// The contents of the suggestion file.
pub fn suggestion_file_content(command: &str, explanation: &str) -> (r: String)
    ensures
        r@ == "COMMAND:"@ + command@ + "\nEXPLANATION:"@ + explanation@,
{
    let mut r = String::new();
    r.append("COMMAND:");
    r.append(command);
    r.append("\nEXPLANATION:");
    r.append(explanation);
    r
}

/// The notice written straight to the terminal when a fix is ready.
pub open spec fn spec_fix_notice(command: Seq<char>, explanation: Seq<char>) -> Seq<char> {
    "\r\n"@ + "\x1b[1;36m npushell\x1b[0m \x1b[2m\u{2500} suggested fix:\x1b[0m\r\n"@
        + "  \x1b[1;32m$ "@ + command + "\x1b[0m\r\n"@ + (if explanation.len() == 0 {
        Seq::<char>::empty()
    } else {
        "  \x1b[2m"@ + explanation + "\x1b[0m\r\n"@
    }) + "\x1b[2m  (press Enter to see prompt)\x1b[0m\r\n"@
}

/// The notice always shows the suggested command on a line of its own,
/// whatever the explanation; the explanation gets a line only when it is not
/// empty.
pub proof fn lemma_fix_notice_shows_command(command: Seq<char>, explanation: Seq<char>)
    ensures
        contains_seq(
            spec_fix_notice(command, explanation),
            "  \x1b[1;32m$ "@ + command + "\x1b[0m\r\n"@,
        ),
        explanation.len() > 0 ==> contains_seq(
            spec_fix_notice(command, explanation),
            "  \x1b[2m"@ + explanation + "\x1b[0m\r\n"@,
        ),
{
    let pre = "\r\n"@ + "\x1b[1;36m npushell\x1b[0m \x1b[2m\u{2500} suggested fix:\x1b[0m\r\n"@;
    let line = "  \x1b[1;32m$ "@ + command + "\x1b[0m\r\n"@;
    let expl = if explanation.len() == 0 {
        Seq::<char>::empty()
    } else {
        "  \x1b[2m"@ + explanation + "\x1b[0m\r\n"@
    };
    let post = "\x1b[2m  (press Enter to see prompt)\x1b[0m\r\n"@;
    let n = spec_fix_notice(command, explanation);
    assert(n =~= pre + line + expl + post);
    assert(n.subrange(pre.len() as int, pre.len() + line.len() as int) =~= line);
    assert(occurs_at(n, line, pre.len() as int));
    if explanation.len() > 0 {
        let i: int = pre.len() + line.len() as int;
        assert(n.subrange(i, i + expl.len() as int) =~= expl);
        assert(occurs_at(n, expl, i));
    }
}

/// The notice written straight to the terminal when a fix is ready: the
/// command, its explanation when there is one, and a hint to press Enter.
pub fn fix_notice(command: &str, explanation: &str) -> (r: String)
    ensures
        r@ == spec_fix_notice(command@, explanation@),
{
    let mut r = String::new();
    r.append("\r\n");
    r.append("\x1b[1;36m npushell\x1b[0m \x1b[2m\u{2500} suggested fix:\x1b[0m\r\n");
    r.append("  \x1b[1;32m$ ");
    r.append(command);
    r.append("\x1b[0m\r\n");
    if !explanation.is_empty() {
        r.append("  \x1b[2m");
        r.append(explanation);
        r.append("\x1b[0m\r\n");
    }
    r.append("\x1b[2m  (press Enter to see prompt)\x1b[0m\r\n");
    r
}

} // verus!
