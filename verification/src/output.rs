//! Terminal output: ANSI styling and the text of suggestions, explanations and
//! responses, and the reading of a yes/no answer.

use vstd::prelude::*;
use vstd::string::*;
use crate::text::{spec_to_lowercase, str_eq, to_lowercase, trim, trim_str};

verus! {

/// ANSI: reset all attributes.
pub const RESET: &'static str = "\x1b[0m";

/// ANSI: bold.
pub const BOLD: &'static str = "\x1b[1m";

/// ANSI: dim.
pub const DIM: &'static str = "\x1b[2m";

/// ANSI: green foreground.
pub const GREEN: &'static str = "\x1b[32m";

/// ANSI: yellow foreground.
pub const YELLOW: &'static str = "\x1b[33m";

/// ANSI: cyan foreground.
pub const CYAN: &'static str = "\x1b[36m";

/// The escape code for a color name; unknown names have none.
pub open spec fn color_code(color: Seq<char>) -> Seq<char> {
    if color == "green"@ {
        GREEN@
    } else if color == "yellow"@ {
        YELLOW@
    } else if color == "cyan"@ {
        CYAN@
    } else {
        Seq::<char>::empty()
    }
}

/// What [`colored`] returns.
pub open spec fn spec_colored(text: Seq<char>, color: Seq<char>) -> Seq<char> {
    color_code(color) + text + RESET@
}

/// What [`bold`] returns.
pub open spec fn spec_bold(text: Seq<char>) -> Seq<char> {
    BOLD@ + text + RESET@
}

/// What [`dim`] returns.
pub open spec fn spec_dim(text: Seq<char>) -> Seq<char> {
    DIM@ + text + RESET@
}

/// Wraps text with an ANSI color code ("green", "yellow" or "cyan"; any other
/// name adds no color), followed by a reset.
pub fn colored(text: &str, color: &str) -> (r: String)
    ensures
        r@ == spec_colored(text@, color@),
{
    let mut r = String::new();
    if str_eq(color, "green") {
        r.append(GREEN);
    } else if str_eq(color, "yellow") {
        r.append(YELLOW);
    } else if str_eq(color, "cyan") {
        r.append(CYAN);
    }
    r.append(text);
    r.append(RESET);
    r
}

/// Wraps text in bold.
pub fn bold(text: &str) -> (r: String)
    ensures
        r@ == spec_bold(text@),
{
    let mut r = String::new();
    r.append(BOLD);
    r.append(text);
    r.append(RESET);
    r
}

/// Wraps text in dim.
pub fn dim(text: &str) -> (r: String)
    ensures
        r@ == spec_dim(text@),
{
    let mut r = String::new();
    r.append(DIM);
    r.append(text);
    r.append(RESET);
    r
}

/// The text shown for a command suggestion.
pub open spec fn spec_suggestion_text(
    command: Seq<char>,
    explanation: Seq<char>,
    use_color: bool,
) -> Seq<char> {
    let head = if use_color {
        "\n"@ + spec_bold(spec_colored("Suggestion:"@, "green"@)) + "  "@ + spec_bold(
            spec_colored(command, "cyan"@),
        ) + "\n\n"@
    } else {
        "\nSuggestion: "@ + command + "\n\n"@
    };
    let tail = if explanation.len() == 0 {
        Seq::<char>::empty()
    } else if use_color {
        "  "@ + spec_dim(explanation) + "\n"@
    } else {
        "  "@ + explanation + "\n"@
    };
    head + tail
}

/// What is printed to display a command suggestion with an optional explanation.
pub fn suggestion_text(command: &str, explanation: &str, use_color: bool) -> (r: String)
    ensures
        r@ == spec_suggestion_text(command@, explanation@, use_color),
{
    let mut r = String::new();
    if use_color {
        let label = colored("Suggestion:", "green");
        let label = bold(label.as_str());
        let cmd = colored(command, "cyan");
        let cmd = bold(cmd.as_str());
        r.append("\n");
        r.append(label.as_str());
        r.append("  ");
        r.append(cmd.as_str());
        r.append("\n\n");
    } else {
        r.append("\nSuggestion: ");
        r.append(command);
        r.append("\n\n");
    }
    if !explanation.is_empty() {
        r.append("  ");
        if use_color {
            let d = dim(explanation);
            r.append(d.as_str());
        } else {
            r.append(explanation);
        }
        r.append("\n");
    }
    r
}

/// The heading printed before an explanation.
pub open spec fn spec_explain_header(use_color: bool) -> Seq<char> {
    if use_color {
        "\n"@ + spec_bold(spec_colored("Explanation:"@, "yellow"@)) + "\n\n"@
    } else {
        "\nExplanation:\n\n"@
    }
}

/// The heading printed before an explanation.
pub fn explain_header(use_color: bool) -> (r: String)
    ensures
        r@ == spec_explain_header(use_color),
{
    let mut r = String::new();
    if use_color {
        let label = colored("Explanation:", "yellow");
        let label = bold(label.as_str());
        r.append("\n");
        r.append(label.as_str());
        r.append("\n\n");
    } else {
        r.append("\nExplanation:\n\n");
    }
    r
}

/// What is printed to display an explanation of a command.
pub fn explanation_text(text: &str, use_color: bool) -> (r: String)
    ensures
        r@ == spec_explain_header(use_color) + text@ + "\n\n"@,
{
    let mut r = explain_header(use_color);
    r.append(text);
    r.append("\n\n");
    r
}

/// The heading printed before a streamed suggestion.
pub fn suggest_header(use_color: bool) -> (r: String)
    ensures
        r@ == if use_color {
            "\n"@ + spec_bold(spec_colored("Suggestion:"@, "green"@)) + " "@
        } else {
            "\nSuggestion: "@
        },
{
    let mut r = String::new();
    if use_color {
        let label = colored("Suggestion:", "green");
        let label = bold(label.as_str());
        r.append("\n");
        r.append(label.as_str());
        r.append(" ");
    } else {
        r.append("\nSuggestion: ");
    }
    r
}

/// What is printed to display a general response.
pub fn response_text(text: &str, use_color: bool) -> (r: String)
    ensures
        r@ == if use_color {
            "\n"@ + spec_colored(text@, "cyan"@) + "\n\n"@
        } else {
            "\n"@ + text@ + "\n\n"@
        },
{
    let mut r = String::new();
    r.append("\n");
    if use_color {
        let c = colored(text, "cyan");
        r.append(c.as_str());
    } else {
        r.append(text);
    }
    r.append("\n\n");
    r
}

/// Whether an answer line to a yes/no question confirms: once trimmed and in
/// lower case it is "y" or "yes".
pub fn confirm_answer(line: &str) -> (r: bool)
    ensures
        r == (spec_to_lowercase(trim(line@)) == "y"@ || spec_to_lowercase(trim(line@)) == "yes"@),
{
    let t = trim_str(line);
    let lower = to_lowercase(t.as_str());
    str_eq(lower.as_str(), "y") || str_eq(lower.as_str(), "yes")
}

} // verus!
