use npushell::output::{
    bold, colored, confirm_answer, dim, explain_header, explanation_text, response_text,
    suggest_header, suggestion_text,
};

#[test]
fn colored_wraps_known_colors() {
    assert_eq!(colored("hi", "green"), "\x1b[32mhi\x1b[0m");
    assert_eq!(colored("hi", "yellow"), "\x1b[33mhi\x1b[0m");
    assert_eq!(colored("hi", "cyan"), "\x1b[36mhi\x1b[0m");
}

#[test]
fn colored_unknown_color_only_resets() {
    assert_eq!(colored("hi", "purple"), "hi\x1b[0m");
}

#[test]
fn bold_and_dim() {
    assert_eq!(bold("x"), "\x1b[1mx\x1b[0m");
    assert_eq!(dim("x"), "\x1b[2mx\x1b[0m");
}

#[test]
fn suggestion_text_plain() {
    assert_eq!(suggestion_text("ls", "lists files", false), "\nSuggestion: ls\n\n  lists files\n");
    assert_eq!(suggestion_text("ls", "", false), "\nSuggestion: ls\n\n");
}

#[test]
fn suggestion_text_colored() {
    let expected = format!(
        "\n{}  {}\n\n  {}\n",
        bold(&colored("Suggestion:", "green")),
        bold(&colored("ls", "cyan")),
        dim("lists files")
    );
    assert_eq!(suggestion_text("ls", "lists files", true), expected);
}

#[test]
fn explanation_and_response_texts() {
    assert_eq!(explanation_text("does x", false), "\nExplanation:\n\ndoes x\n\n");
    assert_eq!(
        explanation_text("does x", true),
        format!("\n{}\n\ndoes x\n\n", bold(&colored("Explanation:", "yellow")))
    );
    assert_eq!(explain_header(false), "\nExplanation:\n\n");
    assert_eq!(suggest_header(false), "\nSuggestion: ");
    assert_eq!(suggest_header(true), format!("\n{} ", bold(&colored("Suggestion:", "green"))));
    assert_eq!(response_text("ok", false), "\nok\n\n");
    assert_eq!(response_text("ok", true), "\n\x1b[36mok\x1b[0m\n\n");
}

#[test]
fn confirm_answer_accepts_y_and_yes() {
    assert!(confirm_answer("y\n"));
    assert!(confirm_answer("  YES \n"));
    assert!(confirm_answer("Yes"));
    assert!(!confirm_answer("no\n"));
    assert!(!confirm_answer(""));
    assert!(!confirm_answer("yes please"));
}
