use npushell::markdown::{split_fix_response, strip_markdown};

#[test]
fn strip_markdown_removes_fences_and_backticks() {
    let text = "```bash\ngit push origin main\n```\nTypo: `pussh` should be `push`.";
    assert_eq!(strip_markdown(text), "git push origin main\nTypo: pussh should be push.");
}

#[test]
fn strip_markdown_keeps_backticks_inside_code_blocks() {
    let text = "```\necho `date`\n```";
    assert_eq!(strip_markdown(text), "echo `date`");
}

#[test]
fn strip_markdown_trims_and_handles_crlf() {
    assert_eq!(strip_markdown("  ls -la\r\n\r\n"), "ls -la");
    assert_eq!(strip_markdown(""), "");
    assert_eq!(strip_markdown("   \n\t\n"), "");
}

#[test]
fn strip_markdown_fence_with_leading_space() {
    assert_eq!(strip_markdown("   ```sh\nls\n   ```\nlists"), "ls\nlists");
}

#[test]
fn split_fix_response_takes_first_line_as_command() {
    let (cmd, expl) = split_fix_response("`git push origin main`\nTypo fixed.\nSecond line.");
    assert_eq!(cmd, "git push origin main");
    assert_eq!(expl, "Typo fixed.\nSecond line.");
}

#[test]
fn split_fix_response_of_empty_reply() {
    let (cmd, expl) = split_fix_response("   ");
    assert_eq!(cmd, "");
    assert_eq!(expl, "");
}

#[test]
fn split_fix_response_single_line() {
    let (cmd, expl) = split_fix_response("ls -la\n");
    assert_eq!(cmd, "ls -la");
    assert_eq!(expl, "");
}

#[test]
fn strip_markdown_plain_text_only_trimmed() {
    let text = "  find . -size +100M\nlists big files\n\n";
    assert_eq!(strip_markdown(text), text.trim());
    assert_eq!(strip_markdown(&strip_markdown(text)), strip_markdown(text));
}

#[test]
fn strip_markdown_drops_fence_lines_only() {
    let text = "```sh\nls `pwd`\n```\nrun `ls`\n";
    let cleaned = strip_markdown(text);
    assert_eq!(cleaned, "ls `pwd`\nrun ls");
    assert!(!cleaned.lines().any(|l| l.trim().starts_with("```")));
}
