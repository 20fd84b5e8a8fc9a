use npushell::prompts::{
    ask_prompt, explain_prompt, fix_prompt, os_context, os_release_pretty_name, shell_name,
    suggest_prompt, trimmed_or, ASK_SYSTEM_PROMPT, EXPLAIN_SYSTEM_PROMPT, FIX_SYSTEM_PROMPT,
    SUGGEST_SYSTEM_PROMPT,
};

#[test]
fn fix_prompt_without_history() {
    let (sys, usr) = fix_prompt("git pussh", 1, "bash", "OS: Linux", "");
    assert_eq!(sys, FIX_SYSTEM_PROMPT);
    assert!(sys.starts_with("You are a shell command expert. The user ran a command that failed. Suggest"));
    assert_eq!(usr, "Failed command: git pussh\nExit code: 1\nShell: bash\nOS: Linux");
}

#[test]
fn fix_prompt_with_history_and_negative_code() {
    let (_, usr) = fix_prompt("x", -127, "zsh", "ctx", "ls\ncd /");
    assert_eq!(usr, "Failed command: x\nExit code: -127\nShell: zsh\nctx\n\nRecent history:\nls\ncd /");
    let (_, usr) = fix_prompt("x", i32::MIN, "zsh", "ctx", "");
    assert_eq!(usr, "Failed command: x\nExit code: -2147483648\nShell: zsh\nctx");
}

#[test]
fn other_prompts() {
    let (sys, usr) = explain_prompt("tar -xzf a.tgz", "ctx");
    assert_eq!(sys, EXPLAIN_SYSTEM_PROMPT);
    assert_eq!(usr, "Command: tar -xzf a.tgz\n\nctx");
    let (sys, usr) = suggest_prompt("find big files", "ctx");
    assert_eq!(sys, SUGGEST_SYSTEM_PROMPT);
    assert_eq!(usr, "find big files\n\nctx");
    let (sys, usr) = ask_prompt("how to list usb", "ctx");
    assert_eq!(sys, ASK_SYSTEM_PROMPT);
    assert_eq!(usr, "how to list usb\n\nctx");
}

#[test]
fn os_context_line() {
    assert_eq!(os_context("Ubuntu 24.04", "zsh", "x86_64"), "OS: Ubuntu 24.04, Shell: zsh, Arch: x86_64");
}

#[test]
fn pretty_name_from_os_release() {
    let content = "NAME=\"Ubuntu\"\nPRETTY_NAME=\"Ubuntu 24.04 LTS\"\nPRETTY_NAME=\"Other\"\n";
    assert_eq!(os_release_pretty_name(content), Some("Ubuntu 24.04 LTS".to_string()));
    assert_eq!(os_release_pretty_name("PRETTY_NAME=Arch Linux"), Some("Arch Linux".to_string()));
    assert_eq!(os_release_pretty_name("NAME=x\n"), None);
    assert_eq!(os_release_pretty_name("PRETTY_NAME=\"\""), Some(String::new()));
}

#[test]
fn shell_name_is_last_component() {
    assert_eq!(shell_name(Some("/usr/bin/zsh")), "zsh");
    assert_eq!(shell_name(Some("bash")), "bash");
    assert_eq!(shell_name(Some("/bin/")), "");
    assert_eq!(shell_name(None), "unknown");
}

#[test]
fn trimmed_or_fallback() {
    assert_eq!(trimmed_or(Some("x86_64\n"), "unknown"), "x86_64");
    assert_eq!(trimmed_or(None, "Unknown"), "Unknown");
}
