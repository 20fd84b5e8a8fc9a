use npushell::fix::{fix_notice, suggestion_file_content, suggestion_file_path};
use npushell::hooks::{
    hook_addition, hook_data_dir, hook_files_for_shell, hook_source_line, hook_state,
    hook_status_line, install_answer_accepted, mentions_npushell, plan_hook_install, HookPlan,
    HookState,
};

#[test]
fn shell_hook_files() {
    assert_eq!(hook_files_for_shell("/usr/bin/zsh"), (".zshrc", "hooks.zsh"));
    assert_eq!(hook_files_for_shell("/bin/bash"), (".bashrc", "hooks.bash"));
    assert_eq!(hook_files_for_shell(""), (".bashrc", "hooks.bash"));
}

#[test]
fn hook_lines() {
    let dir = hook_data_dir("/home/u");
    assert_eq!(dir, "/home/u/.local/share/npushell");
    let line = hook_source_line(&dir, "hooks.bash");
    assert_eq!(line, "source /home/u/.local/share/npushell/hooks.bash");
    assert_eq!(hook_addition(&line), format!("\n# npushell - NPU-powered shell copilot\n{}\n", line));
}

#[test]
fn rc_file_judgement() {
    assert!(mentions_npushell("source ~/.local/share/npushell/hooks.bash"));
    assert!(!mentions_npushell("alias ll='ls -l'"));
    assert!(matches!(hook_state(false, None), HookState::Missing));
    assert!(matches!(hook_state(true, None), HookState::Unreadable));
    assert!(matches!(hook_state(true, Some("npushell")), HookState::Installed));
    assert!(matches!(hook_state(true, Some("")), HookState::NotInstalled));
    assert_eq!(hook_status_line("bash", ".bashrc", &HookState::Installed), "  bash: hook installed");
    assert_eq!(hook_status_line("zsh", ".zshrc", &HookState::NotInstalled), "  zsh: hook NOT installed in ~/.zshrc");
    assert_eq!(hook_status_line("zsh", ".zshrc", &HookState::Unreadable), "  zsh: could not read ~/.zshrc");
    assert_eq!(hook_status_line("zsh", ".zshrc", &HookState::Missing), "  zsh: ~/.zshrc not found");
}

#[test]
fn install_answers() {
    assert!(install_answer_accepted("\n"));
    assert!(install_answer_accepted("Y\n"));
    assert!(install_answer_accepted("yep"));
    assert!(!install_answer_accepted("n\n"));
}

#[test]
fn suggestion_file() {
    assert_eq!(suggestion_file_path(4242), "/tmp/npushell-suggestion.4242");
    assert_eq!(suggestion_file_path(0), "/tmp/npushell-suggestion.0");
    assert_eq!(suggestion_file_content("ls", "lists"), "COMMAND:ls\nEXPLANATION:lists");
}

#[test]
fn fix_notice_text() {
    let with = fix_notice("ls", "lists");
    assert_eq!(
        with,
        "\r\n\x1b[1;36m npushell\x1b[0m \x1b[2m\u{2500} suggested fix:\x1b[0m\r\n  \x1b[1;32m$ ls\x1b[0m\r\n  \x1b[2mlists\x1b[0m\r\n\x1b[2m  (press Enter to see prompt)\x1b[0m\r\n"
    );
    assert!(!fix_notice("ls", "").contains("\x1b[2m\x1b[0m"));
}

#[test]
fn installed_hook_is_recognised_on_rerun() {
    let before = "alias ll='ls -l'\n";
    let after = format!("{}{}", before, hook_addition("source /h/.local/share/npushell/hooks.bash"));
    assert!(!mentions_npushell(before));
    assert!(mentions_npushell(&after));
}

#[test]
fn hook_install_plan() {
    assert!(matches!(plan_hook_install(false, ""), HookPlan::RcMissing));
    assert!(matches!(plan_hook_install(true, "source npushell hooks"), HookPlan::AlreadyInstalled));
    assert!(matches!(plan_hook_install(true, "alias ll='ls -l'"), HookPlan::Ask));
    let after = format!("x\n{}", hook_addition("source /h/hooks.bash"));
    assert!(matches!(plan_hook_install(true, &after), HookPlan::AlreadyInstalled));
}
