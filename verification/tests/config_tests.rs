use npushell::config::{ApiConfig, BehaviorConfig, Config, UiConfig};

#[test]
fn defaults() {
    let api = ApiConfig::default();
    assert_eq!(api.endpoint, "http://localhost:8000");
    assert_eq!(api.model, "default");
    assert_eq!(api.timeout, 120);
    assert_eq!(api.api_path, "/v1");
    let b = BehaviorConfig::default();
    assert!(b.auto_fix && b.confirm_before_run);
    assert_eq!(b.max_history_context, 5);
    assert!(UiConfig::default().color);
    let c = Config::default();
    assert_eq!(c.api.endpoint, "http://localhost:8000");
    assert_eq!(c.behavior.max_history_context, 5);
}

#[test]
fn config_path_in_dir() {
    assert_eq!(Config::config_path_in(Some(&b"/home/u/.config"[..])), b"/home/u/.config/npushell/config.toml".to_vec());
    assert_eq!(Config::config_path_in(Some(&b"/x/"[..])), b"/x/npushell/config.toml".to_vec());
    assert_eq!(Config::config_path_in(None), b"~/.config/npushell/config.toml".to_vec());
}

#[test]
fn config_path_ends_with_file() {
    assert!(Config::config_path().ends_with(b"/npushell/config.toml"));
}

#[test]
fn config_path_keeps_non_utf8_bytes() {
    assert_eq!(Config::config_path_in(Some(&[0x2f, 0xff, 0xfe][..])), b"/\xff\xfe/npushell/config.toml".to_vec());
}

#[test]
fn display_text_lists_all_settings() {
    let c = Config::default();
    let expected = "npushell configuration\n======================\nConfig file: /p\n\n[api]\n  endpoint = \"http://localhost:8000\"\n  api_path = \"/v1\"\n  model    = \"default\"\n  timeout  = 120s\n\n[behavior]\n  auto_fix             = true\n  confirm_before_run   = true\n  max_history_context  = 5\n\n[ui]\n  color = true\n";
    assert_eq!(c.display_text("/p"), expected);
}
