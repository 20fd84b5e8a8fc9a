//! Configuration: the API endpoint, the behaviour of automatic fixes and the
//! user interface, with their defaults, the location of the configuration
//! file and its printed form.

use vstd::prelude::*;
use vstd::string::*;
use crate::paths::{join_path, push_bytes, push_path, str_bytes, user_config_dir};
use crate::text::{contains_seq, decimal, has_suffix, occurs_at, push_decimal};

verus! {

/// How to reach the model server.
#[derive(Debug)]
pub struct ApiConfig {
    /// Base URL of the server.
    pub endpoint: String,
    /// Model name sent with each request.
    pub model: String,
    /// Request timeout in seconds.
    pub timeout: u64,
    /// API path prefix (e.g. "/v1" or "/api/v1").
    pub api_path: String,
}

/// What the shell integration does on its own.
#[derive(Debug, Clone, Copy)]
pub struct BehaviorConfig {
    /// Suggest fixes for failed commands.
    pub auto_fix: bool,
    /// Ask before running a suggested command.
    pub confirm_before_run: bool,
    /// How many lines of shell history go into a prompt.
    pub max_history_context: usize,
}

/// How output looks.
#[derive(Debug, Clone, Copy)]
pub struct UiConfig {
    /// Use ANSI colors.
    pub color: bool,
}

/// The whole configuration.
#[derive(Debug)]
pub struct Config {
    pub api: ApiConfig,
    pub behavior: BehaviorConfig,
    pub ui: UiConfig,
}

impl Default for ApiConfig {
    fn default() -> (r: Self)
        ensures
            r.endpoint@ == "http://localhost:8000"@,
            r.model@ == "default"@,
            r.timeout == 120,
            r.api_path@ == "/v1"@,
    {
        ApiConfig {
            endpoint: "http://localhost:8000".to_owned(),
            model: "default".to_owned(),
            timeout: 120,
            api_path: "/v1".to_owned(),
        }
    }
}

impl Default for BehaviorConfig {
    fn default() -> (r: Self)
        ensures
            r.auto_fix,
            r.confirm_before_run,
            r.max_history_context == 5,
    {
        BehaviorConfig { auto_fix: true, confirm_before_run: true, max_history_context: 5 }
    }
}

impl Default for UiConfig {
    fn default() -> (r: Self)
        ensures
            r.color,
    {
        UiConfig { color: true }
    }
}

impl Default for Config {
    fn default() -> (r: Self)
        ensures
            r.api.endpoint@ == "http://localhost:8000"@,
            r.api.model@ == "default"@,
            r.api.timeout == 120,
            r.api.api_path@ == "/v1"@,
            r.behavior.auto_fix,
            r.behavior.confirm_before_run,
            r.behavior.max_history_context == 5,
            r.ui.color,
    {
        Config { api: ApiConfig::default(), behavior: BehaviorConfig::default(), ui: UiConfig::default() }
    }
}

/// The configuration file under the configuration directory `dir` (or under
/// `~/.config` when there is none), as path bytes.
pub open spec fn spec_config_path_in(dir: Option<Seq<u8>>) -> Seq<u8> {
    let base = match dir {
        Some(d) => d,
        None => "~/.config".spec_bytes(),
    };
    join_path(join_path(base, "npushell".spec_bytes()), "config.toml".spec_bytes())
}

/// Joining a component gives a path that ends with the component.
pub proof fn lemma_join_path_ends_with(base: Seq<u8>, comp: Seq<u8>)
    ensures
        has_suffix(join_path(base, comp), comp),
{
    let j = join_path(base, comp);
    assert(j.subrange(j.len() - comp.len(), j.len() as int) =~= comp);
}

/// The bytes of an ASCII literal are its characters.
proof fn lemma_ascii_bytes(s: &str)
    requires
        is_ascii(s),
    ensures
        s.spec_bytes() =~= Seq::new(s@.len(), |i: int| s@[i] as u8),
{
    broadcast use is_ascii_spec_bytes;
}

/// Wherever the configuration directory is, the configuration file is
/// `npushell/config.toml` inside it.
pub proof fn lemma_config_path_ends_with_file(dir: Option<Seq<u8>>)
    ensures
        has_suffix(spec_config_path_in(dir), "npushell/config.toml".spec_bytes()),
{
    reveal_strlit("npushell");
    reveal_strlit("config.toml");
    reveal_strlit("npushell/config.toml");
    reveal_strlit("~/.config");
    lemma_ascii_bytes("npushell");
    lemma_ascii_bytes("config.toml");
    lemma_ascii_bytes("npushell/config.toml");
    lemma_ascii_bytes("~/.config");
    let n = "npushell".spec_bytes();
    let c = "config.toml".spec_bytes();
    let whole = "npushell/config.toml".spec_bytes();
    let base = match dir {
        Some(d) => d,
        None => "~/.config".spec_bytes(),
    };
    let p1 = join_path(base, n);
    lemma_join_path_ends_with(base, n);
    assert(p1.last() == p1.subrange(p1.len() - 8, p1.len() as int)[7]);
    assert(p1.last() == 108u8);
    let p2 = join_path(p1, c);
    assert(p2 == p1.push(47u8) + c);
    let tail = p2.subrange(p2.len() - 20, p2.len() as int);
    assert(tail =~= whole) by {
        assert forall|k: int| 0 <= k < 20 implies tail[k] == whole[k] by {
            if k < 8 {
                assert(tail[k] == p1[p1.len() - 8 + k]);
                assert(p1[p1.len() - 8 + k] == p1.subrange(p1.len() - 8, p1.len() as int)[k]);
            }
        }
    }
}

/// `"true"` or `"false"`, as `Display` writes a `bool`.
pub open spec fn bool_text(b: bool) -> Seq<char> {
    if b {
        "true"@
    } else {
        "false"@
    }
}

/// The head of the printed configuration: the title and the file it was read from.
pub open spec fn display_head(path: Seq<char>) -> Seq<char> {
    "npushell configuration\n"@ + "======================\n"@ + "Config file: "@ + path + "\n"@
        + "\n"@
}

/// The `[api]` section of the printed configuration.
pub open spec fn display_api(api: ApiConfig) -> Seq<char> {
    "[api]\n"@ + "  endpoint = \""@ + api.endpoint@ + "\"\n"@ + "  api_path = \""@ + api.api_path@
        + "\"\n"@ + "  model    = \""@ + api.model@ + "\"\n"@ + "  timeout  = "@ + decimal(
        api.timeout as nat,
    ) + "s\n"@ + "\n"@
}

/// The `[behavior]` section of the printed configuration.
pub open spec fn display_behavior(b: BehaviorConfig) -> Seq<char> {
    "[behavior]\n"@ + "  auto_fix             = "@ + bool_text(b.auto_fix) + "\n"@
        + "  confirm_before_run   = "@ + bool_text(b.confirm_before_run) + "\n"@
        + "  max_history_context  = "@ + decimal(b.max_history_context as nat) + "\n"@ + "\n"@
}

/// The `[ui]` section of the printed configuration.
pub open spec fn display_ui(ui: UiConfig) -> Seq<char> {
    "[ui]\n"@ + "  color = "@ + bool_text(ui.color) + "\n"@
}

/// The printed form of a configuration read from `path`.
pub open spec fn spec_display_text(c: Config, path: Seq<char>) -> Seq<char> {
    display_head(path) + display_api(c.api) + display_behavior(c.behavior) + display_ui(c.ui)
}

/// An occurrence stays where it is when text is appended.
proof fn lemma_occurs_extend(x: Seq<char>, y: Seq<char>, p: Seq<char>, i: int)
    requires
        occurs_at(x, p, i),
    ensures
        occurs_at(x + y, p, i),
{
    assert((x + y).subrange(i, i + p.len() as int) =~= x.subrange(i, i + p.len() as int));
}

/// An occurrence moves along when text is put before.
proof fn lemma_occurs_shift(x: Seq<char>, y: Seq<char>, p: Seq<char>, i: int)
    requires
        occurs_at(y, p, i),
    ensures
        occurs_at(x + y, p, x.len() + i),
{
    assert((x + y).subrange(x.len() + i, x.len() + i + p.len()) =~= y.subrange(
        i,
        i + p.len() as int,
    ));
}

/// `p` placed between `a` and `b` occurs right after `a`.
proof fn lemma_occurs_between(a: Seq<char>, p: Seq<char>, b: Seq<char>)
    ensures
        occurs_at(a + p + b, p, a.len() as int),
{
    assert((a + p + b).subrange(a.len() as int, a.len() + p.len() as int) =~= p);
}

/// Where a section's text occurs in the whole printed configuration.
proof fn lemma_section_occurs(c: Config, path: Seq<char>, section: int, p: Seq<char>, i: int)
    requires
        0 <= section < 4,
        section == 0 ==> occurs_at(display_head(path), p, i),
        section == 1 ==> occurs_at(display_api(c.api), p, i),
        section == 2 ==> occurs_at(display_behavior(c.behavior), p, i),
        section == 3 ==> occurs_at(display_ui(c.ui), p, i),
    ensures
        contains_seq(spec_display_text(c, path), p),
{
    let h = display_head(path);
    let a = display_api(c.api);
    let b = display_behavior(c.behavior);
    let u = display_ui(c.ui);
    let j: int = if section == 0 {
        lemma_occurs_extend(h, a, p, i);
        lemma_occurs_extend(h + a, b, p, i);
        lemma_occurs_extend(h + a + b, u, p, i);
        i
    } else if section == 1 {
        lemma_occurs_shift(h, a, p, i);
        lemma_occurs_extend(h + a, b, p, h.len() + i);
        lemma_occurs_extend(h + a + b, u, p, h.len() + i);
        h.len() + i
    } else if section == 2 {
        lemma_occurs_shift(h + a, b, p, i);
        lemma_occurs_extend(h + a + b, u, p, (h + a).len() + i);
        (h + a).len() + i
    } else {
        lemma_occurs_shift(h + a + b, u, p, i);
        (h + a + b).len() + i
    };
    assert(occurs_at(spec_display_text(c, path), p, j));
}

/// Every printed setting shows the value of its own field: the file path,
/// the endpoint, the API path, the model, the timeout, both behaviour flags,
/// the history length and the color flag each stand after their own label.
pub proof fn lemma_display_shows_each_field(c: Config, path: Seq<char>)
    ensures
        contains_seq(spec_display_text(c, path), "Config file: "@ + path + "\n"@),
        contains_seq(
            spec_display_text(c, path),
            "  endpoint = \""@ + c.api.endpoint@ + "\"\n"@,
        ),
        contains_seq(
            spec_display_text(c, path),
            "  api_path = \""@ + c.api.api_path@ + "\"\n"@,
        ),
        contains_seq(spec_display_text(c, path), "  model    = \""@ + c.api.model@ + "\"\n"@),
        contains_seq(
            spec_display_text(c, path),
            "  timeout  = "@ + decimal(c.api.timeout as nat) + "s\n"@,
        ),
        contains_seq(
            spec_display_text(c, path),
            "  auto_fix             = "@ + bool_text(c.behavior.auto_fix) + "\n"@,
        ),
        contains_seq(
            spec_display_text(c, path),
            "  confirm_before_run   = "@ + bool_text(c.behavior.confirm_before_run) + "\n"@,
        ),
        contains_seq(
            spec_display_text(c, path),
            "  max_history_context  = "@ + decimal(c.behavior.max_history_context as nat)
                + "\n"@,
        ),
        contains_seq(spec_display_text(c, path), "  color = "@ + bool_text(c.ui.color) + "\n"@),
{
    lemma_display_head_fields(c, path);
    lemma_display_api_fields(c, path);
    lemma_display_behavior_fields(c, path);
    lemma_display_ui_fields(c, path);
}

/// The file path stands after its label.
proof fn lemma_display_head_fields(c: Config, path: Seq<char>)
    ensures
        contains_seq(spec_display_text(c, path), "Config file: "@ + path + "\n"@),
{
    let t1 = "npushell configuration\n"@ + "======================\n"@;
    let p = "Config file: "@ + path + "\n"@;
    assert(display_head(path) =~= t1 + p + "\n"@);
    lemma_occurs_between(t1, p, "\n"@);
    lemma_section_occurs(c, path, 0, p, t1.len() as int);
}

/// Each setting of the `[api]` section stands after its label.
proof fn lemma_display_api_fields(c: Config, path: Seq<char>)
    ensures
        contains_seq(
            spec_display_text(c, path),
            "  endpoint = \""@ + c.api.endpoint@ + "\"\n"@,
        ),
        contains_seq(
            spec_display_text(c, path),
            "  api_path = \""@ + c.api.api_path@ + "\"\n"@,
        ),
        contains_seq(spec_display_text(c, path), "  model    = \""@ + c.api.model@ + "\"\n"@),
        contains_seq(
            spec_display_text(c, path),
            "  timeout  = "@ + decimal(c.api.timeout as nat) + "s\n"@,
        ),
{
    let api = c.api;
    let e = "  endpoint = \""@ + api.endpoint@ + "\"\n"@;
    let ap = "  api_path = \""@ + api.api_path@ + "\"\n"@;
    let m = "  model    = \""@ + api.model@ + "\"\n"@;
    let t = "  timeout  = "@ + decimal(api.timeout as nat) + "s\n"@;
    let s0 = "[api]\n"@;
    assert(display_api(api) =~= s0 + e + (ap + m + t + "\n"@));
    lemma_occurs_between(s0, e, ap + m + t + "\n"@);
    lemma_section_occurs(c, path, 1, e, s0.len() as int);
    assert(display_api(api) =~= (s0 + e) + ap + (m + t + "\n"@));
    lemma_occurs_between(s0 + e, ap, m + t + "\n"@);
    lemma_section_occurs(c, path, 1, ap, (s0 + e).len() as int);
    assert(display_api(api) =~= (s0 + e + ap) + m + (t + "\n"@));
    lemma_occurs_between(s0 + e + ap, m, t + "\n"@);
    lemma_section_occurs(c, path, 1, m, (s0 + e + ap).len() as int);
    assert(display_api(api) =~= (s0 + e + ap + m) + t + "\n"@);
    lemma_occurs_between(s0 + e + ap + m, t, "\n"@);
    lemma_section_occurs(c, path, 1, t, (s0 + e + ap + m).len() as int);
}

/// Each setting of the `[behavior]` section stands after its label.
proof fn lemma_display_behavior_fields(c: Config, path: Seq<char>)
    ensures
        contains_seq(
            spec_display_text(c, path),
            "  auto_fix             = "@ + bool_text(c.behavior.auto_fix) + "\n"@,
        ),
        contains_seq(
            spec_display_text(c, path),
            "  confirm_before_run   = "@ + bool_text(c.behavior.confirm_before_run) + "\n"@,
        ),
        contains_seq(
            spec_display_text(c, path),
            "  max_history_context  = "@ + decimal(c.behavior.max_history_context as nat)
                + "\n"@,
        ),
{
    let b = c.behavior;
    let f = "  auto_fix             = "@ + bool_text(b.auto_fix) + "\n"@;
    let cf = "  confirm_before_run   = "@ + bool_text(b.confirm_before_run) + "\n"@;
    let h = "  max_history_context  = "@ + decimal(b.max_history_context as nat) + "\n"@;
    let b0 = "[behavior]\n"@;
    assert(display_behavior(b) =~= b0 + f + (cf + h + "\n"@));
    lemma_occurs_between(b0, f, cf + h + "\n"@);
    lemma_section_occurs(c, path, 2, f, b0.len() as int);
    assert(display_behavior(b) =~= (b0 + f) + cf + (h + "\n"@));
    lemma_occurs_between(b0 + f, cf, h + "\n"@);
    lemma_section_occurs(c, path, 2, cf, (b0 + f).len() as int);
    assert(display_behavior(b) =~= (b0 + f + cf) + h + "\n"@);
    lemma_occurs_between(b0 + f + cf, h, "\n"@);
    lemma_section_occurs(c, path, 2, h, (b0 + f + cf).len() as int);
}

/// The color setting stands after its label.
proof fn lemma_display_ui_fields(c: Config, path: Seq<char>)
    ensures
        contains_seq(spec_display_text(c, path), "  color = "@ + bool_text(c.ui.color) + "\n"@),
{
    let u0 = "[ui]\n"@;
    let col = "  color = "@ + bool_text(c.ui.color) + "\n"@;
    assert(display_ui(c.ui) =~= u0 + col + Seq::<char>::empty());
    lemma_occurs_between(u0, col, Seq::<char>::empty());
    lemma_section_occurs(c, path, 3, col, u0.len() as int);
}

/// Appends `"true"` or `"false"`.
fn push_bool(s: &mut String, b: bool)
    ensures
        final(s)@ == old(s)@ + bool_text(b),
{
    if b {
        s.append("true");
    } else {
        s.append("false");
    }
}

impl Config {
    /// The configuration file inside the configuration directory `dir`
    /// (`~/.config` when there is none): `<dir>/npushell/config.toml`, as
    /// path bytes.
    pub fn config_path_in(dir: Option<&[u8]>) -> (r: Vec<u8>)
        ensures
            r@ == spec_config_path_in(
                match dir {
                    Some(d) => Some(d@),
                    None => None,
                },
            ),
    {
        let mut path: Vec<u8> = match dir {
            Some(d) => {
                let mut p: Vec<u8> = Vec::new();
                push_bytes(&mut p, d);
                p
            },
            None => str_bytes("~/.config"),
        };
        push_path(&mut path, "npushell");
        push_path(&mut path, "config.toml");
        path
    }

    /// The path of the configuration file, as path bytes: `npushell/config.toml`
    /// inside the user's configuration directory, or inside `~/.config` when
    /// that directory cannot be found.
    pub fn config_path() -> (r: Vec<u8>)
        ensures
            exists|dir: Option<Seq<u8>>| r@ == #[trigger] spec_config_path_in(dir),
    {
        let dir = user_config_dir();
        match dir {
            Some(d) => {
                let r = Self::config_path_in(Some(d.as_slice()));
                assert(r@ == spec_config_path_in(Some(d@)));
                r
            },
            None => {
                let r = Self::config_path_in(None);
                assert(r@ == spec_config_path_in(None));
                r
            },
        }
    }

    /// The text that describes this configuration, read from `path`.
    pub fn display_text(&self, path: &str) -> (r: String)
        ensures
            r@ == spec_display_text(*self, path@),
    {
        let mut s = String::new();
        s.append("npushell configuration\n");
        s.append("======================\n");
        s.append("Config file: ");
        s.append(path);
        s.append("\n");
        s.append("\n");
        let api = api_section(&self.api);
        s.append(api.as_str());
        let behavior = behavior_section(&self.behavior);
        s.append(behavior.as_str());
        let ui = ui_section(&self.ui);
        s.append(ui.as_str());
        s
    }
}

/// The `[api]` section of the printed configuration.
fn api_section(api: &ApiConfig) -> (r: String)
    ensures
        r@ == display_api(*api),
{
    let mut s = String::new();
    s.append("[api]\n");
    s.append("  endpoint = \"");
    s.append(api.endpoint.as_str());
    s.append("\"\n");
    s.append("  api_path = \"");
    s.append(api.api_path.as_str());
    s.append("\"\n");
    s.append("  model    = \"");
    s.append(api.model.as_str());
    s.append("\"\n");
    s.append("  timeout  = ");
    push_decimal(&mut s, api.timeout);
    s.append("s\n");
    s.append("\n");
    s
}

/// The `[behavior]` section of the printed configuration.
fn behavior_section(b: &BehaviorConfig) -> (r: String)
    ensures
        r@ == display_behavior(*b),
{
    let mut s = String::new();
    s.append("[behavior]\n");
    s.append("  auto_fix             = ");
    push_bool(&mut s, b.auto_fix);
    s.append("\n");
    s.append("  confirm_before_run   = ");
    push_bool(&mut s, b.confirm_before_run);
    s.append("\n");
    s.append("  max_history_context  = ");
    push_decimal(&mut s, b.max_history_context as u64);
    s.append("\n");
    s.append("\n");
    s
}

/// The `[ui]` section of the printed configuration.
fn ui_section(ui: &UiConfig) -> (r: String)
    ensures
        r@ == display_ui(*ui),
{
    let mut s = String::new();
    s.append("[ui]\n");
    s.append("  color = ");
    push_bool(&mut s, ui.color);
    s.append("\n");
    s
}

} // verus!
