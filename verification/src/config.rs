//! Application configuration and the paths of the files the clients keep.
use vstd::prelude::*;
use crate::text::{chars_of, push_seq, string_of};

verus! {

/// Output format for CLI command results.
#[derive(Debug, Clone, Copy, PartialEq, Eq, Structural)]
pub enum OutputFormat {
    /// Render output as a table (default).
    Table,
    /// Render output as JSON.
    Json,
    /// Render output as Markdown.
    Markdown,
}

impl Default for OutputFormat {
    fn default() -> (r: Self)
        ensures
            r == OutputFormat::Table,
    {
        OutputFormat::Table
    }
}

/// Application configuration persisted to `config.toml`.
#[derive(Debug, Clone)]
pub struct Config {
    /// The default workspace (team) ID to use when none is specified.
    pub default_workspace_id: Option<String>,
    /// The default space ID to use when none is specified.
    pub default_space_id: Option<String>,
    /// Base URL for the ClickUp API.
    pub api_base_url: String,
    /// Default output format for CLI commands.
    pub output_format: OutputFormat,
}

/// The ClickUp API base URL.
pub open spec fn api_url() -> Seq<char> {
    "https://api.clickup.com/api/v2"@
}

/// The default base URL for the ClickUp API.
pub fn default_api_base_url() -> (r: String)
    ensures
        r@ == api_url(),
{
    string_of(&chars_of("https://api.clickup.com/api/v2"))
}

impl Default for Config {
    fn default() -> (r: Self)
        ensures
            r.default_workspace_id is None,
            r.default_space_id is None,
            r.api_base_url@ == api_url(),
            r.output_format == OutputFormat::Table,
    {
        Config {
            default_workspace_id: None,
            default_space_id: None,
            api_base_url: default_api_base_url(),
            output_format: OutputFormat::default(),
        }
    }
}

/// `name` below the directory `dir`, as `Path::join` puts a relative name
/// below a directory: with a `/` between, unless `dir` is empty or ends in one.
pub open spec fn join_path(dir: Seq<char>, name: Seq<char>) -> Seq<char> {
    if dir.len() == 0 {
        name
    } else if dir.last() == '/' {
        dir + name
    } else {
        dir + "/"@ + name
    }
}

/// Joins a relative name below a directory.
pub fn join(dir: &str, name: &str) -> (r: String)
    ensures
        r@ == join_path(dir@, name@),
{
    let mut out = chars_of(dir);
    if out.len() > 0 && out[out.len() - 1] != '/' {
        out.push('/');
    }
    push_seq(&mut out, &chars_of(name));
    proof {
        if dir@.len() > 0 && dir@.last() != '/' {
            assert(out@ =~= dir@ + "/"@ + name@) by {
                reveal_strlit("/");
            }
        }
    }
    string_of(&out)
}

/// The configuration directory below the platform's configuration directory
/// `base` (the current directory when the platform has none).
pub open spec fn config_dir_in(base: Option<Seq<char>>) -> Seq<char> {
    join_path(match base { Some(b) => b, None => "."@ }, "clickup-rs"@)
}

/// Calls `dirs::config_dir`: the platform's configuration directory (on Linux
/// `$XDG_CONFIG_HOME` or `$HOME/.config`), as text. It depends on the
/// environment, so nothing is claimed of it.
#[verifier::external_body]
fn platform_config_dir() -> Option<String> {
    match dirs::config_dir() {
        Some(p) => Some(p.to_string_lossy().to_string()),
        None => None,
    }
}

/// The configuration directory below the platform directory `base`.
pub fn config_dir_under(base: Option<String>) -> (r: String)
    ensures
        r@ == config_dir_in(match base { Some(b) => Some(b@), None => None }),
{
    match base {
        Some(b) => join(b.as_str(), "clickup-rs"),
        None => join(".", "clickup-rs"),
    }
}

/// One of the paths `config_dir` can give, whatever the environment holds.
pub open spec fn is_config_dir(d: Seq<char>) -> bool {
    exists|b: Option<Seq<char>>| d == config_dir_in(b)
}

impl Config {
    /// Returns the configuration directory (`~/.config/clickup-rs/`).
    pub fn config_dir() -> (r: String)
        ensures
            is_config_dir(r@),
    {
        let base = platform_config_dir();
        let ghost b = match &base { Some(s) => Some(s@), None => None };
        let r = config_dir_under(base);
        proof { assert(r@ == config_dir_in(b)); }
        r
    }

    /// Returns the path to the configuration file.
    pub fn config_file_path() -> (r: String)
        ensures
            exists|d: Seq<char>| is_config_dir(d) && r@ == join_path(d, "config.toml"@),
    {
        let d = Self::config_dir();
        join(d.as_str(), "config.toml")
    }
}

} // verus!
