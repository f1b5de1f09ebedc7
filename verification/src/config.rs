//! The local configuration: saved credentials and default selections.
use vstd::prelude::*;

use crate::text::{owned, push_str};

verus! {

/// The settings kept in `~/.config/rtree/config.json`.
#[derive(Debug)]
pub struct Config {
    pub token: Option<String>,
    pub email: Option<String>,
    pub url: Option<String>,
    pub default_database: Option<String>,
    pub default_organization: Option<String>,
    pub default_cluster: Option<String>,
}

impl Config {
    /// Whether every setting is absent, as in a fresh configuration.
    pub open spec fn is_empty(&self) -> bool {
        &&& self.token is None
        &&& self.email is None
        &&& self.url is None
        &&& self.default_database is None
        &&& self.default_organization is None
        &&& self.default_cluster is None
    }
}

impl Default for Config {
    fn default() -> (r: Self)
        ensures
            r.is_empty(),
    {
        Config {
            token: None,
            email: None,
            url: None,
            default_database: None,
            default_organization: None,
            default_cluster: None,
        }
    }
}

/// Errors locating the configuration file.
#[derive(Debug)]
pub enum ConfigError {
    /// `HOME` is not set.
    NoConfigDirectory,
}

impl ConfigError {
    /// The text of the error.
    pub fn message(&self) -> (r: String)
        ensures
            r@ == "cannot determine config directory"@,
    {
        owned("cannot determine config directory")
    }
}

/// `dir` joined with `name` as `PathBuf::join` does on Unix for a relative
/// `name`: a separator is added unless `dir` is empty or already ends with one.
pub open spec fn join_path(dir: Seq<char>, name: Seq<char>) -> Seq<char> {
    if dir.len() == 0 || dir.last() == '/' {
        dir + name
    } else {
        dir.push('/') + name
    }
}

/// The location of the config file under the home directory.
pub open spec fn config_path_spec(home: Seq<char>) -> Seq<char> {
    join_path(join_path(join_path(home, ".config"@), "rtree"@), "config.json"@)
}

/// Appends `name` to `dir` as a path component.
fn push_component(dir: &mut String, name: &str)
    ensures
        final(dir)@ == join_path(old(dir)@, name@),
{
    let s = dir.as_str();
    let n = s.unicode_len();
    if n != 0 && s.get_char(n - 1) != '/' {
        crate::text::push_char(dir, '/');
    }
    push_str(dir, name);
}

/// The config file path, `$HOME/.config/rtree/config.json`; an error when the
/// home directory is unknown.
pub fn path(home: Option<&str>) -> (r: Result<String, ConfigError>)
    ensures
        home is None ==> r is Err,
        home matches Some(h) ==> r matches Ok(p) && p@ == config_path_spec(h@),
{
    match home {
        None => Err(ConfigError::NoConfigDirectory),
        Some(h) => {
            let mut p = owned(h);
            push_component(&mut p, ".config");
            push_component(&mut p, "rtree");
            push_component(&mut p, "config.json");
            Ok(p)
        },
    }
}

} // verus!
