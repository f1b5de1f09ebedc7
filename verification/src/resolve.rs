//! Resolution of settings from the command line, the environment and the
//! configuration file, and the decisions the command dispatcher takes before
//! any request is made.
use vstd::prelude::*;

use crate::config::Config;
use crate::text::{opt_string_view, owned, push_str, trim, trim_spec};

verus! {

/// The API endpoint used when no other source names one.
pub const DEFAULT_API_URL: &'static str = "https://api.rawtree.com";

/// The first source that is present: command line, then environment, then config.
pub open spec fn first_present<T>(cli: Option<T>, env: Option<T>, cfg: Option<T>) -> Option<T> {
    if cli is Some {
        cli
    } else if env is Some {
        env
    } else {
        cfg
    }
}

/// Errors of setting resolution.
#[derive(Debug)]
pub enum ResolveError {
    /// No database from any source.
    NoDatabase,
    /// No SQL text from any source.
    NoSql,
    /// Standard input held only whitespace.
    EmptyStdinSql,
    /// `--api-key` together with `--email` or `--password`.
    ApiKeyWithPassword,
    /// An interactively entered password was empty.
    EmptyPassword,
}

impl ResolveError {
    /// The text of the error.
    pub open spec fn message_spec(&self) -> Seq<char> {
        match self {
            ResolveError::NoDatabase =>
                "No database specified. Use --database, RAWTREE_DATABASE env, or `rtree database use <name>`"@,
            ResolveError::NoSql =>
                "SQL query is required. Provide it as a positional argument, with --sql, or pipe via stdin"@,
            ResolveError::EmptyStdinSql => "no SQL provided on stdin"@,
            ResolveError::ApiKeyWithPassword =>
                "--api-key cannot be used with --email or --password during login"@,
            ResolveError::EmptyPassword => "password cannot be empty"@,
        }
    }

    /// The text of the error.
    pub fn message(&self) -> (r: String)
        ensures
            r@ == self.message_spec(),
    {
        match self {
            ResolveError::NoDatabase => owned(
                "No database specified. Use --database, RAWTREE_DATABASE env, or `rtree database use <name>`",
            ),
            ResolveError::NoSql => owned(
                "SQL query is required. Provide it as a positional argument, with --sql, or pipe via stdin",
            ),
            ResolveError::EmptyStdinSql => owned("no SQL provided on stdin"),
            ResolveError::ApiKeyWithPassword => owned(
                "--api-key cannot be used with --email or --password during login",
            ),
            ResolveError::EmptyPassword => owned("password cannot be empty"),
        }
    }
}

/// The API URL: `--api-url`, then `RAWTREE_API_URL`, then the config file, then
/// the default endpoint.
pub fn resolve_url_from_sources(
    cli_url: Option<&str>,
    env_api_url: Option<String>,
    cfg_url: Option<String>,
) -> (r: String)
    ensures
        r@ == (match cli_url {
            Some(u) => u@,
            None => match first_present(None, opt_string_view(env_api_url), opt_string_view(cfg_url)) {
                Some(u) => u,
                None => DEFAULT_API_URL@,
            },
        }),
{
    match cli_url {
        Some(u) => owned(u),
        None => match env_api_url {
            Some(u) => u,
            None => match cfg_url {
                Some(u) => u,
                None => owned(DEFAULT_API_URL),
            },
        },
    }
}

/// The API key: `--api-key`, then `RAWTREE_API_KEY`, then the saved token.
pub fn resolve_token_from_sources(
    cli_api_key: Option<String>,
    env_api_key: Option<String>,
    cfg_token: Option<String>,
) -> (r: Option<String>)
    ensures
        r == first_present(cli_api_key, env_api_key, cfg_token),
{
    match cli_api_key {
        Some(k) => Some(k),
        None => match env_api_key {
            Some(k) => Some(k),
            None => cfg_token,
        },
    }
}

/// The database: `--database`, then `RAWTREE_DATABASE`, then the config default.
pub fn resolve_database_from_sources(
    cli_database: Option<String>,
    env_database: Option<String>,
    cfg_database: Option<String>,
) -> (r: Option<String>)
    ensures
        r == first_present(cli_database, env_database, cfg_database),
{
    match cli_database {
        Some(d) => Some(d),
        None => match env_database {
            Some(d) => Some(d),
            None => cfg_database,
        },
    }
}

/// The database a command works on; an error when no source names one.
pub fn resolve_database(
    cli_database: Option<String>,
    env_database: Option<String>,
    cfg_database: Option<String>,
) -> (r: Result<String, ResolveError>)
    ensures
        r is Err <==> first_present(cli_database, env_database, cfg_database) is None,
        r matches Err(e) ==> e is NoDatabase,
        r matches Ok(d) ==> Some(d) == first_present(cli_database, env_database, cfg_database),
{
    match resolve_database_from_sources(cli_database, env_database, cfg_database) {
        Some(d) => Ok(d),
        None => Err(ResolveError::NoDatabase),
    }
}

/// The organization named explicitly: `--org`, then `RAWTREE_ORG`, then the config default.
pub fn resolve_org_from_sources(
    cli_org: Option<String>,
    env_org: Option<String>,
    cfg_org: Option<String>,
) -> (r: Option<String>)
    ensures
        r == first_present(cli_org, env_org, cfg_org),
{
    match cli_org {
        Some(o) => Some(o),
        None => match env_org {
            Some(o) => Some(o),
            None => cfg_org,
        },
    }
}

/// The cluster a command is routed to: `--cluster`, then the config default.
pub fn resolve_cluster_from_sources(cli_cluster: Option<String>, cfg_cluster: Option<String>) -> (r:
    Option<String>)
    ensures
        r == first_present(cli_cluster, None, cfg_cluster),
{
    match cli_cluster {
        Some(c) => Some(c),
        None => cfg_cluster,
    }
}

/// The organization in effect: the explicit one, or else whatever the fallback
/// lookup (the user's first organization) gives. The lookup runs only when no
/// organization was named.
pub fn resolve_effective_org_with<F: FnOnce() -> Option<String>>(
    explicit_org: Option<String>,
    fetch_default_org: F,
) -> (r: Option<String>)
    requires
        explicit_org is None ==> fetch_default_org.requires(()),
    ensures
        explicit_org is Some ==> r == explicit_org,
        explicit_org is None ==> fetch_default_org.ensures((), r),
{
    match explicit_org {
        Some(o) => Some(o),
        None => fetch_default_org(),
    }
}

/// Whether `login` asks how to log in: only for a plain interactive login.
pub fn should_prompt_for_login_method(
    email: Option<&str>,
    json_mode: bool,
    stdin_is_terminal: bool,
    stdout_is_terminal: bool,
) -> (r: bool)
    ensures
        r == (email is None && !json_mode && stdin_is_terminal && stdout_is_terminal),
{
    email.is_none() && !json_mode && stdin_is_terminal && stdout_is_terminal
}

/// Where the SQL text of `query` comes from.
#[derive(Debug)]
pub enum SqlSource {
    /// Text given on the command line.
    Inline(String),
    /// Text to be read from standard input.
    Stdin,
}

/// The source of the SQL text: the positional argument, then `--sql`; `-` and
/// a missing text with piped input both mean standard input.
pub fn resolve_sql(
    positional: Option<String>,
    flag: Option<String>,
    stdin_is_terminal: bool,
) -> (r: Result<SqlSource, ResolveError>)
    ensures
        ({
            let raw = if positional is Some {
                positional
            } else {
                flag
            };
            match raw {
                Some(s) => if s@ == "-"@ {
                    r matches Ok(SqlSource::Stdin)
                } else {
                    r matches Ok(SqlSource::Inline(t)) && t == s
                },
                None => if stdin_is_terminal {
                    r matches Err(ResolveError::NoSql)
                } else {
                    r matches Ok(SqlSource::Stdin)
                },
            }
        }),
{
    let raw = match positional {
        Some(p) => Some(p),
        None => flag,
    };
    match raw {
        Some(s) => {
            let dash = owned("-");
            if s == dash {
                Ok(SqlSource::Stdin)
            } else {
                Ok(SqlSource::Inline(s))
            }
        },
        None => {
            if stdin_is_terminal {
                Err(ResolveError::NoSql)
            } else {
                Ok(SqlSource::Stdin)
            }
        },
    }
}

/// SQL read from standard input: the trimmed text, which must not be empty.
pub fn sql_from_stdin(input: &str) -> (r: Result<String, ResolveError>)
    ensures
        r is Err <==> trim_spec(input@).len() == 0,
        r matches Err(e) ==> e is EmptyStdinSql,
        r matches Ok(s) ==> s@ == trim_spec(input@),
{
    let t = trim(input);
    if t.as_str().is_empty() {
        Err(ResolveError::EmptyStdinSql)
    } else {
        Ok(t)
    }
}

/// A password typed at the prompt, which must not be empty.
pub fn require_password(password: String) -> (r: Result<String, ResolveError>)
    ensures
        r is Err <==> password@.len() == 0,
        r matches Err(e) ==> e is EmptyPassword,
        r matches Ok(p) ==> p == password,
{
    if password.as_str().is_empty() {
        Err(ResolveError::EmptyPassword)
    } else {
        Ok(password)
    }
}

/// How `login` authenticates.
#[derive(Debug, PartialEq, Eq, Structural)]
pub enum LoginPlan {
    /// Save the `--api-key` directly.
    ApiKey,
    /// Ask the user to choose between the browser and an API key.
    PromptForMethod,
    /// Email and password.
    Password,
    /// Browser device flow.
    Browser,
}

/// The authentication route of `login`, from the flags and the terminal state.
pub fn login_plan(
    has_api_key: bool,
    email: Option<&str>,
    has_password: bool,
    json_mode: bool,
    stdin_is_terminal: bool,
    stdout_is_terminal: bool,
) -> (r: Result<LoginPlan, ResolveError>)
    ensures
        has_api_key && (email is Some || has_password) ==> r == Err::<LoginPlan, ResolveError>(
            ResolveError::ApiKeyWithPassword,
        ),
        has_api_key && !(email is Some || has_password) ==> r == Ok::<LoginPlan, ResolveError>(
            LoginPlan::ApiKey,
        ),
        !has_api_key ==> r == Ok::<LoginPlan, ResolveError>(
            if email is None && !json_mode && stdin_is_terminal && stdout_is_terminal {
                LoginPlan::PromptForMethod
            } else if email is Some {
                LoginPlan::Password
            } else {
                LoginPlan::Browser
            },
        ),
{
    if has_api_key {
        if email.is_some() || has_password {
            return Err(ResolveError::ApiKeyWithPassword);
        }
        Ok(LoginPlan::ApiKey)
    } else if should_prompt_for_login_method(email, json_mode, stdin_is_terminal, stdout_is_terminal) {
        Ok(LoginPlan::PromptForMethod)
    } else if email.is_some() {
        Ok(LoginPlan::Password)
    } else {
        Ok(LoginPlan::Browser)
    }
}

/// The command line always wins over the environment and the config file.
pub proof fn law_command_line_wins<T>(cli: T, env: Option<T>, cfg: Option<T>)
    ensures
        first_present(Some(cli), env, cfg) == Some(cli),
{
}

/// A source is consulted only when every source before it is absent.
pub proof fn law_config_is_last_resort<T>(cfg: Option<T>)
    ensures
        first_present(None, None, cfg) == cfg,
{
}

/// After logout (an empty configuration) the API URL falls back to the
/// default endpoint unless the command line or the environment names one.
pub proof fn law_logout_restores_default_endpoint(cfg: Config)
    requires
        cfg.is_empty(),
    ensures
        (match first_present(None, None, opt_string_view(cfg.url)) {
            Some(u) => u,
            None => DEFAULT_API_URL@,
        }) == DEFAULT_API_URL@,
{
}

} // verus!
