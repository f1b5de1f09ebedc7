//! Login: choosing the login method, validating API keys, selecting the
//! default organization and database after authentication, and updating the
//! saved configuration.
use vstd::prelude::*;

use crate::config::Config;
use crate::org::{
    database_scoped_path, database_scoped_path_spec, scoped_path, scoped_path_spec, OrganizationItem,
};
use crate::output::{coded_error, CodedError};
use crate::resolve::DEFAULT_API_URL;
use crate::text::{
    chars_of, char_is_ws, decimal, eq_ignore_ascii_case, is_ws, starts_with, eq_ignore_ascii_case_spec, first_match, lemma_first_match,
    lemma_first_match_at, lemma_first_match_none, opt_string_view, opt_view, owned, position_of,
    lemma_decimal_digits, parse_unsigned_spec, parse_usize, push_char, push_decimal, push_str, str_eq, trim, trim_spec,
    views,
};

verus! {

/// How the user chose to log in.
#[derive(Clone, Copy, Debug, PartialEq, Eq, Structural)]
pub enum LoginMethod {
    Rawtree,
    ManualApiKey,
}

/// The choices offered by the login method prompt, numbered from 1.
pub const LOGIN_METHOD_LABELS: [&'static str; 2] = ["Log in with Rawtree", "Enter API key"];

/// A successful email/password or device login.
#[derive(Debug)]
pub struct AuthResponse {
    pub token: String,
    pub email: String,
}

/// The organization and database chosen as defaults at login.
#[derive(Debug)]
pub struct AuthSelection {
    pub organization: Option<String>,
    pub database: Option<String>,
}

impl Default for AuthSelection {
    fn default() -> (r: Self)
        ensures
            r.organization is None,
            r.database is None,
    {
        AuthSelection { organization: None, database: None }
    }
}

/// A named entity in a server response.
#[derive(Debug)]
pub struct NamedRef {
    pub name: String,
}

/// The database and organization an API key is bound to, as the server reports them.
#[derive(Debug)]
pub struct DatabaseContextResponse {
    pub database: Option<NamedRef>,
    pub organization: Option<NamedRef>,
}

/// An error body of the API.
#[derive(Debug)]
pub struct ApiErrorResponse {
    pub error: String,
    pub message: String,
    pub hint: Option<String>,
}

/// Errors of login and of the selection of defaults.
#[derive(Debug)]
pub enum AuthError {
    OrganizationNotFound { name: String },
    DatabaseNotFound { name: String, organization: String },
    /// A choice among several items is needed but no prompt is possible.
    SelectionRequired { label: String },
    /// A choice among several items must be made at an interactive prompt.
    PromptNeeded { label: String },
    ListOrganizationsFailed { cause: String },
    ListDatabasesFailed { organization: String, cause: String },
    NoOrganizationForCluster { cluster: String },
    NoOrganizationForDatabase { database: String },
    ContextMissingOrganization,
    ContextMissingDatabase,
    KeyOrganizationMismatch { actual: String, requested: String },
    KeyDatabaseMismatch { actual: String, requested: String },
    ApiKeyContextFailed { keys_error: String, tables_error: String },
    DeviceLoginTimedOut { seconds: u64 },
    Server { message: String },
}

/// `'<s>'`.
pub open spec fn quoted(s: Seq<char>) -> Seq<char> {
    "'"@ + s + "'"@
}

/// The flag that names a selection: `--org` for organizations, else the label itself.
pub open spec fn flag_for_label(label: Seq<char>) -> Seq<char> {
    if label == "organization"@ {
        "org"@
    } else {
        label
    }
}

impl AuthError {
    /// The text of the error.
    pub open spec fn message_spec(&self) -> Seq<char> {
        match self {
            AuthError::OrganizationNotFound { name } => "Organization "@ + quoted(name@)
                + " not found for current user."@,
            AuthError::DatabaseNotFound { name, organization } => "Database "@ + quoted(name@)
                + " not found in organization "@ + quoted(organization@) + "."@,
            AuthError::SelectionRequired { label } => "No "@ + label@
                + " specified. Run this command interactively or pass --"@ + flag_for_label(label@)
                + " <name>."@,
            AuthError::PromptNeeded { label } => "Choose a "@ + label@ + " interactively."@,
            AuthError::ListOrganizationsFailed { cause } =>
                "failed to list organizations for auth-time selection: "@ + cause@,
            AuthError::ListDatabasesFailed { organization, cause } =>
                "failed to list databases for organization "@ + quoted(organization@) + ": "@
                    + cause@,
            AuthError::NoOrganizationForCluster { cluster } => "Cannot select cluster "@ + quoted(
                cluster@,
            ) + " because no organization is available."@,
            AuthError::NoOrganizationForDatabase { database } => "Cannot select database "@
                + quoted(database@) + " because no organization is available."@,
            AuthError::ContextMissingOrganization =>
                "server response did not include an organization"@,
            AuthError::ContextMissingDatabase => "server response did not include a database"@,
            AuthError::KeyOrganizationMismatch { actual, requested } =>
                "API key belongs to organization "@ + quoted(actual@) + ", not "@ + quoted(
                    requested@,
                ) + "."@,
            AuthError::KeyDatabaseMismatch { actual, requested } => "API key belongs to database "@
                + quoted(actual@) + ", not "@ + quoted(requested@) + "."@,
            AuthError::ApiKeyContextFailed { keys_error, tables_error } =>
                "failed to resolve API key database context: "@ + keys_error@
                    + "; fallback /v1/tables failed: "@ + tables_error@,
            AuthError::DeviceLoginTimedOut { seconds } => "Browser login timed out after "@
                + decimal(*seconds as nat) + " seconds. Run `rtree login` to try again."@,
            AuthError::Server { message } => message@,
        }
    }

    /// The text of the error.
    #[verifier::spinoff_prover]
    #[verifier::rlimit(60)]
    pub fn message(&self) -> (r: String)
        ensures
            r@ == self.message_spec(),
    {
        let mut m = String::new();
        match self {
            AuthError::OrganizationNotFound { name } => {
                push_str(&mut m, "Organization '");
                push_str(&mut m, name.as_str());
                push_str(&mut m, "' not found for current user.");
            },
            AuthError::DatabaseNotFound { name, organization } => {
                push_str(&mut m, "Database '");
                push_str(&mut m, name.as_str());
                push_str(&mut m, "' not found in organization '");
                push_str(&mut m, organization.as_str());
                push_str(&mut m, "'.");
            },
            AuthError::SelectionRequired { label } => {
                push_str(&mut m, "No ");
                push_str(&mut m, label.as_str());
                push_str(&mut m, " specified. Run this command interactively or pass --");
                if str_eq(label.as_str(), "organization") {
                    push_str(&mut m, "org");
                } else {
                    push_str(&mut m, label.as_str());
                }
                push_str(&mut m, " <name>.");
            },
            AuthError::PromptNeeded { label } => {
                push_str(&mut m, "Choose a ");
                push_str(&mut m, label.as_str());
                push_str(&mut m, " interactively.");
            },
            AuthError::ListOrganizationsFailed { cause } => {
                push_str(&mut m, "failed to list organizations for auth-time selection: ");
                push_str(&mut m, cause.as_str());
            },
            AuthError::ListDatabasesFailed { organization, cause } => {
                push_str(&mut m, "failed to list databases for organization '");
                push_str(&mut m, organization.as_str());
                push_str(&mut m, "': ");
                push_str(&mut m, cause.as_str());
            },
            AuthError::NoOrganizationForCluster { cluster } => {
                push_str(&mut m, "Cannot select cluster '");
                push_str(&mut m, cluster.as_str());
                push_str(&mut m, "' because no organization is available.");
            },
            AuthError::NoOrganizationForDatabase { database } => {
                push_str(&mut m, "Cannot select database '");
                push_str(&mut m, database.as_str());
                push_str(&mut m, "' because no organization is available.");
            },
            AuthError::ContextMissingOrganization => {
                push_str(&mut m, "server response did not include an organization");
            },
            AuthError::ContextMissingDatabase => {
                push_str(&mut m, "server response did not include a database");
            },
            AuthError::KeyOrganizationMismatch { actual, requested } => {
                push_str(&mut m, "API key belongs to organization '");
                push_str(&mut m, actual.as_str());
                push_str(&mut m, "', not '");
                push_str(&mut m, requested.as_str());
                push_str(&mut m, "'.");
            },
            AuthError::KeyDatabaseMismatch { actual, requested } => {
                push_str(&mut m, "API key belongs to database '");
                push_str(&mut m, actual.as_str());
                push_str(&mut m, "', not '");
                push_str(&mut m, requested.as_str());
                push_str(&mut m, "'.");
            },
            AuthError::ApiKeyContextFailed { keys_error, tables_error } => {
                push_str(&mut m, "failed to resolve API key database context: ");
                push_str(&mut m, keys_error.as_str());
                push_str(&mut m, "; fallback /v1/tables failed: ");
                push_str(&mut m, tables_error.as_str());
            },
            AuthError::DeviceLoginTimedOut { seconds } => {
                push_str(&mut m, "Browser login timed out after ");
                push_decimal(&mut m, *seconds);
                push_str(&mut m, " seconds. Run `rtree login` to try again.");
            },
            AuthError::Server { message } => {
                push_str(&mut m, message.as_str());
            },
        }
        proof {
            reveal_strlit("'");
            reveal_strlit("'.");
            reveal_strlit("' not found for current user.");
            reveal_strlit("' not found in organization '");
            reveal_strlit("': ");
            reveal_strlit("' because no organization is available.");
            reveal_strlit("', not '");
            reveal_strlit("Organization '");
            reveal_strlit("Organization ");
            reveal_strlit("Database '");
            reveal_strlit("Database ");
            reveal_strlit(" not found for current user.");
            reveal_strlit(" not found in organization ");
            reveal_strlit(".");
            reveal_strlit(": ");
            reveal_strlit("failed to list databases for organization '");
            reveal_strlit("failed to list databases for organization ");
            reveal_strlit("Cannot select cluster '");
            reveal_strlit("Cannot select cluster ");
            reveal_strlit("Cannot select database '");
            reveal_strlit("Cannot select database ");
            reveal_strlit(" because no organization is available.");
            reveal_strlit("API key belongs to organization '");
            reveal_strlit("API key belongs to organization ");
            reveal_strlit("API key belongs to database '");
            reveal_strlit("API key belongs to database ");
            reveal_strlit(", not ");
            assert(m@ =~= self.message_spec());
        }
        m
    }
}

/// The login method an answer to the prompt picks: its number or its label,
/// ignoring surrounding whitespace and ASCII case.
pub open spec fn login_method_spec(input: Seq<char>) -> Option<LoginMethod> {
    let t = trim_spec(input);
    if t == "1"@ {
        Some(LoginMethod::Rawtree)
    } else if t == "2"@ {
        Some(LoginMethod::ManualApiKey)
    } else if eq_ignore_ascii_case_spec(t, "Log in with Rawtree"@) {
        Some(LoginMethod::Rawtree)
    } else if eq_ignore_ascii_case_spec(t, "Enter API key"@) {
        Some(LoginMethod::ManualApiKey)
    } else {
        None
    }
}

/// The login method an answer to the login method prompt selects.
pub fn parse_login_method(input: &str) -> (r: Option<LoginMethod>)
    ensures
        r == login_method_spec(input@),
{
    let t = trim(input);
    let ts = t.as_str();
    if str_eq(ts, "1") {
        Some(LoginMethod::Rawtree)
    } else if str_eq(ts, "2") {
        Some(LoginMethod::ManualApiKey)
    } else if eq_ignore_ascii_case(ts, LOGIN_METHOD_LABELS[0]) {
        Some(LoginMethod::Rawtree)
    } else if eq_ignore_ascii_case(ts, LOGIN_METHOD_LABELS[1]) {
        Some(LoginMethod::ManualApiKey)
    } else {
        None
    }
}

/// The names of organizations, in order.
pub open spec fn org_names(orgs: Seq<OrganizationItem>) -> Seq<Seq<char>> {
    orgs.map_values(|o: OrganizationItem| o.name@)
}

/// A copy of an optional string.
fn clone_opt(o: &Option<String>) -> (r: Option<String>)
    ensures
        r == *o,
{
    match o {
        Some(s) => Some(s.clone()),
        None => None,
    }
}

/// Records a completed login in the configuration: the new token and email,
/// the selected defaults (absent ones cleared), and the API URL when a
/// non-default endpoint is used and none is saved yet.
pub fn apply_auth_config(
    cfg: &mut Config,
    base_url: &str,
    resp: &AuthResponse,
    selection: &AuthSelection,
)
    ensures
        final(cfg).token == Some(resp.token),
        final(cfg).email == Some(resp.email),
        final(cfg).default_organization == selection.organization,
        final(cfg).default_database == selection.database,
        final(cfg).default_cluster == old(cfg).default_cluster,
        old(cfg).url is None && base_url@ != DEFAULT_API_URL@ ==> (final(cfg).url matches Some(u)
            && u@ == base_url@),
        !(old(cfg).url is None && base_url@ != DEFAULT_API_URL@) ==> final(cfg).url == old(cfg).url,
{
    cfg.token = Some(resp.token.clone());
    cfg.email = Some(resp.email.clone());
    cfg.default_organization = clone_opt(&selection.organization);
    cfg.default_database = clone_opt(&selection.database);
    if cfg.url.is_none() && !str_eq(base_url, DEFAULT_API_URL) {
        cfg.url = Some(owned(base_url));
    }
}

/// The index of the first organization called `name`.
pub fn organization_index(organizations: &Vec<OrganizationItem>, name: &str) -> (r: Option<usize>)
    ensures
        r is None <==> first_match(org_names(organizations@), name@) is None,
        r matches Some(k) ==> first_match(org_names(organizations@), name@) == Some(k as int),
{
    let target = owned(name);
    let mut i: usize = 0;
    while i < organizations.len()
        invariant
            i <= organizations.len(),
            target@ == name@,
            forall|j: int| 0 <= j < i ==> #[trigger] org_names(organizations@)[j] != name@,
        decreases organizations.len() - i,
    {
        if organizations[i].name == target {
            proof {
                lemma_first_match_at(org_names(organizations@), name@, i as int);
            }
            return Some(i);
        }
        i = i + 1;
    }
    proof {
        lemma_first_match_none(org_names(organizations@), name@);
    }
    None
}

/// The first organization called `name`.
pub fn organization_by_name<'a>(organizations: &'a Vec<OrganizationItem>, name: &str) -> (r: Option<
    &'a OrganizationItem,
>)
    ensures
        r is None <==> first_match(org_names(organizations@), name@) is None,
        r matches Some(o) ==> first_match(org_names(organizations@), name@) matches Some(i) && *o
            == organizations@[i],
{
    proof {
        lemma_first_match(org_names(organizations@), name@);
    }
    match organization_index(organizations, name) {
        Some(i) => Some(&organizations[i]),
        None => None,
    }
}

/// The first organization named by `name`, if a name is given.
pub open spec fn lenient_match(names: Seq<Seq<char>>, name: Option<Seq<char>>) -> Option<int> {
    match name {
        Some(n) => first_match(names, n),
        None => None,
    }
}

/// Which organization `select_organization` picks, as an index: the command
/// line one (an error, `Err`, when it is not listed), else the environment one,
/// else the config one, each only when listed, else the first one.
pub open spec fn org_choice(
    names: Seq<Seq<char>>,
    cli: Option<Seq<char>>,
    env: Option<Seq<char>>,
    cfg: Option<Seq<char>>,
) -> Result<Option<int>, ()> {
    match cli {
        Some(n) => match first_match(names, n) {
            Some(i) => Ok(Some(i)),
            None => Err(()),
        },
        None => match lenient_match(names, env) {
            Some(i) => Ok(Some(i)),
            None => match lenient_match(names, cfg) {
                Some(i) => Ok(Some(i)),
                None => if names.len() > 0 {
                    Ok(Some(0))
                } else {
                    Ok(None)
                },
            },
        },
    }
}

/// Whether `i` is the first position of an organization called `name`.
pub open spec fn first_listed(orgs: Seq<OrganizationItem>, name: Seq<char>, i: int) -> bool {
    &&& 0 <= i < orgs.len()
    &&& orgs[i].name@ == name
    &&& forall|j: int| 0 <= j < i ==> orgs[j].name@ != name
}

/// Whether no organization is called `name`.
pub open spec fn unlisted(orgs: Seq<OrganizationItem>, name: Option<Seq<char>>) -> bool {
    name matches Some(n) ==> forall|j: int| 0 <= j < orgs.len() ==> orgs[j].name@ != n
}

/// An organization given on the command line is selected when it is listed,
/// and is an error when it is not, whatever the environment and the
/// configuration name.
pub proof fn law_organization_from_command_line(
    orgs: Seq<OrganizationItem>,
    cli: Seq<char>,
    env: Option<Seq<char>>,
    cfg: Option<Seq<char>>,
)
    ensures
        forall|i: int| first_listed(orgs, cli, i) ==> org_choice(org_names(orgs), Some(cli), env, cfg)
            == Ok::<Option<int>, ()>(Some(i)),
        unlisted(orgs, Some(cli)) ==> org_choice(org_names(orgs), Some(cli), env, cfg) is Err,
{
    let names = org_names(orgs);
    assert forall|i: int| first_listed(orgs, cli, i) implies org_choice(names, Some(cli), env, cfg)
        == Ok::<Option<int>, ()>(Some(i)) by {
        lemma_first_match_at(names, cli, i);
    }
    if unlisted(orgs, Some(cli)) {
        lemma_first_match_none(names, cli);
    }
}

/// With no organization on the command line, a listed environment
/// organization is selected, whatever the configuration names.
pub proof fn law_environment_organization_before_config(
    orgs: Seq<OrganizationItem>,
    env: Seq<char>,
    cfg: Option<Seq<char>>,
    i: int,
)
    requires
        first_listed(orgs, env, i),
    ensures
        org_choice(org_names(orgs), None, Some(env), cfg) == Ok::<Option<int>, ()>(Some(i)),
{
    lemma_first_match_at(org_names(orgs), env, i);
}

/// With no organization on the command line and none listed from the
/// environment, a listed configured organization is selected.
pub proof fn law_config_organization_when_environment_unlisted(
    orgs: Seq<OrganizationItem>,
    env: Option<Seq<char>>,
    cfg: Seq<char>,
    i: int,
)
    requires
        unlisted(orgs, env),
        first_listed(orgs, cfg, i),
    ensures
        org_choice(org_names(orgs), None, env, Some(cfg)) == Ok::<Option<int>, ()>(Some(i)),
{
    let names = org_names(orgs);
    if let Some(e) = env {
        lemma_first_match_none(names, e);
    }
    lemma_first_match_at(names, cfg, i);
}

/// With no organization on the command line and neither the environment nor
/// the configuration naming a listed one, the first organization is selected,
/// or none when there is none.
pub proof fn law_first_organization_otherwise(
    orgs: Seq<OrganizationItem>,
    env: Option<Seq<char>>,
    cfg: Option<Seq<char>>,
)
    requires
        unlisted(orgs, env),
        unlisted(orgs, cfg),
    ensures
        orgs.len() > 0 ==> org_choice(org_names(orgs), None, env, cfg) == Ok::<Option<int>, ()>(
            Some(0),
        ),
        orgs.len() == 0 ==> org_choice(org_names(orgs), None, env, cfg) == Ok::<Option<int>, ()>(
            None,
        ),
{
    let names = org_names(orgs);
    if let Some(e) = env {
        lemma_first_match_none(names, e);
    }
    if let Some(c) = cfg {
        lemma_first_match_none(names, c);
    }
}

/// The organization to use as the default after a password login.
pub fn select_organization(
    organizations: &Vec<OrganizationItem>,
    cli_org: Option<&str>,
    env_org: Option<&str>,
    cfg_org: Option<&str>,
) -> (r: Result<Option<OrganizationItem>, AuthError>)
    ensures
        ({
            let choice = org_choice(
                org_names(organizations@),
                opt_view(cli_org),
                opt_view(env_org),
                opt_view(cfg_org),
            );
            &&& r is Err <==> choice is Err
            &&& r matches Err(e) ==> e matches AuthError::OrganizationNotFound { name } && name@
                == cli_org->0@
            &&& r matches Ok(o) ==> choice matches Ok(c) && (c is None <==> o is None) && (
            c matches Some(i) ==> o == Some(organizations@[i]))
        }),
{
    if let Some(name) = cli_org {
        return match organization_by_name(organizations, name) {
            Some(found) => Ok(Some(found.duplicate())),
            None => Err(AuthError::OrganizationNotFound { name: owned(name) }),
        };
    }
    if let Some(name) = env_org {
        if let Some(found) = organization_by_name(organizations, name) {
            return Ok(Some(found.duplicate()));
        }
    }
    if let Some(name) = cfg_org {
        if let Some(found) = organization_by_name(organizations, name) {
            return Ok(Some(found.duplicate()));
        }
    }
    if organizations.len() > 0 {
        Ok(Some(organizations[0].duplicate()))
    } else {
        Ok(None)
    }
}

/// The database to use as the default in the selected organization: the
/// command line one, which must be listed, or else the first listed one.
pub fn select_database(
    database_names: &Vec<String>,
    selected_org: &str,
    cli_database: Option<&str>,
) -> (r: Result<Option<String>, AuthError>)
    ensures
        cli_database matches Some(n) ==> {
            &&& r is Err <==> first_match(views(database_names@), n@) is None
            &&& r matches Err(e) ==> e matches AuthError::DatabaseNotFound { name, organization }
                && name@ == n@ && organization@ == selected_org@
            &&& r matches Ok(d) ==> d matches Some(x) && x@ == n@
        },
        cli_database is None ==> (r matches Ok(d) && (d is None <==> database_names.len() == 0) && (
        d matches Some(x) ==> x == database_names@[0])),
{
    if let Some(name) = cli_database {
        return match position_of(database_names, name) {
            Some(i) => {
                proof {
                    lemma_first_match(views(database_names@), name@);
                }
                Ok(Some(database_names[i].clone()))
            },
            None => Err(
                AuthError::DatabaseNotFound { name: owned(name), organization: owned(selected_org) },
            ),
        };
    }
    if database_names.len() > 0 {
        Ok(Some(database_names[0].clone()))
    } else {
        Ok(None)
    }
}

/// The outcome of choosing among `count` items without an explicit choice:
/// nothing for none, the item for one, and for more a prompt (or, in JSON
/// mode, an error asking for an explicit choice).
pub open spec fn single_or_prompt_ok(
    r: Result<Option<String>, AuthError>,
    label: Seq<char>,
    names: Seq<String>,
    json_mode: bool,
) -> bool {
    &&& names.len() == 0 ==> (r matches Ok(d) && d is None)
    &&& names.len() == 1 ==> (r matches Ok(d) && d == Some(names[0]))
    &&& names.len() >= 2 && json_mode ==> (r matches Err(e) && e matches AuthError::SelectionRequired {
        label: l,
    } && l@ == label)
    &&& names.len() >= 2 && !json_mode ==> (r matches Err(e) && e matches AuthError::PromptNeeded {
        label: l,
    } && l@ == label)
}

/// The only item of a list, nothing for an empty list, and a prompt otherwise.
pub fn select_single_or_prompt(label: &str, names: &Vec<String>, json_mode: bool) -> (r: Result<
    Option<String>,
    AuthError,
>)
    ensures
        single_or_prompt_ok(r, label@, names@, json_mode),
{
    if names.len() == 0 {
        Ok(None)
    } else if names.len() == 1 {
        Ok(Some(names[0].clone()))
    } else if json_mode {
        Err(AuthError::SelectionRequired { label: owned(label) })
    } else {
        Err(AuthError::PromptNeeded { label: owned(label) })
    }
}

/// Whether a selection prompt may be shown: not in JSON mode and only with a
/// terminal on standard input; otherwise an explicit choice is required.
pub fn prompt_for_selection(label: &str, json_mode: bool, stdin_is_terminal: bool) -> (r: Result<
    (),
    AuthError,
>)
    ensures
        r is Ok <==> !json_mode && stdin_is_terminal,
        r matches Err(e) ==> e matches AuthError::SelectionRequired { label: l } && l@ == label@,
{
    if json_mode || !stdin_is_terminal {
        Err(AuthError::SelectionRequired { label: owned(label) })
    } else {
        Ok(())
    }
}

/// The 1-based number typed at a selection prompt, as a 0-based index below `item_count`.
pub open spec fn selection_number_spec(input: Seq<char>, item_count: nat) -> Option<nat> {
    match parse_unsigned_spec(input, usize::MAX as nat) {
        Some(n) => if n == 0 || n > item_count {
            None
        } else {
            Some((n - 1) as nat)
        },
        None => None,
    }
}

/// The 0-based index that a 1-based item number selects.
pub fn parse_selection_number(input: &str, item_count: usize) -> (r: Option<usize>)
    ensures
        r is None <==> selection_number_spec(input@, item_count as nat) is None,
        r matches Some(i) ==> selection_number_spec(input@, item_count as nat) == Some(i as nat),
{
    let selected = match parse_usize(input) {
        Some(n) => n,
        None => return None,
    };
    if selected == 0 || selected > item_count {
        return None;
    }
    Some(selected - 1)
}

/// Typing the 1-based number of an item shown at a selection prompt selects
/// that item: the number `i + 1` of a list of `item_count` items gives index `i`.
pub proof fn law_selection_number_roundtrip(index: nat, item_count: nat)
    requires
        index < item_count <= usize::MAX,
    ensures
        selection_number_spec(decimal(index + 1), item_count) == Some(index),
{
    lemma_decimal_digits(index + 1);
}

/// What an answer typed at a selection prompt means.
#[derive(Debug)]
pub enum SelectionAnswer {
    /// Nothing was typed; ask again.
    Empty,
    /// The answer names this item, by number or by name.
    Chosen(String),
    /// The answer matches no item; ask again.
    NotFound,
}

/// Interprets a (trimmed) answer to a selection prompt: an item number first,
/// then an exact item name.
pub fn selection_from_input(input: &str, names: &Vec<String>) -> (r: SelectionAnswer)
    ensures
        input@.len() == 0 ==> r is Empty,
        input@.len() > 0 ==> match selection_number_spec(input@, names.len() as nat) {
            Some(i) => r matches SelectionAnswer::Chosen(x) && x == names@[i as int],
            None => match first_match(views(names@), input@) {
                Some(i) => r matches SelectionAnswer::Chosen(x) && x == names@[i],
                None => r is NotFound,
            },
        },
{
    if input.is_empty() {
        return SelectionAnswer::Empty;
    }
    if let Some(index) = parse_selection_number(input, names.len()) {
        return SelectionAnswer::Chosen(names[index].clone());
    }
    match position_of(names, input) {
        Some(i) => {
            proof {
                lemma_first_match(views(names@), input@);
            }
            SelectionAnswer::Chosen(names[i].clone())
        },
        None => SelectionAnswer::NotFound,
    }
}

/// The names of the organizations, in order.
fn organization_names(organizations: &Vec<OrganizationItem>) -> (r: Vec<String>)
    ensures
        r.len() == organizations.len(),
        forall|i: int| 0 <= i < r.len() ==> #[trigger] r@[i] == organizations@[i].name,
{
    let mut r: Vec<String> = Vec::new();
    let mut i: usize = 0;
    while i < organizations.len()
        invariant
            i <= organizations.len(),
            r.len() == i,
            forall|k: int| 0 <= k < i ==> #[trigger] r@[k] == organizations@[k].name,
        decreases organizations.len() - i,
    {
        r.push(organizations[i].name.clone());
        i = i + 1;
    }
    r
}

/// The organization to use when none was named: the only one, none for no
/// organizations, and a prompt otherwise.
pub fn prompt_for_organization(organizations: &Vec<OrganizationItem>, json_mode: bool) -> (r: Result<
    Option<OrganizationItem>,
    AuthError,
>)
    ensures
        organizations.len() == 0 ==> (r matches Ok(o) && o is None),
        organizations.len() == 1 ==> (r matches Ok(o) && o == Some(organizations@[0])),
        organizations.len() >= 2 && json_mode ==> (r matches Err(e) && e matches AuthError::SelectionRequired {
            label: l,
        } && l@ == "organization"@),
        organizations.len() >= 2 && !json_mode ==> (r matches Err(e) && e matches AuthError::PromptNeeded {
            label: l,
        } && l@ == "organization"@),
{
    let names = organization_names(organizations);
    let selected_name = select_single_or_prompt("organization", &names, json_mode)?;
    match selected_name {
        Some(name) => {
            let found = organization_by_name(organizations, name.as_str());
            proof {
                lemma_first_match(org_names(organizations@), name@);
                if organizations.len() == 1 {
                    assert(org_names(organizations@)[0] == name@);
                    lemma_first_match_at(org_names(organizations@), name@, 0);
                }
            }
            match found {
                Some(o) => Ok(Some(o.duplicate())),
                None => Ok(None),
            }
        },
        None => Ok(None),
    }
}

/// The organization chosen for a browser login: the command line one, which
/// must be listed, or the only one, or one chosen at a prompt.
pub fn select_or_prompt_organization(
    organizations: &Vec<OrganizationItem>,
    cli_org: Option<&str>,
    json_mode: bool,
) -> (r: Result<Option<OrganizationItem>, AuthError>)
    ensures
        cli_org matches Some(n) ==> match first_match(org_names(organizations@), n@) {
            Some(i) => r matches Ok(o) && o == Some(organizations@[i]),
            None => r matches Err(e) && e matches AuthError::OrganizationNotFound { name } && name@
                == n@,
        },
        cli_org is None ==> {
            &&& organizations.len() == 0 ==> (r matches Ok(o) && o is None)
            &&& organizations.len() == 1 ==> (r matches Ok(o) && o == Some(organizations@[0]))
            &&& organizations.len() >= 2 && json_mode ==> (r matches Err(e)
                && e matches AuthError::SelectionRequired { label: l } && l@ == "organization"@)
            &&& organizations.len() >= 2 && !json_mode ==> (r matches Err(e)
                && e matches AuthError::PromptNeeded { label: l } && l@ == "organization"@)
        },
{
    if cli_org.is_some() {
        return select_organization(organizations, cli_org, None, None);
    }
    prompt_for_organization(organizations, json_mode)
}

/// The database chosen for a browser login: the command line one, which must
/// be listed, or the only one, or one chosen at a prompt.
pub fn select_or_prompt_database(
    database_names: &Vec<String>,
    selected_org: &str,
    cli_database: Option<&str>,
    json_mode: bool,
) -> (r: Result<Option<String>, AuthError>)
    ensures
        cli_database matches Some(n) ==> {
            &&& r is Err <==> first_match(views(database_names@), n@) is None
            &&& r matches Err(e) ==> e matches AuthError::DatabaseNotFound { name, organization }
                && name@ == n@ && organization@ == selected_org@
            &&& r matches Ok(d) ==> d matches Some(x) && x@ == n@
        },
        cli_database is None ==> single_or_prompt_ok(r, "database"@, database_names@, json_mode),
{
    if cli_database.is_some() {
        return select_database(database_names, selected_org, cli_database);
    }
    select_single_or_prompt("database", database_names, json_mode)
}

/// The default database after a password login, given the outcome of listing
/// the organization's databases. A failed listing is an error only when a
/// database was named explicitly.
pub fn resolve_selected_database(
    database_names_result: Result<Vec<String>, String>,
    selected_org: &str,
    cli_database: Option<&str>,
) -> (r: Result<Option<String>, AuthError>)
    ensures
        database_names_result matches Err(cause) ==> (cli_database is None ==> (r matches Ok(d)
            && d is None)) && (cli_database is Some ==> (r matches Err(e)
            && e matches AuthError::ListDatabasesFailed { organization, cause: c } && organization@
            == selected_org@ && c == cause)),
        database_names_result matches Ok(names) ==> (cli_database matches Some(n) ==> {
            &&& r is Err <==> first_match(views(names@), n@) is None
            &&& r matches Err(e) ==> e matches AuthError::DatabaseNotFound { name, organization }
                && name@ == n@ && organization@ == selected_org@
            &&& r matches Ok(d) ==> d matches Some(x) && x@ == n@
        }) && (cli_database is None ==> (r matches Ok(d) && (d is None <==> names.len() == 0) && (
        d matches Some(x) ==> x == names@[0]))),
{
    match database_names_result {
        Ok(database_names) => select_database(&database_names, selected_org, cli_database),
        Err(cause) => {
            if cli_database.is_some() {
                Err(AuthError::ListDatabasesFailed { organization: owned(selected_org), cause })
            } else {
                Ok(None)
            }
        },
    }
}

/// The default database after a browser login, given the outcome of listing
/// the organization's databases.
pub fn resolve_selected_browser_database(
    database_names_result: Result<Vec<String>, String>,
    selected_org: &str,
    cli_database: Option<&str>,
    json_mode: bool,
) -> (r: Result<Option<String>, AuthError>)
    ensures
        database_names_result matches Err(cause) ==> (cli_database is None ==> (r matches Ok(d)
            && d is None)) && (cli_database is Some ==> (r matches Err(e)
            && e matches AuthError::ListDatabasesFailed { organization, cause: c } && organization@
            == selected_org@ && c == cause)),
        database_names_result matches Ok(names) ==> (cli_database matches Some(n) ==> {
            &&& r is Err <==> first_match(views(names@), n@) is None
            &&& r matches Err(e) ==> e matches AuthError::DatabaseNotFound { name, organization }
                && name@ == n@ && organization@ == selected_org@
            &&& r matches Ok(d) ==> d matches Some(x) && x@ == n@
        }) && (cli_database is None ==> single_or_prompt_ok(r, "database"@, names@, json_mode)),
{
    match database_names_result {
        Ok(database_names) => select_or_prompt_database(
            &database_names,
            selected_org,
            cli_database,
            json_mode,
        ),
        Err(cause) => {
            if cli_database.is_some() {
                Err(AuthError::ListDatabasesFailed { organization: owned(selected_org), cause })
            } else {
                Ok(None)
            }
        },
    }
}

/// The next step of choosing defaults at login, once the organizations are known.
#[derive(Debug)]
pub enum OrgStep {
    /// The selection is complete (no organization could be chosen).
    Finished(AuthSelection),
    /// The databases of this organization must be listed next.
    ListDatabases(String),
}

/// Whether a step ends with an empty selection.
pub open spec fn finished_empty(r: Result<OrgStep, AuthError>) -> bool {
    r matches Ok(OrgStep::Finished(sel)) && sel.organization is None && sel.database is None
}

/// The outcome when no organization is available: an error naming the
/// requested cluster or database, or an empty selection.
pub open spec fn no_org_ok(
    r: Result<OrgStep, AuthError>,
    cli_cluster: Option<&str>,
    cli_database: Option<&str>,
) -> bool {
    match (cli_cluster, cli_database) {
        (Some(c), _) => r matches Err(e) && e matches AuthError::NoOrganizationForCluster {
            cluster,
        } && cluster@ == c@,
        (None, Some(d)) => r matches Err(e) && e matches AuthError::NoOrganizationForDatabase {
            database,
        } && database@ == d@,
        (None, None) => finished_empty(r),
    }
}

/// The step when no organization was chosen.
fn no_organization_step(cli_cluster: Option<&str>, cli_database: Option<&str>) -> (r: Result<
    OrgStep,
    AuthError,
>)
    ensures
        no_org_ok(r, cli_cluster, cli_database),
{
    if let Some(cluster_name) = cli_cluster {
        return Err(AuthError::NoOrganizationForCluster { cluster: owned(cluster_name) });
    }
    if let Some(database_name) = cli_database {
        return Err(AuthError::NoOrganizationForDatabase { database: owned(database_name) });
    }
    Ok(OrgStep::Finished(AuthSelection::default()))
}

/// The outcome when listing the organizations failed: an error when anything
/// was requested explicitly, otherwise an empty selection.
pub open spec fn list_failed_ok(
    r: Result<OrgStep, AuthError>,
    cause: String,
    explicit: bool,
) -> bool {
    &&& explicit ==> (r matches Err(e) && e matches AuthError::ListOrganizationsFailed { cause: c }
        && c == cause)
    &&& !explicit ==> finished_empty(r)
}

/// First step of choosing defaults after a password login, from the outcome of
/// listing the user's organizations: pick the organization (command line, then
/// environment, then config, then the first one) and ask for its databases.
pub fn resolve_auth_selection(
    organizations: Result<Vec<OrganizationItem>, String>,
    cli_org: Option<&str>,
    cli_cluster: Option<&str>,
    cli_database: Option<&str>,
    env_org: Option<&str>,
    cfg_org: Option<&str>,
) -> (r: Result<OrgStep, AuthError>)
    ensures
        organizations matches Err(cause) ==> list_failed_ok(
            r,
            cause,
            cli_org is Some || cli_cluster is Some || cli_database is Some,
        ),
        organizations matches Ok(orgs) ==> match org_choice(
            org_names(orgs@),
            opt_view(cli_org),
            opt_view(env_org),
            opt_view(cfg_org),
        ) {
            Err(_) => r matches Err(e) && e matches AuthError::OrganizationNotFound { name } && name@
                == cli_org->0@,
            Ok(None) => no_org_ok(r, cli_cluster, cli_database),
            Ok(Some(i)) => r matches Ok(OrgStep::ListDatabases(n)) && n == orgs@[i].name,
        },
{
    let organizations = match organizations {
        Ok(items) => items,
        Err(cause) => {
            if cli_org.is_some() || cli_cluster.is_some() || cli_database.is_some() {
                return Err(AuthError::ListOrganizationsFailed { cause });
            }
            return Ok(OrgStep::Finished(AuthSelection::default()));
        },
    };
    let selected_org = select_organization(&organizations, cli_org, env_org, cfg_org)?;
    match selected_org {
        Some(item) => Ok(OrgStep::ListDatabases(item.name)),
        None => no_organization_step(cli_cluster, cli_database),
    }
}

/// First step of choosing defaults after a browser login: the command line
/// organization, or the only one, or one chosen at a prompt.
pub fn resolve_browser_auth_selection(
    organizations: Result<Vec<OrganizationItem>, String>,
    cli_org: Option<&str>,
    cli_cluster: Option<&str>,
    cli_database: Option<&str>,
    json_mode: bool,
) -> (r: Result<OrgStep, AuthError>)
    ensures
        organizations matches Err(cause) ==> list_failed_ok(
            r,
            cause,
            cli_org is Some || cli_cluster is Some || cli_database is Some,
        ),
        organizations matches Ok(orgs) ==> (cli_org matches Some(n) ==> match first_match(
            org_names(orgs@),
            n@,
        ) {
            Some(i) => r matches Ok(OrgStep::ListDatabases(x)) && x == orgs@[i].name,
            None => r matches Err(e) && e matches AuthError::OrganizationNotFound { name } && name@
                == n@,
        }),
        organizations matches Ok(orgs) ==> (cli_org is None ==> {
            &&& orgs.len() == 0 ==> no_org_ok(r, cli_cluster, cli_database)
            &&& orgs.len() == 1 ==> (r matches Ok(OrgStep::ListDatabases(x)) && x == orgs@[0].name)
            &&& orgs.len() >= 2 && json_mode ==> (r matches Err(e)
                && e matches AuthError::SelectionRequired { label: l } && l@ == "organization"@)
            &&& orgs.len() >= 2 && !json_mode ==> (r matches Err(e)
                && e matches AuthError::PromptNeeded { label: l } && l@ == "organization"@)
        }),
{
    let organizations = match organizations {
        Ok(items) => items,
        Err(cause) => {
            if cli_org.is_some() || cli_cluster.is_some() || cli_database.is_some() {
                return Err(AuthError::ListOrganizationsFailed { cause });
            }
            return Ok(OrgStep::Finished(AuthSelection::default()));
        },
    };
    let selected_org = select_or_prompt_organization(&organizations, cli_org, json_mode)?;
    match selected_org {
        Some(item) => Ok(OrgStep::ListDatabases(item.name)),
        None => no_organization_step(cli_cluster, cli_database),
    }
}

/// Last step of choosing defaults after a password login: the organization
/// and the database resolved from the organization's listing.
pub fn complete_auth_selection(
    organization: String,
    database_names_result: Result<Vec<String>, String>,
    cli_database: Option<&str>,
) -> (r: Result<AuthSelection, AuthError>)
    ensures
        r matches Ok(sel) ==> sel.organization == Some(organization),
        database_names_result matches Err(_) ==> (r is Ok <==> cli_database is None),
        database_names_result matches Err(_) && cli_database is None ==> (r matches Ok(sel)
            && sel.database is None),
        database_names_result matches Ok(names) ==> (cli_database matches Some(n) ==> ((r is Ok
            <==> first_match(views(names@), n@) is Some) && (r matches Ok(sel) ==> (
        sel.database matches Some(x) && x@ == n@)))),
        database_names_result matches Ok(names) ==> (cli_database is None ==> (r matches Ok(sel) && (
        names.len() == 0 ==> sel.database is None) && (names.len() > 0 ==> sel.database == Some(
            names@[0],
        )))),
{
    let database = resolve_selected_database(
        database_names_result,
        organization.as_str(),
        cli_database,
    )?;
    Ok(AuthSelection { organization: Some(organization), database })
}

/// Last step of choosing defaults after a browser login.
pub fn complete_browser_auth_selection(
    organization: String,
    database_names_result: Result<Vec<String>, String>,
    cli_database: Option<&str>,
    json_mode: bool,
) -> (r: Result<AuthSelection, AuthError>)
    ensures
        r matches Ok(sel) ==> sel.organization == Some(organization),
        database_names_result matches Err(_) ==> (r is Ok <==> cli_database is None),
        database_names_result matches Err(_) && cli_database is None ==> (r matches Ok(sel)
            && sel.database is None),
        database_names_result matches Ok(names) ==> (cli_database matches Some(n) ==> ((r is Ok
            <==> first_match(views(names@), n@) is Some) && (r matches Ok(sel) ==> (
        sel.database matches Some(x) && x@ == n@)))),
        database_names_result matches Ok(names) ==> (cli_database is None ==> (
            (names.len() <= 1 <==> r is Ok) && (names.len() == 0 ==> (r matches Ok(sel)
            && sel.database is None)) && (names.len() == 1 ==> (r matches Ok(sel) && sel.database
            == Some(names@[0]))))),
{
    let database = resolve_selected_browser_database(
        database_names_result,
        organization.as_str(),
        cli_database,
        json_mode,
    )?;
    Ok(AuthSelection { organization: Some(organization), database })
}

/// The defaults an API key is bound to, checked against what the command line
/// asked for.
pub fn auth_selection_from_database_context(
    context: DatabaseContextResponse,
    cli_org: Option<&str>,
    cli_database: Option<&str>,
) -> (r: Result<AuthSelection, AuthError>)
    ensures
        context.organization is None ==> (r matches Err(e) && e is ContextMissingOrganization),
        context.organization is Some && context.database is None ==> (r matches Err(e)
            && e is ContextMissingDatabase),
        context.organization matches Some(o) ==> (context.database matches Some(d) ==> {
            let org_conflict = cli_org matches Some(q) && q@ != o.name@;
            let db_conflict = cli_database matches Some(q) && q@ != d.name@;
            &&& org_conflict ==> (r matches Err(e) && e matches AuthError::KeyOrganizationMismatch {
                actual,
                requested,
            } && actual == o.name && requested@ == cli_org->0@)
            &&& !org_conflict && db_conflict ==> (r matches Err(e)
                && e matches AuthError::KeyDatabaseMismatch { actual, requested } && actual
                == d.name && requested@ == cli_database->0@)
            &&& !org_conflict && !db_conflict ==> (r matches Ok(sel) && sel.organization == Some(
                o.name,
            ) && sel.database == Some(d.name))
        }),
{
    let organization = match context.organization {
        Some(o) => o.name,
        None => return Err(AuthError::ContextMissingOrganization),
    };
    let database = match context.database {
        Some(d) => d.name,
        None => return Err(AuthError::ContextMissingDatabase),
    };
    if let Some(requested_org) = cli_org {
        if !str_eq(requested_org, organization.as_str()) {
            return Err(
                AuthError::KeyOrganizationMismatch {
                    actual: organization,
                    requested: owned(requested_org),
                },
            );
        }
    }
    if let Some(requested_database) = cli_database {
        if !str_eq(requested_database, database.as_str()) {
            return Err(
                AuthError::KeyDatabaseMismatch {
                    actual: database,
                    requested: owned(requested_database),
                },
            );
        }
    }
    Ok(AuthSelection { organization: Some(organization), database: Some(database) })
}

/// Where learning an API key's database context stands after probing the
/// keys path.
#[derive(Debug)]
pub enum ApiKeyContextStep {
    /// The keys path answered with the context.
    Resolved(DatabaseContextResponse),
    /// The keys path failed with this error; the tables path is probed next.
    ProbeTables { keys_error: String },
}

/// The first step of learning an API key's context: the keys path's answer
/// is the context; when it failed, the tables path is probed next.
pub fn api_key_context_after_keys(keys: Result<DatabaseContextResponse, String>) -> (r:
    ApiKeyContextStep)
    ensures
        keys matches Ok(c) ==> r matches ApiKeyContextStep::Resolved(x) && x == c,
        keys matches Err(e) ==> r matches ApiKeyContextStep::ProbeTables { keys_error }
            && keys_error == e,
{
    match keys {
        Ok(c) => ApiKeyContextStep::Resolved(c),
        Err(e) => ApiKeyContextStep::ProbeTables { keys_error: e },
    }
}

/// The last step, after the keys path failed: the tables path's answer is the
/// context; when it failed too, the error names both failures.
pub fn api_key_context_after_tables(
    keys_error: String,
    tables: Result<DatabaseContextResponse, String>,
) -> (r: Result<DatabaseContextResponse, AuthError>)
    ensures
        tables matches Ok(c) ==> r matches Ok(x) && x == c,
        tables matches Err(te) ==> r matches Err(AuthError::ApiKeyContextFailed {
            keys_error: k,
            tables_error: t,
        }) && k == keys_error && t == te,
{
    match tables {
        Ok(c) => Ok(c),
        Err(te) => Err(AuthError::ApiKeyContextFailed { keys_error, tables_error: te }),
    }
}

/// The two paths probed to learn an API key's database: its keys, then its
/// tables, each scoped to what the command line named and nothing else.
pub fn api_key_context_paths(
    cli_org: Option<&str>,
    cli_cluster: Option<&str>,
    cli_database: Option<&str>,
) -> (r: (String, String))
    ensures
        cli_database matches Some(d) ==> r.0@ == database_scoped_path_spec(
            d@,
            "/keys"@,
            opt_view(cli_org),
            opt_view(cli_cluster),
        ) && r.1@ == database_scoped_path_spec(
            d@,
            "/tables"@,
            opt_view(cli_org),
            opt_view(cli_cluster),
        ),
        cli_database is None ==> r.0@ == scoped_path_spec(
            "/v1/keys"@,
            opt_view(cli_org),
            opt_view(cli_cluster),
        ) && r.1@ == scoped_path_spec("/v1/tables"@, opt_view(cli_org), opt_view(cli_cluster)),
{
    match cli_database {
        Some(database) => (
            database_scoped_path(database, "/keys", cli_org, cli_cluster),
            database_scoped_path(database, "/tables", cli_org, cli_cluster),
        ),
        None => (
            scoped_path("/v1/keys", cli_org, cli_cluster),
            scoped_path("/v1/tables", cli_org, cli_cluster),
        ),
    }
}

/// Checks the shape of an API key before it is used: present, without
/// whitespace, and starting with `rt_`.
pub fn validate_api_key(api_key: &str) -> (r: Result<(), CodedError>)
    ensures
        api_key@.len() == 0 ==> (r matches Err(e) && e.code@ == "missing_api_key"@ && e.message@
            == "API key is required. Pass --api-key or provide it interactively."@ && e.exit_code
            == 1),
        api_key@.len() > 0 && (exists|i: int| 0 <= i < api_key@.len() && is_ws(api_key@[i])) ==> (
        r matches Err(e) && e.code@ == "invalid_api_key_format"@ && e.message@
            == "Invalid API key format. API key must not contain whitespace."@ && e.exit_code == 1),
        api_key@.len() > 0 && !(exists|i: int| 0 <= i < api_key@.len() && is_ws(api_key@[i])) ==> (
        r is Ok <==> (3 <= api_key@.len() && api_key@.take(3) == "rt_"@)),
        api_key@.len() > 0 && !(exists|i: int| 0 <= i < api_key@.len() && is_ws(api_key@[i])) && !(
        3 <= api_key@.len() && api_key@.take(3) == "rt_"@) ==> (r matches Err(e) && e.code@
            == "invalid_api_key_format"@ && e.message@
            == "Invalid API key format. Expected an API key starting with 'rt_'."@),
        r matches Err(e) ==> e.exit_code == 1,
{
    if api_key.is_empty() {
        return Err(
            coded_error(
                "missing_api_key",
                owned("API key is required. Pass --api-key or provide it interactively."),
                1,
            ),
        );
    }
    let v = chars_of(api_key);
    let mut i: usize = 0;
    while i < v.len()
        invariant
            i <= v.len(),
            v@ == api_key@,
            forall|k: int| 0 <= k < i ==> !is_ws(#[trigger] v@[k]),
        decreases v.len() - i,
    {
        if char_is_ws(v[i]) {
            return Err(
                coded_error(
                    "invalid_api_key_format",
                    owned("Invalid API key format. API key must not contain whitespace."),
                    1,
                ),
            );
        }
        i = i + 1;
    }
    proof {
        reveal_strlit("rt_");
    }
    if !starts_with(api_key, "rt_") {
        return Err(
            coded_error(
                "invalid_api_key_format",
                owned("Invalid API key format. Expected an API key starting with 'rt_'."),
                1,
            ),
        );
    }
    Ok(())
}

/// Records a saved API key in the configuration: the key as token, no email,
/// the key's organization and database as defaults, and the API URL when a
/// non-default endpoint is used and none is saved yet.
pub fn apply_api_key_config(
    cfg: &mut Config,
    api_key: &str,
    base_url: &str,
    selection: &AuthSelection,
)
    ensures
        final(cfg).token matches Some(t) && t@ == api_key@,
        final(cfg).email is None,
        final(cfg).default_organization == selection.organization,
        final(cfg).default_database == selection.database,
        final(cfg).default_cluster == old(cfg).default_cluster,
        old(cfg).url is None && base_url@ != DEFAULT_API_URL@ ==> (final(cfg).url matches Some(u)
            && u@ == base_url@),
        !(old(cfg).url is None && base_url@ != DEFAULT_API_URL@) ==> final(cfg).url == old(cfg).url,
{
    cfg.token = Some(owned(api_key));
    cfg.email = None;
    cfg.default_organization = clone_opt(&selection.organization);
    cfg.default_database = clone_opt(&selection.database);
    if cfg.url.is_none() && !str_eq(base_url, DEFAULT_API_URL) {
        cfg.url = Some(owned(base_url));
    }
}

/// Forgets everything saved locally: logout resets the configuration to defaults.
pub fn clear_auth_config(cfg: &mut Config)
    ensures
        final(cfg).is_empty(),
{
    *cfg = Config::default();
}

/// How long a device login waits: the requested time capped by the code's
/// expiry, or the expiry when no time was requested.
pub fn effective_timeout_seconds(requested_timeout_seconds: u64, expires_in: u64) -> (r: u64)
    ensures
        requested_timeout_seconds == 0 ==> r == expires_in,
        requested_timeout_seconds > 0 ==> r == if requested_timeout_seconds < expires_in {
            requested_timeout_seconds
        } else {
            expires_in
        },
{
    if requested_timeout_seconds == 0 {
        return expires_in;
    }
    if requested_timeout_seconds < expires_in {
        requested_timeout_seconds
    } else {
        expires_in
    }
}

/// The pause between device token polls: the server's interval, at least one second.
pub fn poll_interval_seconds(interval: u64) -> (r: u64)
    ensures
        r == if interval < 1 {
            1
        } else {
            interval
        },
{
    if interval < 1 {
        1
    } else {
        interval
    }
}

/// The text of a failed API response: the server's message and hint when the
/// body is an API error, else the raw body.
pub open spec fn api_error_text(status: u16, parsed: Option<ApiErrorResponse>, body: Seq<char>) -> Seq<
    char,
> {
    let head = "Server error ("@ + decimal(status as nat) + "): "@;
    match parsed {
        Some(p) => match p.hint {
            Some(h) => if h@.len() > 0 {
                head + p.message@ + "\nHint: "@ + h@
            } else {
                head + p.message@
            },
            None => head + p.message@,
        },
        None => head + body,
    }
}

/// The error for a failed API response.
pub fn format_api_error(status: u16, parsed: Option<ApiErrorResponse>, body: &str) -> (r: AuthError)
    ensures
        r matches AuthError::Server { message } && message@ == api_error_text(status, parsed, body@),
{
    let mut m = owned("Server error (");
    push_decimal(&mut m, status as u64);
    push_str(&mut m, "): ");
    match parsed {
        Some(p) => {
            push_str(&mut m, p.message.as_str());
            if let Some(h) = p.hint {
                if !h.as_str().is_empty() {
                    push_str(&mut m, "\nHint: ");
                    push_str(&mut m, h.as_str());
                }
            }
        },
        None => {
            push_str(&mut m, body);
        },
    }
    AuthError::Server { message: m }
}

/// The state of a device login after one poll of the token endpoint.
#[derive(Debug, PartialEq, Eq, Structural)]
pub enum DevicePoll {
    /// The login was approved; the body holds the token.
    Approved,
    /// The user has not approved yet.
    Pending,
    /// The poll failed.
    Failed,
}

/// Classifies a token poll response by its status and the `error` field of
/// its body: any 2xx is approval; 428 or `authorization_pending` means wait.
pub fn device_token_poll(status_code: u16, error_code: Option<&str>) -> (r: DevicePoll)
    ensures
        200 <= status_code <= 299 ==> r == DevicePoll::Approved,
        !(200 <= status_code <= 299) ==> r == if status_code == 428 || (error_code matches Some(
            e,
        ) && e@ == "authorization_pending"@) {
            DevicePoll::Pending
        } else {
            DevicePoll::Failed
        },
{
    if 200 <= status_code && status_code <= 299 {
        return DevicePoll::Approved;
    }
    if status_code == 428 {
        return DevicePoll::Pending;
    }
    if let Some(e) = error_code {
        if str_eq(e, "authorization_pending") {
            return DevicePoll::Pending;
        }
    }
    DevicePoll::Failed
}

/// What a device login does after one poll.
#[derive(Debug, PartialEq, Eq, Structural)]
pub enum DeviceStep {
    /// Save the token: the login was approved.
    Approved,
    /// Sleep for the poll interval, then poll again.
    Wait,
    /// Give up: the deadline has passed while approval is still pending.
    TimedOut,
    /// Report the failed poll.
    Failed,
}

/// The next step of a device login, from the outcome of a poll and the time
/// elapsed since the login started against the deadline (both in
/// milliseconds): a pending approval waits until the deadline, then times out.
pub fn device_poll_step(poll: DevicePoll, elapsed_ms: u64, deadline_ms: u64) -> (r: DeviceStep)
    ensures
        r == match poll {
            DevicePoll::Approved => DeviceStep::Approved,
            DevicePoll::Failed => DeviceStep::Failed,
            DevicePoll::Pending => if elapsed_ms >= deadline_ms {
                DeviceStep::TimedOut
            } else {
                DeviceStep::Wait
            },
        },
{
    match poll {
        DevicePoll::Approved => DeviceStep::Approved,
        DevicePoll::Failed => DeviceStep::Failed,
        DevicePoll::Pending => if elapsed_ms >= deadline_ms {
            DeviceStep::TimedOut
        } else {
            DeviceStep::Wait
        },
    }
}

/// What is printed after a login about the chosen defaults: one line for the
/// organization and one for the database, and a warning when no database was chosen.
pub fn selected_context_lines(selection: &AuthSelection) -> (r: (Vec<String>, Option<String>))
    ensures
        r.0@.len() == 2,
        r.0@[0]@ == "Selected organization: "@ + (match selection.organization {
            Some(o) => o@,
            None => "none"@,
        }),
        r.0@[1]@ == "Selected database: "@ + (match selection.database {
            Some(d) => d@,
            None => "none"@,
        }),
        selection.database is Some <==> r.1 is None,
        r.1 matches Some(w) ==> w@
            == "Warning: No default database selected. Create one with `rtree database create <name>`."@,
{
    let mut org_line = owned("Selected organization: ");
    match &selection.organization {
        Some(o) => push_str(&mut org_line, o.as_str()),
        None => push_str(&mut org_line, "none"),
    }
    let mut db_line = owned("Selected database: ");
    let warning = match &selection.database {
        Some(d) => {
            push_str(&mut db_line, d.as_str());
            None
        },
        None => {
            push_str(&mut db_line, "none");
            Some(
                owned(
                    "Warning: No default database selected. Create one with `rtree database create <name>`.",
                ),
            )
        },
    };
    let mut lines: Vec<String> = Vec::new();
    lines.push(org_line);
    lines.push(db_line);
    (lines, warning)
}

} // verus!
