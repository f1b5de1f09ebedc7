//! Links into the RawTree web interface.
use vstd::prelude::*;

use crate::config::Config;
use crate::text::{
    opt_string_view, opt_view, owned, push_str, trim_end_char, trim_end_char_spec, views,
};
use crate::urlenc::{url_encode, url_encoded};

verus! {

/// The web interface used when `RAWTREE_UI_URL` is not set.
pub const DEFAULT_UI_BASE_URL: &'static str = "https://rawtree.com";

/// The web interface base URL: `RAWTREE_UI_URL` when set, else the default.
pub fn resolve_ui_base_url(env_ui_url: Option<String>) -> (r: String)
    ensures
        env_ui_url matches Some(u) ==> r == u,
        env_ui_url is None ==> r@ == DEFAULT_UI_BASE_URL@,
{
    match env_ui_url {
        Some(u) => u,
        None => owned(DEFAULT_UI_BASE_URL),
    }
}

/// The page of a cluster (and database) in the web interface; the base URL
/// alone unless both an organization and a cluster are known.
pub open spec fn open_url_spec(
    base_url: Seq<char>,
    organization: Option<Seq<char>>,
    cluster: Option<Seq<char>>,
    database: Option<Seq<char>>,
) -> Seq<char> {
    let base = trim_end_char_spec(base_url, '/');
    match (organization, cluster, database) {
        (Some(o), Some(c), Some(d)) => base + "/"@ + url_encoded(o) + "/"@ + url_encoded(c)
            + "?database="@ + url_encoded(d),
        (Some(o), Some(c), None) => base + "/"@ + url_encoded(o) + "/"@ + url_encoded(c),
        _ => base,
    }
}

/// The web interface URL for an organization, cluster and database.
pub fn build_open_url(
    base_url: &str,
    organization: Option<&str>,
    cluster: Option<&str>,
    database: Option<&str>,
) -> (r: String)
    ensures
        r@ == open_url_spec(base_url@, opt_view(organization), opt_view(cluster), opt_view(database)),
{
    let mut url = trim_end_char(base_url, '/');
    match (organization, cluster) {
        (Some(org), Some(cluster_name)) => {
            push_str(&mut url, "/");
            let e1 = url_encode(org);
            push_str(&mut url, e1.as_str());
            push_str(&mut url, "/");
            let e2 = url_encode(cluster_name);
            push_str(&mut url, e2.as_str());
            if let Some(database_name) = database {
                push_str(&mut url, "?database=");
                let e3 = url_encode(database_name);
                push_str(&mut url, e3.as_str());
            }
        },
        _ => {},
    }
    url
}

/// The page `open` shows in the browser.
pub fn open(
    base_url: &str,
    organization: Option<&str>,
    cluster: Option<&str>,
    database: Option<&str>,
) -> (r: String)
    ensures
        r@ == open_url_spec(base_url@, opt_view(organization), opt_view(cluster), opt_view(database)),
{
    build_open_url(base_url, organization, cluster, database)
}

/// The sign-in page of the web interface.
pub fn build_login_url(base_url: &str) -> (r: String)
    ensures
        r@ == trim_end_char_spec(base_url@, '/') + "/login"@,
{
    let mut url = trim_end_char(base_url, '/');
    push_str(&mut url, "/login");
    url
}

/// The dashboard link of `status`: the workspace page when signed in, the
/// sign-in page otherwise.
pub fn resolve_dashboard_url(
    base_url: &str,
    authenticated: bool,
    organization: Option<&str>,
    cluster: Option<&str>,
    database: Option<&str>,
) -> (r: Option<String>)
    ensures
        authenticated ==> (r matches Some(u) && u@ == open_url_spec(
            base_url@,
            opt_view(organization),
            opt_view(cluster),
            opt_view(database),
        )),
        !authenticated ==> (r matches Some(u) && u@ == trim_end_char_spec(base_url@, '/')
            + "/login"@),
{
    if authenticated {
        return Some(build_open_url(base_url, organization, cluster, database));
    }
    Some(build_login_url(base_url))
}

/// A setting as `status` shows it: its value, or `-` when unset.
pub open spec fn or_dash(o: Option<Seq<char>>) -> Seq<char> {
    match o {
        Some(v) => v,
        None => "-"@,
    }
}

/// The lines printed by `status`.
pub open spec fn status_lines_spec(
    api_url: Seq<char>,
    cfg: Config,
    dashboard_url: Option<Seq<char>>,
) -> Seq<Seq<char>> {
    seq![
        "API URL: "@ + api_url,
        "Authenticated: "@ + (if cfg.token is Some {
            "true"@
        } else {
            "false"@
        }),
        "User: "@ + or_dash(opt_string_view(cfg.email)),
        "Database: "@ + or_dash(opt_string_view(cfg.default_database)),
        "Organization: "@ + or_dash(opt_string_view(cfg.default_organization)),
        "Cluster: "@ + or_dash(opt_string_view(cfg.default_cluster)),
        "Dashboard URL: "@ + or_dash(dashboard_url),
    ]
}

/// `status` shows the configured default database on its Database line (the
/// fourth) and the configured default organization on its Organization line
/// (the fifth), each after its label, and `-` for one that is not set.
pub proof fn law_status_shows_defaults(api_url: Seq<char>, cfg: Config, dashboard_url: Option<Seq<char>>)
    ensures
        ({
            let lines = status_lines_spec(api_url, cfg, dashboard_url);
            &&& lines.len() == 7
            &&& lines[3] == "Database: "@ + (match cfg.default_database {
                Some(d) => d@,
                None => "-"@,
            })
            &&& lines[4] == "Organization: "@ + (match cfg.default_organization {
                Some(o) => o@,
                None => "-"@,
            })
        }),
{
}

fn labelled_setting(label: &str, value: &Option<String>) -> (r: String)
    ensures
        r@ == label@ + or_dash(opt_string_view(*value)),
{
    let mut s = owned(label);
    match value {
        Some(v) => push_str(&mut s, v.as_str()),
        None => push_str(&mut s, "-"),
    }
    s
}

/// The lines `status` prints for the configuration, the API URL in use and
/// the dashboard link.
pub fn status_lines(api_url: &str, cfg: &Config, dashboard_url: Option<&str>) -> (r: Vec<String>)
    ensures
        views(r@) == status_lines_spec(api_url@, *cfg, opt_view(dashboard_url)),
{
    let mut lines: Vec<String> = Vec::new();
    let mut first = owned("API URL: ");
    push_str(&mut first, api_url);
    lines.push(first);
    let mut auth = owned("Authenticated: ");
    if cfg.token.is_some() {
        push_str(&mut auth, "true");
    } else {
        push_str(&mut auth, "false");
    }
    lines.push(auth);
    lines.push(labelled_setting("User: ", &cfg.email));
    lines.push(labelled_setting("Database: ", &cfg.default_database));
    lines.push(labelled_setting("Organization: ", &cfg.default_organization));
    lines.push(labelled_setting("Cluster: ", &cfg.default_cluster));
    let mut dash = owned("Dashboard URL: ");
    match dashboard_url {
        Some(u) => push_str(&mut dash, u),
        None => push_str(&mut dash, "-"),
    }
    lines.push(dash);
    proof {
        assert(views(lines@) =~= status_lines_spec(api_url@, *cfg, opt_view(dashboard_url)));
    }
    lines
}

} // verus!
