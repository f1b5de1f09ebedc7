//! Databases: the create response, the configuration it leaves behind, the
//! request paths and the lines of a listing.
use vstd::prelude::*;

use crate::config::Config;
use crate::org::{databases_collection_path, scoped_path, scoped_path_spec};
use crate::text::{opt_view, owned, pad_right_spec, push_padded_right, push_str};
use crate::urlenc::{url_encode, url_encoded};

verus! {

/// A reference to an organization by name.
#[derive(Debug)]
pub struct OrganizationRef {
    pub name: String,
}

/// A database as the API describes it. Of its storage metadata only whether
/// customer-owned S3 storage is configured matters here.
#[derive(Debug)]
pub struct DatabaseItem {
    pub name: String,
    pub organization: Option<OrganizationRef>,
    pub s3_storage: bool,
}

/// The body of `GET /v1/databases`.
#[derive(Debug)]
pub struct ListDatabasesResponse {
    pub organization: Option<OrganizationRef>,
    pub databases: Vec<DatabaseItem>,
}

/// The body of a successful `POST /v1/databases`.
#[derive(Debug)]
pub struct CreateDatabaseResponse {
    pub organization: OrganizationRef,
    pub database: DatabaseItem,
}

impl CreateDatabaseResponse {
    /// The organization the database was created in.
    pub fn resolved_organization_name(&self) -> (r: Option<&str>)
        ensures
            r matches Some(n) && n@ == self.organization.name@,
    {
        Some(self.organization.name.as_str())
    }
}

/// Records a created database as the default: its name and organization, and
/// the cluster when one was named. Credentials and the rest stay.
pub fn apply_database_create_config(
    cfg: &mut Config,
    resp: &CreateDatabaseResponse,
    cluster: Option<&str>,
)
    ensures
        final(cfg).default_database matches Some(d) && d@ == resp.database.name@,
        final(cfg).default_organization matches Some(o) && o@ == resp.organization.name@,
        cluster matches Some(c) ==> (final(cfg).default_cluster matches Some(d) && d@ == c@),
        final(cfg).token == old(cfg).token,
        final(cfg).email == old(cfg).email,
        final(cfg).url == old(cfg).url,
        cluster is None ==> final(cfg).default_cluster == old(cfg).default_cluster,
{
    cfg.default_database = Some(resp.database.name.clone());
    cfg.default_organization = match resp.resolved_organization_name() {
        Some(n) => Some(owned(n)),
        None => None,
    };
    if let Some(cluster) = cluster {
        cfg.default_cluster = Some(owned(cluster));
    }
}

/// The path a database is created at.
pub fn database_create_collection_path(organization: Option<&str>, cluster: Option<&str>) -> (r:
    String)
    ensures
        r@ == scoped_path_spec("/v1/databases"@, opt_view(organization), opt_view(cluster)),
{
    databases_collection_path(organization, cluster)
}

/// The path of one database, as deleted by name.
pub fn database_delete_path(name: &str, organization: Option<&str>, cluster: Option<&str>) -> (r:
    String)
    ensures
        r@ == scoped_path_spec(
            "/v1/databases/"@ + url_encoded(name@),
            opt_view(organization),
            opt_view(cluster),
        ),
{
    let mut base = owned("/v1/databases/");
    let enc = url_encode(name);
    push_str(&mut base, enc.as_str());
    scoped_path(base.as_str(), organization, cluster)
}

/// How a database's storage is described.
pub open spec fn storage_label(s3_storage: bool) -> Seq<char> {
    if s3_storage {
        "customer-owned S3"@
    } else {
        "cluster default"@
    }
}

/// How a database's storage is described in a listing.
pub fn format_storage(s3_storage: bool) -> (r: &'static str)
    ensures
        r@ == storage_label(s3_storage),
{
    if s3_storage {
        "customer-owned S3"
    } else {
        "cluster default"
    }
}

/// The organization shown for a database: its own, else the listing's, else `unknown`.
pub open spec fn organization_label(
    own: Option<Seq<char>>,
    listing: Option<Seq<char>>,
) -> Seq<char> {
    match own {
        Some(o) => o,
        None => match listing {
            Some(l) => l,
            None => "unknown"@,
        },
    }
}

/// The name of an optional organization reference.
pub open spec fn org_ref_name(o: Option<OrganizationRef>) -> Option<Seq<char>> {
    match o {
        Some(r) => Some(r.name@),
        None => None,
    }
}

/// One line of a listing: the name left-aligned in 20 characters, then the
/// organization and the storage.
pub open spec fn database_line_spec(
    name: Seq<char>,
    organization: Seq<char>,
    s3_storage: bool,
) -> Seq<char> {
    pad_right_spec(name, 20) + " org="@ + organization + " storage="@ + storage_label(s3_storage)
}

/// The message printed for an empty listing.
pub open spec fn no_databases_message() -> Seq<char> {
    "No databases yet. Create one with `rtree database create <name>`."@
}

/// The lines printed for a listing.
pub open spec fn database_listing_spec(resp: ListDatabasesResponse) -> Seq<Seq<char>> {
    if resp.databases.len() == 0 {
        seq![no_databases_message()]
    } else {
        Seq::new(
            resp.databases@.len(),
            |i: int|
                database_line_spec(
                    resp.databases@[i].name@,
                    organization_label(
                        org_ref_name(resp.databases@[i].organization),
                        org_ref_name(resp.organization),
                    ),
                    resp.databases@[i].s3_storage,
                ),
        )
    }
}

/// One line of a listing.
fn database_line(item: &DatabaseItem, listing_org: &Option<OrganizationRef>) -> (r: String)
    ensures
        r@ == database_line_spec(
            item.name@,
            organization_label(org_ref_name(item.organization), org_ref_name(*listing_org)),
            item.s3_storage,
        ),
{
    let mut line = String::new();
    push_padded_right(&mut line, item.name.as_str(), 20);
    push_str(&mut line, " org=");
    match &item.organization {
        Some(o) => push_str(&mut line, o.name.as_str()),
        None => match listing_org {
            Some(l) => push_str(&mut line, l.name.as_str()),
            None => push_str(&mut line, "unknown"),
        },
    }
    push_str(&mut line, " storage=");
    push_str(&mut line, format_storage(item.s3_storage));
    line
}

/// The lines printed for a listing of databases: one per database, or a hint
/// to create one when there is none.
pub fn database_listing(resp: &ListDatabasesResponse) -> (r: Vec<String>)
    ensures
        r@.map_values(|s: String| s@) == database_listing_spec(*resp),
{
    let mut lines: Vec<String> = Vec::new();
    if resp.databases.len() == 0 {
        lines.push(owned("No databases yet. Create one with `rtree database create <name>`."));
        proof {
            assert(lines@.map_values(|s: String| s@) =~= database_listing_spec(*resp));
        }
        return lines;
    }
    let mut i: usize = 0;
    while i < resp.databases.len()
        invariant
            i <= resp.databases.len(),
            resp.databases.len() > 0,
            lines@.map_values(|s: String| s@) =~= database_listing_spec(*resp).take(i as int),
        decreases resp.databases.len() - i,
    {
        let line = database_line(&resp.databases[i], &resp.organization);
        let ghost prev = lines@;
        lines.push(line);
        proof {
            assert(lines@.map_values(|s: String| s@) =~= prev.map_values(|s: String| s@).push(
                line@,
            ));
        }
        i = i + 1;
    }
    proof {
        assert(database_listing_spec(*resp).take(i as int) =~= database_listing_spec(*resp));
    }
    lines
}

/// The confirmation printed after a database was created.
pub open spec fn created_message_spec(database: Seq<char>, organization: Seq<char>) -> Seq<char> {
    "Database '"@ + database + "' created in organization '"@ + organization + "'."@
}

/// The confirmation printed after a database was created.
pub fn created_message(resp: &CreateDatabaseResponse) -> (r: String)
    ensures
        r@ == created_message_spec(resp.database.name@, resp.organization.name@),
{
    let mut m = owned("Database '");
    push_str(&mut m, resp.database.name.as_str());
    push_str(&mut m, "' created in organization '");
    match resp.resolved_organization_name() {
        Some(n) => push_str(&mut m, n),
        None => push_str(&mut m, "unknown"),
    }
    push_str(&mut m, "'.");
    m
}

} // verus!
