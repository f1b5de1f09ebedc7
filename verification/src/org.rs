//! Organizations and the API paths scoped to an organization and cluster.
use vstd::prelude::*;

use crate::text::{opt_view, push_char, push_str, starts_with, contains_char};
use crate::urlenc::{url_encode, url_encoded};

verus! {

/// An organization the current user belongs to.
#[derive(Debug)]
pub struct OrganizationItem {
    pub name: String,
    pub role: String,
}

impl OrganizationItem {
    /// A field-by-field copy.
    pub fn duplicate(&self) -> (r: Self)
        ensures
            r == *self,
    {
        OrganizationItem { name: self.name.clone(), role: self.role.clone() }
    }
}

/// The body of `GET /v1/organizations`.
pub struct ListOrganizationsResponse {
    pub organizations: Vec<OrganizationItem>,
}

/// The organizations of a listing response.
pub fn list_organizations(response: ListOrganizationsResponse) -> (r: Vec<OrganizationItem>)
    ensures
        r@ == response.organizations@,
{
    response.organizations
}

/// The name of the first organization of a listing, if the listing succeeded
/// (`Some`) and is not empty.
pub fn first_organization_name(listing: Option<Vec<OrganizationItem>>) -> (r: Option<String>)
    ensures
        r is None <==> (listing is None || listing->0.len() == 0),
        r matches Some(n) ==> n@ == listing->0[0].name@,
{
    match listing {
        Some(items) => {
            if items.len() == 0 {
                None
            } else {
                Some(items[0].name.clone())
            }
        },
        None => None,
    }
}

/// `organization=<encoded name>`.
pub open spec fn org_param(o: Seq<char>) -> Seq<char> {
    "organization="@ + url_encoded(o)
}

/// `cluster=<encoded name>`.
pub open spec fn cluster_param(c: Seq<char>) -> Seq<char> {
    "cluster="@ + url_encoded(c)
}

/// The scope parameters joined with `&`, organization first.
pub open spec fn scope_query(organization: Option<Seq<char>>, cluster: Option<Seq<char>>) -> Seq<
    char,
> {
    match (organization, cluster) {
        (Some(o), Some(c)) => org_param(o) + "&"@ + cluster_param(c),
        (Some(o), None) => org_param(o),
        (None, Some(c)) => cluster_param(c),
        (None, None) => seq![],
    }
}

/// `path` with the scope parameters appended as a query, continuing an existing
/// query (`&`) when `path` already holds a `?`.
pub open spec fn scoped_path_spec(
    path: Seq<char>,
    organization: Option<Seq<char>>,
    cluster: Option<Seq<char>>,
) -> Seq<char> {
    if organization is None && cluster is None {
        path
    } else {
        path.push(if path.contains('?') { '&' } else { '?' }) + scope_query(organization, cluster)
    }
}

/// Each present scope parameter, preceded by `&`.
pub open spec fn scope_suffix(organization: Option<Seq<char>>, cluster: Option<Seq<char>>) -> Seq<
    char,
> {
    (match organization {
        Some(o) => "&organization="@ + url_encoded(o),
        None => seq![],
    }) + (match cluster {
        Some(c) => "&cluster="@ + url_encoded(c),
        None => seq![],
    })
}

/// A suffix made absolute: empty stays empty, otherwise it starts with `/`.
pub open spec fn normalized_suffix(suffix: Seq<char>) -> Seq<char> {
    if suffix.len() == 0 {
        suffix
    } else if suffix[0] == '/' {
        suffix
    } else {
        seq!['/'] + suffix
    }
}

/// `/v1<suffix>` with the database, then organization and cluster, as query parameters.
pub open spec fn database_scoped_path_spec(
    database: Seq<char>,
    suffix: Seq<char>,
    organization: Option<Seq<char>>,
    cluster: Option<Seq<char>>,
) -> Seq<char> {
    let n = normalized_suffix(suffix);
    ("/v1"@ + n).push(if n.contains('?') { '&' } else { '?' }) + "database="@ + url_encoded(
        database,
    ) + scope_suffix(organization, cluster)
}

/// Appends `&organization=..` and `&cluster=..` for the scopes that are present.
pub fn append_scope_params(path: &mut String, organization: Option<&str>, cluster: Option<&str>)
    ensures
        final(path)@ == old(path)@ + scope_suffix(opt_view(organization), opt_view(cluster)),
{
    let ghost start = path@;
    if let Some(org) = organization {
        push_str(path, "&organization=");
        let enc = url_encode(org);
        push_str(path, enc.as_str());
    }
    let ghost mid = path@;
    if let Some(cluster) = cluster {
        push_str(path, "&cluster=");
        let enc = url_encode(cluster);
        push_str(path, enc.as_str());
    }
    assert(path@ =~= start + scope_suffix(opt_view(organization), opt_view(cluster)));
}

/// `path` scoped to an organization and a cluster through query parameters.
pub fn scoped_path(path: &str, organization: Option<&str>, cluster: Option<&str>) -> (r: String)
    ensures
        r@ == scoped_path_spec(path@, opt_view(organization), opt_view(cluster)),
{
    let mut scoped = path.to_owned();
    if organization.is_none() && cluster.is_none() {
        return scoped;
    }
    let sep = if contains_char(path, '?') {
        '&'
    } else {
        '?'
    };
    push_char(&mut scoped, sep);
    let ghost base = scoped@;
    if let Some(org) = organization {
        push_str(&mut scoped, "organization=");
        let enc = url_encode(org);
        push_str(&mut scoped, enc.as_str());
    }
    if let Some(cluster) = cluster {
        if organization.is_some() {
            push_char(&mut scoped, '&');
        }
        push_str(&mut scoped, "cluster=");
        let enc = url_encode(cluster);
        push_str(&mut scoped, enc.as_str());
    }
    proof {
        reveal_strlit("&");
        assert(scoped@ =~= base + scope_query(opt_view(organization), opt_view(cluster)));
    }
    scoped
}

/// The collection path of databases, scoped to an organization and a cluster.
pub fn databases_collection_path(organization: Option<&str>, cluster: Option<&str>) -> (r: String)
    ensures
        r@ == scoped_path_spec("/v1/databases"@, opt_view(organization), opt_view(cluster)),
{
    scoped_path("/v1/databases", organization, cluster)
}

/// The API path `/v1<suffix>` addressed to one database, scoped to an
/// organization and a cluster. A suffix without a leading `/` gets one; one that
/// already holds a query is continued with `&`.
pub fn database_scoped_path(
    database: &str,
    suffix: &str,
    organization: Option<&str>,
    cluster: Option<&str>,
) -> (r: String)
    ensures
        r@ == database_scoped_path_spec(database@, suffix@, opt_view(organization), opt_view(cluster)),
{
    let mut path = "/v1".to_owned();
    let ghost n = normalized_suffix(suffix@);
    let empty = suffix.is_empty();
    let slash = starts_with(suffix, "/");
    proof {
        reveal_strlit("/");
        if !empty {
            assert(suffix@.take(1) =~= seq![suffix@[0]]);
            assert("/"@ =~= seq!['/']);
            assert(suffix@.len() >= 1);
            assert(slash == (suffix@.take(1) == "/"@));
            if suffix@[0] == '/' {
                assert(suffix@.take(1) =~= "/"@);
            } else {
                assert(suffix@.take(1)[0] != "/"@[0]);
            }
            assert(slash == (suffix@[0] == '/'));
        }
    }
    if !empty && !slash {
        push_char(&mut path, '/');
    }
    push_str(&mut path, suffix);
    proof {
        reveal_strlit("/v1");
        if !empty && !slash {
            assert(n =~= seq!['/'] + suffix@);
            assert(path@ =~= "/v1"@ + n);
            assert(n.contains('?') == suffix@.contains('?')) by {
                if suffix@.contains('?') {
                    let k = choose|k: int| 0 <= k < suffix@.len() && suffix@[k] == '?';
                    assert(n[k + 1] == '?');
                }
                if n.contains('?') {
                    let k = choose|k: int| 0 <= k < n.len() && n[k] == '?';
                    assert(k > 0);
                    assert(suffix@[k - 1] == '?');
                }
            }
        } else {
            assert(n == suffix@);
            assert(path@ =~= "/v1"@ + n);
        }
    }
    let sep = if contains_char(suffix, '?') {
        '&'
    } else {
        '?'
    };
    push_char(&mut path, sep);
    push_str(&mut path, "database=");
    let enc = url_encode(database);
    push_str(&mut path, enc.as_str());
    append_scope_params(&mut path, organization, cluster);
    proof {
        assert(path@ =~= database_scoped_path_spec(
            database@,
            suffix@,
            opt_view(organization),
            opt_view(cluster),
        ));
    }
    path
}

/// The path of one organization, named by its (encoded) name.
pub fn organization_path(name: &str) -> (r: String)
    ensures
        r@ == "/v1/organizations/"@ + url_encoded(name@),
{
    let mut p = "/v1/organizations/".to_owned();
    let enc = url_encode(name);
    push_str(&mut p, enc.as_str());
    p
}

} // verus!
