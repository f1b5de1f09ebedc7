//! API keys of a database: their request paths and how they are listed.
use vstd::prelude::*;

use crate::org::{database_scoped_path, database_scoped_path_spec};
use crate::text::{opt_view, owned, pad_right_spec, push_padded_right, push_str, views};
use crate::urlenc::{url_encode, url_encoded};

verus! {

/// An API key as listed.
#[derive(Debug)]
pub struct ApiKeyItem {
    pub id: String,
    pub token: String,
    pub name: String,
    pub permission: String,
    pub created_at: String,
}

/// The path of the API keys of a database.
pub fn keys_path(database: &str, organization: Option<&str>, cluster: Option<&str>) -> (r: String)
    ensures
        r@ == database_scoped_path_spec(database@, "/keys"@, opt_view(organization), opt_view(cluster)),
{
    database_scoped_path(database, "/keys", organization, cluster)
}

/// The path of one API key, named by its id or its token.
pub fn key_path(
    database: &str,
    id_or_token: &str,
    organization: Option<&str>,
    cluster: Option<&str>,
) -> (r: String)
    ensures
        r@ == database_scoped_path_spec(
            database@,
            "/keys/"@ + url_encoded(id_or_token@),
            opt_view(organization),
            opt_view(cluster),
        ),
{
    let mut suffix = owned("/keys/");
    let enc = url_encode(id_or_token);
    push_str(&mut suffix, enc.as_str());
    database_scoped_path(database, suffix.as_str(), organization, cluster)
}

/// One line of a key listing: id, name and permission in columns of 38, 12
/// and 14 characters, then the token and the creation time.
pub open spec fn key_line_spec(k: ApiKeyItem) -> Seq<char> {
    pad_right_spec(k.id@, 38) + " "@ + pad_right_spec(k.name@, 12) + " "@ + pad_right_spec(
        k.permission@,
        14,
    ) + " "@ + k.token@ + "  created="@ + k.created_at@
}

/// The lines printed for a key listing.
pub open spec fn key_listing_spec(keys: Seq<ApiKeyItem>) -> Seq<Seq<char>> {
    if keys.len() == 0 {
        seq!["No API keys."@]
    } else {
        keys.map_values(|k: ApiKeyItem| key_line_spec(k))
    }
}

/// A non-empty key list is listed one line per key, in order: the line of
/// each key begins with its id and ends with its creation time.
pub proof fn law_one_line_per_key(keys: Seq<ApiKeyItem>)
    requires
        keys.len() > 0,
    ensures
        key_listing_spec(keys).len() == keys.len(),
        forall|i: int| 0 <= i < keys.len() ==> #[trigger] key_listing_spec(keys)[i] == key_line_spec(keys[i]),
        forall|i: int|
            0 <= i < keys.len() ==> (#[trigger] key_listing_spec(keys)[i]).take(keys[i].id@.len() as int)
                == keys[i].id@,
        forall|i: int|
            0 <= i < keys.len() ==> {
                let line = #[trigger] key_listing_spec(keys)[i];
                let created = keys[i].created_at@;
                line.len() >= created.len() && line.subrange(line.len() - created.len(), line.len() as int)
                    == created
            },
{
    assert forall|i: int| 0 <= i < keys.len() implies (#[trigger] key_listing_spec(keys)[i]).take(
        keys[i].id@.len() as int,
    ) == keys[i].id@ by {
        let k = keys[i];
        let rest = " "@ + pad_right_spec(k.name@, 12) + " "@ + pad_right_spec(k.permission@, 14) + " "@
            + k.token@ + "  created="@ + k.created_at@;
        assert(key_line_spec(k) =~= pad_right_spec(k.id@, 38) + rest);
        assert((pad_right_spec(k.id@, 38) + rest).take(k.id@.len() as int) =~= k.id@);
    }
    assert forall|i: int| 0 <= i < keys.len() implies {
        let line = #[trigger] key_listing_spec(keys)[i];
        let created = keys[i].created_at@;
        line.len() >= created.len() && line.subrange(line.len() - created.len(), line.len() as int)
            == created
    } by {
        let k = keys[i];
        let front = pad_right_spec(k.id@, 38) + " "@ + pad_right_spec(k.name@, 12) + " "@
            + pad_right_spec(k.permission@, 14) + " "@ + k.token@ + "  created="@;
        assert(key_line_spec(k) =~= front + k.created_at@);
        assert((front + k.created_at@).subrange(
            front.len() as int,
            (front + k.created_at@).len() as int,
        ) =~= k.created_at@);
    }
}

/// The id takes a column of 38 characters: after an id of at most 38
/// characters, the key's name starts at the 40th character of its line.
pub proof fn law_key_name_column(k: ApiKeyItem)
    requires
        k.id@.len() <= 38,
    ensures
        key_line_spec(k).len() >= 39 + k.name@.len(),
        key_line_spec(k).take(38) == pad_right_spec(k.id@, 38),
        key_line_spec(k)[38] == ' ',
        key_line_spec(k).subrange(39, 39 + k.name@.len() as int) == k.name@,
{
    let id = pad_right_spec(k.id@, 38);
    let rest = pad_right_spec(k.name@, 12) + " "@ + pad_right_spec(k.permission@, 14) + " "@
        + k.token@ + "  created="@ + k.created_at@;
    reveal_strlit(" ");
    assert(id.len() == 38);
    assert(key_line_spec(k) =~= id + " "@ + rest);
    assert(rest.take(k.name@.len() as int) =~= k.name@);
    assert((id + " "@ + rest).take(38) =~= id);
    assert((id + " "@ + rest).subrange(39, 39 + k.name@.len() as int) =~= rest.take(k.name@.len() as int));
}

/// One line of a key listing.
fn key_line(k: &ApiKeyItem) -> (r: String)
    ensures
        r@ == key_line_spec(*k),
{
    let mut line = String::new();
    push_padded_right(&mut line, k.id.as_str(), 38);
    push_str(&mut line, " ");
    push_padded_right(&mut line, k.name.as_str(), 12);
    push_str(&mut line, " ");
    push_padded_right(&mut line, k.permission.as_str(), 14);
    push_str(&mut line, " ");
    push_str(&mut line, k.token.as_str());
    push_str(&mut line, "  created=");
    push_str(&mut line, k.created_at.as_str());
    line
}

/// The lines printed for a key listing: one per key, or a note that there is none.
pub fn key_listing(keys: &Vec<ApiKeyItem>) -> (r: Vec<String>)
    ensures
        views(r@) == key_listing_spec(keys@),
{
    let mut lines: Vec<String> = Vec::new();
    if keys.len() == 0 {
        lines.push(owned("No API keys."));
        proof {
            assert(views(lines@) =~= key_listing_spec(keys@));
        }
        return lines;
    }
    let mut i: usize = 0;
    while i < keys.len()
        invariant
            i <= keys.len(),
            views(lines@) =~= keys@.take(i as int).map_values(|k: ApiKeyItem| key_line_spec(k)),
        decreases keys.len() - i,
    {
        let line = key_line(&keys[i]);
        let ghost prev = lines@;
        lines.push(line);
        proof {
            assert(views(lines@) =~= views(prev).push(line@));
            assert(keys@.take(i + 1).map_values(|k: ApiKeyItem| key_line_spec(k)) =~= keys@.take(
                i as int,
            ).map_values(|k: ApiKeyItem| key_line_spec(k)).push(key_line_spec(keys@[i as int])));
        }
        i = i + 1;
    }
    proof {
        assert(keys@.take(keys.len() as int) =~= keys@);
    }
    lines
}

/// The lines printed after a key was created.
pub open spec fn created_key_lines_spec(
    id: Seq<char>,
    token: Seq<char>,
    name: Seq<char>,
    permission: Seq<char>,
) -> Seq<Seq<char>> {
    seq![
        "API key created:"@,
        "  id:         "@ + id,
        "  token:      "@ + token,
        "  name:       "@ + name,
        "  permission: "@ + permission,
    ]
}

fn labelled(label: &str, value: &str) -> (r: String)
    ensures
        r@ == label@ + value@,
{
    let mut s = owned(label);
    push_str(&mut s, value);
    s
}

/// The lines printed after a key was created.
pub fn created_key_lines(id: &str, token: &str, name: &str, permission: &str) -> (r: Vec<String>)
    ensures
        views(r@) == created_key_lines_spec(id@, token@, name@, permission@),
{
    let mut lines: Vec<String> = Vec::new();
    lines.push(owned("API key created:"));
    lines.push(labelled("  id:         ", id));
    lines.push(labelled("  token:      ", token));
    lines.push(labelled("  name:       ", name));
    lines.push(labelled("  permission: ", permission));
    proof {
        assert(views(lines@) =~= created_key_lines_spec(id@, token@, name@, permission@));
    }
    lines
}

} // verus!
