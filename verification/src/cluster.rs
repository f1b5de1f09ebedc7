//! Dedicated clusters: size catalog resolution, lookup by name or id,
//! lifecycle request paths and the texts of the cluster listings.
use vstd::prelude::*;

use crate::text::{
    decimal, first_match, join_strings, join_with, lemma_first_match, opt_view, owned, push_decimal,
    push_str, replace_char, replace_char_spec, str_eq, views,
};
use crate::urlenc::{url_encode, url_encoded};

verus! {

/// One entry of the cluster size catalog.
#[derive(Debug)]
pub struct ClusterSizeItem {
    pub size: String,
    pub cpu_cores: u32,
    pub memory_gib: u32,
}

/// The resources of one cluster replica.
#[derive(Clone, Copy, Debug, PartialEq, Eq, Structural)]
pub struct ClusterSize {
    pub cpu_cores: u32,
    pub memory_gib: u32,
}

/// The options of `cluster create`.
pub struct ClusterCreateOptions<'a> {
    pub organization: Option<&'a str>,
    pub name: &'a str,
    pub replicas: u32,
    pub min_size: &'a str,
    pub max_size: Option<&'a str>,
    pub idle_timeout_minutes: Option<u64>,
}

/// The state of a cluster.
#[derive(Debug)]
pub struct ClusterStatus {
    pub phase: String,
    pub ready: bool,
    pub message: Option<String>,
}

/// A dedicated cluster as listed by the API (without its resource figures).
#[derive(Debug)]
pub struct ClusterItem {
    pub id: String,
    pub name: String,
    pub created_at: String,
    pub status: ClusterStatus,
    pub can_pause: bool,
    pub can_resume: bool,
    pub idle_timeout_minutes: u64,
}

/// The body of a `cluster create` request.
#[derive(Debug)]
pub struct ClusterCreateRequest {
    pub name: String,
    pub replicas: u32,
    pub size: ClusterSize,
    pub min_size: ClusterSize,
    pub max_size: ClusterSize,
    pub idle_timeout_minutes: Option<u64>,
}

/// A lifecycle change of a cluster.
#[derive(Clone, Copy, Debug, PartialEq, Eq, Structural)]
pub enum LifecycleAction {
    Stop,
    Resume,
}

impl LifecycleAction {
    /// The path segment of the action's endpoint.
    pub open spec fn segment_spec(self) -> Seq<char> {
        match self {
            LifecycleAction::Stop => "stop"@,
            LifecycleAction::Resume => "resume"@,
        }
    }

    /// The path segment of the action's endpoint.
    pub fn path_segment(self) -> (r: &'static str)
        ensures
            r@ == self.segment_spec(),
    {
        match self {
            LifecycleAction::Stop => "stop",
            LifecycleAction::Resume => "resume",
        }
    }

    /// The action's name in messages.
    pub open spec fn label_spec(self) -> Seq<char> {
        match self {
            LifecycleAction::Stop => "Stop"@,
            LifecycleAction::Resume => "Resume"@,
        }
    }

    /// The action's name in messages.
    pub fn label(self) -> (r: &'static str)
        ensures
            r@ == self.label_spec(),
    {
        match self {
            LifecycleAction::Stop => "Stop",
            LifecycleAction::Resume => "Resume",
        }
    }
}

/// Errors of cluster commands.
#[derive(Debug)]
pub enum ClusterError {
    /// No catalog size has this identifier; `available` lists the known ones.
    UnknownSize { requested: String, available: String },
    /// The maximum size comes before the minimum size in the catalog.
    MaxBelowMin,
    /// `cluster update` without any setting.
    NoSettings,
    /// No cluster has this name or id.
    NotFound { name_or_id: String },
}

impl ClusterError {
    /// The text of the error.
    pub open spec fn message_spec(&self) -> Seq<char> {
        match self {
            ClusterError::UnknownSize { requested, available } => "Unknown cluster size '"@
                + requested@ + "'. Available sizes: "@ + available@,
            ClusterError::MaxBelowMin =>
                "--max-size must be at least as large as --min-size in the cluster size catalog"@,
            ClusterError::NoSettings =>
                "At least one setting is required. Pass --name and/or --idle-timeout-minutes."@,
            ClusterError::NotFound { name_or_id } => "Dedicated cluster '"@ + name_or_id@
                + "' not found."@,
        }
    }

    /// The text of the error.
    pub fn message(&self) -> (r: String)
        ensures
            r@ == self.message_spec(),
    {
        match self {
            ClusterError::UnknownSize { requested, available } => {
                let mut m = owned("Unknown cluster size '");
                push_str(&mut m, requested.as_str());
                push_str(&mut m, "'. Available sizes: ");
                push_str(&mut m, available.as_str());
                m
            },
            ClusterError::MaxBelowMin => owned(
                "--max-size must be at least as large as --min-size in the cluster size catalog",
            ),
            ClusterError::NoSettings => owned(
                "At least one setting is required. Pass --name and/or --idle-timeout-minutes.",
            ),
            ClusterError::NotFound { name_or_id } => {
                let mut m = owned("Dedicated cluster '");
                push_str(&mut m, name_or_id.as_str());
                push_str(&mut m, "' not found.");
                m
            },
        }
    }

    /// The stable error code: `cluster_not_found` for a missing cluster.
    pub fn code(&self) -> (r: &'static str)
        ensures
            self is NotFound ==> r@ == "cluster_not_found"@,
            !(self is NotFound) ==> r@ == "invalid_input"@,
    {
        match self {
            ClusterError::NotFound { .. } => "cluster_not_found",
            _ => "invalid_input",
        }
    }

    /// The exit code: 4 for a missing cluster, 1 otherwise.
    pub fn exit_code(&self) -> (r: i32)
        ensures
            r == (if self is NotFound {
                4i32
            } else {
                1i32
            }),
    {
        match self {
            ClusterError::NotFound { .. } => 4,
            _ => 1,
        }
    }
}

/// The identifiers of a size catalog, in order.
pub open spec fn size_names(sizes: Seq<ClusterSizeItem>) -> Seq<Seq<char>> {
    sizes.map_values(|s: ClusterSizeItem| s.size@)
}

/// The list of known sizes in an error: comma-separated, or `none`.
pub open spec fn available_sizes(sizes: Seq<ClusterSizeItem>) -> Seq<char> {
    if sizes.len() == 0 {
        "none"@
    } else {
        join_with(size_names(sizes), ", "@)
    }
}

/// The catalog position and resources of a size identifier.
pub fn resolve_cluster_size(sizes: &Vec<ClusterSizeItem>, requested: &str) -> (r: Result<
    (usize, ClusterSize),
    ClusterError,
>)
    ensures
        match first_match(size_names(sizes@), requested@) {
            Some(i) => r matches Ok((k, sz)) && k == i && sz.cpu_cores == sizes@[i].cpu_cores
                && sz.memory_gib == sizes@[i].memory_gib,
            None => r matches Err(ClusterError::UnknownSize { requested: q, available }) && q@
                == requested@ && available@ == available_sizes(sizes@),
        },
{
    let mut i: usize = 0;
    while i < sizes.len()
        invariant
            i <= sizes.len(),
            forall|j: int| 0 <= j < i ==> #[trigger] size_names(sizes@)[j] != requested@,
        decreases sizes.len() - i,
    {
        if str_eq(sizes[i].size.as_str(), requested) {
            proof {
                crate::text::lemma_first_match_at(size_names(sizes@), requested@, i as int);
            }
            return Ok(
                (i, ClusterSize { cpu_cores: sizes[i].cpu_cores, memory_gib: sizes[i].memory_gib }),
            );
        }
        i = i + 1;
    }
    proof {
        crate::text::lemma_first_match_none(size_names(sizes@), requested@);
    }
    let mut names: Vec<String> = Vec::new();
    let mut k: usize = 0;
    while k < sizes.len()
        invariant
            k <= sizes.len(),
            views(names@) == size_names(sizes@).take(k as int),
        decreases sizes.len() - k,
    {
        let ghost prev = names@;
        let item = sizes[k].size.clone();
        names.push(item);
        proof {
            assert(names@ =~= prev.push(item));
            assert(item@ == size_names(sizes@)[k as int]);
            assert(views(names@) =~= views(prev).push(item@));
            assert(views(names@) =~= size_names(sizes@).take(k + 1));
        }
        k = k + 1;
    }
    proof {
        assert(size_names(sizes@).take(sizes.len() as int) =~= size_names(sizes@));
    }
    let available = if sizes.len() == 0 {
        owned("none")
    } else {
        join_strings(&names, ", ")
    };
    Err(ClusterError::UnknownSize { requested: owned(requested), available })
}

/// The minimum and maximum sizes of a new cluster; the maximum defaults to the
/// minimum and may not come before it in the catalog.
pub fn resolve_size_bounds(
    sizes: &Vec<ClusterSizeItem>,
    min_size: &str,
    max_size: Option<&str>,
) -> (r: Result<(ClusterSize, ClusterSize), ClusterError>)
    ensures
        first_match(size_names(sizes@), min_size@) is None ==> (r matches Err(e)
            && e is UnknownSize),
        first_match(size_names(sizes@), min_size@) matches Some(lo) ==> (max_size is None ==> (
        r matches Ok((a, b)) && a == b && a.cpu_cores == sizes@[lo].cpu_cores && a.memory_gib
            == sizes@[lo].memory_gib)),
        first_match(size_names(sizes@), min_size@) matches Some(lo) ==> (max_size matches Some(m)
            ==> match first_match(size_names(sizes@), m@) {
            None => r matches Err(e) && e is UnknownSize,
            Some(hi) => if hi < lo {
                r matches Err(e) && e is MaxBelowMin
            } else {
                r matches Ok((a, b)) && a.cpu_cores == sizes@[lo].cpu_cores && a.memory_gib
                    == sizes@[lo].memory_gib && b.cpu_cores == sizes@[hi].cpu_cores
                    && b.memory_gib == sizes@[hi].memory_gib
            },
        }),
{
    let (min_index, min) = resolve_cluster_size(sizes, min_size)?;
    let (max_index, max) = match max_size {
        Some(m) => resolve_cluster_size(sizes, m)?,
        None => (min_index, min),
    };
    if max_index < min_index {
        return Err(ClusterError::MaxBelowMin);
    }
    Ok((min, max))
}

/// The request body of `cluster create`: the minimum size is the initial size,
/// and both bounds are sent for autoscaling.
pub fn create_request_body(
    name: &str,
    replicas: u32,
    min_size: ClusterSize,
    max_size: ClusterSize,
    idle_timeout_minutes: Option<u64>,
) -> (r: ClusterCreateRequest)
    ensures
        r.name@ == name@,
        r.replicas == replicas,
        r.size == min_size,
        r.min_size == min_size,
        r.max_size == max_size,
        r.idle_timeout_minutes == idle_timeout_minutes,
{
    ClusterCreateRequest {
        name: owned(name),
        replicas,
        size: min_size,
        min_size,
        max_size,
        idle_timeout_minutes,
    }
}

/// `cluster update` needs at least one setting.
pub fn check_update_settings(name: Option<&str>, idle_timeout_minutes: Option<u64>) -> (r: Result<
    (),
    ClusterError,
>)
    ensures
        r is Err <==> name is None && idle_timeout_minutes is None,
        r matches Err(e) ==> e is NoSettings,
{
    if name.is_none() && idle_timeout_minutes.is_none() {
        return Err(ClusterError::NoSettings);
    }
    Ok(())
}

/// Whether a cluster answers to `key` by name or by id.
pub open spec fn answers_to(c: ClusterItem, key: Seq<char>) -> bool {
    c.name@ == key || c.id@ == key
}

/// The first cluster named `name_or_id` or with that id; a coded error
/// (`cluster_not_found`, exit code 4) when there is none.
pub fn resolve_cluster<'a>(clusters: &'a Vec<ClusterItem>, name_or_id: &str) -> (r: Result<
    &'a ClusterItem,
    ClusterError,
>)
    ensures
        r is Err <==> forall|j: int| 0 <= j < clusters.len() ==> !answers_to(clusters@[j], name_or_id@),
        r matches Err(e) ==> e matches ClusterError::NotFound { name_or_id: n } && n@ == name_or_id@,
        r matches Ok(c) ==> exists|i: int|
            0 <= i < clusters.len() && *c == clusters@[i] && answers_to(clusters@[i], name_or_id@) && (
            forall|j: int| 0 <= j < i ==> !answers_to(clusters@[j], name_or_id@)),
{
    let mut i: usize = 0;
    while i < clusters.len()
        invariant
            i <= clusters.len(),
            forall|j: int| 0 <= j < i ==> !answers_to(clusters@[j], name_or_id@),
        decreases clusters.len() - i,
    {
        if str_eq(clusters[i].name.as_str(), name_or_id) || str_eq(clusters[i].id.as_str(), name_or_id) {
            return Ok(&clusters[i]);
        }
        i = i + 1;
    }
    Err(ClusterError::NotFound { name_or_id: owned(name_or_id) })
}

/// `/v1/clusters`, filtered by organization when one is given.
pub open spec fn clusters_collection_path_spec(organization: Option<Seq<char>>) -> Seq<char> {
    match organization {
        Some(o) => "/v1/clusters?organization="@ + url_encoded(o),
        None => "/v1/clusters"@,
    }
}

/// The collection path of clusters.
pub fn clusters_collection_path(organization: Option<&str>) -> (r: String)
    ensures
        r@ == clusters_collection_path_spec(opt_view(organization)),
{
    match organization {
        Some(name) => {
            let mut p = owned("/v1/clusters?organization=");
            let enc = url_encode(name);
            push_str(&mut p, enc.as_str());
            p
        },
        None => owned("/v1/clusters"),
    }
}

/// `/v1/clusters/<encoded id>[/<action>][?organization=<encoded name>]`.
pub open spec fn cluster_path_spec(
    cluster_id: Seq<char>,
    action: Option<Seq<char>>,
    organization: Option<Seq<char>>,
) -> Seq<char> {
    "/v1/clusters/"@ + url_encoded(cluster_id) + (match action {
        Some(a) => "/"@ + a,
        None => seq![],
    }) + (match organization {
        Some(o) => "?organization="@ + url_encoded(o),
        None => seq![],
    })
}

/// The path of one cluster, or of one of its actions.
pub fn cluster_path(cluster_id: &str, action: Option<&str>, organization: Option<&str>) -> (r: String)
    ensures
        r@ == cluster_path_spec(cluster_id@, opt_view(action), opt_view(organization)),
{
    let mut path = owned("/v1/clusters/");
    let enc = url_encode(cluster_id);
    push_str(&mut path, enc.as_str());
    let ghost base = path@;
    if let Some(action) = action {
        push_str(&mut path, "/");
        push_str(&mut path, action);
    }
    let ghost mid = path@;
    if let Some(name) = organization {
        push_str(&mut path, "?organization=");
        let enc = url_encode(name);
        push_str(&mut path, enc.as_str());
    }
    proof {
        assert(path@ =~= cluster_path_spec(cluster_id@, opt_view(action), opt_view(organization)));
    }
    path
}

/// The endpoint of a lifecycle change of the cluster answering to `name_or_id`.
pub fn request_lifecycle(
    clusters: &Vec<ClusterItem>,
    name_or_id: &str,
    organization: Option<&str>,
    action: LifecycleAction,
) -> (r: Result<String, ClusterError>)
    ensures
        r is Err <==> forall|j: int| 0 <= j < clusters.len() ==> !answers_to(clusters@[j], name_or_id@),
        r matches Err(e) ==> e matches ClusterError::NotFound { name_or_id: n } && n@ == name_or_id@,
        r matches Ok(p) ==> exists|i: int|
            0 <= i < clusters.len() && answers_to(clusters@[i], name_or_id@) && (forall|j: int|
                0 <= j < i ==> !answers_to(clusters@[j], name_or_id@)) && p@ == cluster_path_spec(
                clusters@[i].id@,
                Some(action.segment_spec()),
                opt_view(organization),
            ),
{
    let cluster = resolve_cluster(clusters, name_or_id)?;
    Ok(cluster_path(cluster.id.as_str(), Some(action.path_segment()), organization))
}

/// The endpoint that asks the cluster answering to `name_or_id` to stop.
pub fn stop(clusters: &Vec<ClusterItem>, name_or_id: &str, organization: Option<&str>) -> (r: Result<
    String,
    ClusterError,
>)
    ensures
        r is Err <==> forall|j: int| 0 <= j < clusters.len() ==> !answers_to(clusters@[j], name_or_id@),
        r matches Err(e) ==> e matches ClusterError::NotFound { name_or_id: n } && n@ == name_or_id@,
        r matches Ok(p) ==> exists|i: int|
            0 <= i < clusters.len() && answers_to(clusters@[i], name_or_id@) && (forall|j: int|
                0 <= j < i ==> !answers_to(clusters@[j], name_or_id@)) && p@ == cluster_path_spec(
                clusters@[i].id@,
                Some("stop"@),
                opt_view(organization),
            ),
{
    request_lifecycle(clusters, name_or_id, organization, LifecycleAction::Stop)
}

/// The endpoint that asks the stopped cluster answering to `name_or_id` to resume.
pub fn resume(clusters: &Vec<ClusterItem>, name_or_id: &str, organization: Option<&str>) -> (r: Result<
    String,
    ClusterError,
>)
    ensures
        r is Err <==> forall|j: int| 0 <= j < clusters.len() ==> !answers_to(clusters@[j], name_or_id@),
        r matches Err(e) ==> e matches ClusterError::NotFound { name_or_id: n } && n@ == name_or_id@,
        r matches Ok(p) ==> exists|i: int|
            0 <= i < clusters.len() && answers_to(clusters@[i], name_or_id@) && (forall|j: int|
                0 <= j < i ==> !answers_to(clusters@[j], name_or_id@)) && p@ == cluster_path_spec(
                clusters@[i].id@,
                Some("resume"@),
                opt_view(organization),
            ),
{
    request_lifecycle(clusters, name_or_id, organization, LifecycleAction::Resume)
}

/// The endpoint that deletes the cluster answering to `name_or_id`.
pub fn delete_path(clusters: &Vec<ClusterItem>, name_or_id: &str, organization: Option<&str>) -> (r: Result<
    String,
    ClusterError,
>)
    ensures
        r is Err <==> forall|j: int| 0 <= j < clusters.len() ==> !answers_to(clusters@[j], name_or_id@),
        r matches Err(e) ==> e matches ClusterError::NotFound { name_or_id: n } && n@ == name_or_id@,
        r matches Ok(p) ==> exists|i: int|
            0 <= i < clusters.len() && answers_to(clusters@[i], name_or_id@) && (forall|j: int|
                0 <= j < i ==> !answers_to(clusters@[j], name_or_id@)) && p@ == cluster_path_spec(
                clusters@[i].id@,
                None,
                opt_view(organization),
            ),
{
    let cluster = resolve_cluster(clusters, name_or_id)?;
    Ok(cluster_path(cluster.id.as_str(), None, organization))
}

/// A phase name for people: underscores become spaces.
pub fn format_phase(phase: &str) -> (r: String)
    ensures
        r@ == replace_char_spec(phase@, '_', ' '),
{
    replace_char(phase, '_', ' ')
}

/// The idle timeout for people: `disabled` for zero, else `<n> minutes`.
pub fn format_idle_timeout(minutes: u64) -> (r: String)
    ensures
        minutes == 0 ==> r@ == "disabled"@,
        minutes > 0 ==> r@ == decimal(minutes as nat) + " minutes"@,
{
    if minutes == 0 {
        owned("disabled")
    } else {
        let mut s = String::new();
        push_decimal(&mut s, minutes);
        push_str(&mut s, " minutes");
        s
    }
}

/// What `chrono` makes of a creation timestamp: the instant in UTC to the
/// second, when the text parses as `%Y-%m-%d %H:%M:%S%.f%#z`.
pub uninterp spec fn created_at_utc(created_at: Seq<char>) -> Option<Seq<char>>;

/// `chrono::DateTime::parse_from_str` with `%Y-%m-%d %H:%M:%S%.f%#z`, converted
/// to UTC and formatted as `%Y-%m-%d %H:%M:%S UTC`.
#[verifier::external_body]
fn reformat_created_at(created_at: &str) -> (r: Option<String>)
    ensures
        opt_string_view_eq(r, created_at_utc(created_at@)),
{
    match chrono::DateTime::parse_from_str(created_at, "%Y-%m-%d %H:%M:%S%.f%#z") {
        Ok(ts) => Some(ts.with_timezone(&chrono::Utc).format("%Y-%m-%d %H:%M:%S UTC").to_string()),
        Err(_) => None,
    }
}

/// Whether an optional string has the given optional view.
pub open spec fn opt_string_view_eq(a: Option<String>, b: Option<Seq<char>>) -> bool {
    match (a, b) {
        (Some(x), Some(y)) => x@ == y,
        (None, None) => true,
        _ => false,
    }
}

/// A creation timestamp rendered in UTC to the second, or the text as it is
/// when it does not parse.
pub fn format_created_at(created_at: &str) -> (r: String)
    ensures
        r@ == (match created_at_utc(created_at@) {
            Some(t) => t,
            None => created_at@,
        }),
{
    created_at_text(reformat_created_at(created_at), created_at)
}

/// The creation time shown for a cluster: the UTC rendering when the
/// timestamp parsed, else the raw text.
pub fn created_at_text(utc: Option<String>, created_at: &str) -> (r: String)
    ensures
        r@ == (match utc {
            Some(t) => t@,
            None => created_at@,
        }),
{
    match utc {
        Some(t) => t,
        None => owned(created_at),
    }
}

/// The lines `cluster status` prints.
pub open spec fn cluster_status_lines_spec(c: ClusterItem) -> Seq<Seq<char>> {
    let base = seq![
        "Cluster: "@ + c.name@,
        "ID: "@ + c.id@,
        "Status: "@ + replace_char_spec(c.status.phase@, '_', ' '),
        "Ready: "@ + (if c.status.ready {
            "yes"@
        } else {
            "no"@
        }),
        "Idle timeout: "@ + idle_timeout_text(c.idle_timeout_minutes),
    ];
    match c.status.message {
        Some(m) => base.push("Message: "@ + m@),
        None => base,
    }
}

/// The Ready line of `cluster status`, the fourth, reads `Ready: yes` exactly
/// when the cluster reports itself ready and `Ready: no` otherwise, whatever
/// its phase, pause and resume abilities, idle timeout or message.
pub proof fn law_ready_line(c: ClusterItem)
    ensures
        cluster_status_lines_spec(c).len() >= 5,
        c.status.ready ==> cluster_status_lines_spec(c)[3] == "Ready: yes"@,
        !c.status.ready ==> cluster_status_lines_spec(c)[3] == "Ready: no"@,
{
    reveal_strlit("Ready: ");
    reveal_strlit("yes");
    reveal_strlit("no");
    reveal_strlit("Ready: yes");
    reveal_strlit("Ready: no");
    let lines = cluster_status_lines_spec(c);
    if c.status.ready {
        assert(lines[3] =~= "Ready: yes"@);
    } else {
        assert(lines[3] =~= "Ready: no"@);
    }
}

/// The idle timeout for people.
pub open spec fn idle_timeout_text(minutes: u64) -> Seq<char> {
    if minutes == 0 {
        "disabled"@
    } else {
        decimal(minutes as nat) + " minutes"@
    }
}

fn prefixed(label: &str, value: String) -> (r: String)
    ensures
        r@ == label@ + value@,
{
    let mut s = owned(label);
    push_str(&mut s, value.as_str());
    s
}

/// The lines `cluster status` prints for a cluster.
pub fn cluster_status_lines(c: &ClusterItem) -> (r: Vec<String>)
    ensures
        views(r@) == cluster_status_lines_spec(*c),
{
    let mut lines: Vec<String> = Vec::new();
    lines.push(prefixed("Cluster: ", c.name.clone()));
    lines.push(prefixed("ID: ", c.id.clone()));
    lines.push(prefixed("Status: ", format_phase(c.status.phase.as_str())));
    lines.push(prefixed("Ready: ", owned(if c.status.ready { "yes" } else { "no" })));
    lines.push(prefixed("Idle timeout: ", format_idle_timeout(c.idle_timeout_minutes)));
    if let Some(m) = &c.status.message {
        lines.push(prefixed("Message: ", m.clone()));
    }
    proof {
        assert(views(lines@) =~= cluster_status_lines_spec(*c));
    }
    lines
}

/// The lines printed once a cluster creation was accepted.
pub fn created_cluster_lines(c: &ClusterItem) -> (r: Vec<String>)
    ensures
        views(r@) == seq![
            "Cluster '"@ + c.name@ + "' creation accepted (status: "@ + replace_char_spec(
                c.status.phase@,
                '_',
                ' ',
            ) + ")."@,
            "Run `rtree cluster status "@ + c.name@ + "` to check provisioning progress."@,
        ],
{
    let mut first = owned("Cluster '");
    push_str(&mut first, c.name.as_str());
    push_str(&mut first, "' creation accepted (status: ");
    push_str(&mut first, format_phase(c.status.phase.as_str()).as_str());
    push_str(&mut first, ").");
    let mut second = owned("Run `rtree cluster status ");
    push_str(&mut second, c.name.as_str());
    push_str(&mut second, "` to check provisioning progress.");
    let mut lines: Vec<String> = Vec::new();
    lines.push(first);
    lines.push(second);
    proof {
        assert(views(lines@) =~= seq![
            "Cluster '"@ + c.name@ + "' creation accepted (status: "@ + replace_char_spec(
                c.status.phase@,
                '_',
                ' ',
            ) + ")."@,
            "Run `rtree cluster status "@ + c.name@ + "` to check provisioning progress."@,
        ]);
    }
    lines
}

/// The lines printed once a cluster's settings were updated.
pub fn updated_cluster_lines(c: &ClusterItem) -> (r: Vec<String>)
    ensures
        views(r@) == seq![
            "Cluster '"@ + c.name@ + "' settings updated."@,
            "Idle timeout: "@ + idle_timeout_text(c.idle_timeout_minutes),
        ],
{
    let mut first = owned("Cluster '");
    push_str(&mut first, c.name.as_str());
    push_str(&mut first, "' settings updated.");
    let mut lines: Vec<String> = Vec::new();
    lines.push(first);
    lines.push(prefixed("Idle timeout: ", format_idle_timeout(c.idle_timeout_minutes)));
    proof {
        assert(views(lines@) =~= seq![
            "Cluster '"@ + c.name@ + "' settings updated."@,
            "Idle timeout: "@ + idle_timeout_text(c.idle_timeout_minutes),
        ]);
    }
    lines
}

/// The lines printed once a lifecycle request was accepted.
pub fn lifecycle_lines(action: LifecycleAction, updated: &ClusterItem) -> (r: Vec<String>)
    ensures
        views(r@) == seq![
            action.label_spec() + " request accepted for cluster '"@ + updated.name@ + "' (status: "@
                + replace_char_spec(updated.status.phase@, '_', ' ') + ")."@,
            "Run `rtree cluster status "@ + updated.name@ + "` to check progress."@,
        ],
{
    let mut first = owned(action.label());
    push_str(&mut first, " request accepted for cluster '");
    push_str(&mut first, updated.name.as_str());
    push_str(&mut first, "' (status: ");
    push_str(&mut first, format_phase(updated.status.phase.as_str()).as_str());
    push_str(&mut first, ").");
    let mut second = owned("Run `rtree cluster status ");
    push_str(&mut second, updated.name.as_str());
    push_str(&mut second, "` to check progress.");
    let mut lines: Vec<String> = Vec::new();
    lines.push(first);
    lines.push(second);
    proof {
        assert(views(lines@) =~= seq![
            action.label_spec() + " request accepted for cluster '"@ + updated.name@ + "' (status: "@
                + replace_char_spec(updated.status.phase@, '_', ' ') + ")."@,
            "Run `rtree cluster status "@ + updated.name@ + "` to check progress."@,
        ]);
    }
    lines
}

/// The lines printed once a cluster deletion was accepted (nothing when the
/// server did not delete it).
pub fn deleted_cluster_lines(name: &str, deleted: bool) -> (r: Vec<String>)
    ensures
        !deleted ==> r.len() == 0,
        deleted ==> views(r@) == seq![
            "Delete request accepted for cluster '"@ + name@ + "'."@,
            "The cluster is removed from status listings while infrastructure cleanup continues asynchronously."@,
        ],
{
    let mut lines: Vec<String> = Vec::new();
    if deleted {
        let mut first = owned("Delete request accepted for cluster '");
        push_str(&mut first, name);
        push_str(&mut first, "'.");
        lines.push(first);
        lines.push(
            owned(
                "The cluster is removed from status listings while infrastructure cleanup continues asynchronously.",
            ),
        );
        proof {
            assert(views(lines@) =~= seq![
                "Delete request accepted for cluster '"@ + name@ + "'."@,
                "The cluster is removed from status listings while infrastructure cleanup continues asynchronously."@,
            ]);
        }
    }
    lines
}

/// The identifier of the first catalog size with the given CPU cores and
/// memory per replica, if any.
pub fn size_for_resources(sizes: &Vec<ClusterSizeItem>, cpu_cores: u32, memory_gib: u32) -> (r:
    Option<String>)
    ensures
        r is None <==> forall|j: int|
            0 <= j < sizes.len() ==> !(sizes@[j].cpu_cores == cpu_cores && sizes@[j].memory_gib
                == memory_gib),
        r matches Some(id) ==> exists|i: int|
            0 <= i < sizes.len() && sizes@[i].cpu_cores == cpu_cores && sizes@[i].memory_gib
                == memory_gib && id == sizes@[i].size && forall|j: int|
                0 <= j < i ==> !(sizes@[j].cpu_cores == cpu_cores && sizes@[j].memory_gib
                    == memory_gib),
{
    let mut i: usize = 0;
    while i < sizes.len()
        invariant
            i <= sizes.len(),
            forall|j: int|
                0 <= j < i ==> !(sizes@[j].cpu_cores == cpu_cores && sizes@[j].memory_gib
                    == memory_gib),
        decreases sizes.len() - i,
    {
        if sizes[i].cpu_cores == cpu_cores && sizes[i].memory_gib == memory_gib {
            return Some(sizes[i].size.clone());
        }
        i = i + 1;
    }
    None
}

} // verus!
