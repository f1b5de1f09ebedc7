//! Data ingestion: choosing the source, request paths, JSONL batching, and the
//! accounting of the streamed progress of a URL ingestion.
use vstd::prelude::*;

use crate::org::{database_scoped_path, database_scoped_path_spec};
use crate::text::{
    contains_char, decimal, eq_ignore_ascii_case, eq_ignore_ascii_case_spec, opt_string_view,
    opt_view, owned, push_char, push_decimal, push_str, starts_with, str_eq, trim, trim_end,
    trim_end_spec, trim_spec, views,
};
use crate::urlenc::{url_encode, url_encoded};

verus! {

/// Number of JSONL rows sent per request.
pub const BATCH_SIZE: usize = 5000;

/// What `Path::extension` gives for `path`, as text.
pub uninterp spec fn path_extension(path: Seq<char>) -> Option<Seq<char>>;

/// `std::path::Path::extension`: the part of the file name after its last `.`.
#[verifier::external_body]
fn extension_of(path: &str) -> (r: Option<String>)
    ensures
        opt_string_view(r) == path_extension(path@),
{
    match std::path::Path::new(path).extension() {
        Some(ext) => Some(ext.to_string_lossy().into_owned()),
        None => None,
    }
}

/// Whether a file is JSON Lines: its extension is `jsonl` in any ASCII case.
pub fn is_jsonl(path: &str) -> (r: bool)
    ensures
        r == (path_extension(path@) matches Some(ext) && eq_ignore_ascii_case_spec(ext, "jsonl"@)),
{
    let ext = extension_of(path);
    is_jsonl_extension(&ext)
}

/// Whether a file extension names JSON Lines: `jsonl` in any ASCII case.
pub fn is_jsonl_extension(ext: &Option<String>) -> (r: bool)
    ensures
        r == (ext matches Some(e) && eq_ignore_ascii_case_spec(e@, "jsonl"@)),
{
    match ext {
        Some(e) => eq_ignore_ascii_case(e.as_str(), "jsonl"),
        None => false,
    }
}

/// Errors of an insertion.
#[derive(Debug)]
pub enum InsertError {
    /// None of `--data`, `--file`, `--url` was given.
    NoSource,
    /// A JSONL file without any row.
    EmptyJsonl,
    /// An event line that is not valid JSON.
    InvalidEvent { line: String },
    /// A progress header whose payload is not valid JSON.
    InvalidHeaderEvent,
    /// The server reported a failure.
    Failed { query_id: Option<String>, message: String },
    /// The stream held no event.
    EmptyResponse,
    /// The stream ended before its outcome was known.
    NoDoneEvent,
    /// The row count does not fit in `usize`.
    CountTooLarge,
}

impl InsertError {
    /// The text of the error.
    pub open spec fn message_spec(&self) -> Seq<char> {
        match self {
            InsertError::NoSource => "provide exactly one of --data, --file, or --url"@,
            InsertError::EmptyJsonl => "JSONL file is empty"@,
            InsertError::InvalidEvent { line } => "invalid URL insert stream event: "@ + line@,
            InsertError::InvalidHeaderEvent =>
                "invalid URL insert stream event payload after X-ClickHouse-Progress:"@,
            InsertError::Failed { query_id, message } => match query_id {
                Some(q) => "URL insert failed (query_id: "@ + q@ + "): "@ + message@,
                None => "URL insert failed: "@ + message@,
            },
            InsertError::EmptyResponse => "empty response from URL insert endpoint"@,
            InsertError::NoDoneEvent => "URL insert stream ended without a done event"@,
            InsertError::CountTooLarge =>
                "inserted row count from stream exceeds supported platform size"@,
        }
    }

    /// The text of the error.
    pub fn message(&self) -> (r: String)
        ensures
            r@ == self.message_spec(),
    {
        match self {
            InsertError::NoSource => owned("provide exactly one of --data, --file, or --url"),
            InsertError::EmptyJsonl => owned("JSONL file is empty"),
            InsertError::InvalidEvent { line } => {
                let mut m = owned("invalid URL insert stream event: ");
                push_str(&mut m, line.as_str());
                m
            },
            InsertError::InvalidHeaderEvent => owned(
                "invalid URL insert stream event payload after X-ClickHouse-Progress:",
            ),
            InsertError::Failed { query_id, message } => match query_id {
                Some(q) => {
                    let mut m = owned("URL insert failed (query_id: ");
                    push_str(&mut m, q.as_str());
                    push_str(&mut m, "): ");
                    push_str(&mut m, message.as_str());
                    m
                },
                None => {
                    let mut m = owned("URL insert failed: ");
                    push_str(&mut m, message.as_str());
                    m
                },
            },
            InsertError::EmptyResponse => owned("empty response from URL insert endpoint"),
            InsertError::NoDoneEvent => owned("URL insert stream ended without a done event"),
            InsertError::CountTooLarge => owned(
                "inserted row count from stream exceeds supported platform size",
            ),
        }
    }
}

/// Where the rows of an insertion come from.
#[derive(Debug, PartialEq, Eq, Structural)]
pub enum InsertSource {
    /// `--data`: inline JSON.
    Inline,
    /// `--url`: the server fetches a public URL.
    Url,
    /// `--file` with a `.jsonl` name: streamed in batches.
    JsonlFile,
    /// `--file` otherwise: one JSON document.
    JsonFile,
}

/// The source of an insertion: inline data first, then a URL, then a file.
pub fn insert_source(data: Option<&str>, file: Option<&str>, url: Option<&str>) -> (r: Result<
    InsertSource,
    InsertError,
>)
    ensures
        data is Some ==> r == Ok::<InsertSource, InsertError>(InsertSource::Inline),
        data is None && url is Some ==> r == Ok::<InsertSource, InsertError>(InsertSource::Url),
        data is None && url is None && file is None ==> (r matches Err(e) && e is NoSource),
        data is None && url is None ==> (file matches Some(f) ==> r == Ok::<
            InsertSource,
            InsertError,
        >(
            if (path_extension(f@) matches Some(ext) && eq_ignore_ascii_case_spec(ext, "jsonl"@)) {
                InsertSource::JsonlFile
            } else {
                InsertSource::JsonFile
            },
        )),
{
    if data.is_some() {
        return Ok(InsertSource::Inline);
    }
    if url.is_some() {
        return Ok(InsertSource::Url);
    }
    match file {
        Some(path) => if is_jsonl(path) {
            Ok(InsertSource::JsonlFile)
        } else {
            Ok(InsertSource::JsonFile)
        },
        None => Err(InsertError::NoSource),
    }
}

/// `path` with `transform=<encoded name>` added to its query.
pub open spec fn with_transform_spec(path: Seq<char>, transform: Option<Seq<char>>) -> Seq<char> {
    match transform {
        Some(t) => path.push(if path.contains('?') { '&' } else { '?' }) + "transform="@
            + url_encoded(t),
        None => path,
    }
}

/// Adds the transform to apply to the inserted rows, when one is given.
pub fn append_transform_param(path: &str, transform: Option<&str>) -> (r: String)
    ensures
        r@ == with_transform_spec(path@, opt_view(transform)),
{
    match transform {
        Some(t) => {
            let mut p = owned(path);
            let sep = if contains_char(path, '?') {
                '&'
            } else {
                '?'
            };
            push_char(&mut p, sep);
            push_str(&mut p, "transform=");
            let enc = url_encode(t);
            push_str(&mut p, enc.as_str());
            p
        },
        None => owned(path),
    }
}

/// The insertion endpoint of a table, with the transform when one is given.
pub fn insert_api_path(
    database: &str,
    organization: Option<&str>,
    cluster: Option<&str>,
    table: &str,
    transform: Option<&str>,
) -> (r: String)
    ensures
        r@ == with_transform_spec(
            database_scoped_path_spec(
                database@,
                "/tables/"@ + table@,
                opt_view(organization),
                opt_view(cluster),
            ),
            opt_view(transform),
        ),
{
    let mut suffix = owned("/tables/");
    push_str(&mut suffix, table);
    let base = database_scoped_path(database, suffix.as_str(), organization, cluster);
    append_transform_param(base.as_str(), transform)
}

/// The endpoint that makes the server ingest a public URL into a table.
pub fn build_url_ingest_path(
    database: &str,
    organization: Option<&str>,
    cluster: Option<&str>,
    table: &str,
    url: &str,
) -> (r: String)
    ensures
        r@ == database_scoped_path_spec(
            database@,
            "/tables/"@ + table@ + "?url="@ + url_encoded(url@),
            opt_view(organization),
            opt_view(cluster),
        ),
{
    let encoded_url = url_encode(url);
    let mut suffix = owned("/tables/");
    push_str(&mut suffix, table);
    push_str(&mut suffix, "?url=");
    push_str(&mut suffix, encoded_url.as_str());
    database_scoped_path(database, suffix.as_str(), organization, cluster)
}

/// The elements of `parts` separated by `sep`.
pub open spec fn join_spec(parts: Seq<Seq<char>>, sep: char) -> Seq<char>
    decreases parts.len(),
{
    if parts.len() == 0 {
        seq![]
    } else if parts.len() == 1 {
        parts[0]
    } else {
        join_spec(parts.drop_last(), sep).push(sep) + parts.last()
    }
}

/// Fills `body` with a JSON array of the given (already JSON) rows.
pub fn build_body_into(body: &mut String, lines: &Vec<String>)
    ensures
        final(body)@ == seq!['['] + join_spec(views(lines@), ',') + seq![']'],
{
    *body = String::new();
    push_char(body, '[');
    let mut i: usize = 0;
    while i < lines.len()
        invariant
            i <= lines.len(),
            body@ == seq!['['] + join_spec(views(lines@.take(i as int)), ','),
        decreases lines.len() - i,
    {
        let ghost before = body@;
        if i > 0 {
            push_char(body, ',');
        }
        push_str(body, lines[i].as_str());
        proof {
            let p = views(lines@.take(i + 1));
            assert(p.drop_last() =~= views(lines@.take(i as int)));
            assert(p.last() == lines@[i as int]@);
            if i == 0 {
                assert(p.len() == 1);
                assert(body@ =~= seq!['['] + join_spec(p, ','));
            } else {
                assert(body@ =~= seq!['['] + join_spec(p, ','));
            }
        }
        i = i + 1;
    }
    push_char(body, ']');
    proof {
        assert(lines@.take(lines.len() as int) =~= lines@);
    }
}

/// Groups the rows of a JSONL file into batches of `BATCH_SIZE`, skipping
/// blank lines and trailing whitespace.
pub struct JsonlBatcher {
    pub current: Vec<String>,
    /// Whether any row has been accepted.
    pub saw_row: bool,
    /// Every row accepted so far.
    pub accepted: Ghost<Seq<Seq<char>>>,
    /// Every batch handed out so far.
    pub sent: Ghost<Seq<Seq<Seq<char>>>>,
}

/// The batches one after the other.
pub open spec fn flatten(batches: Seq<Seq<Seq<char>>>) -> Seq<Seq<char>>
    decreases batches.len(),
{
    if batches.len() == 0 {
        seq![]
    } else {
        flatten(batches.drop_last()) + batches.last()
    }
}

impl JsonlBatcher {
    /// Rows are neither lost nor reordered: the batches handed out, followed by
    /// the pending rows, are exactly the accepted rows; every batch handed out
    /// is full, and the pending rows never fill one.
    pub open spec fn wf(&self) -> bool {
        &&& flatten(self.sent@) + views(self.current@) == self.accepted@
        &&& forall|i: int| 0 <= i < self.sent@.len() ==> #[trigger] self.sent@[i].len() == BATCH_SIZE
        &&& self.current@.len() < BATCH_SIZE
        &&& self.saw_row == (self.accepted@.len() > 0)
    }

    /// Whether any row has been accepted.
    pub open spec fn has_rows(&self) -> bool {
        self.accepted@.len() > 0
    }

    /// A batcher that has accepted nothing.
    pub fn new() -> (r: Self)
        ensures
            r.wf(),
            r.accepted@.len() == 0,
            r.sent@.len() == 0,
    {
        let r = JsonlBatcher {
            current: Vec::new(),
            saw_row: false,
            accepted: Ghost(Seq::empty()),
            sent: Ghost(Seq::empty()),
        };
        assert(flatten(r.sent@) + views(r.current@) =~= r.accepted@);
        r
    }

    /// Takes one line of the file; hands out a full batch when this row fills one.
    pub fn push_line(&mut self, line: &str) -> (r: Option<Vec<String>>)
        requires
            old(self).wf(),
        ensures
            final(self).wf(),
            trim_end_spec(line@).len() == 0 ==> r is None && final(self).accepted@ == old(
                self,
            ).accepted@ && final(self).sent@ == old(self).sent@,
            trim_end_spec(line@).len() > 0 ==> final(self).accepted@ == old(self).accepted@.push(
                trim_end_spec(line@),
            ),
            r matches Some(b) ==> final(self).sent@ == old(self).sent@.push(views(b@)),
            r is None ==> final(self).sent@ == old(self).sent@,
    {
        let trimmed = trim_end(line);
        if trimmed.as_str().is_empty() {
            return None;
        }
        let ghost old_current = views(self.current@);
        self.current.push(trimmed);
        self.saw_row = true;
        self.accepted = Ghost(self.accepted@.push(trim_end_spec(line@)));
        proof {
            assert(views(self.current@) =~= old_current.push(trim_end_spec(line@)));
            assert(flatten(self.sent@) + views(self.current@) =~= self.accepted@);
        }
        if self.current.len() >= BATCH_SIZE {
            let mut batch: Vec<String> = Vec::new();
            std::mem::swap(&mut batch, &mut self.current);
            self.sent = Ghost(self.sent@.push(views(batch@)));
            proof {
                let s = self.sent@;
                assert(s.drop_last() =~= old(self).sent@);
                assert(flatten(s) =~= flatten(old(self).sent@) + views(batch@));
                assert(views(self.current@) =~= Seq::<Seq<char>>::empty());
                assert(flatten(self.sent@) + views(self.current@) =~= self.accepted@);
            }
            return Some(batch);
        }
        None
    }

    /// The last, partial batch, if any rows are pending.
    pub fn finish(self) -> (r: Option<Vec<String>>)
        requires
            self.wf(),
        ensures
            r is None ==> flatten(self.sent@) == self.accepted@,
            r matches Some(b) ==> flatten(self.sent@.push(views(b@))) == self.accepted@ && 0 < b.len()
                < BATCH_SIZE,
    {
        if self.current.len() == 0 {
            assert(views(self.current@) =~= Seq::<Seq<char>>::empty());
            assert(flatten(self.sent@) =~= self.accepted@);
            None
        } else {
            proof {
                assert(self.sent@.push(views(self.current@)).drop_last() =~= self.sent@);
            }
            Some(self.current)
        }
    }
}

/// One event of a URL ingestion stream.
#[derive(Debug)]
pub struct UrlInsertEvent {
    pub event_type: Option<String>,
    pub query_id: Option<String>,
    pub written_rows: Option<u64>,
    pub written_bytes: Option<u64>,
    pub read_rows: Option<u64>,
    pub read_bytes: Option<u64>,
    pub total_rows_to_read: Option<u64>,
    pub elapsed_ms: Option<u64>,
    pub elapsed_ns: Option<u64>,
    pub memory_usage: Option<u64>,
    pub message: Option<String>,
    pub inserted: Option<usize>,
}

/// The first of two optional values that is present.
pub open spec fn or_spec<T>(a: Option<T>, b: Option<T>) -> Option<T> {
    if a is Some {
        a
    } else {
        b
    }
}

impl UrlInsertEvent {
    /// Rows written, else rows read.
    pub open spec fn rows_spec(&self) -> Option<u64> {
        or_spec(self.written_rows, self.read_rows)
    }

    /// Bytes written, else bytes read.
    pub open spec fn bytes_spec(&self) -> Option<u64> {
        or_spec(self.written_bytes, self.read_bytes)
    }

    /// Elapsed milliseconds, from `elapsed_ms` or else `elapsed_ns`.
    pub open spec fn elapsed_spec(&self) -> Option<u64> {
        match self.elapsed_ms {
            Some(ms) => Some(ms),
            None => match self.elapsed_ns {
                Some(ns) => Some((ns / 1_000_000) as u64),
                None => None,
            },
        }
    }

    /// Whether the event's type is `t`.
    pub open spec fn has_type(&self, t: Seq<char>) -> bool {
        self.event_type matches Some(et) && et@ == t
    }

    /// The rows the event reports: written rows, else read rows.
    pub fn effective_rows(&self) -> (r: Option<u64>)
        ensures
            r == self.rows_spec(),
    {
        match self.written_rows {
            Some(n) => Some(n),
            None => self.read_rows,
        }
    }

    /// The bytes the event reports: written bytes, else read bytes.
    pub fn effective_bytes(&self) -> (r: Option<u64>)
        ensures
            r == self.bytes_spec(),
    {
        match self.written_bytes {
            Some(n) => Some(n),
            None => self.read_bytes,
        }
    }

    fn effective_elapsed_ms(&self) -> (r: Option<u64>)
        ensures
            r == self.elapsed_spec(),
    {
        match self.elapsed_ms {
            Some(ms) => Some(ms),
            None => match self.elapsed_ns {
                Some(ns) => Some(ns / 1_000_000),
                None => None,
            },
        }
    }
}

/// The marker of a native progress header line.
pub open spec fn progress_header() -> Seq<char> {
    "X-ClickHouse-Progress:"@
}

/// The JSON payload of a (trimmed, non-empty) stream line and whether the line
/// is a native progress header.
pub fn split_event_line(trimmed: &str) -> (r: (String, bool))
    ensures
        r.1 == (progress_header().len() <= trimmed@.len() && trimmed@.take(
            progress_header().len() as int,
        ) == progress_header()),
        r.1 ==> r.0@ == trim_spec(trimmed@.skip(progress_header().len() as int)),
        !r.1 ==> r.0@ == trimmed@,
{
    if starts_with(trimmed, "X-ClickHouse-Progress:") {
        proof {
            reveal_strlit("X-ClickHouse-Progress:");
        }
        let n = trimmed.unicode_len();
        let rest = trimmed.substring_char(22, n);
        (trim(rest), true)
    } else {
        (owned(trimmed), false)
    }
}

/// A parsed event with its type filled in: native headers are progress, and so
/// is an untyped plain event that reports rows, bytes or a row total (but not a
/// legacy `inserted` count). The flag tells whether the event counts as native
/// progress.
pub open spec fn normalized_type(event: UrlInsertEvent, is_header: bool) -> (Option<Seq<char>>, bool) {
    if is_header {
        (
            match event.event_type {
                Some(t) => Some(t@),
                None => Some("progress"@),
            },
            true,
        )
    } else if event.event_type is None && event.inserted is None && (event.rows_spec() is Some
        || event.bytes_spec() is Some || event.total_rows_to_read is Some) {
        (Some("progress"@), true)
    } else {
        (opt_string_view(event.event_type), false)
    }
}

/// Fills in the type of a parsed stream event.
pub fn normalize_url_insert_event(event: UrlInsertEvent, is_header: bool) -> (r: (
    UrlInsertEvent,
    bool,
))
    ensures
        (opt_string_view(r.0.event_type), r.1) == normalized_type(event, is_header),
        r.0.query_id == event.query_id,
        r.0.written_rows == event.written_rows,
        r.0.written_bytes == event.written_bytes,
        r.0.read_rows == event.read_rows,
        r.0.read_bytes == event.read_bytes,
        r.0.total_rows_to_read == event.total_rows_to_read,
        r.0.elapsed_ms == event.elapsed_ms,
        r.0.elapsed_ns == event.elapsed_ns,
        r.0.memory_usage == event.memory_usage,
        r.0.message == event.message,
        r.0.inserted == event.inserted,
{
    let mut event = event;
    if is_header {
        if event.event_type.is_none() {
            event.event_type = Some(owned("progress"));
        }
        return (event, true);
    }
    if event.event_type.is_none() && event.inserted.is_none() && (event.effective_rows().is_some()
        || event.effective_bytes().is_some() || event.total_rows_to_read.is_some()) {
        event.event_type = Some(owned("progress"));
        return (event, true);
    }
    (event, false)
}

/// What the progress display shows after an event.
#[derive(Debug)]
#[allow(inconsistent_fields)]
pub enum ProgressDisplay {
    /// Leave the display as it is.
    Unchanged,
    /// The stream started: zero rows.
    Started,
    /// Progress so far.
    Progress { rows: u64, bytes: Option<u64>, elapsed_ms: Option<u64> },
    /// The final figures, when rows are known.
    Done { rows: Option<u64>, bytes: Option<u64>, elapsed_ms: Option<u64> },
}

/// The accounting of a URL ingestion stream, event by event.
#[derive(Debug)]
pub struct UrlInsertStream {
    pub saw_any: bool,
    pub saw_done: bool,
    pub saw_native_progress: bool,
    pub query_id: Option<String>,
    pub done_rows: Option<u64>,
    pub done_bytes: Option<u64>,
    pub last_progress_rows: Option<u64>,
    pub last_progress_bytes: Option<u64>,
    pub elapsed_ms: Option<u64>,
    pub last_progress_elapsed_ms: Option<u64>,
    pub legacy_inserted: Option<usize>,
}

/// The outcome of a finished URL ingestion.
#[derive(Debug)]
pub struct UrlInsertSummary {
    pub inserted: usize,
    pub processed_bytes: Option<u64>,
    pub query_id: Option<String>,
    pub elapsed_ms: Option<u64>,
}

/// The state before any event.
pub open spec fn initial_stream() -> UrlInsertStream {
    UrlInsertStream {
        saw_any: false,
        saw_done: false,
        saw_native_progress: false,
        query_id: None,
        done_rows: None,
        done_bytes: None,
        last_progress_rows: None,
        last_progress_bytes: None,
        elapsed_ms: None,
        last_progress_elapsed_ms: None,
        legacy_inserted: None,
    }
}

/// The query id, kept from the first event that carries one.
pub open spec fn keep_query_id(s: UrlInsertStream, e: UrlInsertEvent) -> Option<String> {
    if s.query_id is Some {
        s.query_id
    } else {
        e.query_id
    }
}

/// The state after one (normalized) event, or the failure an error event reports.
pub open spec fn step_spec(s: UrlInsertStream, e: UrlInsertEvent, native: bool) -> Result<
    UrlInsertStream,
    (Option<String>, Option<String>),
> {
    let s1 = UrlInsertStream {
        saw_any: true,
        saw_native_progress: s.saw_native_progress || native,
        ..s
    };
    if e.inserted is Some {
        Ok(UrlInsertStream { legacy_inserted: e.inserted, ..s1 })
    } else if e.has_type("started"@) {
        Ok(UrlInsertStream { query_id: keep_query_id(s1, e), ..s1 })
    } else if e.has_type("progress"@) {
        let s2 = UrlInsertStream { query_id: keep_query_id(s1, e), ..s1 };
        match e.rows_spec() {
            Some(rows) => Ok(
                UrlInsertStream {
                    last_progress_rows: Some(rows),
                    last_progress_bytes: or_spec(e.bytes_spec(), s2.last_progress_bytes),
                    last_progress_elapsed_ms: or_spec(e.elapsed_spec(), s2.last_progress_elapsed_ms),
                    ..s2
                },
            ),
            None => Ok(s2),
        }
    } else if e.has_type("done"@) {
        Ok(
            UrlInsertStream {
                saw_done: true,
                query_id: keep_query_id(s1, e),
                done_rows: or_spec(e.rows_spec(), s1.last_progress_rows),
                done_bytes: or_spec(e.bytes_spec(), s1.last_progress_bytes),
                elapsed_ms: or_spec(e.elapsed_spec(), s1.last_progress_elapsed_ms),
                ..s1
            },
        )
    } else if e.has_type("error"@) {
        Err((e.query_id, e.message))
    } else {
        Ok(s1)
    }
}

/// The state after a whole sequence of (normalized) events, or the first failure.
pub open spec fn run_spec(events: Seq<(UrlInsertEvent, bool)>) -> Result<
    UrlInsertStream,
    (Option<String>, Option<String>),
>
    decreases events.len(),
{
    if events.len() == 0 {
        Ok(initial_stream())
    } else {
        match run_spec(events.drop_last()) {
            Ok(s) => step_spec(s, events.last().0, events.last().1),
            Err(f) => Err(f),
        }
    }
}

/// The outcome of a stream in state `s` once it ends: a legacy count wins;
/// otherwise the stream must have held events and must have finished (a done
/// event, or native progress that reported rows). The row count is the done
/// event's, else the last progress rows.
pub open spec fn summary_spec(s: UrlInsertStream) -> Result<
    (nat, Option<u64>, Option<String>, Option<u64>),
    InsertErrorKind,
> {
    match s.legacy_inserted {
        Some(n) => Ok((n as nat, None, None, None)),
        None => if !s.saw_any {
            Err(InsertErrorKind::EmptyResponse)
        } else if !s.saw_done && !(s.saw_native_progress && s.last_progress_rows is Some) {
            Err(InsertErrorKind::NoDoneEvent)
        } else {
            let rows: u64 = match or_spec(s.done_rows, s.last_progress_rows) {
                Some(r) => r,
                None => 0,
            };
            if rows > usize::MAX {
                Err(InsertErrorKind::CountTooLarge)
            } else {
                Ok(
                    (
                        rows as nat,
                        or_spec(s.done_bytes, s.last_progress_bytes),
                        s.query_id,
                        or_spec(s.elapsed_ms, s.last_progress_elapsed_ms),
                    ),
                )
            }
        },
    }
}

/// The kind of an error that ends a finished stream.
pub enum InsertErrorKind {
    EmptyResponse,
    NoDoneEvent,
    CountTooLarge,
}

impl UrlInsertStream {
    /// A stream before any event.
    pub fn new() -> (r: Self)
        ensures
            r == initial_stream(),
    {
        UrlInsertStream {
            saw_any: false,
            saw_done: false,
            saw_native_progress: false,
            query_id: None,
            done_rows: None,
            done_bytes: None,
            last_progress_rows: None,
            last_progress_bytes: None,
            elapsed_ms: None,
            last_progress_elapsed_ms: None,
            legacy_inserted: None,
        }
    }

    fn adopt_query_id(&mut self, query_id: &Option<String>)
        ensures
            final(self).query_id == (if old(self).query_id is Some {
                old(self).query_id
            } else {
                *query_id
            }),
            final(self).saw_any == old(self).saw_any,
            final(self).saw_done == old(self).saw_done,
            final(self).saw_native_progress == old(self).saw_native_progress,
            final(self).done_rows == old(self).done_rows,
            final(self).done_bytes == old(self).done_bytes,
            final(self).last_progress_rows == old(self).last_progress_rows,
            final(self).last_progress_bytes == old(self).last_progress_bytes,
            final(self).elapsed_ms == old(self).elapsed_ms,
            final(self).last_progress_elapsed_ms == old(self).last_progress_elapsed_ms,
            final(self).legacy_inserted == old(self).legacy_inserted,
    {
        if self.query_id.is_none() {
            self.query_id = match query_id {
                Some(q) => Some(q.clone()),
                None => None,
            };
        }
    }

    /// Accounts for one (normalized) event; `native` tells whether it counts as
    /// native progress. An error event ends the stream with the server's message.
    pub fn observe(&mut self, event: UrlInsertEvent, native: bool) -> (r: Result<
        ProgressDisplay,
        InsertError,
    >)
        ensures
            match step_spec(*old(self), event, native) {
                Ok(s) => r is Ok && *final(self) == s,
                Err((q, m)) => r matches Err(InsertError::Failed { query_id, message }) && query_id
                    == q && (m matches Some(mm) ==> message == mm) && (m is None ==> message@
                    == "URL insert failed"@),
            },
            r matches Ok(ProgressDisplay::Progress { rows, bytes, elapsed_ms }) ==> Some(rows)
                == final(self).last_progress_rows && bytes == final(self).last_progress_bytes
                && elapsed_ms == final(self).last_progress_elapsed_ms,
            r matches Ok(ProgressDisplay::Done { rows, bytes, elapsed_ms }) ==> rows == final(self).done_rows && bytes == final(self).done_bytes && elapsed_ms == final(self).elapsed_ms,
    {
        self.saw_any = true;
        if native {
            self.saw_native_progress = true;
        }
        if let Some(inserted) = event.inserted {
            self.legacy_inserted = Some(inserted);
            return Ok(ProgressDisplay::Unchanged);
        }
        let event_elapsed_ms = event.effective_elapsed_ms();
        let kind = match &event.event_type {
            Some(t) => if str_eq(t.as_str(), "started") {
                1u8
            } else if str_eq(t.as_str(), "progress") {
                2u8
            } else if str_eq(t.as_str(), "done") {
                3u8
            } else if str_eq(t.as_str(), "error") {
                4u8
            } else {
                0u8
            },
            None => 0u8,
        };
        proof {
            reveal_strlit("started");
            reveal_strlit("progress");
            reveal_strlit("done");
            reveal_strlit("error");
        }
        if kind == 1 {
            self.adopt_query_id(&event.query_id);
            Ok(ProgressDisplay::Started)
        } else if kind == 2 {
            self.adopt_query_id(&event.query_id);
            match event.effective_rows() {
                Some(rows) => {
                    let progress_bytes = match event.effective_bytes() {
                        Some(b) => Some(b),
                        None => self.last_progress_bytes,
                    };
                    let progress_elapsed_ms = match event_elapsed_ms {
                        Some(ms) => Some(ms),
                        None => self.last_progress_elapsed_ms,
                    };
                    self.last_progress_rows = Some(rows);
                    self.last_progress_bytes = progress_bytes;
                    self.last_progress_elapsed_ms = progress_elapsed_ms;
                    Ok(
                        ProgressDisplay::Progress {
                            rows,
                            bytes: progress_bytes,
                            elapsed_ms: progress_elapsed_ms,
                        },
                    )
                },
                None => Ok(ProgressDisplay::Unchanged),
            }
        } else if kind == 3 {
            self.saw_done = true;
            self.adopt_query_id(&event.query_id);
            self.done_rows = match event.effective_rows() {
                Some(r) => Some(r),
                None => self.last_progress_rows,
            };
            self.done_bytes = match event.effective_bytes() {
                Some(b) => Some(b),
                None => self.last_progress_bytes,
            };
            self.elapsed_ms = match event_elapsed_ms {
                Some(ms) => Some(ms),
                None => self.last_progress_elapsed_ms,
            };
            Ok(
                ProgressDisplay::Done {
                    rows: self.done_rows,
                    bytes: self.done_bytes,
                    elapsed_ms: self.elapsed_ms,
                },
            )
        } else if kind == 4 {
            let message = match event.message {
                Some(m) => m,
                None => owned("URL insert failed"),
            };
            Err(InsertError::Failed { query_id: event.query_id, message })
        } else {
            Ok(ProgressDisplay::Unchanged)
        }
    }

    /// The outcome once the stream has ended.
    pub fn finish(&self) -> (r: Result<UrlInsertSummary, InsertError>)
        ensures
            match summary_spec(*self) {
                Ok((n, b, q, e)) => r matches Ok(s) && s.inserted as nat == n && s.processed_bytes
                    == b && s.query_id == q && s.elapsed_ms == e,
                Err(InsertErrorKind::EmptyResponse) => r matches Err(e) && e is EmptyResponse,
                Err(InsertErrorKind::NoDoneEvent) => r matches Err(e) && e is NoDoneEvent,
                Err(InsertErrorKind::CountTooLarge) => r matches Err(e) && e is CountTooLarge,
            },
    {
        if let Some(inserted) = self.legacy_inserted {
            return Ok(
                UrlInsertSummary {
                    inserted,
                    processed_bytes: None,
                    query_id: None,
                    elapsed_ms: None,
                },
            );
        }
        if !self.saw_any {
            return Err(InsertError::EmptyResponse);
        }
        if !self.saw_done && !(self.saw_native_progress && self.last_progress_rows.is_some()) {
            return Err(InsertError::NoDoneEvent);
        }
        let rows: u64 = match self.done_rows {
            Some(r) => r,
            None => match self.last_progress_rows {
                Some(r) => r,
                None => 0,
            },
        };
        if rows > usize::MAX as u64 {
            return Err(InsertError::CountTooLarge);
        }
        Ok(
            UrlInsertSummary {
                inserted: rows as usize,
                processed_bytes: match self.done_bytes {
                    Some(b) => Some(b),
                    None => self.last_progress_bytes,
                },
                query_id: match &self.query_id {
                    Some(q) => Some(q.clone()),
                    None => None,
                },
                elapsed_ms: match self.elapsed_ms {
                    Some(e) => Some(e),
                    None => self.last_progress_elapsed_ms,
                },
            },
        )
    }
}

/// The payload of one line of a URL ingestion stream: `None` for a blank
/// line, else the JSON text and whether the line is a native progress header.
pub fn stream_line_payload(line: &str) -> (r: Option<(String, bool)>)
    ensures
        r is None <==> trim_spec(line@).len() == 0,
        r matches Some((payload, header)) ==> {
            let t = trim_spec(line@);
            &&& header == (progress_header().len() <= t.len() && t.take(
                progress_header().len() as int,
            ) == progress_header())
            &&& header ==> payload@ == trim_spec(t.skip(progress_header().len() as int))
            &&& !header ==> payload@ == t
        },
{
    let t = trim(line);
    if t.as_str().unicode_len() == 0 {
        None
    } else {
        Some(split_event_line(t.as_str()))
    }
}

/// An error event ends a stream: once a prefix of the events has failed, the
/// whole sequence fails with the same query id and message, whatever follows.
pub proof fn law_error_ends_stream(events: Seq<(UrlInsertEvent, bool)>, k: int)
    requires
        0 <= k <= events.len(),
        run_spec(events.take(k)) is Err,
    ensures
        run_spec(events) == run_spec(events.take(k)),
    decreases events.len() - k,
{
    if k < events.len() {
        assert(events.take(k + 1).drop_last() =~= events.take(k));
        law_error_ends_stream(events, k + 1);
    } else {
        assert(events.take(k) =~= events);
    }
}

/// The outcome of a whole URL ingestion stream of parsed, normalized events:
/// the first error event fails it; otherwise it is summed up once it ends.
pub fn consume_url_insert_events(events: Vec<(UrlInsertEvent, bool)>) -> (r: Result<
    UrlInsertSummary,
    InsertError,
>)
    ensures
        match run_spec(events@) {
            Err((q, m)) => r matches Err(InsertError::Failed { query_id, message }) && query_id
                == q && (m matches Some(mm) ==> message == mm) && (m is None ==> message@
                == "URL insert failed"@),
            Ok(s) => match summary_spec(s) {
                Ok((n, b, q, e)) => r matches Ok(sum) && sum.inserted as nat == n
                    && sum.processed_bytes == b && sum.query_id == q && sum.elapsed_ms == e,
                Err(InsertErrorKind::EmptyResponse) => r matches Err(e) && e is EmptyResponse,
                Err(InsertErrorKind::NoDoneEvent) => r matches Err(e) && e is NoDoneEvent,
                Err(InsertErrorKind::CountTooLarge) => r matches Err(e) && e is CountTooLarge,
            },
        },
{
    let ghost all = events@;
    let mut rest = events;
    let mut pending: Vec<(UrlInsertEvent, bool)> = Vec::new();
    while rest.len() > 0
        invariant
            all.len() == rest.len() + pending.len(),
            rest@ == all.take(rest.len() as int),
            forall|j: int|
                0 <= j < pending.len() ==> #[trigger] pending@[j] == all[all.len() - 1 - j],
        decreases rest.len(),
    {
        let e = rest.pop().unwrap();
        pending.push(e);
    }
    let mut stream = UrlInsertStream::new();
    let mut k: usize = 0;
    while pending.len() > 0
        invariant
            k + pending.len() == all.len(),
            all == events@,
            all.len() == events.len(),
            forall|j: int|
                0 <= j < pending.len() ==> #[trigger] pending@[j] == all[all.len() - 1 - j],
            run_spec(all.take(k as int)) == Ok::<UrlInsertStream, (Option<String>, Option<String>)>(
                stream,
            ),
        decreases pending.len(),
    {
        let (event, native) = pending.pop().unwrap();
        proof {
            assert(all.take(k + 1).drop_last() =~= all.take(k as int));
            assert(all.take(k + 1).last() == all[k as int]);
        }
        match stream.observe(event, native) {
            Ok(_) => {},
            Err(e) => {
                proof {
                    law_error_ends_stream(all, k + 1);
                }
                return Err(e);
            },
        }
        k = k + 1;
    }
    proof {
        assert(all.take(k as int) =~= all);
    }
    stream.finish()
}

/// The legacy row count of the last event that carries one.
pub open spec fn last_legacy_count(events: Seq<(UrlInsertEvent, bool)>) -> Option<usize>
    decreases events.len(),
{
    if events.len() == 0 {
        None
    } else if events.last().0.inserted is Some {
        events.last().0.inserted
    } else {
        last_legacy_count(events.drop_last())
    }
}

proof fn lemma_run_keeps_legacy(events: Seq<(UrlInsertEvent, bool)>)
    requires
        run_spec(events) is Ok,
    ensures
        run_spec(events)->Ok_0.legacy_inserted == last_legacy_count(events),
        events.len() > 0 ==> run_spec(events)->Ok_0.saw_any,
    decreases events.len(),
{
    if events.len() > 0 {
        lemma_run_keeps_legacy(events.drop_last());
    }
}

/// A legacy `inserted` count settles the outcome: when a stream that did not
/// fail carried one, it succeeds with the last such count, whatever the
/// progress and done events said.
pub proof fn law_legacy_count_wins(events: Seq<(UrlInsertEvent, bool)>)
    requires
        run_spec(events) is Ok,
        last_legacy_count(events) is Some,
    ensures
        summary_spec(run_spec(events)->Ok_0) == Ok::<
            (nat, Option<u64>, Option<String>, Option<u64>),
            InsertErrorKind,
        >((last_legacy_count(events)->0 as nat, None, None, None)),
{
    lemma_run_keeps_legacy(events);
}

} // verus!
