//! Request logs: relative durations, the time window of a query, the query
//! string of the log search, and the one-line rendering of a log entry.
use vstd::prelude::*;

use crate::text::{
    all_digits, char_len_utf8, char_utf8_len, collapse_whitespace, collapse_ws, decimal, is_digit,
    is_ws, join_strings, lemma_decimal_digits, lemma_utf8_len_concat, leading_ws, trailing_ws,
    join_with, lex_lt, opt_view, owned, pad_left_spec, pad_right_spec, parse_i64, parse_i64_spec,
    push_char, push_decimal, push_padded_left, push_padded_right, push_str, str_lt,
    string_from_chars, trim, trim_spec, utf8_len, views,
};
use crate::urlenc::{url_encode, url_encoded};

verus! {

/// The earliest instant `chrono` represents (January 1 of year -262143, 00:00:00
/// UTC), in seconds since the Unix epoch.
pub const MIN_UTC_SECS: i64 = -8334601228800;

/// The latest instant `chrono` represents, in seconds since the Unix epoch.
pub const MAX_UTC_SECS: i64 = 8210266876799;

/// The longest duration `chrono` represents, in seconds (`i64::MAX` milliseconds).
pub const MAX_DURATION_SECS: i64 = 9223372036854775;

/// The text `chrono` formats an instant as with `%Y-%m-%dT%H:%M:%SZ`.
pub uninterp spec fn utc_text(secs: i64) -> Seq<char>;

/// `chrono::DateTime::from_timestamp(secs, 0)` formatted as `%Y-%m-%dT%H:%M:%SZ`;
/// the format ends with the literal `Z`, so the text does too.
#[verifier::external_body]
fn format_utc(secs: i64) -> (r: String)
    requires
        MIN_UTC_SECS <= secs <= MAX_UTC_SECS,
    ensures
        r@ == utc_text(secs),
        r@.len() > 0 && r@.last() == 'Z',
{
    match chrono::DateTime::from_timestamp(secs, 0) {
        Some(t) => t.format("%Y-%m-%dT%H:%M:%SZ").to_string(),
        None => String::new(),
    }
}

/// `chrono::Utc::now()` in whole seconds since the Unix epoch. `Utc::now`
/// panics on a system clock before the epoch, so a returned instant is not
/// negative, and every `DateTime<Utc>` lies at or before `MAX_UTC_SECS`.
#[verifier::external_body]
fn now_utc_secs() -> (r: i64)
    ensures
        0 <= r <= MAX_UTC_SECS,
{
    chrono::Utc::now().timestamp()
}

/// The local date and time of an RFC 3339 timestamp, as seconds since the
/// epoch of the same wall clock.
pub uninterp spec fn rfc3339_local_secs(s: Seq<char>) -> Option<i64>;

/// `chrono::DateTime::parse_from_rfc3339`, keeping the local wall-clock time.
/// RFC 3339 years have four digits, so the result lies between years 0000 and 9999.
#[verifier::external_body]
fn parse_rfc3339_local(s: &str) -> (r: Option<i64>)
    ensures
        r == rfc3339_local_secs(s@),
        r matches Some(t) ==> -62167219200 <= t <= 253402300799,
{
    match chrono::DateTime::parse_from_rfc3339(s) {
        Ok(dt) => Some(dt.naive_local().and_utc().timestamp()),
        Err(_) => None,
    }
}

/// Errors of the `logs` command.
#[derive(Debug)]
pub enum LogsError {
    InvalidDuration { text: String },
    NotPositive { text: String },
    InvalidUnit { unit: String },
    ReversedRange { start: String, end: String },
    SinceBeforeUntil { since: String, until: String },
    DurationFilter { min: u64, max: u64 },
}

impl LogsError {
    /// The text of the error.
    pub open spec fn message_spec(&self) -> Seq<char> {
        match self {
            LogsError::InvalidDuration { text } => "invalid duration '"@ + text@
                + "'. Use a number followed by m, h, d, or w (e.g., 1h, 30m)"@,
            LogsError::NotPositive { text } => "invalid duration '"@ + text@
                + "'. Duration must be a positive number (e.g., 1h, 30m)"@,
            LogsError::InvalidUnit { unit } => "invalid duration unit '"@ + unit@
                + "'. Use m (minutes), h (hours), d (days), or w (weeks)"@,
            LogsError::ReversedRange { start, end } => "invalid time range: --start-time ("@
                + start@ + ") is after --end-time ("@ + end@ + ")"@,
            LogsError::SinceBeforeUntil { since, until } => "invalid time range: --since ("@
                + since@ + ") must be greater than --until ("@ + until@ + ")"@,
            LogsError::DurationFilter { min, max } => "invalid duration filter: --min-duration-ms ("@
                + decimal(*min as nat) + ") is greater than --max-duration-ms ("@ + decimal(
                *max as nat,
            ) + ")"@,
        }
    }

    /// The text of the error.
    pub fn message(&self) -> (r: String)
        ensures
            r@ == self.message_spec(),
    {
        match self {
            LogsError::InvalidDuration { text } => {
                let mut m = owned("invalid duration '");
                push_str(&mut m, text.as_str());
                push_str(&mut m, "'. Use a number followed by m, h, d, or w (e.g., 1h, 30m)");
                m
            },
            LogsError::NotPositive { text } => {
                let mut m = owned("invalid duration '");
                push_str(&mut m, text.as_str());
                push_str(&mut m, "'. Duration must be a positive number (e.g., 1h, 30m)");
                m
            },
            LogsError::InvalidUnit { unit } => {
                let mut m = owned("invalid duration unit '");
                push_str(&mut m, unit.as_str());
                push_str(&mut m, "'. Use m (minutes), h (hours), d (days), or w (weeks)");
                m
            },
            LogsError::ReversedRange { start, end } => {
                let mut m = owned("invalid time range: --start-time (");
                push_str(&mut m, start.as_str());
                push_str(&mut m, ") is after --end-time (");
                push_str(&mut m, end.as_str());
                push_str(&mut m, ")");
                m
            },
            LogsError::SinceBeforeUntil { since, until } => {
                let mut m = owned("invalid time range: --since (");
                push_str(&mut m, since.as_str());
                push_str(&mut m, ") must be greater than --until (");
                push_str(&mut m, until.as_str());
                push_str(&mut m, ")");
                m
            },
            LogsError::DurationFilter { min, max } => {
                let mut m = owned("invalid duration filter: --min-duration-ms (");
                push_decimal(&mut m, *min);
                push_str(&mut m, ") is greater than --max-duration-ms (");
                push_decimal(&mut m, *max);
                push_str(&mut m, ")");
                m
            },
        }
    }
}

/// The kinds of duration errors.
pub enum DurationErrorKind {
    Invalid,
    NotPositive,
    BadUnit,
}

/// Seconds per unit of a duration: `m`, `h`, `d`, `w`.
pub open spec fn unit_seconds(unit: char) -> Option<int> {
    if unit == 'm' {
        Some(60)
    } else if unit == 'h' {
        Some(3600)
    } else if unit == 'd' {
        Some(86400)
    } else if unit == 'w' {
        Some(604800)
    } else {
        None
    }
}

/// A relative duration such as `30m` or `2w`, in seconds: a positive integer
/// and a unit, surrounding whitespace ignored.
pub open spec fn duration_spec(s: Seq<char>) -> Result<int, DurationErrorKind> {
    let t = trim_spec(s);
    if t.len() < 2 {
        Err(DurationErrorKind::Invalid)
    } else {
        match parse_i64_spec(t.drop_last()) {
            None => Err(DurationErrorKind::Invalid),
            Some(n) => if n <= 0 {
                Err(DurationErrorKind::NotPositive)
            } else {
                match unit_seconds(t.last()) {
                    Some(u) => Ok(n * u),
                    None => Err(DurationErrorKind::BadUnit),
                }
            },
        }
    }
}

/// Whether `chrono` can represent the duration `s` stands for (it panics otherwise).
pub open spec fn duration_representable(s: Seq<char>) -> bool {
    duration_spec(s) matches Ok(v) ==> v <= MAX_DURATION_SECS
}

/// The error `parse_duration` reports for a text `s` it rejects.
pub open spec fn duration_error(s: Seq<char>, e: LogsError) -> bool {
    match duration_spec(s) {
        Ok(_) => false,
        Err(DurationErrorKind::Invalid) => e matches LogsError::InvalidDuration { text } && text@
            == trim_spec(s),
        Err(DurationErrorKind::NotPositive) => e matches LogsError::NotPositive { text } && text@
            == trim_spec(s),
        Err(DurationErrorKind::BadUnit) => e matches LogsError::InvalidUnit { unit } && unit@
            == seq![trim_spec(s).last()],
    }
}

/// Parses a relative duration (`30m`, `1h`, `7d`, `2w`) into seconds.
pub fn parse_duration(s: &str) -> (r: Result<i64, LogsError>)
    requires
        duration_representable(s@),
    ensures
        match duration_spec(s@) {
            Ok(v) => r matches Ok(x) && x == v,
            Err(_) => r matches Err(e) && duration_error(s@, e),
        },
{
    let t = trim(s);
    let n = t.as_str().unicode_len();
    if n < 2 {
        return Err(LogsError::InvalidDuration { text: t });
    }
    let num_str = t.as_str().substring_char(0, n - 1);
    let unit = t.as_str().get_char(n - 1);
    proof {
        assert(num_str@ =~= t@.drop_last());
    }
    let num = match parse_i64(num_str) {
        Some(v) => v,
        None => return Err(LogsError::InvalidDuration { text: t }),
    };
    if num <= 0 {
        return Err(LogsError::NotPositive { text: t });
    }
    let per: i64 = if unit == 'm' {
        60
    } else if unit == 'h' {
        3600
    } else if unit == 'd' {
        86400
    } else if unit == 'w' {
        604800
    } else {
        let mut u = String::new();
        push_char(&mut u, unit);
        assert(u@ =~= seq![unit]);
        return Err(LogsError::InvalidUnit { unit: u });
    };
    assert(num * per <= MAX_DURATION_SECS);
    Ok(num * per)
}

/// Whether `parse_duration` accepts `s` without leaving `chrono`'s range.
pub fn duration_within_bounds(s: &str) -> (r: bool)
    ensures
        r == duration_representable(s@),
{
    let t = trim(s);
    let n = t.as_str().unicode_len();
    if n < 2 {
        return true;
    }
    let num_str = t.as_str().substring_char(0, n - 1);
    let unit = t.as_str().get_char(n - 1);
    proof {
        assert(num_str@ =~= t@.drop_last());
    }
    let num = match parse_i64(num_str) {
        Some(v) => v,
        None => return true,
    };
    if num <= 0 {
        return true;
    }
    let per: i64 = if unit == 'm' {
        60
    } else if unit == 'h' {
        3600
    } else if unit == 'd' {
        86400
    } else if unit == 'w' {
        604800
    } else {
        return true;
    };
    let fits = num <= MAX_DURATION_SECS / per;
    proof {
        let a = num as int;
        let p = per as int;
        let m = MAX_DURATION_SECS as int;
        assert(p > 0);
        assert((a <= m / p) == (a * p <= m)) by (nonlinear_arith)
            requires
                p > 0,
                a > 0,
                m >= 0,
        {
            if a <= m / p {
                assert(a * p <= (m / p) * p);
                assert((m / p) * p <= m);
            } else {
                assert(a >= m / p + 1);
                assert(a * p >= (m / p + 1) * p);
                assert((m / p + 1) * p > m);
            }
        }
    }
    fits
}

/// The end of an absolute window: `--end-time`, else the instant `now`.
pub open spec fn window_end(end_time: Option<Seq<char>>, now: i64) -> Seq<char> {
    match end_time {
        Some(e) => e,
        None => utc_text(now),
    }
}

/// Whether the window can be computed at the instant `now` where the original
/// neither panics on a duration `chrono` cannot represent nor on an instant
/// outside `chrono`'s range: with `--start-time` always; with only
/// `--end-time` (or at `now`) when the end parses or a day before `now` is in
/// range; for a relative window when the durations it parses are
/// representable and, once `--since` is not shorter than `--until`, `now`
/// minus `--since` is in range.
pub open spec fn time_range_in_bounds(
    since: Option<Seq<char>>,
    until: Option<Seq<char>>,
    start_time: Option<Seq<char>>,
    end_time: Option<Seq<char>>,
    now: i64,
) -> bool {
    &&& MIN_UTC_SECS <= now <= MAX_UTC_SECS
    &&& (start_time is Some || end_time is Some) ==> (start_time is None && rfc3339_local_secs(
        window_end(end_time, now),
    ) is None ==> MIN_UTC_SECS + 86400 <= now)
    &&& !(start_time is Some || end_time is Some) ==> {
        let sd = match since {
            Some(x) => duration_spec(x),
            None => Ok(86400int),
        };
        let ud = match until {
            Some(x) => duration_spec(x),
            None => Ok(0int),
        };
        &&& since matches Some(x) ==> duration_representable(x)
        &&& sd is Ok ==> (until matches Some(y) ==> duration_representable(y))
        &&& sd matches Ok(a) ==> (ud matches Ok(b) ==> (a >= b ==> MIN_UTC_SECS <= now - a))
    }
}

/// What `resolve_time_range_at` gives for the options at the instant `now`.
pub open spec fn time_range_result(
    since: Option<Seq<char>>,
    until: Option<Seq<char>>,
    start_time: Option<Seq<char>>,
    end_time: Option<Seq<char>>,
    now: i64,
    r: Result<(String, String), LogsError>,
) -> bool {
    &&& (start_time is Some || end_time is Some) ==> ({
            let end = match end_time {
                Some(e) => e,
                None => utc_text(now),
            };
            let start = match start_time {
                Some(s) => s,
                None => match rfc3339_local_secs(end) {
                    Some(t) => utc_text((t - 86400) as i64),
                    None => utc_text((now - 86400) as i64),
                },
            };
            &&& lex_lt(end, start) ==> (r matches Err(LogsError::ReversedRange { start: s, end: e })
                && s@ == start && e@ == end)
            &&& !lex_lt(end, start) ==> (r matches Ok((s, e)) && s@ == start && e@ == end)})
    &&& !(start_time is Some || end_time is Some) ==> ({
            let sd = match since {
                Some(x) => duration_spec(x),
                None => Ok(86400int),
            };
            let ud = match until {
                Some(x) => duration_spec(x),
                None => Ok(0int),
            };
            &&& sd is Err ==> (r matches Err(e) && duration_error(since->0, e))
            &&& sd is Ok && ud is Err ==> (r matches Err(e) && duration_error(until->0, e))
            &&& sd matches Ok(a) ==> (ud matches Ok(b) ==> (if a < b {
                r matches Err(LogsError::SinceBeforeUntil { since: s, until: u }) && s@ == (
                match since {
                    Some(x) => x,
                    None => "24h"@,
                }) && u@ == (match until {
                    Some(x) => x,
                    None => "0"@,
                })
            } else {
                r matches Ok((s, e)) && s@ == utc_text((now - a) as i64) && e@ == utc_text(
                    (now - b) as i64,
                )
            }))
        })
}

/// The window of a log query, at the instant `now` (seconds since the epoch).
/// With `--start-time`/`--end-time`, the given instants (the end defaults to
/// now, the start to a day before the end), which must be in order; otherwise
/// `now` minus `--since` (default a day) to `now` minus `--until` (default 0),
/// and `--since` may not be shorter than `--until`.
pub fn resolve_time_range_at(
    since: Option<&str>,
    until: Option<&str>,
    start_time: Option<&str>,
    end_time: Option<&str>,
    now: i64,
) -> (r: Result<(String, String), LogsError>)
    requires
        time_range_in_bounds(
            opt_view(since),
            opt_view(until),
            opt_view(start_time),
            opt_view(end_time),
            now,
        ),
    ensures
        time_range_result(
            opt_view(since),
            opt_view(until),
            opt_view(start_time),
            opt_view(end_time),
            now,
            r,
        ),
        start_time is None && end_time is None ==> (r matches Ok((s, e)) ==> s@.len() > 0
            && s@.last() == 'Z' && e@.len() > 0 && e@.last() == 'Z'),
{
    if start_time.is_some() || end_time.is_some() {
        let end = match end_time {
            Some(e) => owned(e),
            None => format_utc(now),
        };
        let start = match start_time {
            Some(s) => owned(s),
            None => match parse_rfc3339_local(end.as_str()) {
                Some(t) => format_utc(t - 86400),
                None => format_utc(now - 86400),
            },
        };
        if str_lt(end.as_str(), start.as_str()) {
            return Err(LogsError::ReversedRange { start, end });
        }
        return Ok((start, end));
    }
    let since_delta: i64 = match since {
        Some(s) => parse_duration(s)?,
        None => 86400,
    };
    let until_delta: i64 = match until {
        Some(u) => parse_duration(u)?,
        None => 0,
    };
    if since_delta < until_delta {
        let s = match since {
            Some(x) => owned(x),
            None => owned("24h"),
        };
        let u = match until {
            Some(x) => owned(x),
            None => owned("0"),
        };
        return Err(LogsError::SinceBeforeUntil { since: s, until: u });
    }
    let start = format_utc(now - since_delta);
    let end = format_utc(now - until_delta);
    Ok((start, end))
}

/// Whether the window can be computed at `now` without leaving `chrono`'s range.
pub fn time_range_computable(
    since: Option<&str>,
    until: Option<&str>,
    start_time: Option<&str>,
    end_time: Option<&str>,
    now: i64,
) -> (r: bool)
    ensures
        r == time_range_in_bounds(
            opt_view(since),
            opt_view(until),
            opt_view(start_time),
            opt_view(end_time),
            now,
        ),
{
    if now < MIN_UTC_SECS || now > MAX_UTC_SECS {
        return false;
    }
    if start_time.is_some() || end_time.is_some() {
        if start_time.is_some() {
            return true;
        }
        let end = match end_time {
            Some(e) => owned(e),
            None => format_utc(now),
        };
        return match parse_rfc3339_local(end.as_str()) {
            Some(_) => true,
            None => now >= MIN_UTC_SECS + 86400,
        };
    }
    let since_delta: i64 = match since {
        Some(x) => {
            if !duration_within_bounds(x) {
                return false;
            }
            match parse_duration(x) {
                Ok(v) => v,
                Err(_) => {
                    return true;
                },
            }
        },
        None => 86400,
    };
    let until_delta: i64 = match until {
        Some(y) => {
            if !duration_within_bounds(y) {
                return false;
            }
            match parse_duration(y) {
                Ok(v) => v,
                Err(_) => {
                    return true;
                },
            }
        },
        None => 0,
    };
    if since_delta < until_delta {
        return true;
    }
    now - since_delta >= MIN_UTC_SECS
}

/// The window of a log query as of the current time, read from the clock:
/// `None` exactly where, at the instant read, the original panics (see
/// `time_range_in_bounds`), else what `resolve_time_range_at` gives at that
/// instant. With `--start-time` the window is always computed.
pub fn resolve_time_range(
    since: Option<&str>,
    until: Option<&str>,
    start_time: Option<&str>,
    end_time: Option<&str>,
) -> (r: Option<Result<(String, String), LogsError>>)
    ensures
        exists|now: i64|
            0 <= now <= MAX_UTC_SECS && (r is Some <==> #[trigger] time_range_in_bounds(
                opt_view(since),
                opt_view(until),
                opt_view(start_time),
                opt_view(end_time),
                now,
            )) && (r matches Some(x) ==> time_range_result(
                opt_view(since),
                opt_view(until),
                opt_view(start_time),
                opt_view(end_time),
                now,
                x,
            )),
        start_time is Some ==> r is Some,
        since is None && until is None && start_time is None && end_time is None ==> (r matches Some(
            x,
        ) && x is Ok),
        start_time is None && end_time is None ==> (r matches Some(Ok((s, e))) ==> s@.len() > 0
            && s@.last() == 'Z' && e@.len() > 0 && e@.last() == 'Z'),
{
    let now = now_utc_secs();
    if !time_range_computable(since, until, start_time, end_time, now) {
        return None;
    }
    let r = Some(resolve_time_range_at(since, until, start_time, end_time, now));
    proof {
        assert(time_range_in_bounds(
            opt_view(since),
            opt_view(until),
            opt_view(start_time),
            opt_view(end_time),
            now,
        ));
    }
    r
}

/// Rejects a minimum duration filter above the maximum.
pub fn check_duration_filter(min_duration_ms: Option<u64>, max_duration_ms: Option<u64>) -> (r: Result<
    (),
    LogsError,
>)
    ensures
        r is Err <==> (min_duration_ms matches Some(a) && max_duration_ms matches Some(b) && a > b),
        r matches Err(e) ==> e matches LogsError::DurationFilter { min, max } && Some(min)
            == min_duration_ms && Some(max) == max_duration_ms,
{
    if let (Some(min), Some(max)) = (min_duration_ms, max_duration_ms) {
        if min > max {
            return Err(LogsError::DurationFilter { min, max });
        }
    }
    Ok(())
}

/// `name=<encoded value>`.
pub open spec fn param_spec(name: Seq<char>, value: Seq<char>) -> Seq<char> {
    name + "="@ + url_encoded(value)
}

/// One parameter for a non-empty list of values joined by commas.
pub open spec fn csv_param_spec(name: Seq<char>, values: Seq<Seq<char>>) -> Seq<Seq<char>> {
    if values.len() == 0 {
        seq![]
    } else {
        seq![param_spec(name, join_with(values, ","@))]
    }
}

/// One parameter for an optional text, trimmed, when it is not blank.
pub open spec fn trimmed_param_spec(name: Seq<char>, value: Option<Seq<char>>) -> Seq<Seq<char>> {
    match value {
        Some(v) => if trim_spec(v).len() > 0 {
            seq![param_spec(name, trim_spec(v))]
        } else {
            seq![]
        },
        None => seq![],
    }
}

/// One parameter for an optional number.
pub open spec fn number_param_spec(name: Seq<char>, value: Option<u64>) -> Seq<Seq<char>> {
    match value {
        Some(v) => seq![param_spec(name, decimal(v as nat))],
        None => seq![],
    }
}

/// The decimal renderings of status codes.
pub open spec fn code_texts(codes: Seq<u16>) -> Seq<Seq<char>> {
    codes.map_values(|c: u16| decimal(c as nat))
}

/// Adds `name=<encoded value>`.
pub fn append_param(params: &mut Vec<String>, name: &str, value: &str)
    ensures
        views(final(params)@) == views(old(params)@).push(param_spec(name@, value@)),
{
    let mut p = owned(name);
    push_str(&mut p, "=");
    let enc = url_encode(value);
    push_str(&mut p, enc.as_str());
    params.push(p);
    proof {
        assert(views(params@) =~= views(old(params)@).push(param_spec(name@, value@)));
    }
}

/// Adds one parameter with the values joined by commas, unless there are none.
pub fn append_csv_param(params: &mut Vec<String>, name: &str, values: &Vec<String>)
    ensures
        views(final(params)@) == views(old(params)@) + csv_param_spec(name@, views(values@)),
{
    if values.len() == 0 {
        assert(views(params@) =~= views(old(params)@) + csv_param_spec(name@, views(values@)));
        return;
    }
    let value = join_strings(values, ",");
    append_param(params, name, value.as_str());
    assert(views(params@) =~= views(old(params)@) + csv_param_spec(name@, views(values@)));
}

/// Adds one parameter with the status codes joined by commas, unless there are none.
pub fn append_csv_codes(params: &mut Vec<String>, name: &str, codes: &Vec<u16>)
    ensures
        views(final(params)@) == views(old(params)@) + csv_param_spec(name@, code_texts(codes@)),
{
    let mut texts: Vec<String> = Vec::new();
    let mut i: usize = 0;
    while i < codes.len()
        invariant
            i <= codes.len(),
            views(texts@) == code_texts(codes@).take(i as int),
        decreases codes.len() - i,
    {
        let t = crate::text::decimal_string(codes[i] as u64);
        let ghost prev = texts@;
        texts.push(t);
        proof {
            assert(texts@ =~= prev.push(t));
            assert(views(texts@) =~= views(prev).push(t@));
            assert(views(texts@) =~= code_texts(codes@).take(i + 1));
        }
        i = i + 1;
    }
    proof {
        assert(code_texts(codes@).take(codes.len() as int) =~= code_texts(codes@));
    }
    append_csv_param(params, name, &texts);
}

/// Adds the trimmed text as a parameter, unless it is absent or blank.
pub fn append_trimmed_param(params: &mut Vec<String>, name: &str, value: Option<&str>)
    ensures
        views(final(params)@) == views(old(params)@) + trimmed_param_spec(name@, opt_view(value)),
{
    if let Some(v) = value {
        let t = trim(v);
        if !t.as_str().is_empty() {
            append_param(params, name, t.as_str());
            assert(views(params@) =~= views(old(params)@) + trimmed_param_spec(
                name@,
                opt_view(value),
            ));
            return;
        }
    }
    assert(views(params@) =~= views(old(params)@) + trimmed_param_spec(name@, opt_view(value)));
}

/// Adds the number as a parameter, when present.
pub fn append_number_param(params: &mut Vec<String>, name: &str, value: Option<u64>)
    ensures
        views(final(params)@) == views(old(params)@) + number_param_spec(name@, value),
{
    if let Some(v) = value {
        let t = crate::text::decimal_string(v);
        append_param(params, name, t.as_str());
    }
    assert(views(params@) =~= views(old(params)@) + number_param_spec(name@, value));
}

/// The query parameters of a log search, in order.
pub open spec fn query_params_spec(
    start_time: Seq<char>,
    end_time: Seq<char>,
    search: Option<Seq<char>>,
    methods: Seq<Seq<char>>,
    status_codes: Seq<u16>,
    levels: Seq<Seq<char>>,
    sources: Seq<Seq<char>>,
    user_agent: Option<Seq<char>>,
    host: Option<Seq<char>>,
    paths: Seq<Seq<char>>,
    min_duration_ms: Option<u64>,
    max_duration_ms: Option<u64>,
    log_databases: Seq<Seq<char>>,
    limit: u64,
    offset: u64,
) -> Seq<Seq<char>> {
    seq![param_spec("start_time"@, start_time), param_spec("end_time"@, end_time)]
        + trimmed_param_spec("search"@, search) + csv_param_spec("methods"@, methods)
        + csv_param_spec("status_codes"@, code_texts(status_codes)) + csv_param_spec(
        "levels"@,
        levels,
    ) + csv_param_spec("sources"@, sources) + trimmed_param_spec("user_agent"@, user_agent)
        + trimmed_param_spec("host"@, host) + csv_param_spec("paths"@, paths) + number_param_spec(
        "min_duration_ms"@,
        min_duration_ms,
    ) + number_param_spec("max_duration_ms"@, max_duration_ms) + csv_param_spec(
        "log_databases"@,
        log_databases,
    ) + seq![param_spec("limit"@, decimal(limit as nat)), param_spec("offset"@, decimal(offset as nat))]
}

/// The query string of a log search: the window, each filter that is given
/// (blank texts and empty lists left out), and the page.
#[verifier::spinoff_prover]
#[verifier::rlimit(40)]
pub fn build_query_string(
    start_time: &str,
    end_time: &str,
    search: Option<&str>,
    methods: &Vec<String>,
    status_codes: &Vec<u16>,
    levels: &Vec<String>,
    sources: &Vec<String>,
    user_agent: Option<&str>,
    host: Option<&str>,
    paths: &Vec<String>,
    min_duration_ms: Option<u64>,
    max_duration_ms: Option<u64>,
    log_databases: &Vec<String>,
    limit: u64,
    offset: u64,
) -> (r: String)
    ensures
        r@ == join_with(
            query_params_spec(
                start_time@,
                end_time@,
                opt_view(search),
                views(methods@),
                status_codes@,
                views(levels@),
                views(sources@),
                opt_view(user_agent),
                opt_view(host),
                views(paths@),
                min_duration_ms,
                max_duration_ms,
                views(log_databases@),
                limit,
                offset,
            ),
            "&"@,
        ),
{
    let mut params: Vec<String> = Vec::new();
    append_param(&mut params, "start_time", start_time);
    append_param(&mut params, "end_time", end_time);
    append_trimmed_param(&mut params, "search", search);
    append_csv_param(&mut params, "methods", methods);
    append_csv_codes(&mut params, "status_codes", status_codes);
    append_csv_param(&mut params, "levels", levels);
    append_csv_param(&mut params, "sources", sources);
    append_trimmed_param(&mut params, "user_agent", user_agent);
    append_trimmed_param(&mut params, "host", host);
    append_csv_param(&mut params, "paths", paths);
    append_number_param(&mut params, "min_duration_ms", min_duration_ms);
    append_number_param(&mut params, "max_duration_ms", max_duration_ms);
    append_csv_param(&mut params, "log_databases", log_databases);
    let l = crate::text::decimal_string(limit);
    append_param(&mut params, "limit", l.as_str());
    let o = crate::text::decimal_string(offset);
    append_param(&mut params, "offset", o.as_str());
    proof {
        assert(views(params@) =~= query_params_spec(
            start_time@,
            end_time@,
            opt_view(search),
            views(methods@),
            status_codes@,
            views(levels@),
            views(sources@),
            opt_view(user_agent),
            opt_view(host),
            views(paths@),
            min_duration_ms,
            max_duration_ms,
            views(log_databases@),
            limit,
            offset,
        ));
    }
    join_strings(&params, "&")
}

/// The longest prefix of `s` whose UTF-8 encoding fits in `n` bytes.
pub open spec fn prefix_within(s: Seq<char>, n: nat) -> Seq<char>
    decreases s.len(),
{
    if s.len() == 0 {
        seq![]
    } else if char_utf8_len(s[0]) <= n {
        seq![s[0]] + prefix_within(s.drop_first(), (n - char_utf8_len(s[0])) as nat)
    } else {
        seq![]
    }
}

/// A text on one line and at most `max_len` bytes: runs of whitespace become
/// single spaces, and a longer text is cut at a character boundary and ends
/// with `...` (for `max_len` up to 3, the first `max_len` characters).
pub open spec fn truncate_spec(value: Seq<char>, max_len: nat) -> Seq<char> {
    let n = collapse_ws(value);
    if utf8_len(n) <= max_len {
        n
    } else if max_len <= 3 {
        n.take(if max_len < n.len() {
            max_len as int
        } else {
            n.len() as int
        })
    } else {
        prefix_within(n, (max_len - 3) as nat) + "..."@
    }
}

/// The UTF-8 length of the characters `v[..k]`.
fn utf8_len_of(v: &Vec<char>) -> (r: usize)
    requires
        v.len() <= usize::MAX / 4,
    ensures
        r == utf8_len(v@),
{
    let mut total: usize = 0;
    let mut i: usize = 0;
    while i < v.len()
        invariant
            i <= v.len(),
            v.len() <= usize::MAX / 4,
            total == utf8_len(v@.take(i as int)),
            total <= 4 * i,
        decreases v.len() - i,
    {
        proof {
            assert(v@.take(i + 1).drop_last() =~= v@.take(i as int));
        }
        total = total + char_len_utf8(v[i]);
        i = i + 1;
    }
    assert(v@.take(v.len() as int) =~= v@);
    total
}

proof fn lemma_prefix_within_step(s: Seq<char>, k: int, n: nat)
    requires
        0 <= k < s.len(),
        utf8_len(s.take(k + 1)) <= n,
    ensures
        prefix_within(s, n).len() > k,
        prefix_within(s, n)[k] == s[k],
    decreases k,
{
    lemma_utf8_first(s.take(k + 1));
    assert(s.take(k + 1)[0] == s[0]);
    if k > 0 {
        assert(s.take(k + 1).drop_first() =~= s.drop_first().take(k));
        lemma_prefix_within_step(s.drop_first(), k - 1, (n - char_utf8_len(s[0])) as nat);
    }
}

proof fn lemma_prefix_within_stop(s: Seq<char>, k: int, n: nat)
    requires
        0 <= k <= s.len(),
        utf8_len(s.take(k)) <= n,
        k == s.len() || utf8_len(s.take(k + 1)) > n,
    ensures
        prefix_within(s, n) == s.take(k),
    decreases k,
{
    if k == 0 {
        if s.len() > 0 {
            lemma_utf8_first(s.take(1));
            assert(s.take(1)[0] == s[0]);
            assert(s.take(1).drop_first() =~= Seq::<char>::empty());
        }
        assert(s.take(0) =~= Seq::<char>::empty());
    } else {
        lemma_utf8_first(s.take(k));
        assert(s.take(k)[0] == s[0]);
        assert(s.take(k).drop_first() =~= s.drop_first().take(k - 1));
        if k < s.len() {
            lemma_utf8_first(s.take(k + 1));
            assert(s.take(k + 1).drop_first() =~= s.drop_first().take(k));
        }
        lemma_prefix_within_stop(s.drop_first(), k - 1, (n - char_utf8_len(s[0])) as nat);
        assert(s.take(k) =~= seq![s[0]] + s.drop_first().take(k - 1));
    }
}

/// The UTF-8 length of a non-empty text is that of its first character plus the rest.
proof fn lemma_utf8_first(s: Seq<char>)
    requires
        s.len() > 0,
    ensures
        utf8_len(s) == char_utf8_len(s[0]) + utf8_len(s.drop_first()),
    decreases s.len(),
{
    if s.len() == 1 {
        assert(s.drop_first().len() == 0);
        assert(s.drop_last().len() == 0);
        assert(s.last() == s[0]);
        assert(utf8_len(s.drop_last()) == 0);
        assert(utf8_len(s.drop_first()) == 0);
    } else {
        lemma_utf8_first(s.drop_last());
        assert(s.drop_last().drop_first() =~= s.drop_first().drop_last());
        assert(s.drop_first().last() == s.last());
        assert(s.drop_last()[0] == s[0]);
        assert(utf8_len(s.drop_first()) == utf8_len(s.drop_first().drop_last()) + char_utf8_len(
            s.drop_first().last(),
        ));
    }
}

/// The characters of `v` that fit in `n` bytes, from the start.
fn chars_within(v: &Vec<char>, n: usize) -> (k: usize)
    ensures
        k <= v.len(),
        prefix_within(v@, n as nat) == v@.take(k as int),
{
    let mut total: usize = 0;
    let mut k: usize = 0;
    while k < v.len() && char_len_utf8(v[k]) <= n - total
        invariant
            k <= v.len(),
            total <= n,
            total == utf8_len(v@.take(k as int)),
        decreases v.len() - k,
    {
        proof {
            assert(v@.take(k + 1).drop_last() =~= v@.take(k as int));
        }
        total = total + char_len_utf8(v[k]);
        k = k + 1;
    }
    proof {
        if k < v.len() {
            assert(v@.take(k + 1).drop_last() =~= v@.take(k as int));
        }
        lemma_prefix_within_stop(v@, k as int, n as nat);
    }
    k
}

/// Collapses whitespace and shortens a text to at most `max_len` bytes.
pub fn truncate_text(value: &str, max_len: usize) -> (r: String)
    requires
        value@.len() <= usize::MAX / 4,
    ensures
        r@ == truncate_spec(value@, max_len as nat),
{
    let normalized = collapse_whitespace(value);
    proof {
        lemma_collapse_len(value@);
    }
    let bytes = utf8_len_of(&normalized);
    if bytes <= max_len {
        return string_from_chars(&normalized, 0, normalized.len());
    }
    if max_len <= 3 {
        let k = if max_len < normalized.len() {
            max_len
        } else {
            normalized.len()
        };
        proof {
            assert(normalized@.take(k as int) =~= normalized@.subrange(0, k as int));
        }
        return string_from_chars(&normalized, 0, k);
    }
    let k = chars_within(&normalized, max_len - 3);
    let mut out = string_from_chars(&normalized, 0, k);
    push_str(&mut out, "...");
    proof {
        assert(normalized@.subrange(0, normalized.len() as int) =~= normalized@);
        assert(normalized@.subrange(0, k as int) =~= normalized@.take(k as int));
    }
    out
}

/// Collapsing whitespace never lengthens a text.
proof fn lemma_collapse_len(s: Seq<char>)
    ensures
        collapse_ws(s).len() <= s.len(),
        collapse_state(s).1 ==> collapse_ws(s).len() < s.len(),
    decreases s.len(),
{
    if s.len() > 0 {
        lemma_collapse_len(s.drop_last());
    }
}

use crate::text::collapse_state;

/// The fields of a request log entry that its one-line rendering shows.
#[derive(Debug)]
pub struct LogLineFields {
    pub date: String,
    pub time: String,
    pub pathname: String,
    pub path: String,
    pub status: u16,
    pub status_code: u16,
    pub method: String,
    pub duration_ms: u64,
    pub source: String,
    pub error: String,
    pub error_message: String,
}

/// The one-line rendering of a log entry: time, status, method, duration,
/// source and path in aligned columns, then the error in brackets if any.
/// The newer fields win over the older ones when both are set.
pub open spec fn log_line_spec(e: LogLineFields) -> Seq<char> {
    let time = if e.date@.len() == 0 {
        e.time@
    } else {
        e.date@
    };
    let path = if e.pathname@.len() == 0 {
        e.path@
    } else {
        e.pathname@
    };
    let status = if e.status_code == 0 {
        e.status
    } else {
        e.status_code
    };
    let error = if e.error_message@.len() > 0 {
        e.error_message@
    } else {
        e.error@
    };
    let line = time + "  "@ + pad_left_spec(decimal(status as nat), 3) + "  "@ + pad_right_spec(
        e.method@,
        6,
    ) + "  "@ + pad_left_spec(decimal(e.duration_ms as nat) + "ms"@, 8) + "  "@ + pad_right_spec(
        e.source@,
        4,
    ) + "  "@ + truncate_spec(path, 100);
    if error.len() > 0 {
        line + "  ["@ + truncate_spec(error, 160) + "]"@
    } else {
        line
    }
}

/// Renders a request log entry on one line.
pub fn format_log_line(entry: &LogLineFields) -> (r: String)
    requires
        entry.pathname@.len() <= usize::MAX / 4,
        entry.path@.len() <= usize::MAX / 4,
        entry.error@.len() <= usize::MAX / 4,
        entry.error_message@.len() <= usize::MAX / 4,
    ensures
        r@ == log_line_spec(*entry),
{
    let time = if entry.date.as_str().is_empty() {
        entry.time.as_str()
    } else {
        entry.date.as_str()
    };
    let path = if entry.pathname.as_str().is_empty() {
        entry.path.as_str()
    } else {
        entry.pathname.as_str()
    };
    let status = if entry.status_code == 0 {
        entry.status
    } else {
        entry.status_code
    };
    let mut line = owned(time);
    push_str(&mut line, "  ");
    let st = crate::text::decimal_string(status as u64);
    push_padded_left(&mut line, st.as_str(), 3);
    push_str(&mut line, "  ");
    push_padded_right(&mut line, entry.method.as_str(), 6);
    push_str(&mut line, "  ");
    let mut dur = crate::text::decimal_string(entry.duration_ms);
    push_str(&mut dur, "ms");
    push_padded_left(&mut line, dur.as_str(), 8);
    push_str(&mut line, "  ");
    push_padded_right(&mut line, entry.source.as_str(), 4);
    push_str(&mut line, "  ");
    let p = truncate_text(path, 100);
    push_str(&mut line, p.as_str());
    let error = if !entry.error_message.as_str().is_empty() {
        entry.error_message.as_str()
    } else {
        entry.error.as_str()
    };
    if !error.is_empty() {
        push_str(&mut line, "  [");
        let e = truncate_text(error, 160);
        push_str(&mut line, e.as_str());
        push_str(&mut line, "]");
    }
    line
}

/// The bytes of the longest prefix within `n` bytes are at most `n`.
proof fn lemma_prefix_within_bytes(s: Seq<char>, n: nat)
    ensures
        utf8_len(prefix_within(s, n)) <= n,
    decreases s.len(),
{
    if s.len() > 0 && char_utf8_len(s[0]) <= n {
        let rest = (n - char_utf8_len(s[0])) as nat;
        lemma_prefix_within_bytes(s.drop_first(), rest);
        lemma_utf8_len_concat(seq![s[0]], prefix_within(s.drop_first(), rest));
        lemma_utf8_first(seq![s[0]]);
        assert(seq![s[0]].drop_first() =~= Seq::<char>::empty());
    } else if s.len() > 0 {
        assert(prefix_within(s, n) =~= Seq::<char>::empty());
    }
}

/// Whether `line` ends with `tail`.
pub open spec fn ends_with(line: Seq<char>, tail: Seq<char>) -> bool {
    line.len() >= tail.len() && line.subrange(line.len() - tail.len(), line.len() as int) == tail
}

/// The error of a log line: an entry with an error message ends in that
/// message in brackets (shortened to 160 bytes) whatever its older `error`
/// field holds; `error` is shown, the same way, only when there is no message.
pub proof fn law_error_message_preferred(e: LogLineFields, other_error: String)
    ensures
        e.error_message@.len() > 0 ==> ends_with(
            log_line_spec(e),
            "  ["@ + truncate_spec(e.error_message@, 160) + "]"@,
        ),
        e.error_message@.len() > 0 ==> log_line_spec(e) == log_line_spec(
            (LogLineFields { error: other_error, ..e }),
        ),
        e.error_message@.len() == 0 && e.error@.len() > 0 ==> ends_with(
            log_line_spec(e),
            "  ["@ + truncate_spec(e.error@, 160) + "]"@,
        ),
{
    let shown = if e.error_message@.len() == 0 {
        e.error@
    } else {
        e.error_message@
    };
    if shown.len() > 0 {
        let tail = "  ["@ + truncate_spec(shown, 160) + "]"@;
        let whole = log_line_spec(e);
        assert(whole.subrange(whole.len() - tail.len(), whole.len() as int) =~= tail);
    }
}

/// A shortened text fits its limit: for a limit above 3 bytes, the result of
/// `truncate_text` is never longer than the limit in UTF-8 bytes.
pub proof fn law_truncate_fits(value: Seq<char>, max_len: nat)
    requires
        max_len > 3,
    ensures
        utf8_len(truncate_spec(value, max_len)) <= max_len,
{
    let n = collapse_ws(value);
    if utf8_len(n) > max_len {
        let p = prefix_within(n, (max_len - 3) as nat);
        lemma_prefix_within_bytes(n, (max_len - 3) as nat);
        lemma_utf8_len_concat(p, "..."@);
        reveal_strlit("...");
        assert(utf8_len("..."@) == 3) by {
            reveal_strlit("...");
            reveal_with_fuel(utf8_len, 4);
            let e = "..."@;
            assert(e.len() == 3);
            assert(e.drop_last().len() == 2 && e.drop_last().last() == '.');
            assert(e.drop_last().drop_last().len() == 1);
            assert(e.drop_last().drop_last().drop_last().len() == 0);
        }
    }
}

/// A duration written as a positive number and a unit (`30m`, `2h`, `7d`,
/// `1w`) stands for that many units, in seconds.
pub proof fn law_duration_roundtrip(n: nat, unit: char)
    requires
        0 < n <= i64::MAX,
        unit_seconds(unit) is Some,
    ensures
        duration_spec(decimal(n).push(unit)) == Ok::<int, DurationErrorKind>(
            n * unit_seconds(unit)->0,
        ),
{
    lemma_decimal_digits(n);
    let d = decimal(n);
    let s = d.push(unit);
    assert(s[0] == d[0]);
    assert(is_digit(d[0]));
    assert(!is_ws(s[0]));
    assert(leading_ws(s) == 0);
    assert(s.skip(0) =~= s);
    assert(s.last() == unit);
    assert(!is_ws(unit));
    assert(trailing_ws(s) == 0);
    assert(s.take(s.len() as int) =~= s);
    assert(trim_spec(s) == s);
    assert(s.drop_last() =~= d);
    assert(parse_i64_spec(d) == Some(n as int));
}

/// The lines printed for a page of request logs: one per entry, or a note
/// when there is none, and a pointer to the next page when there is more.
pub fn log_listing_lines(entries: &Vec<String>, has_more: bool, next_offset: Option<u64>) -> (r:
    Vec<String>)
    ensures
        entries.len() == 0 ==> views(r@) == seq!["No request logs found for the specified time range."@],
        entries.len() > 0 ==> views(r@) == views(entries@) + (if has_more {
            seq![
                "\n... more request logs available (use --offset "@ + decimal(
                    (match next_offset {
                        Some(n) => n,
                        None => 0,
                    }) as nat,
                ) + " to continue)"@,
            ]
        } else {
            seq![]
        }),
{
    let mut lines: Vec<String> = Vec::new();
    if entries.len() == 0 {
        lines.push(owned("No request logs found for the specified time range."));
        proof {
            assert(views(lines@) =~= seq!["No request logs found for the specified time range."@]);
        }
        return lines;
    }
    let mut i: usize = 0;
    while i < entries.len()
        invariant
            i <= entries.len(),
            views(lines@) == views(entries@.take(i as int)),
        decreases entries.len() - i,
    {
        let ghost prev = lines@;
        lines.push(entries[i].clone());
        proof {
            assert(views(lines@) =~= views(prev).push(entries@[i as int]@));
            assert(views(entries@.take(i + 1)) =~= views(entries@.take(i as int)).push(
                entries@[i as int]@,
            ));
        }
        i = i + 1;
    }
    proof {
        assert(entries@.take(entries.len() as int) =~= entries@);
    }
    if has_more {
        let mut more = owned("\n... more request logs available (use --offset ");
        push_decimal(
            &mut more,
            match next_offset {
                Some(n) => n,
                None => 0,
            },
        );
        push_str(&mut more, " to continue)");
        let ghost prev = lines@;
        lines.push(more);
        proof {
            assert(views(lines@) =~= views(prev).push(more@));
        }
    }
    proof {
        if !has_more {
            assert(views(lines@) =~= views(entries@) + Seq::<Seq<char>>::empty());
        }
    }
    lines
}

} // verus!
