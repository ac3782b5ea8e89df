//! The record schema: one decoded pnpm log line.
//!
//! A line is a JSON object with the required header fields `time` (integer
//! milliseconds since the Unix epoch), `hostname` (string), `pid` (integer),
//! `level` (one of `debug`, `info`, `warn`, `error`) and a tag field `name`
//! that selects the event payload. A known tag whose payload is missing or
//! ill-shaped is a hard decode error; an unknown tag decodes to
//! [`PnpmLogEvent::Unknown`]. The decoder is total over parsed field lists
//! and is specified exactly by [`spec_decode_fields`].

use vstd::prelude::*;

use crate::json::{fields_view, lemma_lookup_at, lemma_lookup_none, lookup, spec_lookup, str_eq,
    JsonField, JsonFieldV, JsonValue, JsonValueV};

verus! {

/// Earliest instant the record model admits, in milliseconds since the Unix
/// epoch (about 262,000 years before the common era).
pub const TIME_MIN_MS: i64 = -8_334_601_228_800_000;

/// Latest instant the record model admits, in milliseconds since the Unix
/// epoch (about 262,000 years into the future).
pub const TIME_MAX_MS: i64 = 8_210_266_876_799_999;

/// True when `t` is a representable instant in milliseconds.
pub open spec fn time_in_range(t: int) -> bool {
    TIME_MIN_MS as int <= t <= TIME_MAX_MS as int
}

/// True when `v` fits in an `i32`.
pub open spec fn in_i32(v: int) -> bool {
    i32::MIN as int <= v <= i32::MAX as int
}

/// Severity of one log line.
#[derive(Clone, Copy, Debug, PartialEq, Eq, Structural)]
pub enum LogLevel {
    Debug,
    Info,
    Warn,
    Error,
}

/// Identity of a fetch target: the resolution location string under which
/// fetch start and fetch progress events correlate.
#[derive(Debug)]
pub struct PackageId(pub String);

impl View for PackageId {
    type V = Seq<char>;

    open spec fn view(&self) -> Seq<char> {
        self.0@
    }
}

/// Payload of a dependency-resolution event.
#[derive(Debug)]
pub struct PnpmDependencyResolved {
    pub resolution: String,
}

/// Payload of a fetching-progress event, discriminated by its `status` field.
#[derive(Debug)]
pub enum PnpmFetchingProgress {
    Started { attempt: i32, package_id: PackageId, size: i32 },
    InProgress { package_id: PackageId, downloaded: i32 },
}

/// The event carried by one log line, selected by the line's `name` tag.
#[derive(Debug)]
pub enum PnpmLogEvent {
    Message { message: String, prefix: Option<String> },
    Global { message: String },
    Scope { selected: i32 },
    PackageManifest,
    Context,
    Stage,
    Hook,
    Deprecation,
    Stats,
    PackageImportMethod,
    Root,
    DependencyResolved(PnpmDependencyResolved),
    Progress,
    FetchingProgress(PnpmFetchingProgress),
    InstallCheck,
    SkippedOptionalDependency,
    Link,
    Lifecycle,
    Lockfile,
    Summary,
    Unknown,
}

/// One fully decoded log line.
#[derive(Debug)]
pub struct PnpmLogLine {
    pub time: i64,
    pub hostname: String,
    pub pid: i32,
    pub level: LogLevel,
    pub event: PnpmLogEvent,
}

/// The mathematical value of a [`PnpmFetchingProgress`].
pub enum PnpmFetchingProgressV {
    Started { attempt: int, package_id: Seq<char>, size: int },
    InProgress { package_id: Seq<char>, downloaded: int },
}

/// The mathematical value of a [`PnpmLogEvent`].
pub enum PnpmLogEventV {
    Message { message: Seq<char>, prefix: Option<Seq<char>> },
    Global { message: Seq<char> },
    Scope { selected: int },
    PackageManifest,
    Context,
    Stage,
    Hook,
    Deprecation,
    Stats,
    PackageImportMethod,
    Root,
    DependencyResolved { resolution: Seq<char> },
    Progress,
    FetchingProgress(PnpmFetchingProgressV),
    InstallCheck,
    SkippedOptionalDependency,
    Link,
    Lifecycle,
    Lockfile,
    Summary,
    Unknown,
}

/// The mathematical value of a [`PnpmLogLine`].
pub struct PnpmLogLineV {
    pub time: int,
    pub hostname: Seq<char>,
    pub pid: int,
    pub level: LogLevel,
    pub event: PnpmLogEventV,
}

impl View for PnpmFetchingProgress {
    type V = PnpmFetchingProgressV;

    open spec fn view(&self) -> PnpmFetchingProgressV {
        match self {
            PnpmFetchingProgress::Started { attempt, package_id, size } =>
                PnpmFetchingProgressV::Started {
                    attempt: *attempt as int,
                    package_id: package_id@,
                    size: *size as int,
                },
            PnpmFetchingProgress::InProgress { package_id, downloaded } =>
                PnpmFetchingProgressV::InProgress {
                    package_id: package_id@,
                    downloaded: *downloaded as int,
                },
        }
    }
}

impl View for PnpmLogEvent {
    type V = PnpmLogEventV;

    open spec fn view(&self) -> PnpmLogEventV {
        match self {
            PnpmLogEvent::Message { message, prefix } => PnpmLogEventV::Message {
                message: message@,
                prefix: match prefix {
                    Some(p) => Some(p@),
                    None => None,
                },
            },
            PnpmLogEvent::Global { message } => PnpmLogEventV::Global { message: message@ },
            PnpmLogEvent::Scope { selected } => PnpmLogEventV::Scope {
                selected: *selected as int,
            },
            PnpmLogEvent::PackageManifest => PnpmLogEventV::PackageManifest,
            PnpmLogEvent::Context => PnpmLogEventV::Context,
            PnpmLogEvent::Stage => PnpmLogEventV::Stage,
            PnpmLogEvent::Hook => PnpmLogEventV::Hook,
            PnpmLogEvent::Deprecation => PnpmLogEventV::Deprecation,
            PnpmLogEvent::Stats => PnpmLogEventV::Stats,
            PnpmLogEvent::PackageImportMethod => PnpmLogEventV::PackageImportMethod,
            PnpmLogEvent::Root => PnpmLogEventV::Root,
            PnpmLogEvent::DependencyResolved(d) => PnpmLogEventV::DependencyResolved {
                resolution: d.resolution@,
            },
            PnpmLogEvent::Progress => PnpmLogEventV::Progress,
            PnpmLogEvent::FetchingProgress(p) => PnpmLogEventV::FetchingProgress(p@),
            PnpmLogEvent::InstallCheck => PnpmLogEventV::InstallCheck,
            PnpmLogEvent::SkippedOptionalDependency => PnpmLogEventV::SkippedOptionalDependency,
            PnpmLogEvent::Link => PnpmLogEventV::Link,
            PnpmLogEvent::Lifecycle => PnpmLogEventV::Lifecycle,
            PnpmLogEvent::Lockfile => PnpmLogEventV::Lockfile,
            PnpmLogEvent::Summary => PnpmLogEventV::Summary,
            PnpmLogEvent::Unknown => PnpmLogEventV::Unknown,
        }
    }
}

impl View for PnpmLogLine {
    type V = PnpmLogLineV;

    open spec fn view(&self) -> PnpmLogLineV {
        PnpmLogLineV {
            time: self.time as int,
            hostname: self.hostname@,
            pid: self.pid as int,
            level: self.level,
            event: self.event@,
        }
    }
}

/// Why a line that looked like a log record failed to decode.
#[derive(Clone, Copy, Debug, PartialEq, Eq, Structural)]
pub enum DecodeError {
    /// The line is not a JSON object at all.
    NotAnObject,
    /// The `time` field is missing or not an integer.
    BadTime,
    /// The `time` field is an integer but not a representable instant.
    TimeOutOfRange,
    /// The `hostname` field is missing or not a string.
    BadHostname,
    /// The `pid` field is missing, not an integer, or out of range.
    BadPid,
    /// The `level` field is missing, not a string, or not one of the four
    /// severities.
    BadLevel,
    /// The `name` tag field is missing or not a string.
    BadName,
    /// The tag is known but its payload is missing or ill-shaped.
    BadPayload,
}

/// The severity a `level` field value denotes, if any.
pub open spec fn spec_level_of(s: Seq<char>) -> Option<LogLevel> {
    if s == "debug"@ {
        Some(LogLevel::Debug)
    } else if s == "info"@ {
        Some(LogLevel::Info)
    } else if s == "warn"@ {
        Some(LogLevel::Warn)
    } else if s == "error"@ {
        Some(LogLevel::Error)
    } else {
        None
    }
}

/// The optional `prefix` payload field: absent and `null` both mean no
/// prefix; any non-string value is a decode error.
pub open spec fn spec_prefix_of(fs: Seq<JsonFieldV>) -> Result<Option<Seq<char>>, DecodeError> {
    match spec_lookup(fs, "prefix"@) {
        Some(JsonValueV::Str(p)) => Ok(Some(p)),
        Some(JsonValueV::Null) => Ok(None),
        None => Ok(None),
        Some(_) => Err(DecodeError::BadPayload),
    }
}

/// The fetching-progress payload, discriminated by the `status` field.
pub open spec fn spec_fetching_of(fs: Seq<JsonFieldV>) -> Result<
    PnpmFetchingProgressV,
    DecodeError,
> {
    match spec_lookup(fs, "status"@) {
        Some(JsonValueV::Str(st)) => if st == "started"@ {
            match (spec_lookup(fs, "attempt"@), spec_lookup(fs, "packageId"@), spec_lookup(
                fs,
                "size"@,
            )) {
                (
                    Some(JsonValueV::Int(attempt)),
                    Some(JsonValueV::Str(package_id)),
                    Some(JsonValueV::Int(size)),
                ) => if in_i32(attempt) && in_i32(size) {
                    Ok(PnpmFetchingProgressV::Started { attempt, package_id, size })
                } else {
                    Err(DecodeError::BadPayload)
                },
                _ => Err(DecodeError::BadPayload),
            }
        } else if st == "in_progress"@ {
            match (spec_lookup(fs, "packageId"@), spec_lookup(fs, "downloaded"@)) {
                (Some(JsonValueV::Str(package_id)), Some(JsonValueV::Int(downloaded))) => if in_i32(
                    downloaded,
                ) {
                    Ok(PnpmFetchingProgressV::InProgress { package_id, downloaded })
                } else {
                    Err(DecodeError::BadPayload)
                },
                _ => Err(DecodeError::BadPayload),
            }
        } else {
            Err(DecodeError::BadPayload)
        },
        _ => Err(DecodeError::BadPayload),
    }
}

/// The event a tag and its payload fields denote. Unrecognized tags decode
/// to `Unknown`; a known tag with a bad payload is an error.
pub open spec fn spec_event_of(fs: Seq<JsonFieldV>, tag: Seq<char>) -> Result<
    PnpmLogEventV,
    DecodeError,
> {
    if tag == "pnpm"@ {
        match spec_lookup(fs, "message"@) {
            Some(JsonValueV::Str(m)) => match spec_prefix_of(fs) {
                Ok(prefix) => Ok(PnpmLogEventV::Message { message: m, prefix }),
                Err(e) => Err(e),
            },
            _ => Err(DecodeError::BadPayload),
        }
    } else if tag == "pnpm:global"@ {
        match spec_lookup(fs, "message"@) {
            Some(JsonValueV::Str(m)) => Ok(PnpmLogEventV::Global { message: m }),
            _ => Err(DecodeError::BadPayload),
        }
    } else if tag == "pnpm:scope"@ {
        match spec_lookup(fs, "selected"@) {
            Some(JsonValueV::Int(n)) => if in_i32(n) {
                Ok(PnpmLogEventV::Scope { selected: n })
            } else {
                Err(DecodeError::BadPayload)
            },
            _ => Err(DecodeError::BadPayload),
        }
    } else if tag == "pnpm:_dependency_resolved"@ {
        match spec_lookup(fs, "resolution"@) {
            Some(JsonValueV::Str(r)) => Ok(PnpmLogEventV::DependencyResolved { resolution: r }),
            _ => Err(DecodeError::BadPayload),
        }
    } else if tag == "pnpm:fetching-progress"@ {
        match spec_fetching_of(fs) {
            Ok(p) => Ok(PnpmLogEventV::FetchingProgress(p)),
            Err(e) => Err(e),
        }
    } else if tag == "pnpm:package-manifest"@ {
        Ok(PnpmLogEventV::PackageManifest)
    } else if tag == "pnpm:context"@ {
        Ok(PnpmLogEventV::Context)
    } else if tag == "pnpm:stage"@ {
        Ok(PnpmLogEventV::Stage)
    } else if tag == "pnpm:hook"@ {
        Ok(PnpmLogEventV::Hook)
    } else if tag == "pnpm:deprecation"@ {
        Ok(PnpmLogEventV::Deprecation)
    } else if tag == "pnpm:stats"@ {
        Ok(PnpmLogEventV::Stats)
    } else if tag == "pnpm:package-import-method"@ {
        Ok(PnpmLogEventV::PackageImportMethod)
    } else if tag == "pnpm:root"@ {
        Ok(PnpmLogEventV::Root)
    } else if tag == "pnpm:progress"@ {
        Ok(PnpmLogEventV::Progress)
    } else if tag == "pnpm:install-check"@ {
        Ok(PnpmLogEventV::InstallCheck)
    } else if tag == "pnpm:skipped-optional-dependency"@ {
        Ok(PnpmLogEventV::SkippedOptionalDependency)
    } else if tag == "pnpm:link"@ {
        Ok(PnpmLogEventV::Link)
    } else if tag == "pnpm:lifecycle"@ {
        Ok(PnpmLogEventV::Lifecycle)
    } else if tag == "pnpm:lockfile"@ {
        Ok(PnpmLogEventV::Lockfile)
    } else if tag == "pnpm:summary"@ {
        Ok(PnpmLogEventV::Summary)
    } else {
        Ok(PnpmLogEventV::Unknown)
    }
}

/// What decoding a parsed field list yields: the record, or the first error
/// in the fixed order time, hostname, pid, level, name, payload.
pub open spec fn spec_decode_fields(fs: Seq<JsonFieldV>) -> Result<PnpmLogLineV, DecodeError> {
    match spec_lookup(fs, "time"@) {
        Some(JsonValueV::Int(t)) => if !time_in_range(t) {
            Err(DecodeError::TimeOutOfRange)
        } else {
            match spec_lookup(fs, "hostname"@) {
                Some(JsonValueV::Str(h)) => match spec_lookup(fs, "pid"@) {
                    Some(JsonValueV::Int(p)) => if !in_i32(p) {
                        Err(DecodeError::BadPid)
                    } else {
                        match spec_lookup(fs, "level"@) {
                            Some(JsonValueV::Str(lv)) => match spec_level_of(lv) {
                                Some(level) => match spec_lookup(fs, "name"@) {
                                    Some(JsonValueV::Str(tag)) => match spec_event_of(fs, tag) {
                                        Ok(event) => Ok(
                                            PnpmLogLineV {
                                                time: t,
                                                hostname: h,
                                                pid: p,
                                                level,
                                                event,
                                            },
                                        ),
                                        Err(e) => Err(e),
                                    },
                                    _ => Err(DecodeError::BadName),
                                },
                                None => Err(DecodeError::BadLevel),
                            },
                            _ => Err(DecodeError::BadLevel),
                        }
                    },
                    _ => Err(DecodeError::BadPid),
                },
                _ => Err(DecodeError::BadHostname),
            }
        },
        _ => Err(DecodeError::BadTime),
    }
}

/// What decoding one raw line of text yields: a parse failure when the line
/// is not a JSON object, else whatever its field list decodes to.
pub open spec fn spec_decode_line(l: Seq<char>) -> Result<PnpmLogLineV, DecodeError> {
    match crate::json::json_fields(l) {
        Some(fs) => spec_decode_fields(fs),
        None => Err(DecodeError::NotAnObject),
    }
}

/// Decodes one raw line of text, per [`spec_decode_line`].
pub fn decode_line(line: &str) -> (r: Result<PnpmLogLine, DecodeError>)
    ensures
        match r {
            Ok(rec) => spec_decode_line(line@) == Ok::<PnpmLogLineV, DecodeError>(rec@),
            Err(e) => spec_decode_line(line@) == Err::<PnpmLogLineV, DecodeError>(e),
        },
{
    match crate::json::parse_json_object(line) {
        Some(fields) => decode_record(&fields),
        None => Err(DecodeError::NotAnObject),
    }
}

/// Decodes the severity field value.
fn level_of(s: &str) -> (r: Option<LogLevel>)
    ensures
        r == spec_level_of(s@),
{
    if str_eq(s, "debug") {
        Some(LogLevel::Debug)
    } else if str_eq(s, "info") {
        Some(LogLevel::Info)
    } else if str_eq(s, "warn") {
        Some(LogLevel::Warn)
    } else if str_eq(s, "error") {
        Some(LogLevel::Error)
    } else {
        None
    }
}

/// Decodes the optional `prefix` payload field.
fn prefix_of(fields: &Vec<JsonField>) -> (r: Result<Option<String>, DecodeError>)
    ensures
        match r {
            Ok(Some(p)) => spec_prefix_of(fields_view(fields@)) == Ok::<
                Option<Seq<char>>,
                DecodeError,
            >(Some(p@)),
            Ok(None) => spec_prefix_of(fields_view(fields@)) == Ok::<
                Option<Seq<char>>,
                DecodeError,
            >(None::<Seq<char>>),
            Err(e) => spec_prefix_of(fields_view(fields@)) == Err::<
                Option<Seq<char>>,
                DecodeError,
            >(e),
        },
{
    match lookup(fields, "prefix") {
        Some(JsonValue::Str(p)) => Ok(Some(p.as_str().to_owned())),
        Some(JsonValue::Null) => Ok(None),
        None => Ok(None),
        Some(_) => Err(DecodeError::BadPayload),
    }
}

/// Reads an integer payload field that must fit in an `i32`.
fn i32_field(fields: &Vec<JsonField>, key: &str) -> (r: Result<i32, DecodeError>)
    ensures
        match r {
            Ok(v) => spec_lookup(fields_view(fields@), key@) == Some(
                JsonValueV::Int(v as int),
            ),
            Err(e) => e == DecodeError::BadPayload && !(match spec_lookup(
                fields_view(fields@),
                key@,
            ) {
                Some(JsonValueV::Int(n)) => in_i32(n),
                _ => false,
            }),
        },
{
    match lookup(fields, key) {
        Some(JsonValue::Int(n)) => {
            let n = *n;
            if n < i32::MIN as i64 || n > i32::MAX as i64 {
                Err(DecodeError::BadPayload)
            } else {
                Ok(n as i32)
            }
        },
        _ => Err(DecodeError::BadPayload),
    }
}

/// Decodes the fetching-progress payload.
fn fetching_of(fields: &Vec<JsonField>) -> (r: Result<PnpmFetchingProgress, DecodeError>)
    ensures
        match r {
            Ok(p) => spec_fetching_of(fields_view(fields@)) == Ok::<
                PnpmFetchingProgressV,
                DecodeError,
            >(p@),
            Err(e) => spec_fetching_of(fields_view(fields@)) == Err::<
                PnpmFetchingProgressV,
                DecodeError,
            >(e),
        },
{
    let st = match lookup(fields, "status") {
        Some(JsonValue::Str(s)) => s,
        _ => {
            return Err(DecodeError::BadPayload);
        },
    };
    if str_eq(st.as_str(), "started") {
        let attempt = match i32_field(fields, "attempt") {
            Ok(v) => v,
            Err(e) => {
                return Err(e);
            },
        };
        let package_id = match lookup(fields, "packageId") {
            Some(JsonValue::Str(p)) => PackageId(p.as_str().to_owned()),
            _ => {
                return Err(DecodeError::BadPayload);
            },
        };
        let size = match i32_field(fields, "size") {
            Ok(v) => v,
            Err(e) => {
                return Err(e);
            },
        };
        Ok(PnpmFetchingProgress::Started { attempt, package_id, size })
    } else if str_eq(st.as_str(), "in_progress") {
        let package_id = match lookup(fields, "packageId") {
            Some(JsonValue::Str(p)) => PackageId(p.as_str().to_owned()),
            _ => {
                return Err(DecodeError::BadPayload);
            },
        };
        let downloaded = match i32_field(fields, "downloaded") {
            Ok(v) => v,
            Err(e) => {
                return Err(e);
            },
        };
        Ok(PnpmFetchingProgress::InProgress { package_id, downloaded })
    } else {
        Err(DecodeError::BadPayload)
    }
}

/// Decodes one parsed field list into a record, per [`spec_decode_fields`].
pub fn decode_record(fields: &Vec<JsonField>) -> (r: Result<PnpmLogLine, DecodeError>)
    ensures
        match r {
            Ok(rec) => spec_decode_fields(fields_view(fields@)) == Ok::<
                PnpmLogLineV,
                DecodeError,
            >(rec@),
            Err(e) => spec_decode_fields(fields_view(fields@)) == Err::<
                PnpmLogLineV,
                DecodeError,
            >(e),
        },
        r matches Ok(rec) ==> time_in_range(rec@.time),
{
    let time = match lookup(fields, "time") {
        Some(JsonValue::Int(t)) => *t,
        _ => {
            return Err(DecodeError::BadTime);
        },
    };
    if time < TIME_MIN_MS || time > TIME_MAX_MS {
        return Err(DecodeError::TimeOutOfRange);
    }
    let hostname = match lookup(fields, "hostname") {
        Some(JsonValue::Str(h)) => h.as_str().to_owned(),
        _ => {
            return Err(DecodeError::BadHostname);
        },
    };
    let pid = match lookup(fields, "pid") {
        Some(JsonValue::Int(p)) => {
            let p = *p;
            if p < i32::MIN as i64 || p > i32::MAX as i64 {
                return Err(DecodeError::BadPid);
            }
            p as i32
        },
        _ => {
            return Err(DecodeError::BadPid);
        },
    };
    let level = match lookup(fields, "level") {
        Some(JsonValue::Str(lv)) => match level_of(lv.as_str()) {
            Some(level) => level,
            None => {
                return Err(DecodeError::BadLevel);
            },
        },
        _ => {
            return Err(DecodeError::BadLevel);
        },
    };
    let tag = match lookup(fields, "name") {
        Some(JsonValue::Str(t)) => t,
        _ => {
            return Err(DecodeError::BadName);
        },
    };
    let event = match event_of(fields, tag.as_str()) {
        Ok(ev) => ev,
        Err(e) => {
            return Err(e);
        },
    };
    Ok(PnpmLogLine { time, hostname, pid, level, event })
}

/// Decodes the event a tag selects, per [`spec_event_of`].
fn event_of(fields: &Vec<JsonField>, tag: &str) -> (r: Result<PnpmLogEvent, DecodeError>)
    ensures
        match r {
            Ok(ev) => spec_event_of(fields_view(fields@), tag@) == Ok::<
                PnpmLogEventV,
                DecodeError,
            >(ev@),
            Err(e) => spec_event_of(fields_view(fields@), tag@) == Err::<
                PnpmLogEventV,
                DecodeError,
            >(e),
        },
{
    if str_eq(tag, "pnpm") {
        let message = match lookup(fields, "message") {
            Some(JsonValue::Str(m)) => m.as_str().to_owned(),
            _ => {
                return Err(DecodeError::BadPayload);
            },
        };
        match prefix_of(fields) {
            Ok(prefix) => Ok(PnpmLogEvent::Message { message, prefix }),
            Err(e) => Err(e),
        }
    } else if str_eq(tag, "pnpm:global") {
        match lookup(fields, "message") {
            Some(JsonValue::Str(m)) => Ok(
                PnpmLogEvent::Global { message: m.as_str().to_owned() },
            ),
            _ => Err(DecodeError::BadPayload),
        }
    } else if str_eq(tag, "pnpm:scope") {
        match i32_field(fields, "selected") {
            Ok(selected) => Ok(PnpmLogEvent::Scope { selected }),
            Err(e) => Err(e),
        }
    } else if str_eq(tag, "pnpm:_dependency_resolved") {
        match lookup(fields, "resolution") {
            Some(JsonValue::Str(res)) => Ok(
                PnpmLogEvent::DependencyResolved(
                    PnpmDependencyResolved { resolution: res.as_str().to_owned() },
                ),
            ),
            _ => Err(DecodeError::BadPayload),
        }
    } else if str_eq(tag, "pnpm:fetching-progress") {
        match fetching_of(fields) {
            Ok(p) => Ok(PnpmLogEvent::FetchingProgress(p)),
            Err(e) => Err(e),
        }
    } else if str_eq(tag, "pnpm:package-manifest") {
        Ok(PnpmLogEvent::PackageManifest)
    } else if str_eq(tag, "pnpm:context") {
        Ok(PnpmLogEvent::Context)
    } else if str_eq(tag, "pnpm:stage") {
        Ok(PnpmLogEvent::Stage)
    } else if str_eq(tag, "pnpm:hook") {
        Ok(PnpmLogEvent::Hook)
    } else if str_eq(tag, "pnpm:deprecation") {
        Ok(PnpmLogEvent::Deprecation)
    } else if str_eq(tag, "pnpm:stats") {
        Ok(PnpmLogEvent::Stats)
    } else if str_eq(tag, "pnpm:package-import-method") {
        Ok(PnpmLogEvent::PackageImportMethod)
    } else if str_eq(tag, "pnpm:root") {
        Ok(PnpmLogEvent::Root)
    } else if str_eq(tag, "pnpm:progress") {
        Ok(PnpmLogEvent::Progress)
    } else if str_eq(tag, "pnpm:install-check") {
        Ok(PnpmLogEvent::InstallCheck)
    } else if str_eq(tag, "pnpm:skipped-optional-dependency") {
        Ok(PnpmLogEvent::SkippedOptionalDependency)
    } else if str_eq(tag, "pnpm:link") {
        Ok(PnpmLogEvent::Link)
    } else if str_eq(tag, "pnpm:lifecycle") {
        Ok(PnpmLogEvent::Lifecycle)
    } else if str_eq(tag, "pnpm:lockfile") {
        Ok(PnpmLogEvent::Lockfile)
    } else if str_eq(tag, "pnpm:summary") {
        Ok(PnpmLogEvent::Summary)
    } else {
        Ok(PnpmLogEvent::Unknown)
    }
}

/// The wire text of a severity.
pub open spec fn level_text(level: LogLevel) -> Seq<char> {
    match level {
        LogLevel::Debug => "debug"@,
        LogLevel::Info => "info"@,
        LogLevel::Warn => "warn"@,
        LogLevel::Error => "error"@,
    }
}

/// The tag under which an event is encoded. An `Unknown` event carries no
/// tag of its own and is written under an unrecognized one.
pub open spec fn tag_text(ev: PnpmLogEventV) -> Seq<char> {
    match ev {
        PnpmLogEventV::Message { .. } => "pnpm"@,
        PnpmLogEventV::Global { .. } => "pnpm:global"@,
        PnpmLogEventV::Scope { .. } => "pnpm:scope"@,
        PnpmLogEventV::PackageManifest => "pnpm:package-manifest"@,
        PnpmLogEventV::Context => "pnpm:context"@,
        PnpmLogEventV::Stage => "pnpm:stage"@,
        PnpmLogEventV::Hook => "pnpm:hook"@,
        PnpmLogEventV::Deprecation => "pnpm:deprecation"@,
        PnpmLogEventV::Stats => "pnpm:stats"@,
        PnpmLogEventV::PackageImportMethod => "pnpm:package-import-method"@,
        PnpmLogEventV::Root => "pnpm:root"@,
        PnpmLogEventV::DependencyResolved { .. } => "pnpm:_dependency_resolved"@,
        PnpmLogEventV::Progress => "pnpm:progress"@,
        PnpmLogEventV::FetchingProgress(_) => "pnpm:fetching-progress"@,
        PnpmLogEventV::InstallCheck => "pnpm:install-check"@,
        PnpmLogEventV::SkippedOptionalDependency => "pnpm:skipped-optional-dependency"@,
        PnpmLogEventV::Link => "pnpm:link"@,
        PnpmLogEventV::Lifecycle => "pnpm:lifecycle"@,
        PnpmLogEventV::Lockfile => "pnpm:lockfile"@,
        PnpmLogEventV::Summary => "pnpm:summary"@,
        PnpmLogEventV::Unknown => "unknown"@,
    }
}

/// The payload fields an event is encoded with.
pub open spec fn payload_fields(ev: PnpmLogEventV) -> Seq<JsonFieldV> {
    match ev {
        PnpmLogEventV::Message { message, prefix } => seq![
            JsonFieldV { key: "message"@, value: JsonValueV::Str(message) },
        ] + match prefix {
            Some(p) => seq![JsonFieldV { key: "prefix"@, value: JsonValueV::Str(p) }],
            None => Seq::empty(),
        },
        PnpmLogEventV::Global { message } => seq![
            JsonFieldV { key: "message"@, value: JsonValueV::Str(message) },
        ],
        PnpmLogEventV::Scope { selected } => seq![
            JsonFieldV { key: "selected"@, value: JsonValueV::Int(selected) },
        ],
        PnpmLogEventV::DependencyResolved { resolution } => seq![
            JsonFieldV { key: "resolution"@, value: JsonValueV::Str(resolution) },
        ],
        PnpmLogEventV::FetchingProgress(
            PnpmFetchingProgressV::Started { attempt, package_id, size },
        ) => seq![
            JsonFieldV { key: "status"@, value: JsonValueV::Str("started"@) },
            JsonFieldV { key: "attempt"@, value: JsonValueV::Int(attempt) },
            JsonFieldV { key: "packageId"@, value: JsonValueV::Str(package_id) },
            JsonFieldV { key: "size"@, value: JsonValueV::Int(size) },
        ],
        PnpmLogEventV::FetchingProgress(
            PnpmFetchingProgressV::InProgress { package_id, downloaded },
        ) => seq![
            JsonFieldV { key: "status"@, value: JsonValueV::Str("in_progress"@) },
            JsonFieldV { key: "packageId"@, value: JsonValueV::Str(package_id) },
            JsonFieldV { key: "downloaded"@, value: JsonValueV::Int(downloaded) },
        ],
        _ => Seq::empty(),
    }
}

/// The field list a record is encoded to: the five header fields, then the
/// event's payload fields.
pub open spec fn spec_encode(rec: PnpmLogLineV) -> Seq<JsonFieldV> {
    seq![
        JsonFieldV { key: "time"@, value: JsonValueV::Int(rec.time) },
        JsonFieldV { key: "hostname"@, value: JsonValueV::Str(rec.hostname) },
        JsonFieldV { key: "pid"@, value: JsonValueV::Int(rec.pid) },
        JsonFieldV { key: "level"@, value: JsonValueV::Str(level_text(rec.level)) },
        JsonFieldV { key: "name"@, value: JsonValueV::Str(tag_text(rec.event)) },
    ] + payload_fields(rec.event)
}

/// A record value whose numbers lie in the ranges the wire format admits.
pub open spec fn wf_record(rec: PnpmLogLineV) -> bool {
    time_in_range(rec.time) && in_i32(rec.pid) && match rec.event {
        PnpmLogEventV::Scope { selected } => in_i32(selected),
        PnpmLogEventV::FetchingProgress(
            PnpmFetchingProgressV::Started { attempt, size, .. },
        ) => in_i32(attempt) && in_i32(size),
        PnpmLogEventV::FetchingProgress(
            PnpmFetchingProgressV::InProgress { downloaded, .. },
        ) => in_i32(downloaded),
        _ => true,
    }
}

fn level_str(level: LogLevel) -> (r: String)
    ensures
        r@ == level_text(level),
{
    match level {
        LogLevel::Debug => "debug".to_owned(),
        LogLevel::Info => "info".to_owned(),
        LogLevel::Warn => "warn".to_owned(),
        LogLevel::Error => "error".to_owned(),
    }
}

fn tag_str(ev: &PnpmLogEvent) -> (r: String)
    ensures
        r@ == tag_text(ev@),
{
    match ev {
        PnpmLogEvent::Message { .. } => "pnpm".to_owned(),
        PnpmLogEvent::Global { .. } => "pnpm:global".to_owned(),
        PnpmLogEvent::Scope { .. } => "pnpm:scope".to_owned(),
        PnpmLogEvent::PackageManifest => "pnpm:package-manifest".to_owned(),
        PnpmLogEvent::Context => "pnpm:context".to_owned(),
        PnpmLogEvent::Stage => "pnpm:stage".to_owned(),
        PnpmLogEvent::Hook => "pnpm:hook".to_owned(),
        PnpmLogEvent::Deprecation => "pnpm:deprecation".to_owned(),
        PnpmLogEvent::Stats => "pnpm:stats".to_owned(),
        PnpmLogEvent::PackageImportMethod => "pnpm:package-import-method".to_owned(),
        PnpmLogEvent::Root => "pnpm:root".to_owned(),
        PnpmLogEvent::DependencyResolved(_) => "pnpm:_dependency_resolved".to_owned(),
        PnpmLogEvent::Progress => "pnpm:progress".to_owned(),
        PnpmLogEvent::FetchingProgress(_) => "pnpm:fetching-progress".to_owned(),
        PnpmLogEvent::InstallCheck => "pnpm:install-check".to_owned(),
        PnpmLogEvent::SkippedOptionalDependency => "pnpm:skipped-optional-dependency".to_owned(),
        PnpmLogEvent::Link => "pnpm:link".to_owned(),
        PnpmLogEvent::Lifecycle => "pnpm:lifecycle".to_owned(),
        PnpmLogEvent::Lockfile => "pnpm:lockfile".to_owned(),
        PnpmLogEvent::Summary => "pnpm:summary".to_owned(),
        PnpmLogEvent::Unknown => "unknown".to_owned(),
    }
}

/// Encodes a record back to a field list, per [`spec_encode`].
pub fn encode_record(rec: &PnpmLogLine) -> (r: Vec<JsonField>)
    ensures
        fields_view(r@) == spec_encode(rec@),
{
    let mut out: Vec<JsonField> = Vec::new();
    out.push(JsonField { key: "time".to_owned(), value: JsonValue::Int(rec.time) });
    out.push(
        JsonField {
            key: "hostname".to_owned(),
            value: JsonValue::Str(rec.hostname.as_str().to_owned()),
        },
    );
    out.push(JsonField { key: "pid".to_owned(), value: JsonValue::Int(rec.pid as i64) });
    out.push(JsonField { key: "level".to_owned(), value: JsonValue::Str(level_str(rec.level)) });
    out.push(JsonField { key: "name".to_owned(), value: JsonValue::Str(tag_str(&rec.event)) });
    match &rec.event {
        PnpmLogEvent::Message { message, prefix } => {
            out.push(
                JsonField {
                    key: "message".to_owned(),
                    value: JsonValue::Str(message.as_str().to_owned()),
                },
            );
            match prefix {
                Some(p) => {
                    out.push(
                        JsonField {
                            key: "prefix".to_owned(),
                            value: JsonValue::Str(p.as_str().to_owned()),
                        },
                    );
                },
                None => {},
            }
        },
        PnpmLogEvent::Global { message } => {
            out.push(
                JsonField {
                    key: "message".to_owned(),
                    value: JsonValue::Str(message.as_str().to_owned()),
                },
            );
        },
        PnpmLogEvent::Scope { selected } => {
            out.push(
                JsonField { key: "selected".to_owned(), value: JsonValue::Int(*selected as i64) },
            );
        },
        PnpmLogEvent::DependencyResolved(d) => {
            out.push(
                JsonField {
                    key: "resolution".to_owned(),
                    value: JsonValue::Str(d.resolution.as_str().to_owned()),
                },
            );
        },
        PnpmLogEvent::FetchingProgress(PnpmFetchingProgress::Started {
            attempt,
            package_id,
            size,
        }) => {
            out.push(
                JsonField {
                    key: "status".to_owned(),
                    value: JsonValue::Str("started".to_owned()),
                },
            );
            out.push(
                JsonField { key: "attempt".to_owned(), value: JsonValue::Int(*attempt as i64) },
            );
            out.push(
                JsonField {
                    key: "packageId".to_owned(),
                    value: JsonValue::Str(package_id.0.as_str().to_owned()),
                },
            );
            out.push(JsonField { key: "size".to_owned(), value: JsonValue::Int(*size as i64) });
        },
        PnpmLogEvent::FetchingProgress(PnpmFetchingProgress::InProgress {
            package_id,
            downloaded,
        }) => {
            out.push(
                JsonField {
                    key: "status".to_owned(),
                    value: JsonValue::Str("in_progress".to_owned()),
                },
            );
            out.push(
                JsonField {
                    key: "packageId".to_owned(),
                    value: JsonValue::Str(package_id.0.as_str().to_owned()),
                },
            );
            out.push(
                JsonField {
                    key: "downloaded".to_owned(),
                    value: JsonValue::Int(*downloaded as i64),
                },
            );
        },
        _ => {},
    }
    proof {
        assert(fields_view(out@) =~= spec_encode(rec@));
    }
    out
}

/// Round trip: decoding an encoded record recovers the record exactly, for
/// every event — header fields, tag, and payload alike.
#[verifier::rlimit(60)]
pub proof fn lemma_decode_encode(rec: PnpmLogLineV)
    requires
        wf_record(rec),
    ensures
        spec_decode_fields(spec_encode(rec)) == Ok::<PnpmLogLineV, DecodeError>(rec),
{
    reveal_with_fuel(crate::json::spec_lookup, 12);
    reveal_strlit("time");
    reveal_strlit("hostname");
    reveal_strlit("pid");
    reveal_strlit("level");
    reveal_strlit("name");
    reveal_strlit("message");
    reveal_strlit("prefix");
    reveal_strlit("selected");
    reveal_strlit("resolution");
    reveal_strlit("status");
    reveal_strlit("attempt");
    reveal_strlit("packageId");
    reveal_strlit("size");
    reveal_strlit("downloaded");
    reveal_strlit("debug");
    reveal_strlit("info");
    reveal_strlit("warn");
    reveal_strlit("error");
    reveal_strlit("started");
    reveal_strlit("in_progress");
    reveal_strlit("pnpm");
    reveal_strlit("pnpm:global");
    reveal_strlit("pnpm:scope");
    reveal_strlit("pnpm:package-manifest");
    reveal_strlit("pnpm:context");
    reveal_strlit("pnpm:stage");
    reveal_strlit("pnpm:hook");
    reveal_strlit("pnpm:deprecation");
    reveal_strlit("pnpm:stats");
    reveal_strlit("pnpm:package-import-method");
    reveal_strlit("pnpm:root");
    reveal_strlit("pnpm:_dependency_resolved");
    reveal_strlit("pnpm:progress");
    reveal_strlit("pnpm:fetching-progress");
    reveal_strlit("pnpm:install-check");
    reveal_strlit("pnpm:skipped-optional-dependency");
    reveal_strlit("pnpm:link");
    reveal_strlit("pnpm:lifecycle");
    reveal_strlit("pnpm:lockfile");
    reveal_strlit("pnpm:summary");
    reveal_strlit("unknown");
    // Length and character witnesses telling apart the keys, levels and tags
    // that the decoder compares against each other.
    assert("time"@[0] == 't');
    assert("name"@[0] == 'n');
    assert("size"@[0] == 's');
    assert("hostname"@[0] == 'h');
    assert("selected"@[0] == 's');
    assert("debug"@[0] == 'd');
    assert("info"@[0] == 'i');
    assert("warn"@[0] == 'w');
    assert("error"@[0] == 'e');
    assert("pnpm:scope"@[6] == 'c');
    assert("pnpm:stage"@[6] == 't');
    assert("pnpm:stats"@[6] == 't');
    assert("pnpm:stage"@[8] == 'g');
    assert("pnpm:stats"@[8] == 't');
    assert("pnpm:hook"@[5] == 'h');
    assert("pnpm:root"@[5] == 'r');
    assert("pnpm:link"@[5] == 'l');
    assert("pnpm:progress"@[5] == 'p');
    assert("pnpm:lockfile"@[5] == 'l');
    assert("pnpm:context"@[5] == 'c');
    assert("pnpm:summary"@[5] == 's');
    assert("time"@.len() == 4);
    assert("hostname"@.len() == 8);
    assert("pid"@.len() == 3);
    assert("level"@.len() == 5);
    assert("name"@.len() == 4);
    assert("message"@.len() == 7);
    assert("prefix"@.len() == 6);
    assert("selected"@.len() == 8);
    assert("resolution"@.len() == 10);
    assert("status"@.len() == 6);
    assert("attempt"@.len() == 7);
    assert("packageId"@.len() == 9);
    assert("size"@.len() == 4);
    assert("downloaded"@.len() == 10);
    assert("pnpm"@.len() == 4);
    assert("pnpm:global"@.len() == 11);
    assert("pnpm:scope"@.len() == 10);
    assert("pnpm:package-manifest"@.len() == 21);
    assert("pnpm:context"@.len() == 12);
    assert("pnpm:stage"@.len() == 10);
    assert("pnpm:hook"@.len() == 9);
    assert("pnpm:deprecation"@.len() == 16);
    assert("pnpm:stats"@.len() == 10);
    assert("pnpm:package-import-method"@.len() == 26);
    assert("pnpm:root"@.len() == 9);
    assert("pnpm:_dependency_resolved"@.len() == 25);
    assert("pnpm:progress"@.len() == 13);
    assert("pnpm:fetching-progress"@.len() == 22);
    assert("pnpm:install-check"@.len() == 18);
    assert("pnpm:skipped-optional-dependency"@.len() == 32);
    assert("pnpm:link"@.len() == 9);
    assert("pnpm:lifecycle"@.len() == 14);
    assert("pnpm:lockfile"@.len() == 13);
    assert("pnpm:summary"@.len() == 12);
    assert("unknown"@.len() == 7);
    assert("started"@.len() == 7);
    assert("in_progress"@.len() == 11);
    let fs = spec_encode(rec);
    assert(fs[0].key == "time"@);
    assert(fs[1].key == "hostname"@);
    assert(fs[2].key == "pid"@);
    assert(fs[3].key == "level"@);
    assert(fs[4].key == "name"@);
    lemma_lookup_at(fs, "time"@, 0);
    lemma_lookup_at(fs, "hostname"@, 1);
    lemma_lookup_at(fs, "pid"@, 2);
    lemma_lookup_at(fs, "level"@, 3);
    lemma_lookup_at(fs, "name"@, 4);
    assert(spec_level_of(level_text(rec.level)) == Some(rec.level));
    match rec.event {
        PnpmLogEventV::Message { prefix, .. } => {
            lemma_lookup_at(fs, "message"@, 5);
            match prefix {
                Some(_) => {
                    lemma_lookup_at(fs, "prefix"@, 6);
                },
                None => {
                    lemma_lookup_none(fs, "prefix"@);
                },
            }
        },
        PnpmLogEventV::Global { .. } => {
            lemma_lookup_at(fs, "message"@, 5);
        },
        PnpmLogEventV::Scope { .. } => {
            lemma_lookup_at(fs, "selected"@, 5);
        },
        PnpmLogEventV::DependencyResolved { .. } => {
            lemma_lookup_at(fs, "resolution"@, 5);
        },
        PnpmLogEventV::FetchingProgress(PnpmFetchingProgressV::Started { .. }) => {
            lemma_lookup_at(fs, "status"@, 5);
            lemma_lookup_at(fs, "attempt"@, 6);
            lemma_lookup_at(fs, "packageId"@, 7);
            lemma_lookup_at(fs, "size"@, 8);
        },
        PnpmLogEventV::FetchingProgress(PnpmFetchingProgressV::InProgress { .. }) => {
            lemma_lookup_at(fs, "status"@, 5);
            lemma_lookup_at(fs, "packageId"@, 6);
            lemma_lookup_at(fs, "downloaded"@, 7);
        },
        _ => {},
    }
    assert(spec_event_of(fs, tag_text(rec.event)) == Ok::<PnpmLogEventV, DecodeError>(rec.event));
}

} // verus!

