//! The SQLite boundary: the values that cross it, the calls into rusqlite
//! and chrono that the store makes, and the decoding of result columns.

use vstd::prelude::*;
use crate::text::push_char;
use crate::store::{bound_all, Bound};

verus! {

#[verifier::external_type_specification]
#[verifier::external_body]
pub struct ExConnection(rusqlite::Connection);

#[verifier::external_type_specification]
#[verifier::external_body]
pub struct ExSqlError(rusqlite::Error);

#[verifier::external_type_specification]
#[verifier::external_body]
pub struct ExStatement<'conn>(rusqlite::Statement<'conn>);

#[verifier::external_type_specification]
#[verifier::external_body]
pub struct ExRow<'stmt>(rusqlite::Row<'stmt>);

#[verifier::external_type_specification]
#[verifier::external_body]
pub struct ExValue(rusqlite::types::Value);

#[verifier::external_type_specification]
#[verifier::external_body]
pub struct ExJsonError(serde_json::Error);

#[verifier::external_type_specification]
#[verifier::external_body]
pub struct ExJsonValue(serde_json::Value);

/// A floating-point column value, carried through unread.
#[derive(Debug)]
pub struct RealNumber {
    pub raw: rusqlite::types::Value,
}

/// A numeric column value read as a number (SQLite stores REAL columns that
/// hold integers as integers).
#[derive(Debug)]
pub enum Number {
    Integer(i64),
    Real(RealNumber),
}

/// One SQLite value, as bound to a statement or read from a result column.
#[derive(Debug)]
pub enum SqlValue {
    Null,
    Integer(i64),
    Real(RealNumber),
    Text(String),
    Blob(Vec<u8>),
}

/// A point in time without time zone: seconds since 1970-01-01 00:00:00 and
/// the nanoseconds past that second.
#[derive(Clone, Copy, Debug, PartialEq, Eq, Structural)]
pub struct Timestamp {
    pub secs: i64,
    pub nanos: u32,
}

impl Timestamp {
    /// Strict chronological order.
    pub open spec fn before(self, other: Timestamp) -> bool {
        self.secs < other.secs || (self.secs == other.secs && self.nanos < other.nanos)
    }

    pub fn is_before(&self, other: &Timestamp) -> (r: bool)
        ensures
            r == self.before(*other),
    {
        self.secs < other.secs || (self.secs == other.secs && self.nanos < other.nanos)
    }
}

/// The kinds of record the store holds, named in not-found errors.
#[derive(Clone, Copy, Debug, PartialEq, Eq, Structural)]
pub enum RecordKind {
    Memory,
    ParentMemory,
    Entity,
    Relationship,
    Project,
    Document,
    CodeArtifact,
    User,
}

/// Errors of the store.
#[derive(Debug)]
pub enum DbError {
    /// SQLite refused a statement or failed while running it.
    Sqlite(rusqlite::Error),
    /// No readable record of that kind has that id.
    NotFound(RecordKind, i64),
    /// The default user cannot be read.
    UserNotFound,
    /// A column of a row read for copying held a value of another type.
    InvalidColumn(usize),
    /// A list could not be encoded as JSON.
    Json(serde_json::Error),
    /// A point in time lies outside the calendar that can be written.
    InvalidTimestamp,
    /// Following parent links from that memory came back to a memory
    /// already visited.
    VersionCycle(i64),
}

// ───────────────────────── calls into rusqlite ─────────────────────────

/// Converts one library value into rusqlite's `Value`, variant for variant.
#[verifier::external_body]
pub(crate) fn bind_value(v: SqlValue) -> rusqlite::types::Value {
    match v {
        SqlValue::Null => rusqlite::types::Value::Null,
        SqlValue::Integer(i) => rusqlite::types::Value::Integer(i),
        SqlValue::Real(r) => r.raw,
        SqlValue::Text(s) => rusqlite::types::Value::Text(s),
        SqlValue::Blob(b) => rusqlite::types::Value::Blob(b),
    }
}

/// `Row::get` of one column as a dynamic `Value`, converted variant for
/// variant into the library's `SqlValue`.
#[verifier::external_body]
fn row_value(row: &rusqlite::Row<'_>, idx: usize) -> (res: Result<SqlValue, rusqlite::Error>) {
    match row.get::<usize, rusqlite::types::Value>(idx) {
        Ok(rusqlite::types::Value::Null) => Ok(SqlValue::Null),
        Ok(rusqlite::types::Value::Integer(i)) => Ok(SqlValue::Integer(i)),
        Ok(v @ rusqlite::types::Value::Real(_)) => Ok(SqlValue::Real(RealNumber { raw: v })),
        Ok(rusqlite::types::Value::Text(s)) => Ok(SqlValue::Text(s)),
        Ok(rusqlite::types::Value::Blob(b)) => Ok(SqlValue::Blob(b)),
        Err(e) => Err(e),
    }
}

/// Reads the first `ncols` columns of a result row.
pub fn read_row(row: &rusqlite::Row<'_>, ncols: usize) -> (res: Result<Vec<SqlValue>, rusqlite::Error>)
    ensures
        res matches Ok(v) ==> v.len() == ncols,
{
    let mut out: Vec<SqlValue> = Vec::new();
    let mut i: usize = 0;
    while i < ncols
        invariant
            i <= ncols,
            out.len() == i,
        decreases ncols - i,
    {
        let v = row_value(row, i)?;
        out.push(v);
        i = i + 1;
    }
    Ok(out)
}

/// A statement prepared on the connection, with the text it was prepared
/// from. Only `conn_prepare` makes one, and nothing changes it after.
pub struct Prepared<'conn> {
    stmt: rusqlite::Statement<'conn>,
    text: String,
}

impl<'conn> Prepared<'conn> {
    /// The SQL text the statement was prepared from.
    pub closed spec fn sql(&self) -> Seq<char> {
        self.text@
    }
}

/// Whether SQLite refused to prepare the SQL text. Nothing more is known of
/// it: only that `Connection::prepare` failed on that text.
pub uninterp spec fn sqlite_rejected(sql: Seq<char>) -> bool;

/// Whether SQLite answered the query `sql`, run with the values `params`
/// bound, with these rows, in order (`None` for a row that could not be
/// read). Nothing more is known of it: an answer depends on what the
/// database holds.
pub uninterp spec fn sqlite_answered(sql: Seq<char>, params: Seq<Bound>, rows: Seq<Option<Seq<Bound>>>) -> bool;

/// Whether SQLite failed to run the prepared query `sql` with the values
/// `params` bound. Nothing more is known of it.
pub uninterp spec fn sqlite_refused(sql: Seq<char>, params: Seq<Bound>) -> bool;

/// The rows of an answer as bound values; `None` for a row that failed.
pub open spec fn answer_view(rows: Seq<Result<Vec<SqlValue>, rusqlite::Error>>) -> Seq<Option<Seq<Bound>>> {
    rows.map_values(|r: Result<Vec<SqlValue>, rusqlite::Error>| match r {
        Ok(v) => Some(bound_all(v@)),
        Err(_) => None,
    })
}

/// `Connection::prepare`; the statement keeps the text it was prepared
/// from. A refusal is SQLite's rejection of that text.
#[verifier::external_body]
pub(crate) fn conn_prepare<'a>(conn: &'a rusqlite::Connection, sql: &str) -> (res: Result<Prepared<'a>, rusqlite::Error>)
    ensures
        res matches Ok(p) ==> p.sql() == sql@,
        res is Err ==> sqlite_rejected(sql@),
{
    conn.prepare(sql).map(|stmt| Prepared { stmt, text: sql.to_owned() })
}

/// `Statement::query_map` with positional parameters (each value bound as
/// its rusqlite `Value`), each row read by `read_row`; the mapped rows are
/// collected in the order SQLite yields them. Every item is an error of the
/// row or what `read_row` returned for it, so each row that came back has
/// `ncols` values; the rows are SQLite's answer to the statement's text
/// with those values bound, and a failure is its refusal.
#[verifier::external_body]
pub(crate) fn stmt_query_map(stmt: &mut Prepared<'_>, params: Vec<SqlValue>, ncols: usize)
    -> (res: Result<Vec<Result<Vec<SqlValue>, rusqlite::Error>>, rusqlite::Error>)
    ensures
        final(stmt).sql() == old(stmt).sql(),
        res matches Ok(rows) ==> forall|i: int| 0 <= i < rows.len() ==>
            ((#[trigger] rows[i]) matches Ok(r) ==> r.len() == ncols),
        res matches Ok(rows) ==> sqlite_answered(old(stmt).sql(), bound_all(params@), answer_view(rows@)),
        res is Err ==> sqlite_refused(old(stmt).sql(), bound_all(params@)),
{
    stmt.stmt.query_map(rusqlite::params_from_iter(params.into_iter().map(bind_value)), |row| read_row(row, ncols))
        .map(|rows| rows.collect())
}

/// `Clone::clone` of rusqlite's `Value` (a derived clone: an equal value).
#[verifier::external_body]
fn clone_value(v: &rusqlite::types::Value) -> (r: rusqlite::types::Value)
    ensures
        r == *v,
{
    v.clone()
}

/// The value bound for a number.
pub fn number_value(n: &Number) -> (r: SqlValue)
    ensures
        r == match *n {
            Number::Integer(i) => SqlValue::Integer(i),
            Number::Real(x) => SqlValue::Real(x),
        },
{
    match n {
        Number::Integer(i) => SqlValue::Integer(*i),
        Number::Real(x) => SqlValue::Real(RealNumber { raw: clone_value(&x.raw) }),
    }
}

// ───────────────────────── calls into chrono ─────────────────────────

/// What rusqlite's `FromSql` for `chrono::NaiveDateTime` makes of a text
/// column (`YYYY-MM-DD HH:MM:SS[.f]`, or with `T` between date and time).
pub uninterp spec fn sql_datetime_parse(text: Seq<char>) -> Option<Timestamp>;

/// The text that rusqlite's `ToSql` for `chrono::NaiveDateTime` binds for a
/// point in time (`%F %T%.f`); `None` where chrono has no such date.
pub uninterp spec fn sql_datetime_text(t: Timestamp) -> Option<Seq<char>>;

/// What `NaiveDateTime::parse_from_str(text, format)` returns.
pub uninterp spec fn naive_datetime_parse(text: Seq<char>, format: Seq<char>) -> Option<Timestamp>;

/// What `NaiveDate::parse_from_str(text, format)` returns, at midnight.
pub uninterp spec fn naive_date_parse_midnight(text: Seq<char>, format: Seq<char>) -> Option<Timestamp>;

/// rusqlite's `FromSql` for `chrono::NaiveDateTime` on a text value,
/// converted to seconds and nanoseconds since the epoch.
#[verifier::external_body]
pub(crate) fn parse_sql_datetime(text: &str) -> (r: Option<Timestamp>)
    ensures
        r == sql_datetime_parse(text@),
{
    <chrono::NaiveDateTime as rusqlite::types::FromSql>::column_result(rusqlite::types::ValueRef::Text(text.as_bytes()))
        .ok().map(|d| { let u = d.and_utc(); Timestamp { secs: u.timestamp(), nanos: u.timestamp_subsec_nanos() } })
}

/// rusqlite's `ToSql` for the `chrono::NaiveDateTime` at that point in
/// time (`DateTime::from_timestamp`), whose output is always an owned text;
/// `None` where chrono has no such date.
#[verifier::external_body]
pub(crate) fn format_sql_datetime(t: &Timestamp) -> (r: Option<String>)
    ensures
        r matches Some(s) ==> sql_datetime_text(*t) == Some(s@),
        r is None ==> sql_datetime_text(*t) is None,
{
    let d = chrono::DateTime::from_timestamp(t.secs, t.nanos)?;
    match rusqlite::types::ToSql::to_sql(&d.naive_utc()) {
        Ok(rusqlite::types::ToSqlOutput::Owned(rusqlite::types::Value::Text(s))) => Some(s),
        _ => None,
    }
}

/// `NaiveDateTime::parse_from_str`, converted to seconds and nanoseconds.
#[verifier::external_body]
pub(crate) fn parse_datetime(text: &str, format: &str) -> (r: Option<Timestamp>)
    ensures
        r == naive_datetime_parse(text@, format@),
{
    chrono::NaiveDateTime::parse_from_str(text, format).ok()
        .map(|d| { let u = d.and_utc(); Timestamp { secs: u.timestamp(), nanos: u.timestamp_subsec_nanos() } })
}

/// `NaiveDate::parse_from_str`, taken at 00:00:00.
#[verifier::external_body]
pub(crate) fn parse_date_midnight(text: &str, format: &str) -> (r: Option<Timestamp>)
    ensures
        r == naive_date_parse_midnight(text@, format@),
{
    chrono::NaiveDate::parse_from_str(text, format).ok().and_then(|d| d.and_hms_opt(0, 0, 0))
        .map(|d| { let u = d.and_utc(); Timestamp { secs: u.timestamp(), nanos: u.timestamp_subsec_nanos() } })
}

/// What `DateTime::parse_from_rfc3339` returns, as a point in time.
pub uninterp spec fn rfc3339_parse(text: Seq<char>) -> Option<Timestamp>;

/// `DateTime::parse_from_rfc3339` (a date and time with `Z` or an offset),
/// as seconds and nanoseconds since the epoch in UTC.
#[verifier::external_body]
pub(crate) fn parse_rfc3339(text: &str) -> (r: Option<Timestamp>)
    ensures
        r == rfc3339_parse(text@),
{
    chrono::DateTime::parse_from_rfc3339(text).ok()
        .map(|d| Timestamp { secs: d.timestamp(), nanos: d.timestamp_subsec_nanos() })
}

#[verifier::external_type_specification]
#[verifier::external_body]
pub struct ExSystemTime(std::time::SystemTime);

/// `SystemTime::now()`. It reads the clock: nothing is stated of it.
#[verifier::external_body]
fn system_time_now() -> std::time::SystemTime {
    std::time::SystemTime::now()
}

/// `SystemTime::duration_since(UNIX_EPOCH)`; `None` for a time before the
/// epoch.
#[verifier::external_body]
fn since_epoch(t: &std::time::SystemTime) -> Option<core::time::Duration> {
    t.duration_since(std::time::UNIX_EPOCH).ok()
}

/// `Duration::as_secs`, the whole seconds of a duration.
#[verifier::external_body]
fn duration_secs(d: &core::time::Duration) -> u64 {
    d.as_secs()
}

/// `Duration::subsec_nanos`, the nanoseconds past the whole seconds; its
/// documentation says they are always less than one billion.
#[verifier::external_body]
fn duration_subsec_nanos(d: &core::time::Duration) -> (r: u32)
    ensures
        r < 1_000_000_000,
{
    d.subsec_nanos()
}

/// `DateTime::from_timestamp`, as seconds and nanoseconds since the epoch;
/// `None` past the range chrono can hold.
#[verifier::external_body]
fn utc_from_timestamp(secs: i64, nanos: u32) -> Option<Timestamp> {
    chrono::DateTime::from_timestamp(secs, nanos)
        .map(|d| Timestamp { secs: d.timestamp(), nanos: d.timestamp_subsec_nanos() })
}

/// The system clock as seconds and nanoseconds since the epoch, in UTC,
/// the way `chrono::Utc::now()` reads it, but `None` where that would
/// panic: a clock before the epoch, or past what chrono can hold. It reads
/// the clock: nothing is stated of the result.
pub(crate) fn utc_now() -> Option<Timestamp> {
    let now = system_time_now();
    let since = since_epoch(&now)?;
    let secs = duration_secs(&since);
    if secs > i64::MAX as u64 {
        return None;
    }
    utc_from_timestamp(secs as i64, duration_subsec_nanos(&since))
}

// ───────────────────────── calls into serde_json ─────────────────────────

/// A hex digit, lowercase.
pub open spec fn hex_digit(n: u32) -> char {
    if n < 10 {
        (('0' as u32) + n) as char
    } else {
        (('a' as u32) + n - 10) as char
    }
}

/// A character as `serde_json` writes it inside a string: `"` and `\`
/// behind a backslash; backspace, tab, line feed, form feed and carriage
/// return as `\b`, `\t`, `\n`, `\f`, `\r`; any other character below
/// U+0020 as `\u00` and two lowercase hex digits; every other character
/// as it is.
pub open spec fn json_escape(c: char) -> Seq<char> {
    let u = c as u32;
    if c == '"' {
        seq!['\\', '"']
    } else if c == '\\' {
        seq!['\\', '\\']
    } else if u == 0x08 {
        seq!['\\', 'b']
    } else if u == 0x09 {
        seq!['\\', 't']
    } else if u == 0x0a {
        seq!['\\', 'n']
    } else if u == 0x0c {
        seq!['\\', 'f']
    } else if u == 0x0d {
        seq!['\\', 'r']
    } else if u < 0x20 {
        seq!['\\', 'u', '0', '0', hex_digit(u / 16), hex_digit(u % 16)]
    } else {
        seq![c]
    }
}

/// A string as a JSON string: in double quotes, each character escaped
/// (see `json_escape`).
pub open spec fn json_string_text(s: Seq<char>) -> Seq<char> {
    seq!['"'] + json_escaped(s) + seq!['"']
}

/// The characters of a string, each escaped, in order.
pub open spec fn json_escaped(s: Seq<char>) -> Seq<char>
    decreases s.len(),
{
    if s.len() == 0 {
        seq![]
    } else {
        json_escaped(s.drop_last()) + json_escape(s.last())
    }
}

/// The JSON strings of the items, separated by commas.
pub open spec fn json_items(items: Seq<Seq<char>>) -> Seq<char>
    decreases items.len(),
{
    if items.len() == 0 {
        seq![]
    } else if items.len() == 1 {
        json_string_text(items[0])
    } else {
        json_items(items.drop_last()) + seq![','] + json_string_text(items.last())
    }
}

/// The JSON text `serde_json::to_string` writes for a list of strings, with
/// its compact formatter: `[`, the strings (see `json_items`), `]`.
pub open spec fn json_string_list_text(items: Seq<Seq<char>>) -> Seq<char> {
    seq!['['] + json_items(items) + seq![']']
}

/// The list of strings `serde_json::from_str` reads from a text, if it is a
/// JSON array of strings.
pub uninterp spec fn json_string_list_parse(text: Seq<char>) -> Option<Seq<Seq<char>>>;

/// Whether `serde_json::from_str::<serde_json::Value>` accepts a text.
pub uninterp spec fn json_text_is_valid(text: Seq<char>) -> bool;

/// `serde_json::to_string` of a list of strings. Its documentation says it
/// fails only where a `Serialize` impl fails or a map has a key that is not
/// a string; neither is found in a list of strings, so it succeeds.
#[verifier::external_body]
pub(crate) fn json_encode_strings(items: &Vec<String>) -> (r: Result<String, serde_json::Error>)
    ensures
        r is Ok,
        r matches Ok(s) ==> s@ == json_string_list_text(items.deep_view()),
{
    serde_json::to_string(items)
}

/// `serde_json::from_str::<Vec<String>>`.
#[verifier::external_body]
pub(crate) fn json_decode_strings(text: &str) -> (r: Result<Vec<String>, serde_json::Error>)
    ensures
        r matches Ok(v) ==> json_string_list_parse(text@) == Some(v.deep_view()),
        r is Err ==> json_string_list_parse(text@) is None,
{
    serde_json::from_str::<Vec<String>>(text)
}

/// Whether `serde_json::from_str::<serde_json::Value>` accepts the text.
#[verifier::external_body]
pub(crate) fn json_is_valid(text: &str) -> (r: bool)
    ensures
        r == json_text_is_valid(text@),
{
    serde_json::from_str::<serde_json::Value>(text).is_ok()
}

/// `serde_json::from_str::<serde_json::Value>`; a text it refuses gives
/// `Value::Null`, as `unwrap_or_default` does.
#[verifier::external_body]
pub(crate) fn json_value_or_null(text: &str) -> serde_json::Value {
    serde_json::from_str::<serde_json::Value>(text).unwrap_or_default()
}

} // verus!
