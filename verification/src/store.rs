//! The store: a SQLite connection and the statement helpers every table uses.

use vstd::prelude::*;
use crate::sql::{
    answer_view, bind_value, conn_prepare, sqlite_answered,
    sqlite_refused, sqlite_rejected, stmt_query_map, DbError, Number, RealNumber, SqlValue,
};
use crate::text::push_char;

verus! {

/// A value bound to a statement, as contracts speak of it.
pub enum Bound {
    Null,
    Integer(i64),
    Real(RealNumber),
    Text(Seq<char>),
    Blob(Seq<u8>),
}

pub open spec fn bound(v: SqlValue) -> Bound {
    match v {
        SqlValue::Null => Bound::Null,
        SqlValue::Integer(i) => Bound::Integer(i),
        SqlValue::Real(r) => Bound::Real(r),
        SqlValue::Text(s) => Bound::Text(s@),
        SqlValue::Blob(b) => Bound::Blob(b@),
    }
}

pub open spec fn bound_all(vs: Seq<SqlValue>) -> Seq<Bound> {
    vs.map_values(|v: SqlValue| bound(v))
}

/// A statement handed to SQLite to change the database: its text and the
/// values bound to its parameters.
pub type Write = (Seq<char>, Seq<Bound>);

/// The id of the local user.
pub open spec fn default_user() -> Seq<char> {
    seq!['d', 'e', 'f', 'a', 'u', 'l', 't']
}

/// The value bound for an optional text.
pub open spec fn opt_text_bound(o: Option<Seq<char>>) -> Bound {
    match o {
        Some(t) => Bound::Text(t),
        None => Bound::Null,
    }
}

/// The value bound for an optional string.
pub open spec fn opt_string_bound(o: Option<String>) -> Bound {
    match o {
        Some(t) => Bound::Text(t@),
        None => Bound::Null,
    }
}

/// The value bound for an optional integer.
pub open spec fn opt_int_bound(o: Option<i64>) -> Bound {
    match o {
        Some(i) => Bound::Integer(i),
        None => Bound::Null,
    }
}

/// The value bound for an optional number.
pub open spec fn opt_number_bound(o: Option<Number>) -> Bound {
    match o {
        Some(Number::Integer(i)) => Bound::Integer(i),
        Some(Number::Real(x)) => Bound::Real(x),
        None => Bound::Null,
    }
}

/// The memory store, backed by one SQLite connection. Its log is every
/// changing statement handed to the connection so far, in order; only
/// `execute_logged` and `execute_batch_logged` add to it.
pub struct Database {
    conn: rusqlite::Connection,
    writes: Ghost<Seq<Write>>,
}

/// Whether SQLite reported `n` rows changed by the last statement of `log`.
/// Nothing more is known of it: it depends on what the database held.
pub uninterp spec fn rows_changed(log: Seq<Write>, n: usize) -> bool;

/// `Connection::execute` on the store's connection with positional
/// parameters, each bound as its rusqlite `Value`. The statement and the
/// values bound are added to the store's log, whether SQLite runs it or not;
/// on success, the count is the rows SQLite reports the statement changed.
#[verifier::external_body]
fn execute_logged(db: &mut Database, sql: &str, params: Vec<SqlValue>) -> (r: Result<usize, rusqlite::Error>)
    ensures
        final(db).log() == old(db).log().push((sql@, bound_all(params@))),
        r matches Ok(n) ==> rows_changed(final(db).log(), n),
{
    db.conn.execute(sql, rusqlite::params_from_iter(params.into_iter().map(bind_value)))
}

/// Whether `id` is what SQLite reports as the rowid of the most recent
/// successful insert on the store's connection, once the statements of
/// `log` were handed to it. Nothing more is known of it: it depends on what
/// SQLite did with them.
pub uninterp spec fn inserted_rowid(log: Seq<Write>, id: i64) -> bool;

/// `Connection::last_insert_rowid` on the store's connection: the rowid of
/// the most recent successful insert after the statements of its log.
#[verifier::external_body]
fn last_rowid(db: &Database) -> (r: i64)
    ensures
        inserted_rowid(db.log(), r),
{
    db.conn.last_insert_rowid()
}

/// `Connection::execute_batch` on the store's connection. The batch is
/// added to the store's log, with no values, whether SQLite runs it or not.
#[verifier::external_body]
fn execute_batch_logged(db: &mut Database, sql: &str) -> (r: Result<(), rusqlite::Error>)
    ensures
        final(db).log() == old(db).log().push((sql@, Seq::<Bound>::empty())),
{
    db.conn.execute_batch(sql)
}

/// The rows a query returned, each either read in full or failed.
pub type QueryRows = Vec<Result<Vec<SqlValue>, rusqlite::Error>>;

pub open spec fn rows_have_width(rows: Seq<Result<Vec<SqlValue>, rusqlite::Error>>, ncols: nat) -> bool {
    forall|i: int| 0 <= i < rows.len() ==> ((#[trigger] rows[i]) matches Ok(r) ==> r.len() == ncols)
}

pub open spec fn all_have_width(rows: Seq<Vec<SqlValue>>, ncols: nat) -> bool {
    forall|i: int| 0 <= i < rows.len() ==> (#[trigger] rows[i]).len() == ncols
}

impl Database {
    /// Every changing statement handed to the connection so far, in order,
    /// with the values bound to it.
    pub closed spec fn log(&self) -> Seq<Write> {
        self.writes@
    }

    /// The store on a connection, used as it is.
    pub fn wrap(conn: rusqlite::Connection) -> (r: Database)
        ensures
            r.log() == Seq::<Write>::empty(),
    {
        Database { conn, writes: Ghost(Seq::empty()) }
    }

    /// The id of the single local user that owns every record.
    pub fn default_user_id() -> (r: String)
        ensures
            r@ == seq!['d', 'e', 'f', 'a', 'u', 'l', 't'],
    {
        let mut s = String::new();
        push_char(&mut s, 'd');
        push_char(&mut s, 'e');
        push_char(&mut s, 'f');
        push_char(&mut s, 'a');
        push_char(&mut s, 'u');
        push_char(&mut s, 'l');
        push_char(&mut s, 't');
        s
    }

    /// Runs one statement with positional parameters; the number of rows
    /// it changed.
    pub fn execute(&mut self, sql: &str, params: Vec<SqlValue>) -> (r: Result<usize, DbError>)
        ensures
            final(self).log() == old(self).log().push((sql@, bound_all(params@))),
            r matches Ok(n) ==> rows_changed(final(self).log(), n),
            r is Err ==> r->Err_0 is Sqlite,
    {
        match execute_logged(self, sql, params) {
            Ok(n) => Ok(n),
            Err(e) => Err(DbError::Sqlite(e)),
        }
    }

    /// Runs a batch of statements without parameters.
    pub fn execute_batch(&mut self, sql: &str) -> (r: Result<(), DbError>)
        ensures
            final(self).log() == old(self).log().push((sql@, Seq::<Bound>::empty())),
            r is Err ==> r->Err_0 is Sqlite,
    {
        match execute_batch_logged(self, sql) {
            Ok(()) => Ok(()),
            Err(e) => Err(DbError::Sqlite(e)),
        }
    }

    /// The rowid of the most recent successful insert.
    pub fn last_insert_rowid(&self) -> (r: i64)
        ensures
            inserted_rowid(self.log(), r),
    {
        last_rowid(self)
    }

    /// Runs a query and reads the first `ncols` columns of every row.
    pub fn query_rows(&self, sql: &str, params: Vec<SqlValue>, ncols: usize) -> (r: Result<QueryRows, DbError>)
        ensures
            r matches Ok(rows) ==> rows_have_width(rows@, ncols as nat),
            r matches Ok(rows) ==> sqlite_answered(sql@, bound_all(params@), answer_view(rows@)),
            r is Err ==> r->Err_0 is Sqlite && query_failed(sql@, bound_all(params@)),
    {
        let mut stmt = match conn_prepare(&self.conn, sql) {
            Ok(s) => s,
            Err(e) => { return Err(DbError::Sqlite(e)); },
        };
        match stmt_query_map(&mut stmt, params, ncols) {
            Ok(rows) => Ok(rows),
            Err(e) => Err(DbError::Sqlite(e)),
        }
    }

    /// The rows of a query that were read without error, in order.
    pub fn query_ok_rows(&self, sql: &str, params: Vec<SqlValue>, ncols: usize) -> (r: Result<Vec<Vec<SqlValue>>, DbError>)
        ensures
            r matches Ok(rows) ==> all_have_width(rows@, ncols as nat),
            r matches Ok(rows) ==> answered(sql@, bound_all(params@), rows@),
            r is Err ==> r->Err_0 is Sqlite && query_failed(sql@, bound_all(params@)),
    {
        let ghost pb = bound_all(params@);
        let rows = self.query_rows(sql, params, ncols)?;
        let ghost raw = rows@;
        let r = ok_rows(rows, ncols);
        assert(sqlite_answered(sql@, pb, answer_view(raw)) && r@ == ok_rows_spec(raw));
        Ok(r)
    }

    /// The first row of a query, as `Connection::query_row` gives it: `None`
    /// when the query fails, returns no row, or its first row cannot be read.
    pub fn query_first(&self, sql: &str, params: Vec<SqlValue>, ncols: usize) -> (r: Option<Vec<SqlValue>>)
        ensures
            r matches Some(row) ==> row.len() == ncols,
            first_answer(sql@, bound_all(params@), r),
    {
        let ghost pb = bound_all(params@);
        match self.query_rows(sql, params, ncols) {
            Ok(rows) => {
                let ghost rv = rows@;
                let mut rows = rows;
                if rows.len() == 0 {
                    assert(sqlite_answered(sql@, pb, answer_view(rv)));
                    None
                } else {
                    let first = rows.remove(0);
                    assert(first == rv[0]);
                    assert(sqlite_answered(sql@, pb, answer_view(rv)));
                    match first {
                        Ok(row) => Some(row),
                        Err(_) => None,
                    }
                }
            },
            Err(_) => None,
        }
    }
}

/// SQLite did not run the query: it rejected the text or failed on it.
pub open spec fn query_failed(sql: Seq<char>, params: Seq<Bound>) -> bool {
    sqlite_rejected(sql) || sqlite_refused(sql, params)
}

/// `rows` are the rows, read without error and in order, of an answer of
/// SQLite to the query `sql` with the values `params`.
pub open spec fn answered(sql: Seq<char>, params: Seq<Bound>, rows: Seq<Vec<SqlValue>>) -> bool {
    exists|raw: Seq<Result<Vec<SqlValue>, rusqlite::Error>>|
        #[trigger] sqlite_answered(sql, params, answer_view(raw)) && rows == ok_rows_spec(raw)
}

/// `r` is what `Connection::query_row` makes of the query: the first row
/// of SQLite's answer; none when the query failed, was answered with no
/// row, or its first row could not be read.
pub open spec fn first_answer(sql: Seq<char>, params: Seq<Bound>, r: Option<Vec<SqlValue>>) -> bool {
    match r {
        Some(row) => exists|raw: Seq<Result<Vec<SqlValue>, rusqlite::Error>>|
            #[trigger] sqlite_answered(sql, params, answer_view(raw)) && raw.len() > 0 && raw[0] == Ok::<Vec<SqlValue>, rusqlite::Error>(row),
        None => query_failed(sql, params) || exists|raw: Seq<Result<Vec<SqlValue>, rusqlite::Error>>|
            #[trigger] sqlite_answered(sql, params, answer_view(raw)) && (raw.len() == 0 || raw[0] is Err),
    }
}

/// The rows that were read without error, in their order.
pub open spec fn ok_rows_spec(rows: Seq<Result<Vec<SqlValue>, rusqlite::Error>>) -> Seq<Vec<SqlValue>>
    decreases rows.len(),
{
    if rows.len() == 0 {
        seq![]
    } else {
        match rows.last() {
            Ok(r) => ok_rows_spec(rows.drop_last()).push(r),
            Err(_) => ok_rows_spec(rows.drop_last()),
        }
    }
}

/// Keeps the rows that were read without error (`filter_map(Result::ok)`).
pub fn ok_rows(rows: QueryRows, ncols: usize) -> (r: Vec<Vec<SqlValue>>)
    requires
        rows_have_width(rows@, ncols as nat),
    ensures
        r@ == ok_rows_spec(rows@),
        all_have_width(r@, ncols as nat),
{
    let ghost all = rows@;
    let n = rows.len();
    let mut rows = rows;
    let mut rev: Vec<Vec<SqlValue>> = Vec::new();
    // Consume from the back so that every row is moved, not copied.
    let mut k = n;
    assert(all.take(n as int) =~= all);
    assert(rev@.reverse() =~= Seq::<Vec<SqlValue>>::empty());
    assert(ok_rows_spec(all) + rev@.reverse() =~= ok_rows_spec(all));
    while k > 0
        invariant
            k <= n,
            n == all.len(),
            rows@ == all.take(k as int),
            rows_have_width(all, ncols as nat),
            ok_rows_spec(all) == ok_rows_spec(all.take(k as int)) + rev@.reverse(),
            all_have_width(rev@, ncols as nat),
        decreases k,
    {
        let ghost before = rev@;
        assert(all.take(k as int).drop_last() =~= all.take(k - 1));
        let item = rows.pop().unwrap();
        assert(item == all[k - 1]);
        match item {
            Ok(r) => {
                rev.push(r);
                assert(rev@.reverse() =~= seq![r] + before.reverse());
                assert(ok_rows_spec(all.take(k as int)) == ok_rows_spec(all.take(k - 1)).push(r));
                assert(ok_rows_spec(all.take(k - 1)).push(r) + before.reverse()
                    =~= ok_rows_spec(all.take(k - 1)) + (seq![r] + before.reverse()));
            },
            Err(_) => {},
        }
        k = k - 1;
    }
    assert(all.take(0) =~= Seq::<Result<Vec<SqlValue>, rusqlite::Error>>::empty());
    let mut out: Vec<Vec<SqlValue>> = Vec::new();
    let ghost target = rev@.reverse();
    while rev.len() > 0
        invariant
            out@ + rev@.reverse() == target,
            all_have_width(rev@, ncols as nat),
            all_have_width(out@, ncols as nat),
        decreases rev.len(),
    {
        let ghost before = rev@;
        let r = rev.pop().unwrap();
        assert(before.reverse() =~= seq![r] + rev@.reverse());
        out.push(r);
        assert(out@ + rev@.reverse() =~= target);
    }
    assert(out@ =~= target);
    out
}

} // verus!
