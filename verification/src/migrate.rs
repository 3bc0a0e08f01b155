//! Importing the records of a forgetful-ai database into the store.

use vstd::prelude::*;
use crate::columns::{as_opt_int, as_opt_number, as_opt_text};
use crate::search::reversed;
use crate::sql::{number_value, DbError, SqlValue};
use crate::statements::{distinct_names, insert_sql, insert_statement, inserts_value, lemma_insert_binds, lemma_insert_sql_two, lemma_select_gives, lemma_select_sql_two, select_sql, select_statement, selected_value, views};
use crate::store::{default_user, bound, bound_all, first_answer, query_failed, rows_have_width, all_have_width, Bound, Database, Write};
use crate::sql::{answer_view, sqlite_answered};

verus! {

/// A text column, or `default` when the column holds no text.
pub open spec fn text_or_spec(v: SqlValue, default: Seq<char>) -> Seq<char> {
    match v {
        SqlValue::Text(s) => s@,
        _ => default,
    }
}

/// An integer column in the range of `i32`, or `default` otherwise.
pub open spec fn i32_or_spec(v: SqlValue, default: i32) -> i32 {
    match v {
        SqlValue::Integer(i) => if i32::MIN <= i <= i32::MAX { i as i32 } else { default },
        _ => default,
    }
}

/// An integer column, or `default` when the column holds no integer.
pub open spec fn int_or_spec(v: SqlValue, default: i64) -> i64 {
    match v {
        SqlValue::Integer(i) => i,
        _ => default,
    }
}

/// A nullable text column holds null or text.
pub open spec fn opt_text_ok(v: SqlValue) -> bool {
    v is Null || v is Text
}

/// A nullable integer column holds null or an integer.
pub open spec fn opt_int_ok(v: SqlValue) -> bool {
    v is Null || v is Integer
}

/// A nullable numeric column holds null, an integer or a real.
pub open spec fn opt_number_ok(v: SqlValue) -> bool {
    v is Null || v is Integer || v is Real
}

/// A text column, or `default` when the column holds no text.
pub fn text_or(v: SqlValue, default: &str) -> (r: String)
    ensures
        r@ == text_or_spec(v, default@),
{
    match v {
        SqlValue::Text(s) => s,
        _ => default.to_owned(),
    }
}

/// An integer column in the range of `i32`, or `default` otherwise.
pub fn i32_or(v: SqlValue, default: i32) -> (r: i32)
    ensures
        r == i32_or_spec(v, default),
{
    match v {
        SqlValue::Integer(i) => if i32::MIN as i64 <= i && i <= i32::MAX as i64 { i as i32 } else { default },
        _ => default,
    }
}

/// An integer column, or `default` when the column holds no integer.
pub fn int_or(v: SqlValue, default: i64) -> (r: i64)
    ensures
        r == int_or_spec(v, default),
{
    match v {
        SqlValue::Integer(i) => i,
        _ => default,
    }
}

/// An integer column, or an error naming the column.
pub fn req_int(v: SqlValue, col: usize) -> (r: Result<i64, DbError>)
    ensures
        match v {
            SqlValue::Integer(i) => r == Ok::<i64, DbError>(i),
            _ => r matches Err(e) && e == DbError::InvalidColumn(col),
        },
{
    match v {
        SqlValue::Integer(i) => Ok(i),
        _ => Err(DbError::InvalidColumn(col)),
    }
}

/// A text column, or an error naming the column.
pub fn req_text(v: SqlValue, col: usize) -> (r: Result<String, DbError>)
    ensures
        v matches SqlValue::Text(s) ==> (r matches Ok(t) && t@ == s@),
        !(v is Text) ==> (r matches Err(e) && e == DbError::InvalidColumn(col)),
{
    match v {
        SqlValue::Text(s) => Ok(s),
        _ => Err(DbError::InvalidColumn(col)),
    }
}

/// A nullable text column, or an error naming the column.
pub fn req_opt_text(v: SqlValue, col: usize) -> (r: Result<SqlValue, DbError>)
    ensures
        r is Ok <==> opt_text_ok(v),
        r matches Ok(x) ==> bound(x) == bound(v),
        r matches Err(e) ==> e == DbError::InvalidColumn(col),
{
    match as_opt_text(v) {
        Some(Some(s)) => Ok(SqlValue::Text(s)),
        Some(None) => Ok(SqlValue::Null),
        None => Err(DbError::InvalidColumn(col)),
    }
}

/// A nullable integer column, or an error naming the column.
pub fn req_opt_int(v: SqlValue, col: usize) -> (r: Result<SqlValue, DbError>)
    ensures
        r is Ok <==> opt_int_ok(v),
        r matches Ok(x) ==> bound(x) == bound(v),
        r matches Err(e) ==> e == DbError::InvalidColumn(col),
{
    match as_opt_int(v) {
        Some(Some(i)) => Ok(SqlValue::Integer(i)),
        Some(None) => Ok(SqlValue::Null),
        None => Err(DbError::InvalidColumn(col)),
    }
}

/// A nullable numeric column, or an error naming the column.
pub fn req_opt_number(v: SqlValue, col: usize) -> (r: Result<SqlValue, DbError>)
    ensures
        r is Ok <==> opt_number_ok(v),
        r matches Ok(x) ==> bound(x) == bound(v),
        r matches Err(e) ==> e == DbError::InvalidColumn(col),
{
    match as_opt_number(v) {
        Some(Some(n)) => Ok(number_value(&n)),
        Some(None) => Ok(SqlValue::Null),
        None => Err(DbError::InvalidColumn(col)),
    }
}

/// `r` is what reading a row whose import is `want` returns: the values
/// to bind, or the error naming the first bad column.
pub open spec fn import_result(r: Result<Vec<SqlValue>, DbError>, want: Result<Seq<Bound>, usize>) -> bool {
    match want {
        Ok(b) => r matches Ok(p) && bound_all(p@) == b,
        Err(c) => r matches Err(e) && e == DbError::InvalidColumn(c),
    }
}
/// Sets what supersedes a copied memory, where nothing is set yet: `?1` is
/// the memory, `?2` the one that supersedes it.
pub const SUPERSEDED_COPY: &'static str = "UPDATE memories SET superseded_by = ?2 WHERE id = ?1 AND superseded_by IS NULL";

/// The columns a project is read with from the source, in order.
pub open spec fn project_read_columns() -> Seq<Seq<char>> {
    seq!["id"@, "user_id"@, "name"@, "description"@, "project_type"@, "status"@, "repo_name"@, "notes"@, "created_at"@, "updated_at"@]
}

/// The query that reads the projects of the source.
pub open spec fn project_select_sql() -> Seq<char> {
    select_sql("projects"@, project_read_columns())
}

/// The columns a copied project is written with, in the order of its values.
pub open spec fn project_written_columns() -> Seq<Seq<char>> {
    seq!["id"@, "user_id"@, "name"@, "description"@, "project_type"@, "status"@, "repo_name"@, "notes"@, "created_at"@, "updated_at"@]
}

/// The insert that copies a project.
pub open spec fn project_copy_sql() -> Seq<char> {
    insert_sql("INSERT OR IGNORE"@, "projects"@, project_written_columns())
}

/// The columns a entity is read with from the source, in order.
pub open spec fn entity_read_columns() -> Seq<Seq<char>> {
    seq!["id"@, "user_id"@, "name"@, "entity_type"@, "custom_type"@, "notes"@, "tags"@, "aka"@, "created_at"@, "updated_at"@]
}

/// The query that reads the entitys of the source.
pub open spec fn entity_select_sql() -> Seq<char> {
    select_sql("entities"@, entity_read_columns())
}

/// The columns a copied entity is written with, in the order of its values.
pub open spec fn entity_written_columns() -> Seq<Seq<char>> {
    seq!["id"@, "user_id"@, "name"@, "entity_type"@, "custom_type"@, "notes"@, "tags"@, "aka"@, "created_at"@, "updated_at"@]
}

/// The insert that copies a entity.
pub open spec fn entity_copy_sql() -> Seq<char> {
    insert_sql("INSERT OR IGNORE"@, "entities"@, entity_written_columns())
}

/// The columns a document is read with from the source, in order.
pub open spec fn document_read_columns() -> Seq<Seq<char>> {
    seq!["id"@, "user_id"@, "project_id"@, "title"@, "description"@, "content"@, "document_type"@, "filename"@, "size_bytes"@, "tags"@, "created_at"@, "updated_at"@]
}

/// The query that reads the documents of the source.
pub open spec fn document_select_sql() -> Seq<char> {
    select_sql("documents"@, document_read_columns())
}

/// The columns a copied document is written with, in the order of its values.
pub open spec fn document_written_columns() -> Seq<Seq<char>> {
    seq!["id"@, "user_id"@, "project_id"@, "title"@, "description"@, "content"@, "document_type"@, "filename"@, "size_bytes"@, "tags"@, "created_at"@, "updated_at"@]
}

/// The insert that copies a document.
pub open spec fn document_copy_sql() -> Seq<char> {
    insert_sql("INSERT OR IGNORE"@, "documents"@, document_written_columns())
}

/// The columns a code artifact is read with from the source, in order.
pub open spec fn code_artifact_read_columns() -> Seq<Seq<char>> {
    seq!["id"@, "project_id"@, "title"@, "description"@, "code"@, "language"@, "tags"@, "created_at"@, "updated_at"@]
}

/// The query that reads the code artifacts of the source.
pub open spec fn code_artifact_select_sql() -> Seq<char> {
    select_sql("code_artifacts"@, code_artifact_read_columns())
}

/// The columns a copied code artifact is written with, in the order of its values.
pub open spec fn code_artifact_written_columns() -> Seq<Seq<char>> {
    seq!["id"@, "user_id"@, "project_id"@, "title"@, "description"@, "code"@, "language"@, "tags"@, "created_at"@, "updated_at"@]
}

/// The insert that copies a code artifact.
pub open spec fn code_artifact_copy_sql() -> Seq<char> {
    insert_sql("INSERT OR IGNORE"@, "code_artifacts"@, code_artifact_written_columns())
}

/// The columns a memory is read with from the source, in order.
pub open spec fn memory_read_columns() -> Seq<Seq<char>> {
    seq!["id"@, "user_id"@, "title"@, "content"@, "context"@, "keywords"@, "tags"@, "importance"@, "is_obsolete"@, "obsolete_reason"@, "superseded_by"@, "obsoleted_at"@, "source_repo"@, "source_files"@, "source_url"@, "confidence"@, "encoding_agent"@, "created_at"@, "updated_at"@]
}

/// The query that reads the memorys of the source.
pub open spec fn memory_select_sql() -> Seq<char> {
    select_sql("memories"@, memory_read_columns())
}

/// The columns a copied memory is written with, in the order of its values.
pub open spec fn memory_written_columns() -> Seq<Seq<char>> {
    seq!["id"@, "user_id"@, "title"@, "content"@, "context"@, "keywords"@, "tags"@, "importance"@, "is_obsolete"@, "obsolete_reason"@, "obsoleted_at"@, "source_repo"@, "source_files"@, "source_url"@, "confidence"@, "encoding_agent"@, "version"@, "is_latest"@, "memory_type"@, "created_at"@, "updated_at"@]
}

/// The insert that copies a memory.
pub open spec fn memory_copy_sql() -> Seq<char> {
    insert_sql("INSERT OR IGNORE"@, "memories"@, memory_written_columns())
}

/// The columns a relationship is read with from the source, in order.
pub open spec fn relationship_columns() -> Seq<Seq<char>> {
    seq![
        "source_entity_id"@, "target_entity_id"@, "relationship_type"@, "strength"@,
        "confidence"@, "relationship_metadata"@, "created_at"@, "updated_at"@,
    ]
}

/// The query that reads the relationships of the source.
pub open spec fn relationship_select_sql() -> Seq<char> {
    select_sql(RELATIONSHIP_TABLE@, relationship_columns())
}

/// The insert that copies a relationship: its owner, then the columns it
/// was read with, in the same order.
pub open spec fn relationship_copy_sql() -> Seq<char> {
    insert_sql("INSERT OR IGNORE"@, RELATIONSHIP_TABLE@, seq!["user_id"@] + relationship_columns())
}

/// What a source row of 10 columns gives to copy as a project: the values
/// bound to the insert, or the first column that holds a value of another type.
pub open spec fn project_import(row: Seq<SqlValue>) -> Result<Seq<Bound>, usize> {
    if !(row[0] is Integer) {
        Err(0)
    } else if !(row[2] is Text) {
        Err(2)
    } else if !(opt_text_ok(row[4])) {
        Err(4)
    } else if !(opt_text_ok(row[6])) {
        Err(6)
    } else if !(opt_text_ok(row[7])) {
        Err(7)
    } else if !(row[8] is Text) {
        Err(8)
    } else if !(row[9] is Text) {
        Err(9)
    } else {
        Ok(seq![bound(row[0]), Bound::Text(default_user()), bound(row[2]), Bound::Text(text_or_spec(row[3], ""@)), bound(row[4]), Bound::Text(text_or_spec(row[5], "active"@)), bound(row[6]), bound(row[7]), bound(row[8]), bound(row[9])])
    }
}

/// What a source row of 10 columns gives to copy as a entity: the values
/// bound to the insert, or the first column that holds a value of another type.
pub open spec fn entity_import(row: Seq<SqlValue>) -> Result<Seq<Bound>, usize> {
    if !(row[0] is Integer) {
        Err(0)
    } else if !(row[2] is Text) {
        Err(2)
    } else if !(row[3] is Text) {
        Err(3)
    } else if !(opt_text_ok(row[4])) {
        Err(4)
    } else if !(opt_text_ok(row[5])) {
        Err(5)
    } else if !(row[8] is Text) {
        Err(8)
    } else if !(row[9] is Text) {
        Err(9)
    } else {
        Ok(seq![bound(row[0]), Bound::Text(default_user()), bound(row[2]), bound(row[3]), bound(row[4]), bound(row[5]), Bound::Text(text_or_spec(row[6], "[]"@)), Bound::Text(text_or_spec(row[7], "[]"@)), bound(row[8]), bound(row[9])])
    }
}

/// What a source row of 19 columns gives to copy as a memory: the values
/// bound to the insert, or the first column that holds a value of another type.
/// What supersedes the memory (column 10) is checked but set afterwards, once
/// every memory is there (see `migrate_superseded`).
pub open spec fn memory_import(row: Seq<SqlValue>) -> Result<Seq<Bound>, usize> {
    if !(row[0] is Integer) {
        Err(0)
    } else if !(row[2] is Text) {
        Err(2)
    } else if !(row[3] is Text) {
        Err(3)
    } else if !(opt_text_ok(row[9])) {
        Err(9)
    } else if !(opt_int_ok(row[10])) {
        Err(10)
    } else if !(opt_text_ok(row[11])) {
        Err(11)
    } else if !(opt_text_ok(row[12])) {
        Err(12)
    } else if !(opt_text_ok(row[13])) {
        Err(13)
    } else if !(opt_text_ok(row[14])) {
        Err(14)
    } else if !(opt_number_ok(row[15])) {
        Err(15)
    } else if !(opt_text_ok(row[16])) {
        Err(16)
    } else if !(row[17] is Text) {
        Err(17)
    } else if !(row[18] is Text) {
        Err(18)
    } else {
        Ok(seq![bound(row[0]), Bound::Text(default_user()), bound(row[2]), bound(row[3]), Bound::Text(text_or_spec(row[4], ""@)), Bound::Text(text_or_spec(row[5], "[]"@)), Bound::Text(text_or_spec(row[6], "[]"@)), Bound::Integer(i32_or_spec(row[7], 5) as i64), Bound::Integer(i32_or_spec(row[8], 0) as i64), bound(row[9]), bound(row[11]), bound(row[12]), bound(row[13]), bound(row[14]), bound(row[15]), bound(row[16]), Bound::Integer(1), Bound::Integer(1), Bound::Text("fact"@), bound(row[17]), bound(row[18])])
    }
}

/// What a source row of 12 columns gives to copy as a document: the values
/// bound to the insert, or the first column that holds a value of another type.
pub open spec fn document_import(row: Seq<SqlValue>) -> Result<Seq<Bound>, usize> {
    if !(row[0] is Integer) {
        Err(0)
    } else if !(opt_int_ok(row[2])) {
        Err(2)
    } else if !(row[3] is Text) {
        Err(3)
    } else if !(opt_text_ok(row[6])) {
        Err(6)
    } else if !(opt_text_ok(row[7])) {
        Err(7)
    } else if !(row[10] is Text) {
        Err(10)
    } else if !(row[11] is Text) {
        Err(11)
    } else {
        Ok(seq![bound(row[0]), Bound::Text(default_user()), bound(row[2]), bound(row[3]), Bound::Text(text_or_spec(row[4], ""@)), Bound::Text(text_or_spec(row[5], ""@)), bound(row[6]), bound(row[7]), Bound::Integer(int_or_spec(row[8], 0)), Bound::Text(text_or_spec(row[9], "[]"@)), bound(row[10]), bound(row[11])])
    }
}

/// What a source row of 9 columns gives to copy as a code artifact: the values
/// bound to the insert, or the first column that holds a value of another type.
pub open spec fn code_artifact_import(row: Seq<SqlValue>) -> Result<Seq<Bound>, usize> {
    if !(row[0] is Integer) {
        Err(0)
    } else if !(opt_int_ok(row[1])) {
        Err(1)
    } else if !(row[2] is Text) {
        Err(2)
    } else if !(row[7] is Text) {
        Err(7)
    } else if !(row[8] is Text) {
        Err(8)
    } else {
        Ok(seq![bound(row[0]), Bound::Text(default_user()), bound(row[1]), bound(row[2]), Bound::Text(text_or_spec(row[3], ""@)), Bound::Text(text_or_spec(row[4], ""@)), Bound::Text(text_or_spec(row[5], ""@)), Bound::Text(text_or_spec(row[6], "[]"@)), bound(row[7]), bound(row[8])])
    }
}

/// What a source row of 8 columns gives to copy as a relationship: the values
/// bound to the insert (the default user, then the row's columns in order),
/// or the first column that holds a value of another type.
pub open spec fn relationship_import(row: Seq<SqlValue>) -> Result<Seq<Bound>, usize> {
    if !(row[0] is Integer) {
        Err(0)
    } else if !(row[1] is Integer) {
        Err(1)
    } else if !(row[2] is Text) {
        Err(2)
    } else if !(opt_number_ok(row[3])) {
        Err(3)
    } else if !(opt_number_ok(row[4])) {
        Err(4)
    } else if !(opt_text_ok(row[5])) {
        Err(5)
    } else if !(row[6] is Text) {
        Err(6)
    } else if !(row[7] is Text) {
        Err(7)
    } else {
        Ok(seq![Bound::Text(default_user()), bound(row[0]), bound(row[1]), bound(row[2]), bound(row[3]), bound(row[4]), bound(row[5]), bound(row[6]), bound(row[7])])
    }
}

/// What a source row of 2 columns gives to copy as a pair: the values
/// bound to the insert, or the first column that holds a value of another type.
pub open spec fn pair_import(row: Seq<SqlValue>) -> Result<Seq<Bound>, usize> {
    if !(row[0] is Integer) {
        Err(0)
    } else if !(row[1] is Integer) {
        Err(1)
    } else {
        Ok(seq![bound(row[0]), bound(row[1])])
    }
}

/// The kinds of source rows copied into the store.
#[derive(Clone, Copy, Debug, PartialEq, Eq, Structural)]
pub enum ImportKind {
    Project, Entity, Memory, Document, CodeArtifact, Relationship, Pair,
}

/// The number of columns a source row of each kind has.
pub open spec fn import_width(kind: ImportKind) -> nat {
    match kind {
        ImportKind::Project => 10,
        ImportKind::Entity => 10,
        ImportKind::Memory => 19,
        ImportKind::Document => 12,
        ImportKind::CodeArtifact => 9,
        ImportKind::Relationship => 8,
        ImportKind::Pair => 2,
    }
}

/// What a source row of a kind gives to copy (see the `*_import` of each kind).
pub open spec fn row_import(kind: ImportKind, row: Seq<SqlValue>) -> Result<Seq<Bound>, usize> {
    match kind {
        ImportKind::Project => project_import(row),
        ImportKind::Entity => entity_import(row),
        ImportKind::Memory => memory_import(row),
        ImportKind::Document => document_import(row),
        ImportKind::CodeArtifact => code_artifact_import(row),
        ImportKind::Relationship => relationship_import(row),
        ImportKind::Pair => pair_import(row),
    }
}

/// Reads a source row of a kind as the values of its insert.
fn row_params(kind: ImportKind, row: Vec<SqlValue>) -> (r: Result<Vec<SqlValue>, DbError>)
    requires
        row.len() == import_width(kind),
    ensures
        import_result(r, row_import(kind, row@)),
{
    match kind {
        ImportKind::Project => project_params(row),
        ImportKind::Entity => entity_params(row),
        ImportKind::Memory => memory_params(row),
        ImportKind::Document => document_params(row),
        ImportKind::CodeArtifact => code_artifact_params(row),
        ImportKind::Relationship => relationship_params(row),
        ImportKind::Pair => pair_params(row),
    }
}

/// Reads a source row as the values of a project insert (see `project_import`).
fn project_params(row: Vec<SqlValue>) -> (r: Result<Vec<SqlValue>, DbError>)
    requires
        row.len() == 10,
    ensures
        import_result(r, project_import(row@)),
{
    let ghost v = row@;
    let mut row = row;
    let c9: Result<String, DbError> = req_text(row.pop().unwrap(), 9);
    assert(row@ =~= v.take(9));
    let c8: Result<String, DbError> = req_text(row.pop().unwrap(), 8);
    assert(row@ =~= v.take(8));
    let c7: Result<SqlValue, DbError> = req_opt_text(row.pop().unwrap(), 7);
    assert(row@ =~= v.take(7));
    let c6: Result<SqlValue, DbError> = req_opt_text(row.pop().unwrap(), 6);
    assert(row@ =~= v.take(6));
    let v5: String = text_or(row.pop().unwrap(), "active");
    assert(row@ =~= v.take(5));
    let c4: Result<SqlValue, DbError> = req_opt_text(row.pop().unwrap(), 4);
    assert(row@ =~= v.take(4));
    let v3: String = text_or(row.pop().unwrap(), "");
    assert(row@ =~= v.take(3));
    let c2: Result<String, DbError> = req_text(row.pop().unwrap(), 2);
    assert(row@ =~= v.take(2));
    let _unused: Option<SqlValue> = row.pop();
    assert(row@ =~= v.take(1));
    let c0: Result<i64, DbError> = req_int(row.pop().unwrap(), 0);
    assert(row@ =~= v.take(0));
    let v0: i64 = c0?;
    let v2: String = c2?;
    let v4: SqlValue = c4?;
    let v6: SqlValue = c6?;
    let v7: SqlValue = c7?;
    let v8: String = c8?;
    let v9: String = c9?;
    let p: Vec<SqlValue> = vec![SqlValue::Integer(v0), SqlValue::Text(Database::default_user_id()), SqlValue::Text(v2), SqlValue::Text(v3), v4, SqlValue::Text(v5), v6, v7, SqlValue::Text(v8), SqlValue::Text(v9)];
    assert(bound_all(p@) =~= project_import(v)->Ok_0);
    Ok(p)
}

/// Reads a source row as the values of a entity insert (see `entity_import`).
fn entity_params(row: Vec<SqlValue>) -> (r: Result<Vec<SqlValue>, DbError>)
    requires
        row.len() == 10,
    ensures
        import_result(r, entity_import(row@)),
{
    let ghost v = row@;
    let mut row = row;
    let c9: Result<String, DbError> = req_text(row.pop().unwrap(), 9);
    assert(row@ =~= v.take(9));
    let c8: Result<String, DbError> = req_text(row.pop().unwrap(), 8);
    assert(row@ =~= v.take(8));
    let v7: String = text_or(row.pop().unwrap(), "[]");
    assert(row@ =~= v.take(7));
    let v6: String = text_or(row.pop().unwrap(), "[]");
    assert(row@ =~= v.take(6));
    let c5: Result<SqlValue, DbError> = req_opt_text(row.pop().unwrap(), 5);
    assert(row@ =~= v.take(5));
    let c4: Result<SqlValue, DbError> = req_opt_text(row.pop().unwrap(), 4);
    assert(row@ =~= v.take(4));
    let c3: Result<String, DbError> = req_text(row.pop().unwrap(), 3);
    assert(row@ =~= v.take(3));
    let c2: Result<String, DbError> = req_text(row.pop().unwrap(), 2);
    assert(row@ =~= v.take(2));
    let _unused: Option<SqlValue> = row.pop();
    assert(row@ =~= v.take(1));
    let c0: Result<i64, DbError> = req_int(row.pop().unwrap(), 0);
    assert(row@ =~= v.take(0));
    let v0: i64 = c0?;
    let v2: String = c2?;
    let v3: String = c3?;
    let v4: SqlValue = c4?;
    let v5: SqlValue = c5?;
    let v8: String = c8?;
    let v9: String = c9?;
    let p: Vec<SqlValue> = vec![SqlValue::Integer(v0), SqlValue::Text(Database::default_user_id()), SqlValue::Text(v2), SqlValue::Text(v3), v4, v5, SqlValue::Text(v6), SqlValue::Text(v7), SqlValue::Text(v8), SqlValue::Text(v9)];
    assert(bound_all(p@) =~= entity_import(v)->Ok_0);
    Ok(p)
}

/// Reads a source row as the values of a memory insert (see `memory_import`).
fn memory_params(row: Vec<SqlValue>) -> (r: Result<Vec<SqlValue>, DbError>)
    requires
        row.len() == 19,
    ensures
        import_result(r, memory_import(row@)),
{
    let ghost v = row@;
    let mut row = row;
    let c18: Result<String, DbError> = req_text(row.pop().unwrap(), 18);
    assert(row@ =~= v.take(18));
    let c17: Result<String, DbError> = req_text(row.pop().unwrap(), 17);
    assert(row@ =~= v.take(17));
    let c16: Result<SqlValue, DbError> = req_opt_text(row.pop().unwrap(), 16);
    assert(row@ =~= v.take(16));
    let c15: Result<SqlValue, DbError> = req_opt_number(row.pop().unwrap(), 15);
    assert(row@ =~= v.take(15));
    let c14: Result<SqlValue, DbError> = req_opt_text(row.pop().unwrap(), 14);
    assert(row@ =~= v.take(14));
    let c13: Result<SqlValue, DbError> = req_opt_text(row.pop().unwrap(), 13);
    assert(row@ =~= v.take(13));
    let c12: Result<SqlValue, DbError> = req_opt_text(row.pop().unwrap(), 12);
    assert(row@ =~= v.take(12));
    let c11: Result<SqlValue, DbError> = req_opt_text(row.pop().unwrap(), 11);
    assert(row@ =~= v.take(11));
    let c10: Result<SqlValue, DbError> = req_opt_int(row.pop().unwrap(), 10);
    assert(row@ =~= v.take(10));
    let c9: Result<SqlValue, DbError> = req_opt_text(row.pop().unwrap(), 9);
    assert(row@ =~= v.take(9));
    let v8: i32 = i32_or(row.pop().unwrap(), 0);
    assert(row@ =~= v.take(8));
    let v7: i32 = i32_or(row.pop().unwrap(), 5);
    assert(row@ =~= v.take(7));
    let v6: String = text_or(row.pop().unwrap(), "[]");
    assert(row@ =~= v.take(6));
    let v5: String = text_or(row.pop().unwrap(), "[]");
    assert(row@ =~= v.take(5));
    let v4: String = text_or(row.pop().unwrap(), "");
    assert(row@ =~= v.take(4));
    let c3: Result<String, DbError> = req_text(row.pop().unwrap(), 3);
    assert(row@ =~= v.take(3));
    let c2: Result<String, DbError> = req_text(row.pop().unwrap(), 2);
    assert(row@ =~= v.take(2));
    let _unused: Option<SqlValue> = row.pop();
    assert(row@ =~= v.take(1));
    let c0: Result<i64, DbError> = req_int(row.pop().unwrap(), 0);
    assert(row@ =~= v.take(0));
    let v0: i64 = c0?;
    let v2: String = c2?;
    let v3: String = c3?;
    let v9: SqlValue = c9?;
    let _v10: SqlValue = c10?;
    let v11: SqlValue = c11?;
    let v12: SqlValue = c12?;
    let v13: SqlValue = c13?;
    let v14: SqlValue = c14?;
    let v15: SqlValue = c15?;
    let v16: SqlValue = c16?;
    let v17: String = c17?;
    let v18: String = c18?;
    let p: Vec<SqlValue> = vec![SqlValue::Integer(v0), SqlValue::Text(Database::default_user_id()), SqlValue::Text(v2), SqlValue::Text(v3), SqlValue::Text(v4), SqlValue::Text(v5), SqlValue::Text(v6), SqlValue::Integer(v7 as i64), SqlValue::Integer(v8 as i64), v9, v11, v12, v13, v14, v15, v16, SqlValue::Integer(1), SqlValue::Integer(1), SqlValue::Text("fact".to_owned()), SqlValue::Text(v17), SqlValue::Text(v18)];
    assert(bound_all(p@) =~= memory_import(v)->Ok_0);
    Ok(p)
}

/// Reads a source row as the values of a document insert (see `document_import`).
fn document_params(row: Vec<SqlValue>) -> (r: Result<Vec<SqlValue>, DbError>)
    requires
        row.len() == 12,
    ensures
        import_result(r, document_import(row@)),
{
    let ghost v = row@;
    let mut row = row;
    let c11: Result<String, DbError> = req_text(row.pop().unwrap(), 11);
    assert(row@ =~= v.take(11));
    let c10: Result<String, DbError> = req_text(row.pop().unwrap(), 10);
    assert(row@ =~= v.take(10));
    let v9: String = text_or(row.pop().unwrap(), "[]");
    assert(row@ =~= v.take(9));
    let v8: i64 = int_or(row.pop().unwrap(), 0);
    assert(row@ =~= v.take(8));
    let c7: Result<SqlValue, DbError> = req_opt_text(row.pop().unwrap(), 7);
    assert(row@ =~= v.take(7));
    let c6: Result<SqlValue, DbError> = req_opt_text(row.pop().unwrap(), 6);
    assert(row@ =~= v.take(6));
    let v5: String = text_or(row.pop().unwrap(), "");
    assert(row@ =~= v.take(5));
    let v4: String = text_or(row.pop().unwrap(), "");
    assert(row@ =~= v.take(4));
    let c3: Result<String, DbError> = req_text(row.pop().unwrap(), 3);
    assert(row@ =~= v.take(3));
    let c2: Result<SqlValue, DbError> = req_opt_int(row.pop().unwrap(), 2);
    assert(row@ =~= v.take(2));
    let _unused: Option<SqlValue> = row.pop();
    assert(row@ =~= v.take(1));
    let c0: Result<i64, DbError> = req_int(row.pop().unwrap(), 0);
    assert(row@ =~= v.take(0));
    let v0: i64 = c0?;
    let v2: SqlValue = c2?;
    let v3: String = c3?;
    let v6: SqlValue = c6?;
    let v7: SqlValue = c7?;
    let v10: String = c10?;
    let v11: String = c11?;
    let p: Vec<SqlValue> = vec![SqlValue::Integer(v0), SqlValue::Text(Database::default_user_id()), v2, SqlValue::Text(v3), SqlValue::Text(v4), SqlValue::Text(v5), v6, v7, SqlValue::Integer(v8), SqlValue::Text(v9), SqlValue::Text(v10), SqlValue::Text(v11)];
    assert(bound_all(p@) =~= document_import(v)->Ok_0);
    Ok(p)
}

/// Reads a source row as the values of a code artifact insert (see `code_artifact_import`).
fn code_artifact_params(row: Vec<SqlValue>) -> (r: Result<Vec<SqlValue>, DbError>)
    requires
        row.len() == 9,
    ensures
        import_result(r, code_artifact_import(row@)),
{
    let ghost v = row@;
    let mut row = row;
    let c8: Result<String, DbError> = req_text(row.pop().unwrap(), 8);
    assert(row@ =~= v.take(8));
    let c7: Result<String, DbError> = req_text(row.pop().unwrap(), 7);
    assert(row@ =~= v.take(7));
    let v6: String = text_or(row.pop().unwrap(), "[]");
    assert(row@ =~= v.take(6));
    let v5: String = text_or(row.pop().unwrap(), "");
    assert(row@ =~= v.take(5));
    let v4: String = text_or(row.pop().unwrap(), "");
    assert(row@ =~= v.take(4));
    let v3: String = text_or(row.pop().unwrap(), "");
    assert(row@ =~= v.take(3));
    let c2: Result<String, DbError> = req_text(row.pop().unwrap(), 2);
    assert(row@ =~= v.take(2));
    let c1: Result<SqlValue, DbError> = req_opt_int(row.pop().unwrap(), 1);
    assert(row@ =~= v.take(1));
    let c0: Result<i64, DbError> = req_int(row.pop().unwrap(), 0);
    assert(row@ =~= v.take(0));
    let v0: i64 = c0?;
    let v1: SqlValue = c1?;
    let v2: String = c2?;
    let v7: String = c7?;
    let v8: String = c8?;
    let p: Vec<SqlValue> = vec![SqlValue::Integer(v0), SqlValue::Text(Database::default_user_id()), v1, SqlValue::Text(v2), SqlValue::Text(v3), SqlValue::Text(v4), SqlValue::Text(v5), SqlValue::Text(v6), SqlValue::Text(v7), SqlValue::Text(v8)];
    assert(bound_all(p@) =~= code_artifact_import(v)->Ok_0);
    Ok(p)
}

/// Reads a source row as the values of a relationship insert (see `relationship_import`).
fn relationship_params(row: Vec<SqlValue>) -> (r: Result<Vec<SqlValue>, DbError>)
    requires
        row.len() == 8,
    ensures
        import_result(r, relationship_import(row@)),
{
    let ghost v = row@;
    let mut row = row;
    let c7: Result<String, DbError> = req_text(row.pop().unwrap(), 7);
    assert(row@ =~= v.take(7));
    let c6: Result<String, DbError> = req_text(row.pop().unwrap(), 6);
    assert(row@ =~= v.take(6));
    let c5: Result<SqlValue, DbError> = req_opt_text(row.pop().unwrap(), 5);
    assert(row@ =~= v.take(5));
    let c4: Result<SqlValue, DbError> = req_opt_number(row.pop().unwrap(), 4);
    assert(row@ =~= v.take(4));
    let c3: Result<SqlValue, DbError> = req_opt_number(row.pop().unwrap(), 3);
    assert(row@ =~= v.take(3));
    let c2: Result<String, DbError> = req_text(row.pop().unwrap(), 2);
    assert(row@ =~= v.take(2));
    let c1: Result<i64, DbError> = req_int(row.pop().unwrap(), 1);
    assert(row@ =~= v.take(1));
    let c0: Result<i64, DbError> = req_int(row.pop().unwrap(), 0);
    assert(row@ =~= v.take(0));
    let v0: i64 = c0?;
    let v1: i64 = c1?;
    let v2: String = c2?;
    let v3: SqlValue = c3?;
    let v4: SqlValue = c4?;
    let v5: SqlValue = c5?;
    let v6: String = c6?;
    let v7: String = c7?;
    let owner = SqlValue::Text(Database::default_user_id());
    let p: Vec<SqlValue> = vec![owner, SqlValue::Integer(v0), SqlValue::Integer(v1), SqlValue::Text(v2), v3, v4, v5, SqlValue::Text(v6), SqlValue::Text(v7)];
    assert(bound_all(p@) =~= relationship_import(v)->Ok_0);
    Ok(p)
}

/// Reads a source row as the values of a pair insert (see `pair_import`).
fn pair_params(row: Vec<SqlValue>) -> (r: Result<Vec<SqlValue>, DbError>)
    requires
        row.len() == 2,
    ensures
        import_result(r, pair_import(row@)),
{
    let ghost v = row@;
    let mut row = row;
    let c1: Result<i64, DbError> = req_int(row.pop().unwrap(), 1);
    assert(row@ =~= v.take(1));
    let c0: Result<i64, DbError> = req_int(row.pop().unwrap(), 0);
    assert(row@ =~= v.take(0));
    let v0: i64 = c0?;
    let v1: i64 = c1?;
    let p: Vec<SqlValue> = vec![SqlValue::Integer(v0), SqlValue::Integer(v1)];
    assert(bound_all(p@) =~= pair_import(v)->Ok_0);
    Ok(p)
}

/// The inserts that copy the first `k` of `rows`, in order.
pub open spec fn import_writes(insert: Seq<char>, kind: ImportKind, rows: Seq<Vec<SqlValue>>, k: int) -> Seq<Write> {
    Seq::new(k as nat, |i: int| (insert, row_import(kind, rows[i]@)->Ok_0))
}

/// A copy of `rows` went as far as its `k` first rows: each of them could
/// be read and was inserted, in order, and nothing else was written. It
/// ended with `Ok` and the count of rows when every row was copied, with
/// the first bad column of row `k` when that row could not be read, or
/// with an error of SQLite.
pub open spec fn import_run(
    insert: Seq<char>,
    kind: ImportKind,
    rows: Seq<Vec<SqlValue>>,
    k: int,
    before: Seq<Write>,
    after: Seq<Write>,
    r: Result<usize, DbError>,
) -> bool {
    &&& 0 <= k <= rows.len()
    &&& forall|i: int| 0 <= i < k ==> (#[trigger] row_import(kind, rows[i]@)) is Ok
    &&& after == before + import_writes(insert, kind, rows, k)
    &&& match r {
        Ok(n) => k == rows.len() && n == k,
        Err(DbError::InvalidColumn(c)) => k < rows.len() && row_import(kind, rows[k]@) == Err::<Seq<Bound>, usize>(c),
        Err(DbError::Sqlite(_)) => true,
        Err(_) => false,
    }
}

pub const TABLE_COUNT: &'static str = "SELECT COUNT(*) FROM sqlite_master WHERE type='table' AND name=?1";

/// Whether the first row of an answer counts at least one table: its first
/// column is an integer in the range of `i32` above zero.
pub open spec fn counts_a_table(first: Option<Vec<SqlValue>>) -> bool {
    match first {
        Some(row) => match row@[0] {
            SqlValue::Integer(c) => i32::MIN <= c <= i32::MAX && c > 0,
            _ => false,
        },
        None => false,
    }
}

/// Whether the source database has a table of that name: what SQLite
/// answered to the count of tables of that name in `sqlite_master`.
pub fn table_exists(src: &Database, table_name: &str) -> (r: bool)
    ensures
        exists|first: Option<Vec<SqlValue>>|
            #[trigger] first_answer(TABLE_COUNT@, seq![Bound::Text(table_name@)], first) && r == counts_a_table(first),
{
    let params: Vec<SqlValue> = vec![SqlValue::Text(table_name.to_owned())];
    assert(bound_all(params@) =~= seq![Bound::Text(table_name@)]);
    let first = src.query_first(TABLE_COUNT, params, 1);
    let ghost fv = first;
    let r = match first {
        Some(row) => {
            let mut row = row;
            let ghost rv = row@;
            let v = row.pop().unwrap();
            assert(v == rv[0]);
            match v {
                SqlValue::Integer(c) => i32::MIN as i64 <= c && c <= i32::MAX as i64 && c > 0,
                _ => false,
            }
        },
        None => false,
    };
    assert(first_answer(TABLE_COUNT@, seq![Bound::Text(table_name@)], fv) && r == counts_a_table(fv));
    r
}

/// `rows` are all the rows SQLite answered to the query, in order, each
/// read without error.
pub open spec fn answered_in_full(sql: Seq<char>, rows: Seq<Vec<SqlValue>>) -> bool {
    exists|raw: Seq<Result<Vec<SqlValue>, rusqlite::Error>>|
        #[trigger] sqlite_answered(sql, Seq::<Bound>::empty(), answer_view(raw))
        && raw.len() == rows.len()
        && forall|i: int| 0 <= i < raw.len() ==> raw[i] == Ok::<Vec<SqlValue>, rusqlite::Error>(rows[i])
}

/// `rows` are the rows SQLite answered to the query, in order, up to the
/// first row that could not be read, which there is.
pub open spec fn answered_until_failure(sql: Seq<char>, rows: Seq<Vec<SqlValue>>) -> bool {
    exists|raw: Seq<Result<Vec<SqlValue>, rusqlite::Error>>|
        #[trigger] sqlite_answered(sql, Seq::<Bound>::empty(), answer_view(raw))
        && raw.len() > rows.len()
        && (forall|i: int| 0 <= i < rows.len() ==> raw[i] == Ok::<Vec<SqlValue>, rusqlite::Error>(rows[i]))
        && raw[rows.len() as int] is Err
}

/// The rows of a query, in order, up to the first that could not be read,
/// with that row's error when there is one; an error when SQLite did not
/// run the query.
fn source_rows(src: &Database, sql: &str, ncols: usize)
    -> (r: Result<(Vec<Vec<SqlValue>>, Option<rusqlite::Error>), DbError>)
    ensures
        r is Err ==> r->Err_0 is Sqlite && query_failed(sql@, Seq::<Bound>::empty()),
        r matches Ok((rows, _)) ==> all_have_width(rows@, ncols as nat),
        r matches Ok((rows, None)) ==> answered_in_full(sql@, rows@),
        r matches Ok((rows, Some(_))) ==> answered_until_failure(sql@, rows@),
{
    let params: Vec<SqlValue> = Vec::new();
    assert(bound_all(params@) =~= Seq::<Bound>::empty());
    let rows = src.query_rows(sql, params, ncols)?;
    let ghost all = rows@;
    let mut rest = reversed(rows);
    let mut out: Vec<Vec<SqlValue>> = Vec::new();
    while rest.len() > 0
        invariant
            rest.len() + out.len() == all.len(),
            forall|j: int| 0 <= j < rest.len() ==> #[trigger] rest@[j] == all[all.len() - 1 - j],
            rows_have_width(all, ncols as nat),
            all_have_width(out@, ncols as nat),
            forall|i: int| 0 <= i < out.len() ==> all[i] == Ok::<Vec<SqlValue>, rusqlite::Error>(#[trigger] out@[i]),
            sqlite_answered(sql@, Seq::<Bound>::empty(), answer_view(all)),
        decreases rest.len(),
    {
        let ghost before = rest@;
        let item = rest.pop().unwrap();
        assert(item == before[before.len() - 1]);
        assert(item == all[out.len() as int]);
        assert(forall|j: int| 0 <= j < rest.len() ==> #[trigger] rest@[j] == before[j]);
        match item {
            Ok(row) => out.push(row),
            Err(e) => {
                assert(all[out.len() as int] is Err);
                assert(answered_until_failure(sql@, out@));
                return Ok((out, Some(e)));
            },
        }
    }
    Ok((out, None))
}

/// Inserts the rows of a kind, in order, with `insert`: each row is read
/// as that insert's values (see `row_import`). A row that cannot be read
/// ends the copy with its first bad column; so does a failed insert with
/// SQLite's error, unless `keep_going`, when it is passed over.
fn import_rows(dest: &mut Database, rows: Vec<Vec<SqlValue>>, kind: ImportKind, insert: &str, keep_going: bool) -> (r: Result<usize, DbError>)
    requires
        all_have_width(rows@, import_width(kind)),
    ensures
        exists|k: int| #[trigger] import_run(insert@, kind, rows@, k, old(dest).log(), final(dest).log(), r),
        keep_going ==> !(r matches Err(DbError::Sqlite(_))),
{
    let ghost all = rows@;
    let ghost w0 = dest.log();
    let total: usize = rows.len();
    let mut rest = reversed(rows);
    let mut count: usize = 0;
    assert(import_writes(insert@, kind, all, 0) =~= Seq::<Write>::empty());
    assert(w0 + Seq::<Write>::empty() =~= w0);
    while rest.len() > 0
        invariant
            rest.len() + count == all.len(),
            all.len() == total,
            all == rows@,
            w0 == old(dest).log(),
            forall|j: int| 0 <= j < rest.len() ==> #[trigger] rest@[j] == all[all.len() - 1 - j],
            all_have_width(all, import_width(kind)),
            forall|i: int| 0 <= i < count ==> (#[trigger] row_import(kind, all[i]@)) is Ok,
            dest.log() == w0 + import_writes(insert@, kind, all, count as int),
        decreases rest.len(),
    {
        let ghost before = rest@;
        let ghost wb = dest.log();
        let row = rest.pop().unwrap();
        assert(row == all[count as int]);
        assert(forall|j: int| 0 <= j < rest.len() ==> #[trigger] rest@[j] == before[j]);
        let params = match row_params(kind, row) {
            Ok(p) => p,
            Err(e) => {
                assert(import_run(insert@, kind, all, count as int, w0, dest.log(), Err::<usize, DbError>(e)));
                return Err(e);
            },
        };
        let done = dest.execute(insert, params);
        assert(import_writes(insert@, kind, all, count + 1) =~= import_writes(insert@, kind, all, count as int).push(
            (insert@, row_import(kind, all[count as int]@)->Ok_0)));
        assert(dest.log() =~= w0 + import_writes(insert@, kind, all, count + 1));
        match done {
            Ok(_) => {},
            Err(e) => {
                if !keep_going {
                    assert(import_run(insert@, kind, all, count + 1, w0, dest.log(), Err::<usize, DbError>(e)));
                    return Err(e);
                }
            },
        }
        count = count + 1;
    }
    assert(import_run(insert@, kind, all, count as int, w0, dest.log(), Ok::<usize, DbError>(count)));
    Ok(count)
}

/// `rows` are what was read of `select`: all its rows; or those up to the
/// first that could not be read, and the copy then failed; or none when
/// SQLite did not run the query, and the copy then failed with its error.
pub open spec fn rows_read_from(select: Seq<char>, rows: Seq<Vec<SqlValue>>, r: Result<usize, DbError>) -> bool {
    ||| answered_in_full(select, rows)
    ||| answered_until_failure(select, rows) && r is Err
    ||| rows.len() == 0 && r is Err && r->Err_0 is Sqlite && query_failed(select, Seq::<Bound>::empty())
}

/// Copies the source rows of one query into the store (see `import_rows`),
/// row by row as they were read: a row that could not be read ends the
/// copy with its error, after the rows before it.
fn copy_rows(src: &Database, dest: &mut Database, select: &str, kind: ImportKind, insert: &str, keep_going: bool) -> (r: Result<usize, DbError>)
    ensures
        exists|rows: Seq<Vec<SqlValue>>, k: int|
            #[trigger] import_run(insert@, kind, rows, k, old(dest).log(), final(dest).log(), r)
            && rows_read_from(select@, rows, r),
{
    match source_rows(src, select, import_columns(kind)) {
        Ok((rows, failure)) => {
            let ghost rv = rows@;
            let done = import_rows(dest, rows, kind, insert, keep_going);
            let ghost k = choose|k: int| import_run(insert@, kind, rv, k, old(dest).log(), dest.log(), done);
            match (done, failure) {
                (Ok(_), Some(e)) => {
                    let out: Result<usize, DbError> = Err(DbError::Sqlite(e));
                    assert(import_run(insert@, kind, rv, k, old(dest).log(), dest.log(), out));
                    assert(rows_read_from(select@, rv, out));
                    out
                },
                (out, _) => {
                    assert(import_run(insert@, kind, rv, k, old(dest).log(), dest.log(), out));
                    assert(rows_read_from(select@, rv, out));
                    out
                },
            }
        },
        Err(e) => {
            assert(import_writes(insert@, kind, Seq::<Vec<SqlValue>>::empty(), 0) =~= Seq::<Write>::empty());
            assert(dest.log() =~= dest.log() + Seq::<Write>::empty());
            assert(import_run(insert@, kind, Seq::<Vec<SqlValue>>::empty(), 0, dest.log(), dest.log(), Err::<usize, DbError>(e)));
            assert(rows_read_from(select@, Seq::<Vec<SqlValue>>::empty(), Err::<usize, DbError>(e)));
            Err(e)
        },
    }
}

/// The number of columns a source row of a kind has.
fn import_columns(kind: ImportKind) -> (r: usize)
    ensures
        r == import_width(kind),
{
    match kind {
        ImportKind::Project => 10,
        ImportKind::Entity => 10,
        ImportKind::Memory => 19,
        ImportKind::Document => 12,
        ImportKind::CodeArtifact => 9,
        ImportKind::Relationship => 8,
        ImportKind::Pair => 2,
    }
}

/// A copy that found no table to read: nothing written, no row counted.
proof fn lemma_nothing_copied(insert: Seq<char>, kind: ImportKind, w: Seq<Write>)
    ensures
        import_run(insert, kind, Seq::<Vec<SqlValue>>::empty(), 0, w, w, Ok::<usize, DbError>(0)),
{
    assert(import_writes(insert, kind, Seq::<Vec<SqlValue>>::empty(), 0) =~= Seq::<Write>::empty());
    assert(w =~= w + Seq::<Write>::empty());
}

/// The source has no table of that name: the count of tables of that
/// name was answered with nothing that counts one.
pub open spec fn table_absent(name: Seq<char>) -> bool {
    exists|first: Option<Vec<SqlValue>>|
        #[trigger] first_answer(TABLE_COUNT@, seq![Bound::Text(name)], first) && !counts_a_table(first)
}

/// `rows` are what was read of the table `table` by `select`: nothing
/// when the source has no such table, and the copy then counted none.
pub open spec fn rows_read(table: Seq<char>, select: Seq<char>, rows: Seq<Vec<SqlValue>>, r: Result<usize, DbError>) -> bool {
    ||| rows_read_from(select, rows, r)
    ||| rows.len() == 0 && r == Ok::<usize, DbError>(0) && table_absent(table)
}

/// Copies the rows of `select` when the source has the table `table`.
fn copy_table(src: &Database, dest: &mut Database, table: &str, select: &str, kind: ImportKind, insert: &str, keep_going: bool) -> (r: Result<usize, DbError>)
    ensures
        exists|rows: Seq<Vec<SqlValue>>, k: int|
            #[trigger] import_run(insert@, kind, rows, k, old(dest).log(), final(dest).log(), r)
            && rows_read(table@, select@, rows, r),
{
    if !table_exists(src, table) {
        proof { lemma_nothing_copied(insert@, kind, dest.log()); }
        assert(rows_read(table@, select@, Seq::<Vec<SqlValue>>::empty(), Ok::<usize, DbError>(0)));
        return Ok(0);
    }
    copy_rows(src, dest, select, kind, insert, keep_going)
}

pub const ENTITY_TABLE: &'static str = "entities";

pub const DOCUMENT_TABLE: &'static str = "documents";

pub const CODE_ARTIFACT_TABLE: &'static str = "code_artifacts";

pub const RELATIONSHIP_TABLE: &'static str = "entity_relationships";

/// Copies the projects of the source into the store, keeping their ids;
/// the number of rows copied. Each row becomes one insert (see
/// `project_import`).
pub fn migrate_projects(src: &Database, dest: &mut Database) -> (r: Result<usize, DbError>)
    ensures
        exists|rows: Seq<Vec<SqlValue>>, k: int|
            #[trigger] import_run(project_copy_sql(), ImportKind::Project, rows, k, old(dest).log(), final(dest).log(), r)
            && rows_read_from(project_select_sql(), rows, r),
{
    let select = select_statement("projects", &project_read_names());
    let insert = insert_statement("INSERT OR IGNORE", "projects", &project_written_names());
    let r = copy_rows(src, dest, select.as_str(), ImportKind::Project, insert.as_str(), false);
    proof {
        let (rows, k) = choose|rows: Seq<Vec<SqlValue>>, k: int|
            #[trigger] import_run(insert@, ImportKind::Project, rows, k, old(dest).log(), dest.log(), r)
            && rows_read_from(select@, rows, r);
        assert(import_run(project_copy_sql(), ImportKind::Project, rows, k, old(dest).log(), dest.log(), r));
    }
    r
}

/// Copies the entities of the source, when it has any, keeping their ids
/// (see `entity_import`).
pub fn migrate_entities(src: &Database, dest: &mut Database) -> (r: Result<usize, DbError>)
    ensures
        exists|rows: Seq<Vec<SqlValue>>, k: int|
            #[trigger] import_run(entity_copy_sql(), ImportKind::Entity, rows, k, old(dest).log(), final(dest).log(), r)
            && rows_read(ENTITY_TABLE@, entity_select_sql(), rows, r),
{
    let select = select_statement(ENTITY_TABLE, &entity_read_names());
    let insert = insert_statement("INSERT OR IGNORE", ENTITY_TABLE, &entity_written_names());
    let r = copy_table(src, dest, ENTITY_TABLE, select.as_str(), ImportKind::Entity, insert.as_str(), false);
    proof {
        let (rows, k) = choose|rows: Seq<Vec<SqlValue>>, k: int|
            #[trigger] import_run(insert@, ImportKind::Entity, rows, k, old(dest).log(), dest.log(), r)
            && rows_read(ENTITY_TABLE@, select@, rows, r);
        assert(import_run(entity_copy_sql(), ImportKind::Entity, rows, k, old(dest).log(), dest.log(), r));
    }
    r
}

/// Copies the memories of the source, keeping their ids; each becomes the
/// latest first version of a fact (see `memory_import`).
pub fn migrate_memories(src: &Database, dest: &mut Database) -> (r: Result<usize, DbError>)
    ensures
        exists|rows: Seq<Vec<SqlValue>>, k: int|
            #[trigger] import_run(memory_copy_sql(), ImportKind::Memory, rows, k, old(dest).log(), final(dest).log(), r)
            && rows_read_from(memory_select_sql(), rows, r),
{
    let select = select_statement("memories", &memory_read_names());
    let insert = insert_statement("INSERT OR IGNORE", "memories", &memory_written_names());
    let r = copy_rows(src, dest, select.as_str(), ImportKind::Memory, insert.as_str(), false);
    proof {
        let (rows, k) = choose|rows: Seq<Vec<SqlValue>>, k: int|
            #[trigger] import_run(insert@, ImportKind::Memory, rows, k, old(dest).log(), dest.log(), r)
            && rows_read_from(select@, rows, r);
        assert(import_run(memory_copy_sql(), ImportKind::Memory, rows, k, old(dest).log(), dest.log(), r));
    }
    r
}

pub const SUPERSEDED_SELECT: &'static str = "SELECT id, superseded_by FROM memories WHERE superseded_by IS NOT NULL";

/// Sets, on the copied memories, what supersedes them, as the source says;
/// run once every memory is copied, so that a memory may be superseded by
/// one with a later id. A pair that cannot be set is passed over. The number
/// of pairs read.
pub fn migrate_superseded(src: &Database, dest: &mut Database) -> (r: Result<usize, DbError>)
    ensures
        exists|rows: Seq<Vec<SqlValue>>, k: int|
            #[trigger] import_run(SUPERSEDED_COPY@, ImportKind::Pair, rows, k, old(dest).log(), final(dest).log(), r)
            && rows_read_from(SUPERSEDED_SELECT@, rows, r),
        r matches Err(e) ==> (e is Sqlite || e is InvalidColumn),
{
    copy_rows(src, dest, SUPERSEDED_SELECT, ImportKind::Pair, SUPERSEDED_COPY, true)
}

/// Copies the documents of the source, when it has any, keeping their ids
/// (see `document_import`).
pub fn migrate_documents(src: &Database, dest: &mut Database) -> (r: Result<usize, DbError>)
    ensures
        exists|rows: Seq<Vec<SqlValue>>, k: int|
            #[trigger] import_run(document_copy_sql(), ImportKind::Document, rows, k, old(dest).log(), final(dest).log(), r)
            && rows_read(DOCUMENT_TABLE@, document_select_sql(), rows, r),
{
    let select = select_statement(DOCUMENT_TABLE, &document_read_names());
    let insert = insert_statement("INSERT OR IGNORE", DOCUMENT_TABLE, &document_written_names());
    let r = copy_table(src, dest, DOCUMENT_TABLE, select.as_str(), ImportKind::Document, insert.as_str(), false);
    proof {
        let (rows, k) = choose|rows: Seq<Vec<SqlValue>>, k: int|
            #[trigger] import_run(insert@, ImportKind::Document, rows, k, old(dest).log(), dest.log(), r)
            && rows_read(DOCUMENT_TABLE@, select@, rows, r);
        assert(import_run(document_copy_sql(), ImportKind::Document, rows, k, old(dest).log(), dest.log(), r));
    }
    r
}

/// Copies the code artifacts of the source, when it has any, keeping ids
/// (see `code_artifact_import`).
pub fn migrate_code_artifacts(src: &Database, dest: &mut Database) -> (r: Result<usize, DbError>)
    ensures
        exists|rows: Seq<Vec<SqlValue>>, k: int|
            #[trigger] import_run(code_artifact_copy_sql(), ImportKind::CodeArtifact, rows, k, old(dest).log(), final(dest).log(), r)
            && rows_read(CODE_ARTIFACT_TABLE@, code_artifact_select_sql(), rows, r),
{
    let select = select_statement(CODE_ARTIFACT_TABLE, &code_artifact_read_names());
    let insert = insert_statement("INSERT OR IGNORE", CODE_ARTIFACT_TABLE, &code_artifact_written_names());
    let r = copy_table(src, dest, CODE_ARTIFACT_TABLE, select.as_str(), ImportKind::CodeArtifact, insert.as_str(), false);
    proof {
        let (rows, k) = choose|rows: Seq<Vec<SqlValue>>, k: int|
            #[trigger] import_run(insert@, ImportKind::CodeArtifact, rows, k, old(dest).log(), dest.log(), r)
            && rows_read(CODE_ARTIFACT_TABLE@, select@, rows, r);
        assert(import_run(code_artifact_copy_sql(), ImportKind::CodeArtifact, rows, k, old(dest).log(), dest.log(), r));
    }
    r
}

/// Copies the relationships between entities of the source, when it has
/// any; their ids are given anew (see `relationship_import`).
pub fn migrate_relationships(src: &Database, dest: &mut Database) -> (r: Result<usize, DbError>)
    ensures
        exists|rows: Seq<Vec<SqlValue>>, k: int|
            #[trigger] import_run(relationship_copy_sql(), ImportKind::Relationship, rows, k, old(dest).log(), final(dest).log(), r)
            && rows_read(RELATIONSHIP_TABLE@, relationship_select_sql(), rows, r),
{
    let read = relationship_column_names();
    let select = select_statement(RELATIONSHIP_TABLE, &read);
    let mut written: Vec<&str> = vec!["user_id"];
    written.append(&mut relationship_column_names());
    assert(views(written@) =~= seq!["user_id"@] + relationship_columns());
    let insert = insert_statement("INSERT OR IGNORE", RELATIONSHIP_TABLE, &written);
    let r = copy_table(src, dest, RELATIONSHIP_TABLE, select.as_str(), ImportKind::Relationship, insert.as_str(), false);
    proof {
        let (rows, k) = choose|rows: Seq<Vec<SqlValue>>, k: int|
            #[trigger] import_run(insert@, ImportKind::Relationship, rows, k, old(dest).log(), dest.log(), r)
            && rows_read(RELATIONSHIP_TABLE@, select@, rows, r);
        assert(import_run(relationship_copy_sql(), ImportKind::Relationship, rows, k, old(dest).log(), dest.log(), r));
    }
    r
}

/// The copy `w` of a row that `select` read takes, in column `col` of
/// `table`, the value `v`; `x` is what the row holds in the column of that
/// name.
pub open spec fn column_copied(select: Seq<char>, row: Seq<SqlValue>, w: Write, table: Seq<char>, col: Seq<char>, x: SqlValue, v: Bound) -> bool {
    selected_value(select, row, col, x) && inserts_value(w, "INSERT OR IGNORE"@, table, col, v)
}

/// A row read by naming its columns and copied by an insert that names its
/// own: the value bound at a written column is copied from the read column
/// of the same name.
proof fn lemma_copied(
    select: Seq<char>,
    table: Seq<char>,
    read: Seq<Seq<char>>,
    row: Seq<SqlValue>,
    w: Write,
    written: Seq<Seq<char>>,
    a: int,
    b: int,
)
    requires
        select == select_sql(table, read),
        read.len() == row.len(),
        distinct_names(read),
        w.0 == insert_sql("INSERT OR IGNORE"@, table, written),
        written.len() == w.1.len(),
        distinct_names(written),
        0 <= a < read.len(),
        0 <= b < written.len(),
        read[a] == written[b],
    ensures
        column_copied(select, row, w, table, read[a], row[a], w.1[b]),
{
    lemma_select_gives(select, table, read, row, a);
    lemma_insert_binds(w, "INSERT OR IGNORE"@, table, written, b);
}

/// The names of `project_read_columns`.
fn project_read_names() -> (r: Vec<&'static str>)
    ensures
        views(r@) == project_read_columns(),
{
    let r = vec!["id", "user_id", "name", "description", "project_type", "status", "repo_name", "notes", "created_at", "updated_at"];
    assert(views(r@) =~= project_read_columns());
    r
}

/// The names of `project_written_columns`.
fn project_written_names() -> (r: Vec<&'static str>)
    ensures
        views(r@) == project_written_columns(),
{
    let r = vec!["id", "user_id", "name", "description", "project_type", "status", "repo_name", "notes", "created_at", "updated_at"];
    assert(views(r@) =~= project_written_columns());
    r
}

/// A project copied from the source keeps its columns: the insert that copies
/// the `i`-th row read binds, to each column it copies, the value the query
/// read in the column of the same name (a column that holds no value of
/// its type taken as its default, see `project_import`), and the default user to
/// `user_id`.
#[verifier::rlimit(40)]
pub proof fn lemma_project_copy_keeps_columns(
    rows: Seq<Vec<SqlValue>>,
    k: int,
    before: Seq<Write>,
    after: Seq<Write>,
    r: Result<usize, DbError>,
    i: int,
)
    requires
        import_run(project_copy_sql(), ImportKind::Project, rows, k, before, after, r),
        0 <= i < k,
        rows[i].len() == 10,
    ensures
        ({
            let row = rows[i]@;
            let w = after[before.len() + i];
            &&& column_copied(project_select_sql(), row, w, "projects"@, "id"@, row[0], bound(row[0]))
            &&& inserts_value(w, "INSERT OR IGNORE"@, "projects"@, "user_id"@, Bound::Text(default_user()))
            &&& column_copied(project_select_sql(), row, w, "projects"@, "name"@, row[2], bound(row[2]))
            &&& column_copied(project_select_sql(), row, w, "projects"@, "description"@, row[3], Bound::Text(text_or_spec(row[3], ""@)))
            &&& column_copied(project_select_sql(), row, w, "projects"@, "project_type"@, row[4], bound(row[4]))
            &&& column_copied(project_select_sql(), row, w, "projects"@, "status"@, row[5], Bound::Text(text_or_spec(row[5], "active"@)))
            &&& column_copied(project_select_sql(), row, w, "projects"@, "repo_name"@, row[6], bound(row[6]))
            &&& column_copied(project_select_sql(), row, w, "projects"@, "notes"@, row[7], bound(row[7]))
            &&& column_copied(project_select_sql(), row, w, "projects"@, "created_at"@, row[8], bound(row[8]))
            &&& column_copied(project_select_sql(), row, w, "projects"@, "updated_at"@, row[9], bound(row[9]))
        }),
{
    let row = rows[i]@;
    let w = after[before.len() + i];
    let read = project_read_columns();
    let written = project_written_columns();
    assert(row_import(ImportKind::Project, row) is Ok);
    assert(w == import_writes(project_copy_sql(), ImportKind::Project, rows, k)[i]);
    assert(w == (project_copy_sql(), project_import(row)->Ok_0));
    reveal_strlit("created_at");
    reveal_strlit("description");
    reveal_strlit("id");
    reveal_strlit("name");
    reveal_strlit("notes");
    reveal_strlit("project_type");
    reveal_strlit("repo_name");
    reveal_strlit("status");
    reveal_strlit("updated_at");
    reveal_strlit("user_id");
    assert forall|a: int, b: int| 0 <= a < read.len() && 0 <= b < read.len() && a != b implies read[a] != read[b] by {
        if read[a] == read[b] {
            assert(read[a].len() == read[b].len());
            assert(read[a][0] == read[b][0]);
            assert(read[a][1] == read[b][1]);
            assert(read[a][2] == read[b][2]);
            assert(read[a][read[a].len() - 1] == read[b][read[b].len() - 1]);
            assert(read[a][read[a].len() - 2] == read[b][read[b].len() - 2]);
        }
    }
    assert forall|a: int, b: int| 0 <= a < written.len() && 0 <= b < written.len() && a != b implies written[a] != written[b] by {
        if written[a] == written[b] {
            assert(written[a].len() == written[b].len());
            assert(written[a][0] == written[b][0]);
            assert(written[a][1] == written[b][1]);
            assert(written[a][2] == written[b][2]);
            assert(written[a][written[a].len() - 1] == written[b][written[b].len() - 1]);
            assert(written[a][written[a].len() - 2] == written[b][written[b].len() - 2]);
        }
    }
    lemma_copied(project_select_sql(), "projects"@, read, row, w, written, 0, 0);
    lemma_insert_binds(w, "INSERT OR IGNORE"@, "projects"@, written, 1);
    lemma_copied(project_select_sql(), "projects"@, read, row, w, written, 2, 2);
    lemma_copied(project_select_sql(), "projects"@, read, row, w, written, 3, 3);
    lemma_copied(project_select_sql(), "projects"@, read, row, w, written, 4, 4);
    lemma_copied(project_select_sql(), "projects"@, read, row, w, written, 5, 5);
    lemma_copied(project_select_sql(), "projects"@, read, row, w, written, 6, 6);
    lemma_copied(project_select_sql(), "projects"@, read, row, w, written, 7, 7);
    lemma_copied(project_select_sql(), "projects"@, read, row, w, written, 8, 8);
    lemma_copied(project_select_sql(), "projects"@, read, row, w, written, 9, 9);
}

/// The names of `entity_read_columns`.
fn entity_read_names() -> (r: Vec<&'static str>)
    ensures
        views(r@) == entity_read_columns(),
{
    let r = vec!["id", "user_id", "name", "entity_type", "custom_type", "notes", "tags", "aka", "created_at", "updated_at"];
    assert(views(r@) =~= entity_read_columns());
    r
}

/// The names of `entity_written_columns`.
fn entity_written_names() -> (r: Vec<&'static str>)
    ensures
        views(r@) == entity_written_columns(),
{
    let r = vec!["id", "user_id", "name", "entity_type", "custom_type", "notes", "tags", "aka", "created_at", "updated_at"];
    assert(views(r@) =~= entity_written_columns());
    r
}

/// A entity copied from the source keeps its columns: the insert that copies
/// the `i`-th row read binds, to each column it copies, the value the query
/// read in the column of the same name (a column that holds no value of
/// its type taken as its default, see `entity_import`), and the default user to
/// `user_id`.
#[verifier::rlimit(40)]
pub proof fn lemma_entity_copy_keeps_columns(
    rows: Seq<Vec<SqlValue>>,
    k: int,
    before: Seq<Write>,
    after: Seq<Write>,
    r: Result<usize, DbError>,
    i: int,
)
    requires
        import_run(entity_copy_sql(), ImportKind::Entity, rows, k, before, after, r),
        0 <= i < k,
        rows[i].len() == 10,
    ensures
        ({
            let row = rows[i]@;
            let w = after[before.len() + i];
            &&& column_copied(entity_select_sql(), row, w, "entities"@, "id"@, row[0], bound(row[0]))
            &&& inserts_value(w, "INSERT OR IGNORE"@, "entities"@, "user_id"@, Bound::Text(default_user()))
            &&& column_copied(entity_select_sql(), row, w, "entities"@, "name"@, row[2], bound(row[2]))
            &&& column_copied(entity_select_sql(), row, w, "entities"@, "entity_type"@, row[3], bound(row[3]))
            &&& column_copied(entity_select_sql(), row, w, "entities"@, "custom_type"@, row[4], bound(row[4]))
            &&& column_copied(entity_select_sql(), row, w, "entities"@, "notes"@, row[5], bound(row[5]))
            &&& column_copied(entity_select_sql(), row, w, "entities"@, "tags"@, row[6], Bound::Text(text_or_spec(row[6], "[]"@)))
            &&& column_copied(entity_select_sql(), row, w, "entities"@, "aka"@, row[7], Bound::Text(text_or_spec(row[7], "[]"@)))
            &&& column_copied(entity_select_sql(), row, w, "entities"@, "created_at"@, row[8], bound(row[8]))
            &&& column_copied(entity_select_sql(), row, w, "entities"@, "updated_at"@, row[9], bound(row[9]))
        }),
{
    let row = rows[i]@;
    let w = after[before.len() + i];
    let read = entity_read_columns();
    let written = entity_written_columns();
    assert(row_import(ImportKind::Entity, row) is Ok);
    assert(w == import_writes(entity_copy_sql(), ImportKind::Entity, rows, k)[i]);
    assert(w == (entity_copy_sql(), entity_import(row)->Ok_0));
    reveal_strlit("aka");
    reveal_strlit("created_at");
    reveal_strlit("custom_type");
    reveal_strlit("entity_type");
    reveal_strlit("id");
    reveal_strlit("name");
    reveal_strlit("notes");
    reveal_strlit("tags");
    reveal_strlit("updated_at");
    reveal_strlit("user_id");
    assert forall|a: int, b: int| 0 <= a < read.len() && 0 <= b < read.len() && a != b implies read[a] != read[b] by {
        if read[a] == read[b] {
            assert(read[a].len() == read[b].len());
            assert(read[a][0] == read[b][0]);
            assert(read[a][1] == read[b][1]);
            assert(read[a][2] == read[b][2]);
            assert(read[a][read[a].len() - 1] == read[b][read[b].len() - 1]);
            assert(read[a][read[a].len() - 2] == read[b][read[b].len() - 2]);
        }
    }
    assert forall|a: int, b: int| 0 <= a < written.len() && 0 <= b < written.len() && a != b implies written[a] != written[b] by {
        if written[a] == written[b] {
            assert(written[a].len() == written[b].len());
            assert(written[a][0] == written[b][0]);
            assert(written[a][1] == written[b][1]);
            assert(written[a][2] == written[b][2]);
            assert(written[a][written[a].len() - 1] == written[b][written[b].len() - 1]);
            assert(written[a][written[a].len() - 2] == written[b][written[b].len() - 2]);
        }
    }
    lemma_copied(entity_select_sql(), "entities"@, read, row, w, written, 0, 0);
    lemma_insert_binds(w, "INSERT OR IGNORE"@, "entities"@, written, 1);
    lemma_copied(entity_select_sql(), "entities"@, read, row, w, written, 2, 2);
    lemma_copied(entity_select_sql(), "entities"@, read, row, w, written, 3, 3);
    lemma_copied(entity_select_sql(), "entities"@, read, row, w, written, 4, 4);
    lemma_copied(entity_select_sql(), "entities"@, read, row, w, written, 5, 5);
    lemma_copied(entity_select_sql(), "entities"@, read, row, w, written, 6, 6);
    lemma_copied(entity_select_sql(), "entities"@, read, row, w, written, 7, 7);
    lemma_copied(entity_select_sql(), "entities"@, read, row, w, written, 8, 8);
    lemma_copied(entity_select_sql(), "entities"@, read, row, w, written, 9, 9);
}

/// The names of `document_read_columns`.
fn document_read_names() -> (r: Vec<&'static str>)
    ensures
        views(r@) == document_read_columns(),
{
    let r = vec!["id", "user_id", "project_id", "title", "description", "content", "document_type", "filename", "size_bytes", "tags", "created_at", "updated_at"];
    assert(views(r@) =~= document_read_columns());
    r
}

/// The names of `document_written_columns`.
fn document_written_names() -> (r: Vec<&'static str>)
    ensures
        views(r@) == document_written_columns(),
{
    let r = vec!["id", "user_id", "project_id", "title", "description", "content", "document_type", "filename", "size_bytes", "tags", "created_at", "updated_at"];
    assert(views(r@) =~= document_written_columns());
    r
}

/// A document copied from the source keeps its columns: the insert that copies
/// the `i`-th row read binds, to each column it copies, the value the query
/// read in the column of the same name (a column that holds no value of
/// its type taken as its default, see `document_import`), and the default user to
/// `user_id`.
#[verifier::rlimit(40)]
pub proof fn lemma_document_copy_keeps_columns(
    rows: Seq<Vec<SqlValue>>,
    k: int,
    before: Seq<Write>,
    after: Seq<Write>,
    r: Result<usize, DbError>,
    i: int,
)
    requires
        import_run(document_copy_sql(), ImportKind::Document, rows, k, before, after, r),
        0 <= i < k,
        rows[i].len() == 12,
    ensures
        ({
            let row = rows[i]@;
            let w = after[before.len() + i];
            &&& column_copied(document_select_sql(), row, w, "documents"@, "id"@, row[0], bound(row[0]))
            &&& inserts_value(w, "INSERT OR IGNORE"@, "documents"@, "user_id"@, Bound::Text(default_user()))
            &&& column_copied(document_select_sql(), row, w, "documents"@, "project_id"@, row[2], bound(row[2]))
            &&& column_copied(document_select_sql(), row, w, "documents"@, "title"@, row[3], bound(row[3]))
            &&& column_copied(document_select_sql(), row, w, "documents"@, "description"@, row[4], Bound::Text(text_or_spec(row[4], ""@)))
            &&& column_copied(document_select_sql(), row, w, "documents"@, "content"@, row[5], Bound::Text(text_or_spec(row[5], ""@)))
            &&& column_copied(document_select_sql(), row, w, "documents"@, "document_type"@, row[6], bound(row[6]))
            &&& column_copied(document_select_sql(), row, w, "documents"@, "filename"@, row[7], bound(row[7]))
            &&& column_copied(document_select_sql(), row, w, "documents"@, "size_bytes"@, row[8], Bound::Integer(int_or_spec(row[8], 0)))
            &&& column_copied(document_select_sql(), row, w, "documents"@, "tags"@, row[9], Bound::Text(text_or_spec(row[9], "[]"@)))
            &&& column_copied(document_select_sql(), row, w, "documents"@, "created_at"@, row[10], bound(row[10]))
            &&& column_copied(document_select_sql(), row, w, "documents"@, "updated_at"@, row[11], bound(row[11]))
        }),
{
    let row = rows[i]@;
    let w = after[before.len() + i];
    let read = document_read_columns();
    let written = document_written_columns();
    assert(row_import(ImportKind::Document, row) is Ok);
    assert(w == import_writes(document_copy_sql(), ImportKind::Document, rows, k)[i]);
    assert(w == (document_copy_sql(), document_import(row)->Ok_0));
    reveal_strlit("content");
    reveal_strlit("created_at");
    reveal_strlit("description");
    reveal_strlit("document_type");
    reveal_strlit("filename");
    reveal_strlit("id");
    reveal_strlit("project_id");
    reveal_strlit("size_bytes");
    reveal_strlit("tags");
    reveal_strlit("title");
    reveal_strlit("updated_at");
    reveal_strlit("user_id");
    assert forall|a: int, b: int| 0 <= a < read.len() && 0 <= b < read.len() && a != b implies read[a] != read[b] by {
        if read[a] == read[b] {
            assert(read[a].len() == read[b].len());
            assert(read[a][0] == read[b][0]);
            assert(read[a][1] == read[b][1]);
            assert(read[a][2] == read[b][2]);
            assert(read[a][read[a].len() - 1] == read[b][read[b].len() - 1]);
            assert(read[a][read[a].len() - 2] == read[b][read[b].len() - 2]);
        }
    }
    assert forall|a: int, b: int| 0 <= a < written.len() && 0 <= b < written.len() && a != b implies written[a] != written[b] by {
        if written[a] == written[b] {
            assert(written[a].len() == written[b].len());
            assert(written[a][0] == written[b][0]);
            assert(written[a][1] == written[b][1]);
            assert(written[a][2] == written[b][2]);
            assert(written[a][written[a].len() - 1] == written[b][written[b].len() - 1]);
            assert(written[a][written[a].len() - 2] == written[b][written[b].len() - 2]);
        }
    }
    lemma_copied(document_select_sql(), "documents"@, read, row, w, written, 0, 0);
    lemma_insert_binds(w, "INSERT OR IGNORE"@, "documents"@, written, 1);
    lemma_copied(document_select_sql(), "documents"@, read, row, w, written, 2, 2);
    lemma_copied(document_select_sql(), "documents"@, read, row, w, written, 3, 3);
    lemma_copied(document_select_sql(), "documents"@, read, row, w, written, 4, 4);
    lemma_copied(document_select_sql(), "documents"@, read, row, w, written, 5, 5);
    lemma_copied(document_select_sql(), "documents"@, read, row, w, written, 6, 6);
    lemma_copied(document_select_sql(), "documents"@, read, row, w, written, 7, 7);
    lemma_copied(document_select_sql(), "documents"@, read, row, w, written, 8, 8);
    lemma_copied(document_select_sql(), "documents"@, read, row, w, written, 9, 9);
    lemma_copied(document_select_sql(), "documents"@, read, row, w, written, 10, 10);
    lemma_copied(document_select_sql(), "documents"@, read, row, w, written, 11, 11);
}

/// The names of `code_artifact_read_columns`.
fn code_artifact_read_names() -> (r: Vec<&'static str>)
    ensures
        views(r@) == code_artifact_read_columns(),
{
    let r = vec!["id", "project_id", "title", "description", "code", "language", "tags", "created_at", "updated_at"];
    assert(views(r@) =~= code_artifact_read_columns());
    r
}

/// The names of `code_artifact_written_columns`.
fn code_artifact_written_names() -> (r: Vec<&'static str>)
    ensures
        views(r@) == code_artifact_written_columns(),
{
    let r = vec!["id", "user_id", "project_id", "title", "description", "code", "language", "tags", "created_at", "updated_at"];
    assert(views(r@) =~= code_artifact_written_columns());
    r
}

/// A code artifact copied from the source keeps its columns: the insert that copies
/// the `i`-th row read binds, to each column it copies, the value the query
/// read in the column of the same name (a column that holds no value of
/// its type taken as its default, see `code_artifact_import`), and the default user to
/// `user_id`.
#[verifier::rlimit(40)]
pub proof fn lemma_code_artifact_copy_keeps_columns(
    rows: Seq<Vec<SqlValue>>,
    k: int,
    before: Seq<Write>,
    after: Seq<Write>,
    r: Result<usize, DbError>,
    i: int,
)
    requires
        import_run(code_artifact_copy_sql(), ImportKind::CodeArtifact, rows, k, before, after, r),
        0 <= i < k,
        rows[i].len() == 9,
    ensures
        ({
            let row = rows[i]@;
            let w = after[before.len() + i];
            &&& column_copied(code_artifact_select_sql(), row, w, "code_artifacts"@, "id"@, row[0], bound(row[0]))
            &&& inserts_value(w, "INSERT OR IGNORE"@, "code_artifacts"@, "user_id"@, Bound::Text(default_user()))
            &&& column_copied(code_artifact_select_sql(), row, w, "code_artifacts"@, "project_id"@, row[1], bound(row[1]))
            &&& column_copied(code_artifact_select_sql(), row, w, "code_artifacts"@, "title"@, row[2], bound(row[2]))
            &&& column_copied(code_artifact_select_sql(), row, w, "code_artifacts"@, "description"@, row[3], Bound::Text(text_or_spec(row[3], ""@)))
            &&& column_copied(code_artifact_select_sql(), row, w, "code_artifacts"@, "code"@, row[4], Bound::Text(text_or_spec(row[4], ""@)))
            &&& column_copied(code_artifact_select_sql(), row, w, "code_artifacts"@, "language"@, row[5], Bound::Text(text_or_spec(row[5], ""@)))
            &&& column_copied(code_artifact_select_sql(), row, w, "code_artifacts"@, "tags"@, row[6], Bound::Text(text_or_spec(row[6], "[]"@)))
            &&& column_copied(code_artifact_select_sql(), row, w, "code_artifacts"@, "created_at"@, row[7], bound(row[7]))
            &&& column_copied(code_artifact_select_sql(), row, w, "code_artifacts"@, "updated_at"@, row[8], bound(row[8]))
        }),
{
    let row = rows[i]@;
    let w = after[before.len() + i];
    let read = code_artifact_read_columns();
    let written = code_artifact_written_columns();
    assert(row_import(ImportKind::CodeArtifact, row) is Ok);
    assert(w == import_writes(code_artifact_copy_sql(), ImportKind::CodeArtifact, rows, k)[i]);
    assert(w == (code_artifact_copy_sql(), code_artifact_import(row)->Ok_0));
    reveal_strlit("code");
    reveal_strlit("created_at");
    reveal_strlit("description");
    reveal_strlit("id");
    reveal_strlit("language");
    reveal_strlit("project_id");
    reveal_strlit("tags");
    reveal_strlit("title");
    reveal_strlit("updated_at");
    reveal_strlit("user_id");
    assert forall|a: int, b: int| 0 <= a < read.len() && 0 <= b < read.len() && a != b implies read[a] != read[b] by {
        if read[a] == read[b] {
            assert(read[a].len() == read[b].len());
            assert(read[a][0] == read[b][0]);
            assert(read[a][1] == read[b][1]);
            assert(read[a][2] == read[b][2]);
            assert(read[a][read[a].len() - 1] == read[b][read[b].len() - 1]);
            assert(read[a][read[a].len() - 2] == read[b][read[b].len() - 2]);
        }
    }
    assert forall|a: int, b: int| 0 <= a < written.len() && 0 <= b < written.len() && a != b implies written[a] != written[b] by {
        if written[a] == written[b] {
            assert(written[a].len() == written[b].len());
            assert(written[a][0] == written[b][0]);
            assert(written[a][1] == written[b][1]);
            assert(written[a][2] == written[b][2]);
            assert(written[a][written[a].len() - 1] == written[b][written[b].len() - 1]);
            assert(written[a][written[a].len() - 2] == written[b][written[b].len() - 2]);
        }
    }
    lemma_copied(code_artifact_select_sql(), "code_artifacts"@, read, row, w, written, 0, 0);
    lemma_insert_binds(w, "INSERT OR IGNORE"@, "code_artifacts"@, written, 1);
    lemma_copied(code_artifact_select_sql(), "code_artifacts"@, read, row, w, written, 1, 2);
    lemma_copied(code_artifact_select_sql(), "code_artifacts"@, read, row, w, written, 2, 3);
    lemma_copied(code_artifact_select_sql(), "code_artifacts"@, read, row, w, written, 3, 4);
    lemma_copied(code_artifact_select_sql(), "code_artifacts"@, read, row, w, written, 4, 5);
    lemma_copied(code_artifact_select_sql(), "code_artifacts"@, read, row, w, written, 5, 6);
    lemma_copied(code_artifact_select_sql(), "code_artifacts"@, read, row, w, written, 6, 7);
    lemma_copied(code_artifact_select_sql(), "code_artifacts"@, read, row, w, written, 7, 8);
    lemma_copied(code_artifact_select_sql(), "code_artifacts"@, read, row, w, written, 8, 9);
}

/// The names of `memory_read_columns`.
fn memory_read_names() -> (r: Vec<&'static str>)
    ensures
        views(r@) == memory_read_columns(),
{
    let r = vec!["id", "user_id", "title", "content", "context", "keywords", "tags", "importance", "is_obsolete", "obsolete_reason", "superseded_by", "obsoleted_at", "source_repo", "source_files", "source_url", "confidence", "encoding_agent", "created_at", "updated_at"];
    assert(views(r@) =~= memory_read_columns());
    r
}

/// The names of `memory_written_columns`.
fn memory_written_names() -> (r: Vec<&'static str>)
    ensures
        views(r@) == memory_written_columns(),
{
    let r = vec!["id", "user_id", "title", "content", "context", "keywords", "tags", "importance", "is_obsolete", "obsolete_reason", "obsoleted_at", "source_repo", "source_files", "source_url", "confidence", "encoding_agent", "version", "is_latest", "memory_type", "created_at", "updated_at"];
    assert(views(r@) =~= memory_written_columns());
    r
}

/// A memory copied from the source keeps its columns: the insert that copies
/// the `i`-th row read binds, to each column it copies, the value the query
/// read in the column of the same name (a column that holds no value of
/// its type taken as its default, see `memory_import`), and the default user to
/// `user_id`, and it is written as the latest first version of a fact.
#[verifier::rlimit(60)]
pub proof fn lemma_memory_copy_keeps_columns(
    rows: Seq<Vec<SqlValue>>,
    k: int,
    before: Seq<Write>,
    after: Seq<Write>,
    r: Result<usize, DbError>,
    i: int,
)
    requires
        import_run(memory_copy_sql(), ImportKind::Memory, rows, k, before, after, r),
        0 <= i < k,
        rows[i].len() == 19,
    ensures
        ({
            let row = rows[i]@;
            let w = after[before.len() + i];
            &&& column_copied(memory_select_sql(), row, w, "memories"@, "id"@, row[0], bound(row[0]))
            &&& inserts_value(w, "INSERT OR IGNORE"@, "memories"@, "user_id"@, Bound::Text(default_user()))
            &&& column_copied(memory_select_sql(), row, w, "memories"@, "title"@, row[2], bound(row[2]))
            &&& column_copied(memory_select_sql(), row, w, "memories"@, "content"@, row[3], bound(row[3]))
            &&& column_copied(memory_select_sql(), row, w, "memories"@, "context"@, row[4], Bound::Text(text_or_spec(row[4], ""@)))
            &&& column_copied(memory_select_sql(), row, w, "memories"@, "keywords"@, row[5], Bound::Text(text_or_spec(row[5], "[]"@)))
            &&& column_copied(memory_select_sql(), row, w, "memories"@, "tags"@, row[6], Bound::Text(text_or_spec(row[6], "[]"@)))
            &&& column_copied(memory_select_sql(), row, w, "memories"@, "importance"@, row[7], Bound::Integer(i32_or_spec(row[7], 5) as i64))
            &&& column_copied(memory_select_sql(), row, w, "memories"@, "is_obsolete"@, row[8], Bound::Integer(i32_or_spec(row[8], 0) as i64))
            &&& column_copied(memory_select_sql(), row, w, "memories"@, "obsolete_reason"@, row[9], bound(row[9]))
            &&& column_copied(memory_select_sql(), row, w, "memories"@, "obsoleted_at"@, row[11], bound(row[11]))
            &&& column_copied(memory_select_sql(), row, w, "memories"@, "source_repo"@, row[12], bound(row[12]))
            &&& column_copied(memory_select_sql(), row, w, "memories"@, "source_files"@, row[13], bound(row[13]))
            &&& column_copied(memory_select_sql(), row, w, "memories"@, "source_url"@, row[14], bound(row[14]))
            &&& column_copied(memory_select_sql(), row, w, "memories"@, "confidence"@, row[15], bound(row[15]))
            &&& column_copied(memory_select_sql(), row, w, "memories"@, "encoding_agent"@, row[16], bound(row[16]))
            &&& inserts_value(w, "INSERT OR IGNORE"@, "memories"@, "version"@, Bound::Integer(1))
            &&& inserts_value(w, "INSERT OR IGNORE"@, "memories"@, "is_latest"@, Bound::Integer(1))
            &&& inserts_value(w, "INSERT OR IGNORE"@, "memories"@, "memory_type"@, Bound::Text("fact"@))
            &&& column_copied(memory_select_sql(), row, w, "memories"@, "created_at"@, row[17], bound(row[17]))
            &&& column_copied(memory_select_sql(), row, w, "memories"@, "updated_at"@, row[18], bound(row[18]))
        }),
{
    let row = rows[i]@;
    let w = after[before.len() + i];
    let read = memory_read_columns();
    let written = memory_written_columns();
    assert(row_import(ImportKind::Memory, row) is Ok);
    assert(w == import_writes(memory_copy_sql(), ImportKind::Memory, rows, k)[i]);
    assert(w == (memory_copy_sql(), memory_import(row)->Ok_0));
    reveal_strlit("confidence");
    reveal_strlit("content");
    reveal_strlit("context");
    reveal_strlit("created_at");
    reveal_strlit("encoding_agent");
    reveal_strlit("id");
    reveal_strlit("importance");
    reveal_strlit("is_latest");
    reveal_strlit("is_obsolete");
    reveal_strlit("keywords");
    reveal_strlit("memory_type");
    reveal_strlit("obsolete_reason");
    reveal_strlit("obsoleted_at");
    reveal_strlit("source_files");
    reveal_strlit("source_repo");
    reveal_strlit("source_url");
    reveal_strlit("superseded_by");
    reveal_strlit("tags");
    reveal_strlit("title");
    reveal_strlit("updated_at");
    reveal_strlit("user_id");
    reveal_strlit("version");
    assert forall|a: int, b: int| 0 <= a < read.len() && 0 <= b < read.len() && a != b implies read[a] != read[b] by {
        if read[a] == read[b] {
            assert(read[a].len() == read[b].len());
            assert(read[a][0] == read[b][0]);
            assert(read[a][1] == read[b][1]);
            assert(read[a][2] == read[b][2]);
            assert(read[a][read[a].len() - 1] == read[b][read[b].len() - 1]);
            assert(read[a][read[a].len() - 2] == read[b][read[b].len() - 2]);
        }
    }
    assert forall|a: int, b: int| 0 <= a < written.len() && 0 <= b < written.len() && a != b implies written[a] != written[b] by {
        if written[a] == written[b] {
            assert(written[a].len() == written[b].len());
            assert(written[a][0] == written[b][0]);
            assert(written[a][1] == written[b][1]);
            assert(written[a][2] == written[b][2]);
            assert(written[a][written[a].len() - 1] == written[b][written[b].len() - 1]);
            assert(written[a][written[a].len() - 2] == written[b][written[b].len() - 2]);
        }
    }
    lemma_copied(memory_select_sql(), "memories"@, read, row, w, written, 0, 0);
    lemma_insert_binds(w, "INSERT OR IGNORE"@, "memories"@, written, 1);
    lemma_copied(memory_select_sql(), "memories"@, read, row, w, written, 2, 2);
    lemma_copied(memory_select_sql(), "memories"@, read, row, w, written, 3, 3);
    lemma_copied(memory_select_sql(), "memories"@, read, row, w, written, 4, 4);
    lemma_copied(memory_select_sql(), "memories"@, read, row, w, written, 5, 5);
    lemma_copied(memory_select_sql(), "memories"@, read, row, w, written, 6, 6);
    lemma_copied(memory_select_sql(), "memories"@, read, row, w, written, 7, 7);
    lemma_copied(memory_select_sql(), "memories"@, read, row, w, written, 8, 8);
    lemma_copied(memory_select_sql(), "memories"@, read, row, w, written, 9, 9);
    lemma_copied(memory_select_sql(), "memories"@, read, row, w, written, 11, 10);
    lemma_copied(memory_select_sql(), "memories"@, read, row, w, written, 12, 11);
    lemma_copied(memory_select_sql(), "memories"@, read, row, w, written, 13, 12);
    lemma_copied(memory_select_sql(), "memories"@, read, row, w, written, 14, 13);
    lemma_copied(memory_select_sql(), "memories"@, read, row, w, written, 15, 14);
    lemma_copied(memory_select_sql(), "memories"@, read, row, w, written, 16, 15);
    lemma_insert_binds(w, "INSERT OR IGNORE"@, "memories"@, written, 16);
    lemma_insert_binds(w, "INSERT OR IGNORE"@, "memories"@, written, 17);
    lemma_insert_binds(w, "INSERT OR IGNORE"@, "memories"@, written, 18);
    lemma_copied(memory_select_sql(), "memories"@, read, row, w, written, 17, 19);
    lemma_copied(memory_select_sql(), "memories"@, read, row, w, written, 18, 20);
}

/// The names of `relationship_columns`.
fn relationship_column_names() -> (r: Vec<&'static str>)
    ensures
        views(r@) == relationship_columns(),
{
    let r = vec![
        "source_entity_id", "target_entity_id", "relationship_type", "strength",
        "confidence", "relationship_metadata", "created_at", "updated_at",
    ];
    assert(views(r@) =~= relationship_columns());
    r
}

/// A relationship copied from the source keeps every column of its row:
/// the insert that copies the `i`-th row read binds, to each column named
/// in the query, the value the query read in that column (so the source
/// entity stays the source and the target the target), and the default
/// user to `user_id`.
pub proof fn lemma_relationship_copy_keeps_columns(
    rows: Seq<Vec<SqlValue>>,
    k: int,
    before: Seq<Write>,
    after: Seq<Write>,
    r: Result<usize, DbError>,
    i: int,
    j: int,
)
    requires
        import_run(relationship_copy_sql(), ImportKind::Relationship, rows, k, before, after, r),
        0 <= i < k,
        rows[i].len() == 8,
        0 <= j < 8,
    ensures
        selected_value(relationship_select_sql(), rows[i]@, relationship_columns()[j], rows[i]@[j]),
        inserts_value(after[before.len() + i], "INSERT OR IGNORE"@, RELATIONSHIP_TABLE@, relationship_columns()[j], bound(rows[i]@[j])),
        inserts_value(after[before.len() + i], "INSERT OR IGNORE"@, RELATIONSHIP_TABLE@, "user_id"@, Bound::Text(default_user())),
{
    let read = relationship_columns();
    let written = seq!["user_id"@] + read;
    let w = after[before.len() + i];
    assert(row_import(ImportKind::Relationship, rows[i]@) is Ok);
    assert(w == import_writes(relationship_copy_sql(), ImportKind::Relationship, rows, k)[i]);
    assert(w == (relationship_copy_sql(), relationship_import(rows[i]@)->Ok_0));
    reveal_strlit("user_id");
    reveal_strlit("source_entity_id");
    reveal_strlit("target_entity_id");
    reveal_strlit("relationship_type");
    reveal_strlit("strength");
    reveal_strlit("confidence");
    reveal_strlit("relationship_metadata");
    reveal_strlit("created_at");
    reveal_strlit("updated_at");
    assert forall|a: int, b: int| 0 <= a < written.len() && 0 <= b < written.len() && a != b implies written[a] != written[b] by {
        if written[a] == written[b] {
            assert(written[a].len() == written[b].len());
            assert(written[a][0] == written[b][0]);
            assert(written[a][1] == written[b][1]);
        }
    }
    assert(distinct_names(read)) by {
        assert forall|a: int, b: int| 0 <= a < read.len() && 0 <= b < read.len() && a != b implies read[a] != read[b] by {
            assert(read[a] == written[a + 1] && read[b] == written[b + 1]);
        }
    }
    lemma_select_gives(relationship_select_sql(), RELATIONSHIP_TABLE@, read, rows[i]@, j);
    lemma_insert_binds(w, "INSERT OR IGNORE"@, RELATIONSHIP_TABLE@, written, j + 1);
    lemma_insert_binds(w, "INSERT OR IGNORE"@, RELATIONSHIP_TABLE@, written, 0);
    assert(written[j + 1] == read[j]);
}

pub const MEMORY_PROJECT_COPY: &'static str = "INSERT OR IGNORE INTO memory_project_association (memory_id, project_id) VALUES (?1, ?2)";

pub const MEMORY_ENTITY_COPY: &'static str = "INSERT OR IGNORE INTO memory_entity_association (memory_id, entity_id) VALUES (?1, ?2)";

pub const MEMORY_DOCUMENT_COPY: &'static str = "INSERT OR IGNORE INTO memory_document_association (memory_id, document_id) VALUES (?1, ?2)";

pub const MEMORY_CODE_ARTIFACT_COPY: &'static str = "INSERT OR IGNORE INTO memory_code_artifact_association (memory_id, code_artifact_id) VALUES (?1, ?2)";

pub const ENTITY_PROJECT_COPY: &'static str = "INSERT OR IGNORE INTO entity_project_association (entity_id, project_id) VALUES (?1, ?2)";

pub const MEMORY_LINK_COPY: &'static str = "INSERT OR IGNORE INTO memory_links (user_id, source_id, target_id) VALUES ('default', ?1, ?2)";

/// The insert that copies the pairs of the `t`-th association table, in
/// the order they are copied: memory–project, memory–entity,
/// memory–document, memory–code artifact, entity–project, memory links.
pub open spec fn pair_insert(t: int) -> Seq<char> {
    if t == 0 {
        MEMORY_PROJECT_COPY@
    } else if t == 1 {
        MEMORY_ENTITY_COPY@
    } else if t == 2 {
        MEMORY_DOCUMENT_COPY@
    } else if t == 3 {
        MEMORY_CODE_ARTIFACT_COPY@
    } else if t == 4 {
        ENTITY_PROJECT_COPY@
    } else {
        MEMORY_LINK_COPY@
    }
}

pub const MEMORY_PROJECT_TABLE: &'static str = "memory_project_association";

pub const MEMORY_ENTITY_TABLE: &'static str = "memory_entity_association";

pub const MEMORY_DOCUMENT_TABLE: &'static str = "memory_document_association";

pub const MEMORY_CODE_ARTIFACT_TABLE: &'static str = "memory_code_artifact_association";

pub const ENTITY_PROJECT_TABLE: &'static str = "entity_project_association";

pub const MEMORY_LINK_TABLE: &'static str = "memory_links";

pub const MEMORY_PROJECT_SELECT: &'static str = "SELECT memory_id, project_id FROM memory_project_association";

pub const MEMORY_ENTITY_SELECT: &'static str = "SELECT memory_id, entity_id FROM memory_entity_association";

pub const MEMORY_DOCUMENT_SELECT: &'static str = "SELECT memory_id, document_id FROM memory_document_association";

pub const MEMORY_CODE_ARTIFACT_SELECT: &'static str = "SELECT memory_id, code_artifact_id FROM memory_code_artifact_association";

pub const ENTITY_PROJECT_SELECT: &'static str = "SELECT entity_id, project_id FROM entity_project_association";

pub const MEMORY_LINK_SELECT: &'static str = "SELECT source_id, target_id FROM memory_links";

/// The `t`-th association table, in the order of `pair_insert`.
pub open spec fn pair_table(t: int) -> Seq<char> {
    if t == 0 {
        MEMORY_PROJECT_TABLE@
    } else if t == 1 {
        MEMORY_ENTITY_TABLE@
    } else if t == 2 {
        MEMORY_DOCUMENT_TABLE@
    } else if t == 3 {
        MEMORY_CODE_ARTIFACT_TABLE@
    } else if t == 4 {
        ENTITY_PROJECT_TABLE@
    } else {
        MEMORY_LINK_TABLE@
    }
}

/// The query that reads the pairs of the `t`-th association table.
pub open spec fn pair_select(t: int) -> Seq<char> {
    if t == 0 {
        MEMORY_PROJECT_SELECT@
    } else if t == 1 {
        MEMORY_ENTITY_SELECT@
    } else if t == 2 {
        MEMORY_DOCUMENT_SELECT@
    } else if t == 3 {
        MEMORY_CODE_ARTIFACT_SELECT@
    } else if t == 4 {
        ENTITY_PROJECT_SELECT@
    } else {
        MEMORY_LINK_SELECT@
    }
}

/// The two columns of the `t`-th association table (of the first five),
/// in the order they are read and written.
pub open spec fn pair_columns(t: int) -> Seq<Seq<char>> {
    if t == 0 {
        seq!["memory_id"@, "project_id"@]
    } else if t == 1 {
        seq!["memory_id"@, "entity_id"@]
    } else if t == 2 {
        seq!["memory_id"@, "document_id"@]
    } else if t == 3 {
        seq!["memory_id"@, "code_artifact_id"@]
    } else {
        seq!["entity_id"@, "project_id"@]
    }
}

/// The query and the insert of `memory_project_association` name its two columns.
proof fn lemma_memory_project_texts()
    ensures
        MEMORY_PROJECT_SELECT@ == select_sql(MEMORY_PROJECT_TABLE@, seq!["memory_id"@, "project_id"@]),
        MEMORY_PROJECT_COPY@ == insert_sql("INSERT OR IGNORE"@, MEMORY_PROJECT_TABLE@, seq!["memory_id"@, "project_id"@]),
{
    lemma_select_sql_two(MEMORY_PROJECT_TABLE@, "memory_id"@, "project_id"@);
    lemma_insert_sql_two("INSERT OR IGNORE"@, MEMORY_PROJECT_TABLE@, "memory_id"@, "project_id"@);
    reveal_strlit("SELECT memory_id, project_id FROM memory_project_association");
    reveal_strlit("INSERT OR IGNORE INTO memory_project_association (memory_id, project_id) VALUES (?1, ?2)");
    reveal_strlit("SELECT ");
    reveal_strlit(" FROM ");
    reveal_strlit("INSERT OR IGNORE");
    reveal_strlit(" INTO ");
    reveal_strlit("memory_project_association");
    reveal_strlit(" (");
    reveal_strlit("memory_id");
    reveal_strlit(", ");
    reveal_strlit("project_id");
    reveal_strlit(") VALUES (?1, ?2)");
    assert(MEMORY_PROJECT_SELECT@ =~= select_sql(MEMORY_PROJECT_TABLE@, seq!["memory_id"@, "project_id"@]));
    assert(MEMORY_PROJECT_COPY@ =~= insert_sql("INSERT OR IGNORE"@, MEMORY_PROJECT_TABLE@, seq!["memory_id"@, "project_id"@]));
}

/// The query and the insert of `memory_entity_association` name its two columns.
proof fn lemma_memory_entity_texts()
    ensures
        MEMORY_ENTITY_SELECT@ == select_sql(MEMORY_ENTITY_TABLE@, seq!["memory_id"@, "entity_id"@]),
        MEMORY_ENTITY_COPY@ == insert_sql("INSERT OR IGNORE"@, MEMORY_ENTITY_TABLE@, seq!["memory_id"@, "entity_id"@]),
{
    lemma_select_sql_two(MEMORY_ENTITY_TABLE@, "memory_id"@, "entity_id"@);
    lemma_insert_sql_two("INSERT OR IGNORE"@, MEMORY_ENTITY_TABLE@, "memory_id"@, "entity_id"@);
    reveal_strlit("SELECT memory_id, entity_id FROM memory_entity_association");
    reveal_strlit("INSERT OR IGNORE INTO memory_entity_association (memory_id, entity_id) VALUES (?1, ?2)");
    reveal_strlit("SELECT ");
    reveal_strlit(" FROM ");
    reveal_strlit("INSERT OR IGNORE");
    reveal_strlit(" INTO ");
    reveal_strlit("memory_entity_association");
    reveal_strlit(" (");
    reveal_strlit("memory_id");
    reveal_strlit(", ");
    reveal_strlit("entity_id");
    reveal_strlit(") VALUES (?1, ?2)");
    assert(MEMORY_ENTITY_SELECT@ =~= select_sql(MEMORY_ENTITY_TABLE@, seq!["memory_id"@, "entity_id"@]));
    assert(MEMORY_ENTITY_COPY@ =~= insert_sql("INSERT OR IGNORE"@, MEMORY_ENTITY_TABLE@, seq!["memory_id"@, "entity_id"@]));
}

/// The query and the insert of `memory_document_association` name its two columns.
proof fn lemma_memory_document_texts()
    ensures
        MEMORY_DOCUMENT_SELECT@ == select_sql(MEMORY_DOCUMENT_TABLE@, seq!["memory_id"@, "document_id"@]),
        MEMORY_DOCUMENT_COPY@ == insert_sql("INSERT OR IGNORE"@, MEMORY_DOCUMENT_TABLE@, seq!["memory_id"@, "document_id"@]),
{
    lemma_select_sql_two(MEMORY_DOCUMENT_TABLE@, "memory_id"@, "document_id"@);
    lemma_insert_sql_two("INSERT OR IGNORE"@, MEMORY_DOCUMENT_TABLE@, "memory_id"@, "document_id"@);
    reveal_strlit("SELECT memory_id, document_id FROM memory_document_association");
    reveal_strlit("INSERT OR IGNORE INTO memory_document_association (memory_id, document_id) VALUES (?1, ?2)");
    reveal_strlit("SELECT ");
    reveal_strlit(" FROM ");
    reveal_strlit("INSERT OR IGNORE");
    reveal_strlit(" INTO ");
    reveal_strlit("memory_document_association");
    reveal_strlit(" (");
    reveal_strlit("memory_id");
    reveal_strlit(", ");
    reveal_strlit("document_id");
    reveal_strlit(") VALUES (?1, ?2)");
    assert(MEMORY_DOCUMENT_SELECT@ =~= select_sql(MEMORY_DOCUMENT_TABLE@, seq!["memory_id"@, "document_id"@]));
    assert(MEMORY_DOCUMENT_COPY@ =~= insert_sql("INSERT OR IGNORE"@, MEMORY_DOCUMENT_TABLE@, seq!["memory_id"@, "document_id"@]));
}

/// The query and the insert of `memory_code_artifact_association` name its two columns.
proof fn lemma_memory_code_artifact_texts()
    ensures
        MEMORY_CODE_ARTIFACT_SELECT@ == select_sql(MEMORY_CODE_ARTIFACT_TABLE@, seq!["memory_id"@, "code_artifact_id"@]),
        MEMORY_CODE_ARTIFACT_COPY@ == insert_sql("INSERT OR IGNORE"@, MEMORY_CODE_ARTIFACT_TABLE@, seq!["memory_id"@, "code_artifact_id"@]),
{
    lemma_select_sql_two(MEMORY_CODE_ARTIFACT_TABLE@, "memory_id"@, "code_artifact_id"@);
    lemma_insert_sql_two("INSERT OR IGNORE"@, MEMORY_CODE_ARTIFACT_TABLE@, "memory_id"@, "code_artifact_id"@);
    reveal_strlit("SELECT memory_id, code_artifact_id FROM memory_code_artifact_association");
    reveal_strlit("INSERT OR IGNORE INTO memory_code_artifact_association (memory_id, code_artifact_id) VALUES (?1, ?2)");
    reveal_strlit("SELECT ");
    reveal_strlit(" FROM ");
    reveal_strlit("INSERT OR IGNORE");
    reveal_strlit(" INTO ");
    reveal_strlit("memory_code_artifact_association");
    reveal_strlit(" (");
    reveal_strlit("memory_id");
    reveal_strlit(", ");
    reveal_strlit("code_artifact_id");
    reveal_strlit(") VALUES (?1, ?2)");
    assert(MEMORY_CODE_ARTIFACT_SELECT@ =~= select_sql(MEMORY_CODE_ARTIFACT_TABLE@, seq!["memory_id"@, "code_artifact_id"@]));
    assert(MEMORY_CODE_ARTIFACT_COPY@ =~= insert_sql("INSERT OR IGNORE"@, MEMORY_CODE_ARTIFACT_TABLE@, seq!["memory_id"@, "code_artifact_id"@]));
}

/// The query and the insert of `entity_project_association` name its two columns.
proof fn lemma_entity_project_texts()
    ensures
        ENTITY_PROJECT_SELECT@ == select_sql(ENTITY_PROJECT_TABLE@, seq!["entity_id"@, "project_id"@]),
        ENTITY_PROJECT_COPY@ == insert_sql("INSERT OR IGNORE"@, ENTITY_PROJECT_TABLE@, seq!["entity_id"@, "project_id"@]),
{
    lemma_select_sql_two(ENTITY_PROJECT_TABLE@, "entity_id"@, "project_id"@);
    lemma_insert_sql_two("INSERT OR IGNORE"@, ENTITY_PROJECT_TABLE@, "entity_id"@, "project_id"@);
    reveal_strlit("SELECT entity_id, project_id FROM entity_project_association");
    reveal_strlit("INSERT OR IGNORE INTO entity_project_association (entity_id, project_id) VALUES (?1, ?2)");
    reveal_strlit("SELECT ");
    reveal_strlit(" FROM ");
    reveal_strlit("INSERT OR IGNORE");
    reveal_strlit(" INTO ");
    reveal_strlit("entity_project_association");
    reveal_strlit(" (");
    reveal_strlit("entity_id");
    reveal_strlit(", ");
    reveal_strlit("project_id");
    reveal_strlit(") VALUES (?1, ?2)");
    assert(ENTITY_PROJECT_SELECT@ =~= select_sql(ENTITY_PROJECT_TABLE@, seq!["entity_id"@, "project_id"@]));
    assert(ENTITY_PROJECT_COPY@ =~= insert_sql("INSERT OR IGNORE"@, ENTITY_PROJECT_TABLE@, seq!["entity_id"@, "project_id"@]));
}

/// A pair copied from one of the five association tables keeps its
/// direction: the insert that copies a pair read from the `t`-th table binds
/// each of the pair's two values to the column it was read from (for
/// `memory_project_association`, the memory to `memory_id` and the project
/// to `project_id`; likewise for the others).
pub proof fn lemma_pair_copy_keeps_columns(t: int, row: Seq<SqlValue>)
    requires
        0 <= t < 5,
        row.len() == 2,
        pair_import(row) is Ok,
    ensures
        ({
            let w = (pair_insert(t), pair_import(row)->Ok_0);
            &&& column_copied(pair_select(t), row, w, pair_table(t), pair_columns(t)[0], row[0], bound(row[0]))
            &&& column_copied(pair_select(t), row, w, pair_table(t), pair_columns(t)[1], row[1], bound(row[1]))
        }),
{
    let w = (pair_insert(t), pair_import(row)->Ok_0);
    let cols = pair_columns(t);
    if t == 0 {
        lemma_memory_project_texts();
    } else if t == 1 {
        lemma_memory_entity_texts();
    } else if t == 2 {
        lemma_memory_document_texts();
    } else if t == 3 {
        lemma_memory_code_artifact_texts();
    } else {
        lemma_entity_project_texts();
    }
    reveal_strlit("memory_id");
    reveal_strlit("project_id");
    reveal_strlit("entity_id");
    reveal_strlit("document_id");
    reveal_strlit("code_artifact_id");
    assert(cols[0][0] != cols[1][0]);
    assert(distinct_names(cols));
    lemma_copied(pair_select(t), pair_table(t), cols, row, w, cols, 0, 0);
    lemma_copied(pair_select(t), pair_table(t), cols, row, w, cols, 1, 1);
}

/// `rows` are all the rows of `select`, or none when the source has no
/// table `table`.
pub open spec fn rows_read_ok(table: Seq<char>, select: Seq<char>, rows: Seq<Vec<SqlValue>>) -> bool {
    ||| answered_in_full(select, rows)
    ||| rows.len() == 0 && table_absent(table)
}

/// The writes that copy the pairs of the first `runs.len()` association
/// tables, table after table, each in order.
pub open spec fn pair_writes(runs: Seq<Seq<Vec<SqlValue>>>) -> Seq<Write>
    decreases runs.len(),
{
    if runs.len() == 0 {
        seq![]
    } else {
        let t = runs.len() - 1;
        pair_writes(runs.drop_last()) + import_writes(pair_insert(t), ImportKind::Pair, runs[t], runs[t].len() as int)
    }
}

/// The first `runs.len()` association tables (`runs`, table by table) were
/// read, each pair could be read as a pair, and every pair was inserted,
/// table after table, each in order.
pub open spec fn pairs_copied_upto(runs: Seq<Seq<Vec<SqlValue>>>, before: Seq<Write>, after: Seq<Write>) -> bool {
    &&& runs.len() <= 6
    &&& forall|t: int| 0 <= t < runs.len() ==> rows_read_ok(pair_table(t), pair_select(t), #[trigger] runs[t])
    &&& forall|t: int, i: int| 0 <= t < runs.len() && 0 <= i < runs[t].len()
        ==> (#[trigger] row_import(ImportKind::Pair, runs[t][i]@)) is Ok
    &&& after == before + pair_writes(runs)
}

/// Every pair of the six association tables was copied (see
/// `pairs_copied_upto`).
pub open spec fn pairs_copied(runs: Seq<Seq<Vec<SqlValue>>>, before: Seq<Write>, after: Seq<Write>) -> bool {
    runs.len() == 6 && pairs_copied_upto(runs, before, after)
}

/// The number of pairs in `runs`.
pub open spec fn pair_total(runs: Seq<Seq<Vec<SqlValue>>>) -> int
    decreases runs.len(),
{
    if runs.len() == 0 {
        0
    } else {
        pair_total(runs.drop_last()) + runs.last().len()
    }
}

/// The table, the query that reads it and the insert that copies it, for
/// the `t`-th association table.
fn pair_statements(t: usize) -> (r: (&'static str, &'static str, &'static str))
    requires
        t < 6,
    ensures
        r.0@ == pair_table(t as int),
        r.1@ == pair_select(t as int),
        r.2@ == pair_insert(t as int),
{
    if t == 0 {
        (MEMORY_PROJECT_TABLE, MEMORY_PROJECT_SELECT, MEMORY_PROJECT_COPY)
    } else if t == 1 {
        (MEMORY_ENTITY_TABLE, MEMORY_ENTITY_SELECT, MEMORY_ENTITY_COPY)
    } else if t == 2 {
        (MEMORY_DOCUMENT_TABLE, MEMORY_DOCUMENT_SELECT, MEMORY_DOCUMENT_COPY)
    } else if t == 3 {
        (MEMORY_CODE_ARTIFACT_TABLE, MEMORY_CODE_ARTIFACT_SELECT, MEMORY_CODE_ARTIFACT_COPY)
    } else if t == 4 {
        (ENTITY_PROJECT_TABLE, ENTITY_PROJECT_SELECT, ENTITY_PROJECT_COPY)
    } else {
        (MEMORY_LINK_TABLE, MEMORY_LINK_SELECT, MEMORY_LINK_COPY)
    }
}

/// Copies every association table and the links between memories; the
/// number of pairs read (at most `usize::MAX`). A pair that cannot be
/// inserted is passed over. A failure ends the copy: the tables before were
/// copied in full, and the one that failed as far as `import_run` says.
pub fn migrate_associations(src: &Database, dest: &mut Database) -> (r: Result<usize, DbError>)
    ensures
        r matches Ok(n) ==> exists|runs: Seq<Seq<Vec<SqlValue>>>| #[trigger] pairs_copied(runs, old(dest).log(), final(dest).log())
            && n as int == (if pair_total(runs) > usize::MAX { usize::MAX as int } else { pair_total(runs) }),
        r matches Err(e) ==> (e is Sqlite || e is InvalidColumn),
        r is Err ==> exists|runs: Seq<Seq<Vec<SqlValue>>>, mid: Seq<Write>, rows: Seq<Vec<SqlValue>>, k: int|
            #![trigger pairs_copied_upto(runs, old(dest).log(), mid), import_run(pair_insert(runs.len() as int), ImportKind::Pair, rows, k, mid, final(dest).log(), r)]
            pairs_copied_upto(runs, old(dest).log(), mid) && runs.len() < 6
            && import_run(pair_insert(runs.len() as int), ImportKind::Pair, rows, k, mid, final(dest).log(), r)
            && rows_read(pair_table(runs.len() as int), pair_select(runs.len() as int), rows, r),
{
    let ghost w0 = dest.log();
    let ghost mut runs: Seq<Seq<Vec<SqlValue>>> = seq![];
    let mut total: usize = 0;
    let mut t: usize = 0;
    assert(pair_writes(runs) =~= Seq::<Write>::empty());
    assert(w0 + Seq::<Write>::empty() =~= w0);
    while t < 6
        invariant
            t <= 6,
            runs.len() == t,
            w0 == old(dest).log(),
            pairs_copied_upto(runs, w0, dest.log()),
            total as int == (if pair_total(runs) > usize::MAX { usize::MAX as int } else { pair_total(runs) }),
        decreases 6 - t,
    {
        let (table, select, insert) = pair_statements(t);
        let ghost mid = dest.log();
        let copied = copy_table(src, dest, table, select, ImportKind::Pair, insert, true);
        let n = match copied {
            Ok(n) => n,
            Err(e) => {
                let ghost (rows, k) = choose|rows: Seq<Vec<SqlValue>>, k: int|
                    import_run(insert@, ImportKind::Pair, rows, k, mid, dest.log(), Err::<usize, DbError>(e))
                    && rows_read(table@, select@, rows, Err::<usize, DbError>(e));
                assert(pairs_copied_upto(runs, w0, mid) && runs.len() < 6
                    && import_run(pair_insert(runs.len() as int), ImportKind::Pair, rows, k, mid, dest.log(), Err::<usize, DbError>(e))
                    && rows_read(pair_table(runs.len() as int), pair_select(runs.len() as int), rows, Err::<usize, DbError>(e)));
                return Err(e);
            },
        };
        proof {
            let (rows, k) = choose|rows: Seq<Vec<SqlValue>>, k: int|
                import_run(insert@, ImportKind::Pair, rows, k, mid, dest.log(), Ok::<usize, DbError>(n))
                && rows_read(table@, select@, rows, Ok::<usize, DbError>(n));
            let old_runs = runs;
            runs = runs.push(rows);
            assert(runs.drop_last() =~= old_runs);
            assert(runs[t as int] == rows);
            assert forall|u: int| 0 <= u < runs.len() implies rows_read_ok(pair_table(u), pair_select(u), #[trigger] runs[u]) by {
                if u < t {
                    assert(runs[u] == old_runs[u]);
                }
            }
            assert forall|u: int, i: int| 0 <= u < runs.len() && 0 <= i < runs[u].len()
                implies (#[trigger] row_import(ImportKind::Pair, runs[u][i]@)) is Ok by {
                if u < t {
                    assert(runs[u] == old_runs[u]);
                }
            }
            assert(dest.log() =~= w0 + pair_writes(runs));
            assert(pair_total(runs) == pair_total(old_runs) + n);
        }
        total = total.saturating_add(n);
        t = t + 1;
    }
    assert(pairs_copied(runs, w0, dest.log()));
    Ok(total)
}

} // verus!
