//! The data behind the web dashboard: counts, listings, one memory in
//! detail, the knowledge graph and a quick search.

use vstd::prelude::*;
use crate::columns::{
    as_i32, as_int, as_opt_int, as_opt_number, as_opt_text, as_text, i32_of, int_of, opt_int_of, opt_number_of, opt_text_of,
    text_of, view_opt,
};
use crate::search::reversed;
use crate::sql::{json_value_or_null, Number, SqlValue};
use crate::store::{all_have_width, answered, bound_all, first_answer, query_failed, Bound, Database};
use crate::memory::first_ints;
use crate::text::{decimal_int, join_or, join_with_or, plain_search_terms, plain_terms, push_char, push_decimal, split_words, words};

verus! {

/// Why a dashboard request failed.
#[derive(Clone, Copy, Debug, PartialEq, Eq, Structural)]
pub enum DashboardError {
    NotFound,
    Internal,
}

/// Counts of the default user's records.
#[derive(Debug)]
pub struct DashboardStats {
    pub memories: i64,
    pub entities: i64,
    pub projects: i64,
    pub documents: i64,
    pub code_artifacts: i64,
    pub relationships: i64,
    pub memory_links: i64,
    pub obsolete: i64,
    pub forgotten: i64,
}

#[derive(Debug)]
pub struct MemoryListing {
    pub id: i64,
    pub title: String,
    pub content: String,
    pub context: String,
    pub keywords: serde_json::Value,
    pub tags: serde_json::Value,
    pub importance: i32,
    pub memory_type: String,
    pub container_tag: Option<String>,
    pub is_obsolete: bool,
    pub is_forgotten: bool,
    pub version: i32,
    pub is_latest: bool,
    pub created_at: String,
    pub updated_at: String,
}

#[derive(Debug)]
pub struct MemoryDetail {
    pub id: i64,
    pub title: String,
    pub content: String,
    pub context: String,
    pub keywords: serde_json::Value,
    pub tags: serde_json::Value,
    pub importance: i32,
    pub memory_type: String,
    pub container_tag: Option<String>,
    pub is_obsolete: bool,
    pub obsolete_reason: Option<String>,
    pub is_forgotten: bool,
    pub version: i32,
    pub parent_memory_id: Option<i64>,
    pub is_latest: bool,
    pub relationship_type: Option<String>,
    pub source_repo: Option<String>,
    pub source_url: Option<String>,
    pub confidence: Option<Number>,
    pub encoding_agent: Option<String>,
    pub created_at: String,
    pub updated_at: String,
    pub linked_memory_ids: Vec<i64>,
    pub project_ids: Vec<i64>,
    pub entity_ids: Vec<i64>,
}

#[derive(Debug)]
pub struct EntityListing {
    pub id: i64,
    pub name: String,
    pub entity_type: String,
    pub custom_type: Option<String>,
    pub notes: Option<String>,
    pub tags: serde_json::Value,
    pub aka: serde_json::Value,
    pub created_at: String,
}

#[derive(Debug)]
pub struct RelationshipListing {
    pub id: i64,
    pub source_entity_id: i64,
    pub target_entity_id: i64,
    pub relationship_type: String,
    pub strength: Option<Number>,
    pub confidence: Option<Number>,
    pub source_name: String,
    pub target_name: String,
}

#[derive(Debug)]
pub struct ProjectListing {
    pub id: i64,
    pub name: String,
    pub description: String,
    pub project_type: Option<String>,
    pub status: String,
    pub repo_name: Option<String>,
    pub memory_count: i64,
    pub created_at: String,
}

#[derive(Debug)]
pub struct DocumentListing {
    pub id: i64,
    pub title: String,
    pub description: String,
    pub document_type: Option<String>,
    pub size_bytes: i64,
    pub tags: serde_json::Value,
    pub created_at: String,
}

/// A node of the knowledge graph; its id is its kind's letter and its id.
#[derive(Debug)]
pub enum GraphNode {
    Memory {
        id: String,
        raw_id: i64,
        label: String,
        importance: i32,
        memory_type: String,
        is_obsolete: bool,
        is_forgotten: bool,
        tags: serde_json::Value,
    },
    Entity { id: String, raw_id: i64, label: String, entity_type: String },
    Project { id: String, raw_id: i64, label: String },
}

#[derive(Clone, Copy, Debug, PartialEq, Eq, Structural)]
pub enum EdgeKind {
    MemoryLink,
    EntityAssoc,
    ProjectAssoc,
    Relationship,
    EntityProject,
}

/// An edge of the knowledge graph between two node ids.
#[derive(Debug)]
pub struct GraphEdge {
    pub source: String,
    pub target: String,
    pub kind: EdgeKind,
    pub label: Option<String>,
}

#[derive(Debug)]
pub struct Graph {
    pub nodes: Vec<GraphNode>,
    pub edges: Vec<GraphEdge>,
}

#[derive(Debug)]
pub struct SearchHit {
    pub id: i64,
    pub title: String,
    pub content: String,
    pub importance: i32,
    pub memory_type: String,
    pub tags: serde_json::Value,
}

/// The id of a graph node: the letter of its kind, then its record id.
pub fn node_id(kind: char, id: i64) -> (r: String)
    ensures
        r@ == seq![kind] + decimal_int(id as int),
{
    let mut s = String::new();
    push_char(&mut s, kind);
    push_decimal(&mut s, id);
    s
}

/// A flag read as a boolean: an integer, true when not zero.
pub open spec fn bool_of(v: SqlValue) -> Option<bool> {
    match v {
        SqlValue::Integer(i) => Some(i != 0),
        _ => None,
    }
}

/// A flag read as a boolean (see `bool_of`).
pub fn as_bool(v: SqlValue) -> (r: Option<bool>)
    ensures
        r == bool_of(v),
{
    match v {
        SqlValue::Integer(i) => Some(i != 0),
        _ => None,
    }
}

/// A JSON text column parsed as a JSON value (null when it is not JSON);
/// none when the column is no text.
pub fn as_json_value(v: SqlValue) -> (r: Option<serde_json::Value>)
    ensures
        r is Some <==> v is Text,
{
    match v {
        SqlValue::Text(s) => Some(json_value_or_null(s.as_str())),
        _ => None,
    }
}

/// The rows of a listing, last first, so that popping yields them in order.
fn listing_rows(db: &Database, sql: &str, params: Vec<SqlValue>, ncols: usize) -> (r: Result<Vec<Vec<SqlValue>>, DashboardError>)
    ensures
        r matches Ok(rows) ==> all_have_width(rows@, ncols as nat),
        r matches Ok(rows) ==> answered(sql@, bound_all(params@), rows@.reverse()),
        r matches Err(e) ==> e == DashboardError::Internal && query_failed(sql@, bound_all(params@)),
{
    match db.query_ok_rows(sql, params, ncols) {
        Ok(rows) => {
            let ghost orig = rows@;
            let r = reversed(rows);
            assert forall|i: int| 0 <= i < r@.len() implies (#[trigger] r@[i]).len() == ncols by {
                assert(r@[i] == orig[orig.len() - 1 - i]);
            }
            assert(r@.reverse() =~= orig);
            Ok(r)
        },
        Err(_) => Err(DashboardError::Internal),
    }
}

/// The count in the first row of an answer: its first column when that is
/// an integer; zero when there is no such row or column.
pub open spec fn count_in(first: Option<Vec<SqlValue>>) -> i64 {
    match first {
        Some(row) => match int_of(row@[0]) {
            Some(c) => c,
            None => 0,
        },
        None => 0,
    }
}

/// `n` is what a counting query gives with the values `params` bound: the
/// count in the first row SQLite answered (see `count_in`, `first_answer`).
pub open spec fn count_answered(sql: Seq<char>, params: Seq<Bound>, n: i64) -> bool {
    exists|first: Option<Vec<SqlValue>>| #[trigger] first_answer(sql, params, first) && n == count_in(first)
}

/// `n` is what a counting query without parameters gives.
pub open spec fn counted(sql: Seq<char>, n: i64) -> bool {
    count_answered(sql, Seq::<Bound>::empty(), n)
}

/// The count a query answers, or zero when it answers none.
pub(crate) fn count_with(db: &Database, sql: &str, params: Vec<SqlValue>) -> (r: i64)
    ensures
        count_answered(sql@, bound_all(params@), r),
{
    let ghost pb = bound_all(params@);
    let first = db.query_first(sql, params, 1);
    let ghost fv = first;
    let r = match first {
        Some(row) => {
            let mut row = row;
            let ghost rv = row@;
            let v = row.pop().unwrap();
            assert(v == rv[0]);
            match as_int(v) {
                Some(c) => c,
                None => 0,
            }
        },
        None => 0,
    };
    assert(first_answer(sql@, pb, fv) && r == count_in(fv));
    r
}

/// A count, or zero when the query fails.
fn count_or_zero(db: &Database, sql: &str) -> (r: i64)
    ensures
        counted(sql@, r),
{
    let params: Vec<SqlValue> = Vec::new();
    assert(bound_all(params@) =~= Seq::<Bound>::empty());
    count_with(db, sql, params)
}

/// `ids` are the integers in the first column of the rows SQLite answered
/// to the query `sql` about the record `id`.
pub open spec fn ids_answered(sql: Seq<char>, id: i64, ids: Seq<i64>) -> bool {
    exists|rows: Seq<Vec<SqlValue>>| #[trigger] answered(sql, seq![Bound::Integer(id)], rows) && ids == first_ints(rows)
}

/// The ids in the first column of a query about one record.
fn id_list(db: &Database, sql: &str, id: i64) -> (r: Result<Vec<i64>, DashboardError>)
    ensures
        r matches Ok(ids) ==> ids_answered(sql@, id, ids@),
        r matches Err(e) ==> e == DashboardError::Internal && query_failed(sql@, seq![Bound::Integer(id)]),
{
    let params: Vec<SqlValue> = vec![SqlValue::Integer(id)];
    assert(bound_all(params@) =~= seq![Bound::Integer(id)]);
    match db.query_ok_rows(sql, params, 1) {
        Ok(rows) => {
            let ghost rv = rows@;
            let ids = crate::memory::ids_of_rows(rows);
            assert(answered(sql@, seq![Bound::Integer(id)], rv) && ids@ == first_ints(rv));
            Ok(ids)
        },
        Err(_) => Err(DashboardError::Internal),
    }
}

/// Whether a row of 15 columns can be read as a memory in the dashboard's list of memories.
pub open spec fn memory_listing_row_valid(row: Seq<SqlValue>) -> bool {
    &&& row.len() == 15
    &&& int_of(row[0]) is Some
    &&& text_of(row[1]) is Some
    &&& text_of(row[2]) is Some
    &&& text_of(row[3]) is Some
    &&& row[4] is Text
    &&& row[5] is Text
    &&& i32_of(row[6]) is Some
    &&& text_of(row[7]) is Some
    &&& opt_text_of(row[8]) is Some
    &&& bool_of(row[9]) is Some
    &&& bool_of(row[10]) is Some
    &&& i32_of(row[11]) is Some
    &&& bool_of(row[12]) is Some
    &&& text_of(row[13]) is Some
    &&& text_of(row[14]) is Some
}

/// `x` holds what the columns of `row` read as; a JSON column is text,
/// parsed as JSON.
pub open spec fn memory_listing_from_row(row: Seq<SqlValue>, x: MemoryListing) -> bool {
    &&& x.id == int_of(row[0]).unwrap()
    &&& x.title@ == text_of(row[1]).unwrap()
    &&& x.content@ == text_of(row[2]).unwrap()
    &&& x.context@ == text_of(row[3]).unwrap()
    &&& x.importance == i32_of(row[6]).unwrap()
    &&& x.memory_type@ == text_of(row[7]).unwrap()
    &&& view_opt(x.container_tag) == opt_text_of(row[8]).unwrap()
    &&& x.is_obsolete == bool_of(row[9]).unwrap()
    &&& x.is_forgotten == bool_of(row[10]).unwrap()
    &&& x.version == i32_of(row[11]).unwrap()
    &&& x.is_latest == bool_of(row[12]).unwrap()
    &&& x.created_at@ == text_of(row[13]).unwrap()
    &&& x.updated_at@ == text_of(row[14]).unwrap()
}

/// `x` is what some row reads as.
pub open spec fn memory_listing_read(x: MemoryListing) -> bool {
    exists|row: Seq<SqlValue>| #[trigger] memory_listing_from_row(row, x)
}

fn decode_listing(row: Vec<SqlValue>) -> (r: Option<MemoryListing>)
    requires
        row.len() == 15,
    ensures
        r is Some <==> memory_listing_row_valid(row@),
        r matches Some(x) ==> memory_listing_from_row(row@, x),
{
    let ghost r0 = row@;
    let mut row = row;
    let updated_at = as_text(row.pop().unwrap());
    assert(row@ =~= r0.take(14));
    let updated_at = match updated_at { Some(v) => v, None => { return None; } };
    let created_at = as_text(row.pop().unwrap());
    assert(row@ =~= r0.take(13));
    let created_at = match created_at { Some(v) => v, None => { return None; } };
    let is_latest = as_bool(row.pop().unwrap());
    assert(row@ =~= r0.take(12));
    let is_latest = match is_latest { Some(v) => v, None => { return None; } };
    let version = as_i32(row.pop().unwrap());
    assert(row@ =~= r0.take(11));
    let version = match version { Some(v) => v, None => { return None; } };
    let is_forgotten = as_bool(row.pop().unwrap());
    assert(row@ =~= r0.take(10));
    let is_forgotten = match is_forgotten { Some(v) => v, None => { return None; } };
    let is_obsolete = as_bool(row.pop().unwrap());
    assert(row@ =~= r0.take(9));
    let is_obsolete = match is_obsolete { Some(v) => v, None => { return None; } };
    let container_tag = as_opt_text(row.pop().unwrap());
    assert(row@ =~= r0.take(8));
    let container_tag = match container_tag { Some(v) => v, None => { return None; } };
    let memory_type = as_text(row.pop().unwrap());
    assert(row@ =~= r0.take(7));
    let memory_type = match memory_type { Some(v) => v, None => { return None; } };
    let importance = as_i32(row.pop().unwrap());
    assert(row@ =~= r0.take(6));
    let importance = match importance { Some(v) => v, None => { return None; } };
    let tags = as_json_value(row.pop().unwrap());
    assert(row@ =~= r0.take(5));
    let tags = match tags { Some(v) => v, None => { return None; } };
    let keywords = as_json_value(row.pop().unwrap());
    assert(row@ =~= r0.take(4));
    let keywords = match keywords { Some(v) => v, None => { return None; } };
    let context = as_text(row.pop().unwrap());
    assert(row@ =~= r0.take(3));
    let context = match context { Some(v) => v, None => { return None; } };
    let content = as_text(row.pop().unwrap());
    assert(row@ =~= r0.take(2));
    let content = match content { Some(v) => v, None => { return None; } };
    let title = as_text(row.pop().unwrap());
    assert(row@ =~= r0.take(1));
    let title = match title { Some(v) => v, None => { return None; } };
    let id = as_int(row.pop().unwrap());
    assert(row@ =~= r0.take(0));
    let id = match id { Some(v) => v, None => { return None; } };
    Some(MemoryListing { id, title, content, context, keywords, tags, importance, memory_type, container_tag, is_obsolete, is_forgotten, version, is_latest, created_at, updated_at })
}

/// Whether a row of 22 columns can be read as a memory shown in detail.
pub open spec fn memory_detail_row_valid(row: Seq<SqlValue>) -> bool {
    &&& row.len() == 22
    &&& int_of(row[0]) is Some
    &&& text_of(row[1]) is Some
    &&& text_of(row[2]) is Some
    &&& text_of(row[3]) is Some
    &&& row[4] is Text
    &&& row[5] is Text
    &&& i32_of(row[6]) is Some
    &&& text_of(row[7]) is Some
    &&& opt_text_of(row[8]) is Some
    &&& bool_of(row[9]) is Some
    &&& opt_text_of(row[10]) is Some
    &&& bool_of(row[11]) is Some
    &&& i32_of(row[12]) is Some
    &&& opt_int_of(row[13]) is Some
    &&& bool_of(row[14]) is Some
    &&& opt_text_of(row[15]) is Some
    &&& opt_text_of(row[16]) is Some
    &&& opt_text_of(row[17]) is Some
    &&& opt_number_of(row[18]) is Some
    &&& opt_text_of(row[19]) is Some
    &&& text_of(row[20]) is Some
    &&& text_of(row[21]) is Some
}

/// `x` holds what the columns of `row` read as; a JSON column is text,
/// parsed as JSON.
pub open spec fn memory_detail_from_row(row: Seq<SqlValue>, x: MemoryDetail) -> bool {
    &&& x.id == int_of(row[0]).unwrap()
    &&& x.title@ == text_of(row[1]).unwrap()
    &&& x.content@ == text_of(row[2]).unwrap()
    &&& x.context@ == text_of(row[3]).unwrap()
    &&& x.importance == i32_of(row[6]).unwrap()
    &&& x.memory_type@ == text_of(row[7]).unwrap()
    &&& view_opt(x.container_tag) == opt_text_of(row[8]).unwrap()
    &&& x.is_obsolete == bool_of(row[9]).unwrap()
    &&& view_opt(x.obsolete_reason) == opt_text_of(row[10]).unwrap()
    &&& x.is_forgotten == bool_of(row[11]).unwrap()
    &&& x.version == i32_of(row[12]).unwrap()
    &&& x.parent_memory_id == opt_int_of(row[13]).unwrap()
    &&& x.is_latest == bool_of(row[14]).unwrap()
    &&& view_opt(x.relationship_type) == opt_text_of(row[15]).unwrap()
    &&& view_opt(x.source_repo) == opt_text_of(row[16]).unwrap()
    &&& view_opt(x.source_url) == opt_text_of(row[17]).unwrap()
    &&& x.confidence == opt_number_of(row[18]).unwrap()
    &&& view_opt(x.encoding_agent) == opt_text_of(row[19]).unwrap()
    &&& x.created_at@ == text_of(row[20]).unwrap()
    &&& x.updated_at@ == text_of(row[21]).unwrap()
}

/// `x` is what some row reads as.
pub open spec fn memory_detail_read(x: MemoryDetail) -> bool {
    exists|row: Seq<SqlValue>| #[trigger] memory_detail_from_row(row, x)
}

fn decode_detail(row: Vec<SqlValue>) -> (r: Option<MemoryDetail>)
    requires
        row.len() == 22,
    ensures
        r is Some <==> memory_detail_row_valid(row@),
        r matches Some(x) ==> memory_detail_from_row(row@, x),
{
    let ghost r0 = row@;
    let mut row = row;
    let updated_at = as_text(row.pop().unwrap());
    assert(row@ =~= r0.take(21));
    let updated_at = match updated_at { Some(v) => v, None => { return None; } };
    let created_at = as_text(row.pop().unwrap());
    assert(row@ =~= r0.take(20));
    let created_at = match created_at { Some(v) => v, None => { return None; } };
    let encoding_agent = as_opt_text(row.pop().unwrap());
    assert(row@ =~= r0.take(19));
    let encoding_agent = match encoding_agent { Some(v) => v, None => { return None; } };
    let confidence = as_opt_number(row.pop().unwrap());
    assert(row@ =~= r0.take(18));
    let confidence = match confidence { Some(v) => v, None => { return None; } };
    let source_url = as_opt_text(row.pop().unwrap());
    assert(row@ =~= r0.take(17));
    let source_url = match source_url { Some(v) => v, None => { return None; } };
    let source_repo = as_opt_text(row.pop().unwrap());
    assert(row@ =~= r0.take(16));
    let source_repo = match source_repo { Some(v) => v, None => { return None; } };
    let relationship_type = as_opt_text(row.pop().unwrap());
    assert(row@ =~= r0.take(15));
    let relationship_type = match relationship_type { Some(v) => v, None => { return None; } };
    let is_latest = as_bool(row.pop().unwrap());
    assert(row@ =~= r0.take(14));
    let is_latest = match is_latest { Some(v) => v, None => { return None; } };
    let parent_memory_id = as_opt_int(row.pop().unwrap());
    assert(row@ =~= r0.take(13));
    let parent_memory_id = match parent_memory_id { Some(v) => v, None => { return None; } };
    let version = as_i32(row.pop().unwrap());
    assert(row@ =~= r0.take(12));
    let version = match version { Some(v) => v, None => { return None; } };
    let is_forgotten = as_bool(row.pop().unwrap());
    assert(row@ =~= r0.take(11));
    let is_forgotten = match is_forgotten { Some(v) => v, None => { return None; } };
    let obsolete_reason = as_opt_text(row.pop().unwrap());
    assert(row@ =~= r0.take(10));
    let obsolete_reason = match obsolete_reason { Some(v) => v, None => { return None; } };
    let is_obsolete = as_bool(row.pop().unwrap());
    assert(row@ =~= r0.take(9));
    let is_obsolete = match is_obsolete { Some(v) => v, None => { return None; } };
    let container_tag = as_opt_text(row.pop().unwrap());
    assert(row@ =~= r0.take(8));
    let container_tag = match container_tag { Some(v) => v, None => { return None; } };
    let memory_type = as_text(row.pop().unwrap());
    assert(row@ =~= r0.take(7));
    let memory_type = match memory_type { Some(v) => v, None => { return None; } };
    let importance = as_i32(row.pop().unwrap());
    assert(row@ =~= r0.take(6));
    let importance = match importance { Some(v) => v, None => { return None; } };
    let tags = as_json_value(row.pop().unwrap());
    assert(row@ =~= r0.take(5));
    let tags = match tags { Some(v) => v, None => { return None; } };
    let keywords = as_json_value(row.pop().unwrap());
    assert(row@ =~= r0.take(4));
    let keywords = match keywords { Some(v) => v, None => { return None; } };
    let context = as_text(row.pop().unwrap());
    assert(row@ =~= r0.take(3));
    let context = match context { Some(v) => v, None => { return None; } };
    let content = as_text(row.pop().unwrap());
    assert(row@ =~= r0.take(2));
    let content = match content { Some(v) => v, None => { return None; } };
    let title = as_text(row.pop().unwrap());
    assert(row@ =~= r0.take(1));
    let title = match title { Some(v) => v, None => { return None; } };
    let id = as_int(row.pop().unwrap());
    assert(row@ =~= r0.take(0));
    let id = match id { Some(v) => v, None => { return None; } };
    Some(MemoryDetail { id, title, content, context, keywords, tags, importance, memory_type, container_tag, is_obsolete, obsolete_reason, is_forgotten, version, parent_memory_id, is_latest, relationship_type, source_repo, source_url, confidence, encoding_agent, created_at, updated_at, linked_memory_ids: Vec::new(), project_ids: Vec::new(), entity_ids: Vec::new() })
}

/// Whether a row of 8 columns can be read as an entity in the dashboard's list.
pub open spec fn entity_listing_row_valid(row: Seq<SqlValue>) -> bool {
    &&& row.len() == 8
    &&& int_of(row[0]) is Some
    &&& text_of(row[1]) is Some
    &&& text_of(row[2]) is Some
    &&& opt_text_of(row[3]) is Some
    &&& opt_text_of(row[4]) is Some
    &&& row[5] is Text
    &&& row[6] is Text
    &&& text_of(row[7]) is Some
}

/// `x` holds what the columns of `row` read as; a JSON column is text,
/// parsed as JSON.
pub open spec fn entity_listing_from_row(row: Seq<SqlValue>, x: EntityListing) -> bool {
    &&& x.id == int_of(row[0]).unwrap()
    &&& x.name@ == text_of(row[1]).unwrap()
    &&& x.entity_type@ == text_of(row[2]).unwrap()
    &&& view_opt(x.custom_type) == opt_text_of(row[3]).unwrap()
    &&& view_opt(x.notes) == opt_text_of(row[4]).unwrap()
    &&& x.created_at@ == text_of(row[7]).unwrap()
}

/// `x` is what some row reads as.
pub open spec fn entity_listing_read(x: EntityListing) -> bool {
    exists|row: Seq<SqlValue>| #[trigger] entity_listing_from_row(row, x)
}

fn decode_entity_listing(row: Vec<SqlValue>) -> (r: Option<EntityListing>)
    requires
        row.len() == 8,
    ensures
        r is Some <==> entity_listing_row_valid(row@),
        r matches Some(x) ==> entity_listing_from_row(row@, x),
{
    let ghost r0 = row@;
    let mut row = row;
    let created_at = as_text(row.pop().unwrap());
    assert(row@ =~= r0.take(7));
    let created_at = match created_at { Some(v) => v, None => { return None; } };
    let aka = as_json_value(row.pop().unwrap());
    assert(row@ =~= r0.take(6));
    let aka = match aka { Some(v) => v, None => { return None; } };
    let tags = as_json_value(row.pop().unwrap());
    assert(row@ =~= r0.take(5));
    let tags = match tags { Some(v) => v, None => { return None; } };
    let notes = as_opt_text(row.pop().unwrap());
    assert(row@ =~= r0.take(4));
    let notes = match notes { Some(v) => v, None => { return None; } };
    let custom_type = as_opt_text(row.pop().unwrap());
    assert(row@ =~= r0.take(3));
    let custom_type = match custom_type { Some(v) => v, None => { return None; } };
    let entity_type = as_text(row.pop().unwrap());
    assert(row@ =~= r0.take(2));
    let entity_type = match entity_type { Some(v) => v, None => { return None; } };
    let name = as_text(row.pop().unwrap());
    assert(row@ =~= r0.take(1));
    let name = match name { Some(v) => v, None => { return None; } };
    let id = as_int(row.pop().unwrap());
    assert(row@ =~= r0.take(0));
    let id = match id { Some(v) => v, None => { return None; } };
    Some(EntityListing { id, name, entity_type, custom_type, notes, tags, aka, created_at })
}

/// Whether a row of 8 columns can be read as a relationship in the dashboard's list.
pub open spec fn relationship_listing_row_valid(row: Seq<SqlValue>) -> bool {
    &&& row.len() == 8
    &&& int_of(row[0]) is Some
    &&& int_of(row[1]) is Some
    &&& int_of(row[2]) is Some
    &&& text_of(row[3]) is Some
    &&& opt_number_of(row[4]) is Some
    &&& opt_number_of(row[5]) is Some
    &&& text_of(row[6]) is Some
    &&& text_of(row[7]) is Some
}

/// `x` holds what the columns of `row` read as; a JSON column is text,
/// parsed as JSON.
pub open spec fn relationship_listing_from_row(row: Seq<SqlValue>, x: RelationshipListing) -> bool {
    &&& x.id == int_of(row[0]).unwrap()
    &&& x.source_entity_id == int_of(row[1]).unwrap()
    &&& x.target_entity_id == int_of(row[2]).unwrap()
    &&& x.relationship_type@ == text_of(row[3]).unwrap()
    &&& x.strength == opt_number_of(row[4]).unwrap()
    &&& x.confidence == opt_number_of(row[5]).unwrap()
    &&& x.source_name@ == text_of(row[6]).unwrap()
    &&& x.target_name@ == text_of(row[7]).unwrap()
}

/// `x` is what some row reads as.
pub open spec fn relationship_listing_read(x: RelationshipListing) -> bool {
    exists|row: Seq<SqlValue>| #[trigger] relationship_listing_from_row(row, x)
}

fn decode_relationship_listing(row: Vec<SqlValue>) -> (r: Option<RelationshipListing>)
    requires
        row.len() == 8,
    ensures
        r is Some <==> relationship_listing_row_valid(row@),
        r matches Some(x) ==> relationship_listing_from_row(row@, x),
{
    let ghost r0 = row@;
    let mut row = row;
    let target_name = as_text(row.pop().unwrap());
    assert(row@ =~= r0.take(7));
    let target_name = match target_name { Some(v) => v, None => { return None; } };
    let source_name = as_text(row.pop().unwrap());
    assert(row@ =~= r0.take(6));
    let source_name = match source_name { Some(v) => v, None => { return None; } };
    let confidence = as_opt_number(row.pop().unwrap());
    assert(row@ =~= r0.take(5));
    let confidence = match confidence { Some(v) => v, None => { return None; } };
    let strength = as_opt_number(row.pop().unwrap());
    assert(row@ =~= r0.take(4));
    let strength = match strength { Some(v) => v, None => { return None; } };
    let relationship_type = as_text(row.pop().unwrap());
    assert(row@ =~= r0.take(3));
    let relationship_type = match relationship_type { Some(v) => v, None => { return None; } };
    let target_entity_id = as_int(row.pop().unwrap());
    assert(row@ =~= r0.take(2));
    let target_entity_id = match target_entity_id { Some(v) => v, None => { return None; } };
    let source_entity_id = as_int(row.pop().unwrap());
    assert(row@ =~= r0.take(1));
    let source_entity_id = match source_entity_id { Some(v) => v, None => { return None; } };
    let id = as_int(row.pop().unwrap());
    assert(row@ =~= r0.take(0));
    let id = match id { Some(v) => v, None => { return None; } };
    Some(RelationshipListing { id, source_entity_id, target_entity_id, relationship_type, strength, confidence, source_name, target_name })
}

/// Whether a row of 8 columns can be read as a project in the dashboard's list.
pub open spec fn project_listing_row_valid(row: Seq<SqlValue>) -> bool {
    &&& row.len() == 8
    &&& int_of(row[0]) is Some
    &&& text_of(row[1]) is Some
    &&& text_of(row[2]) is Some
    &&& opt_text_of(row[3]) is Some
    &&& text_of(row[4]) is Some
    &&& opt_text_of(row[5]) is Some
    &&& int_of(row[6]) is Some
    &&& text_of(row[7]) is Some
}

/// `x` holds what the columns of `row` read as; a JSON column is text,
/// parsed as JSON.
pub open spec fn project_listing_from_row(row: Seq<SqlValue>, x: ProjectListing) -> bool {
    &&& x.id == int_of(row[0]).unwrap()
    &&& x.name@ == text_of(row[1]).unwrap()
    &&& x.description@ == text_of(row[2]).unwrap()
    &&& view_opt(x.project_type) == opt_text_of(row[3]).unwrap()
    &&& x.status@ == text_of(row[4]).unwrap()
    &&& view_opt(x.repo_name) == opt_text_of(row[5]).unwrap()
    &&& x.memory_count == int_of(row[6]).unwrap()
    &&& x.created_at@ == text_of(row[7]).unwrap()
}

/// `x` is what some row reads as.
pub open spec fn project_listing_read(x: ProjectListing) -> bool {
    exists|row: Seq<SqlValue>| #[trigger] project_listing_from_row(row, x)
}

fn decode_project_listing(row: Vec<SqlValue>) -> (r: Option<ProjectListing>)
    requires
        row.len() == 8,
    ensures
        r is Some <==> project_listing_row_valid(row@),
        r matches Some(x) ==> project_listing_from_row(row@, x),
{
    let ghost r0 = row@;
    let mut row = row;
    let created_at = as_text(row.pop().unwrap());
    assert(row@ =~= r0.take(7));
    let created_at = match created_at { Some(v) => v, None => { return None; } };
    let memory_count = as_int(row.pop().unwrap());
    assert(row@ =~= r0.take(6));
    let memory_count = match memory_count { Some(v) => v, None => { return None; } };
    let repo_name = as_opt_text(row.pop().unwrap());
    assert(row@ =~= r0.take(5));
    let repo_name = match repo_name { Some(v) => v, None => { return None; } };
    let status = as_text(row.pop().unwrap());
    assert(row@ =~= r0.take(4));
    let status = match status { Some(v) => v, None => { return None; } };
    let project_type = as_opt_text(row.pop().unwrap());
    assert(row@ =~= r0.take(3));
    let project_type = match project_type { Some(v) => v, None => { return None; } };
    let description = as_text(row.pop().unwrap());
    assert(row@ =~= r0.take(2));
    let description = match description { Some(v) => v, None => { return None; } };
    let name = as_text(row.pop().unwrap());
    assert(row@ =~= r0.take(1));
    let name = match name { Some(v) => v, None => { return None; } };
    let id = as_int(row.pop().unwrap());
    assert(row@ =~= r0.take(0));
    let id = match id { Some(v) => v, None => { return None; } };
    Some(ProjectListing { id, name, description, project_type, status, repo_name, memory_count, created_at })
}

/// Whether a row of 7 columns can be read as a document in the dashboard's list.
pub open spec fn document_listing_row_valid(row: Seq<SqlValue>) -> bool {
    &&& row.len() == 7
    &&& int_of(row[0]) is Some
    &&& text_of(row[1]) is Some
    &&& text_of(row[2]) is Some
    &&& opt_text_of(row[3]) is Some
    &&& int_of(row[4]) is Some
    &&& row[5] is Text
    &&& text_of(row[6]) is Some
}

/// `x` holds what the columns of `row` read as; a JSON column is text,
/// parsed as JSON.
pub open spec fn document_listing_from_row(row: Seq<SqlValue>, x: DocumentListing) -> bool {
    &&& x.id == int_of(row[0]).unwrap()
    &&& x.title@ == text_of(row[1]).unwrap()
    &&& x.description@ == text_of(row[2]).unwrap()
    &&& view_opt(x.document_type) == opt_text_of(row[3]).unwrap()
    &&& x.size_bytes == int_of(row[4]).unwrap()
    &&& x.created_at@ == text_of(row[6]).unwrap()
}

/// `x` is what some row reads as.
pub open spec fn document_listing_read(x: DocumentListing) -> bool {
    exists|row: Seq<SqlValue>| #[trigger] document_listing_from_row(row, x)
}

fn decode_document_listing(row: Vec<SqlValue>) -> (r: Option<DocumentListing>)
    requires
        row.len() == 7,
    ensures
        r is Some <==> document_listing_row_valid(row@),
        r matches Some(x) ==> document_listing_from_row(row@, x),
{
    let ghost r0 = row@;
    let mut row = row;
    let created_at = as_text(row.pop().unwrap());
    assert(row@ =~= r0.take(6));
    let created_at = match created_at { Some(v) => v, None => { return None; } };
    let tags = as_json_value(row.pop().unwrap());
    assert(row@ =~= r0.take(5));
    let tags = match tags { Some(v) => v, None => { return None; } };
    let size_bytes = as_int(row.pop().unwrap());
    assert(row@ =~= r0.take(4));
    let size_bytes = match size_bytes { Some(v) => v, None => { return None; } };
    let document_type = as_opt_text(row.pop().unwrap());
    assert(row@ =~= r0.take(3));
    let document_type = match document_type { Some(v) => v, None => { return None; } };
    let description = as_text(row.pop().unwrap());
    assert(row@ =~= r0.take(2));
    let description = match description { Some(v) => v, None => { return None; } };
    let title = as_text(row.pop().unwrap());
    assert(row@ =~= r0.take(1));
    let title = match title { Some(v) => v, None => { return None; } };
    let id = as_int(row.pop().unwrap());
    assert(row@ =~= r0.take(0));
    let id = match id { Some(v) => v, None => { return None; } };
    Some(DocumentListing { id, title, description, document_type, size_bytes, tags, created_at })
}

/// Whether a row of 6 columns can be read as a hit of the dashboard's search.
pub open spec fn search_hit_row_valid(row: Seq<SqlValue>) -> bool {
    &&& row.len() == 6
    &&& int_of(row[0]) is Some
    &&& text_of(row[1]) is Some
    &&& text_of(row[2]) is Some
    &&& i32_of(row[3]) is Some
    &&& text_of(row[4]) is Some
    &&& row[5] is Text
}

/// `x` holds what the columns of `row` read as; a JSON column is text,
/// parsed as JSON.
pub open spec fn search_hit_from_row(row: Seq<SqlValue>, x: SearchHit) -> bool {
    &&& x.id == int_of(row[0]).unwrap()
    &&& x.title@ == text_of(row[1]).unwrap()
    &&& x.content@ == text_of(row[2]).unwrap()
    &&& x.importance == i32_of(row[3]).unwrap()
    &&& x.memory_type@ == text_of(row[4]).unwrap()
}

/// `x` is what some row reads as.
pub open spec fn search_hit_read(x: SearchHit) -> bool {
    exists|row: Seq<SqlValue>| #[trigger] search_hit_from_row(row, x)
}

fn decode_hit(row: Vec<SqlValue>) -> (r: Option<SearchHit>)
    requires
        row.len() == 6,
    ensures
        r is Some <==> search_hit_row_valid(row@),
        r matches Some(x) ==> search_hit_from_row(row@, x),
{
    let ghost r0 = row@;
    let mut row = row;
    let tags = as_json_value(row.pop().unwrap());
    assert(row@ =~= r0.take(5));
    let tags = match tags { Some(v) => v, None => { return None; } };
    let memory_type = as_text(row.pop().unwrap());
    assert(row@ =~= r0.take(4));
    let memory_type = match memory_type { Some(v) => v, None => { return None; } };
    let importance = as_i32(row.pop().unwrap());
    assert(row@ =~= r0.take(3));
    let importance = match importance { Some(v) => v, None => { return None; } };
    let content = as_text(row.pop().unwrap());
    assert(row@ =~= r0.take(2));
    let content = match content { Some(v) => v, None => { return None; } };
    let title = as_text(row.pop().unwrap());
    assert(row@ =~= r0.take(1));
    let title = match title { Some(v) => v, None => { return None; } };
    let id = as_int(row.pop().unwrap());
    assert(row@ =~= r0.take(0));
    let id = match id { Some(v) => v, None => { return None; } };
    Some(SearchHit { id, title, content, importance, memory_type, tags })
}

pub const DASHBOARD_MEMORIES: &'static str = "SELECT id, title, content, context, keywords, tags, importance, memory_type, container_tag,
                is_obsolete, is_forgotten, version, is_latest, created_at, updated_at
         FROM memories WHERE user_id='default'
         ORDER BY updated_at DESC";

pub const DASHBOARD_ENTITIES: &'static str = "SELECT id, name, entity_type, custom_type, notes, tags, aka, created_at
         FROM entities WHERE user_id='default' ORDER BY name";

pub const DASHBOARD_RELATIONSHIPS: &'static str = "SELECT er.id, er.source_entity_id, er.target_entity_id, er.relationship_type,
                er.strength, er.confidence, e1.name as source_name, e2.name as target_name
         FROM entity_relationships er
         JOIN entities e1 ON er.source_entity_id = e1.id
         JOIN entities e2 ON er.target_entity_id = e2.id
         WHERE er.user_id='default'";

pub const DASHBOARD_PROJECTS: &'static str = "SELECT p.id, p.name, p.description, p.project_type, p.status, p.repo_name,
                (SELECT COUNT(*) FROM memory_project_association WHERE project_id=p.id) as memory_count,
                p.created_at
         FROM projects p WHERE p.user_id='default' ORDER BY p.name";

pub const DASHBOARD_DOCUMENTS: &'static str = "SELECT id, title, description, document_type, size_bytes, tags, created_at
         FROM documents WHERE user_id='default' ORDER BY updated_at DESC";

pub const DASHBOARD_SEARCH: &'static str = "SELECT m.id, m.title, m.content, m.importance, m.memory_type, m.tags,
                bm25(memories_fts, 5.0, 3.0, 2.0, 1.0, 1.0) as rank
         FROM memories_fts fts
         JOIN memories m ON fts.rowid = m.id
         WHERE memories_fts MATCH ?1
           AND m.user_id='default' AND m.is_obsolete=0 AND m.is_forgotten=0 AND m.is_latest=1
         ORDER BY (rank * (1.0 + m.importance * 0.1))
         LIMIT 20";

/// `out` holds, in order, what each row of `rows` that can be read as such
/// reads as (see `memory_listing_from_row`); rows that cannot are passed over.
pub open spec fn memory_listing_list_of(rows: Seq<Vec<SqlValue>>, out: Seq<MemoryListing>) -> bool
    decreases rows.len(),
{
    if rows.len() == 0 {
        out.len() == 0
    } else if memory_listing_row_valid(rows.last()@) {
        out.len() > 0 && memory_listing_from_row(rows.last()@, out.last())
            && memory_listing_list_of(rows.drop_last(), out.drop_last())
    } else {
        memory_listing_list_of(rows.drop_last(), out)
    }
}

/// `out` holds, in order, what each row of `rows` that can be read as such
/// reads as (see `entity_listing_from_row`); rows that cannot are passed over.
pub open spec fn entity_listing_list_of(rows: Seq<Vec<SqlValue>>, out: Seq<EntityListing>) -> bool
    decreases rows.len(),
{
    if rows.len() == 0 {
        out.len() == 0
    } else if entity_listing_row_valid(rows.last()@) {
        out.len() > 0 && entity_listing_from_row(rows.last()@, out.last())
            && entity_listing_list_of(rows.drop_last(), out.drop_last())
    } else {
        entity_listing_list_of(rows.drop_last(), out)
    }
}

/// `out` holds, in order, what each row of `rows` that can be read as such
/// reads as (see `relationship_listing_from_row`); rows that cannot are passed over.
pub open spec fn relationship_listing_list_of(rows: Seq<Vec<SqlValue>>, out: Seq<RelationshipListing>) -> bool
    decreases rows.len(),
{
    if rows.len() == 0 {
        out.len() == 0
    } else if relationship_listing_row_valid(rows.last()@) {
        out.len() > 0 && relationship_listing_from_row(rows.last()@, out.last())
            && relationship_listing_list_of(rows.drop_last(), out.drop_last())
    } else {
        relationship_listing_list_of(rows.drop_last(), out)
    }
}

/// `out` holds, in order, what each row of `rows` that can be read as such
/// reads as (see `project_listing_from_row`); rows that cannot are passed over.
pub open spec fn project_listing_list_of(rows: Seq<Vec<SqlValue>>, out: Seq<ProjectListing>) -> bool
    decreases rows.len(),
{
    if rows.len() == 0 {
        out.len() == 0
    } else if project_listing_row_valid(rows.last()@) {
        out.len() > 0 && project_listing_from_row(rows.last()@, out.last())
            && project_listing_list_of(rows.drop_last(), out.drop_last())
    } else {
        project_listing_list_of(rows.drop_last(), out)
    }
}

/// `out` holds, in order, what each row of `rows` that can be read as such
/// reads as (see `document_listing_from_row`); rows that cannot are passed over.
pub open spec fn document_listing_list_of(rows: Seq<Vec<SqlValue>>, out: Seq<DocumentListing>) -> bool
    decreases rows.len(),
{
    if rows.len() == 0 {
        out.len() == 0
    } else if document_listing_row_valid(rows.last()@) {
        out.len() > 0 && document_listing_from_row(rows.last()@, out.last())
            && document_listing_list_of(rows.drop_last(), out.drop_last())
    } else {
        document_listing_list_of(rows.drop_last(), out)
    }
}

/// `out` holds, in order, what each row of `rows` that can be read as such
/// reads as (see `search_hit_from_row`); rows that cannot are passed over.
pub open spec fn search_hit_list_of(rows: Seq<Vec<SqlValue>>, out: Seq<SearchHit>) -> bool
    decreases rows.len(),
{
    if rows.len() == 0 {
        out.len() == 0
    } else if search_hit_row_valid(rows.last()@) {
        out.len() > 0 && search_hit_from_row(rows.last()@, out.last())
            && search_hit_list_of(rows.drop_last(), out.drop_last())
    } else {
        search_hit_list_of(rows.drop_last(), out)
    }
}

pub const COUNT_MEMORIES: &'static str = "SELECT COUNT(*) FROM memories WHERE user_id='default' AND is_obsolete=0 AND is_forgotten=0";

pub const COUNT_ENTITIES: &'static str = "SELECT COUNT(*) FROM entities WHERE user_id='default'";

pub const COUNT_PROJECTS: &'static str = "SELECT COUNT(*) FROM projects WHERE user_id='default'";

pub const COUNT_DOCUMENTS: &'static str = "SELECT COUNT(*) FROM documents WHERE user_id='default'";

pub const COUNT_CODE_ARTIFACTS: &'static str = "SELECT COUNT(*) FROM code_artifacts WHERE user_id='default'";

pub const COUNT_RELATIONSHIPS: &'static str = "SELECT COUNT(*) FROM entity_relationships WHERE user_id='default'";

pub const COUNT_MEMORY_LINKS: &'static str = "SELECT COUNT(*) FROM memory_links WHERE user_id='default'";

pub const COUNT_OBSOLETE: &'static str = "SELECT COUNT(*) FROM memories WHERE user_id='default' AND is_obsolete=1";

pub const COUNT_FORGOTTEN: &'static str = "SELECT COUNT(*) FROM memories WHERE user_id='default' AND is_forgotten=1";

pub const DASHBOARD_MEMORY: &'static str = "SELECT id, title, content, context, keywords, tags, importance, memory_type, container_tag,
                is_obsolete, obsolete_reason, is_forgotten, version, parent_memory_id, is_latest,
                relationship_type, source_repo, source_url, confidence, encoding_agent,
                created_at, updated_at
         FROM memories WHERE id=?1";

pub const DASHBOARD_LINKED_IDS: &'static str = "SELECT target_id FROM memory_links WHERE source_id=?1
         UNION SELECT source_id FROM memory_links WHERE target_id=?1";

pub const DASHBOARD_PROJECT_IDS: &'static str = "SELECT project_id FROM memory_project_association WHERE memory_id=?1";

pub const DASHBOARD_ENTITY_IDS: &'static str = "SELECT entity_id FROM memory_entity_association WHERE memory_id=?1";

/// The FTS5 query of a dashboard search: the plain terms of the query
/// (see `plain_terms`) joined by ` OR `; none when it has no such term.
pub fn dashboard_search_query(q: &str) -> (r: Option<String>)
    ensures
        r is None <==> plain_terms(words(q@)).len() == 0,
        r matches Some(s) ==> s@ == crate::text::join_or(plain_terms(words(q@))),
{
    let terms = plain_search_terms(&split_words(q));
    if terms.len() == 0 {
        None
    } else {
        Some(join_with_or(&terms))
    }
}

impl Database {
    /// Counts of memories (live, obsolete, forgotten), entities, projects,
    /// documents, code artifacts, relationships and memory links; a count
    /// that cannot be read is zero.
    pub fn dashboard_stats(&self) -> (r: DashboardStats)
        ensures
            counted(COUNT_MEMORIES@, r.memories),
            counted(COUNT_ENTITIES@, r.entities),
            counted(COUNT_PROJECTS@, r.projects),
            counted(COUNT_DOCUMENTS@, r.documents),
            counted(COUNT_CODE_ARTIFACTS@, r.code_artifacts),
            counted(COUNT_RELATIONSHIPS@, r.relationships),
            counted(COUNT_MEMORY_LINKS@, r.memory_links),
            counted(COUNT_OBSOLETE@, r.obsolete),
            counted(COUNT_FORGOTTEN@, r.forgotten),
    {
        DashboardStats {
            memories: count_or_zero(self, COUNT_MEMORIES),
            entities: count_or_zero(self, COUNT_ENTITIES),
            projects: count_or_zero(self, COUNT_PROJECTS),
            documents: count_or_zero(self, COUNT_DOCUMENTS),
            code_artifacts: count_or_zero(self, COUNT_CODE_ARTIFACTS),
            relationships: count_or_zero(self, COUNT_RELATIONSHIPS),
            memory_links: count_or_zero(self, COUNT_MEMORY_LINKS),
            obsolete: count_or_zero(self, COUNT_OBSOLETE),
            forgotten: count_or_zero(self, COUNT_FORGOTTEN),
        }
    }

    /// Every memory of the default user, most recently updated first.
    pub fn dashboard_memories(&self) -> (r: Result<Vec<MemoryListing>, DashboardError>)
        ensures
            r matches Ok(v) ==> forall|i: int| 0 <= i < v.len() ==> memory_listing_read(#[trigger] v@[i]),
            r matches Ok(v) ==> exists|rows: Seq<Vec<SqlValue>>|
                #[trigger] answered(DASHBOARD_MEMORIES@, Seq::<Bound>::empty(), rows) && memory_listing_list_of(rows, v@),
            r matches Err(e) ==> e == DashboardError::Internal && query_failed(DASHBOARD_MEMORIES@, Seq::<Bound>::empty()),
    {
        let params: Vec<SqlValue> = Vec::new();
        let ghost pb = bound_all(params@);
        assert(pb =~= Seq::<Bound>::empty());
        let mut rows = listing_rows(self, DASHBOARD_MEMORIES, params, 15)?;
        let ghost orig = rows@.reverse();
        let ghost total = rows@.len();
        let mut out: Vec<MemoryListing> = Vec::new();
        assert(orig.take(0) =~= Seq::<Vec<SqlValue>>::empty());
        while rows.len() > 0
            invariant
                all_have_width(rows@, 15),
                rows.len() <= total,
                orig.len() == total,
                forall|j: int| 0 <= j < rows.len() ==> #[trigger] rows@[j] == orig[total - 1 - j],
                forall|i: int| 0 <= i < out.len() ==> memory_listing_read(#[trigger] out@[i]),
                memory_listing_list_of(orig.take(total - rows.len()), out@),
            decreases rows.len(),
        {
            let ghost before = rows@;
            let ghost done = out@;
            let ghost k = total - rows.len();
            let row = rows.pop().unwrap();
            assert(row == before[before.len() - 1]);
            assert(row == orig[k]);
            assert(forall|j: int| 0 <= j < rows.len() ==> #[trigger] rows@[j] == before[j]);
            assert(orig.take(k + 1).drop_last() =~= orig.take(k));
            assert(orig.take(k + 1).last() == row);
            let ghost rv = row@;
            match decode_listing(row) {
                Some(x) => {
                    assert(memory_listing_from_row(rv, x));
                    out.push(x);
                    assert(out@.drop_last() =~= done);
                },
                None => {},
            }
        }
        assert(orig.take(total as int) =~= orig);
        assert(answered(DASHBOARD_MEMORIES@, Seq::<Bound>::empty(), orig));
        Ok(out)
    }

    /// One memory in detail, with its links, projects and entities.
    pub fn dashboard_memory(&self, id: i64) -> (r: Result<MemoryDetail, DashboardError>)
        ensures
            r matches Ok(d) ==> memory_detail_read(d),
            r matches Ok(d) ==> exists|row: Vec<SqlValue>|
                #[trigger] first_answer(DASHBOARD_MEMORY@, seq![Bound::Integer(id)], Some(row))
                && memory_detail_from_row(row@, d),
            r matches Ok(d) ==> ids_answered(DASHBOARD_LINKED_IDS@, id, d.linked_memory_ids@)
                && ids_answered(DASHBOARD_PROJECT_IDS@, id, d.project_ids@)
                && ids_answered(DASHBOARD_ENTITY_IDS@, id, d.entity_ids@),
            r matches Err(e) && e == DashboardError::NotFound ==> exists|first: Option<Vec<SqlValue>>|
                #[trigger] first_answer(DASHBOARD_MEMORY@, seq![Bound::Integer(id)], first)
                && (first matches Some(row) ==> !memory_detail_row_valid(row@)),
            r matches Err(e) && e == DashboardError::Internal ==> query_failed(DASHBOARD_LINKED_IDS@, seq![Bound::Integer(id)])
                || query_failed(DASHBOARD_PROJECT_IDS@, seq![Bound::Integer(id)])
                || query_failed(DASHBOARD_ENTITY_IDS@, seq![Bound::Integer(id)]),
    {
        let params: Vec<SqlValue> = vec![SqlValue::Integer(id)];
        assert(bound_all(params@) =~= seq![Bound::Integer(id)]);
        let row = self.query_first(DASHBOARD_MEMORY, params, 22);
        let ghost first = row;
        let ghost rv: Seq<SqlValue>;
        let mut detail = match row {
            Some(r) => {
                proof { rv = r@; }
                match decode_detail(r) {
                    Some(d) => d,
                    None => {
                        assert(first_answer(DASHBOARD_MEMORY@, seq![Bound::Integer(id)], first));
                        return Err(DashboardError::NotFound);
                    },
                }
            },
            None => {
                assert(first_answer(DASHBOARD_MEMORY@, seq![Bound::Integer(id)], first));
                return Err(DashboardError::NotFound);
            },
        };
        detail.linked_memory_ids = id_list(self, DASHBOARD_LINKED_IDS, id)?;
        detail.project_ids = id_list(self, DASHBOARD_PROJECT_IDS, id)?;
        detail.entity_ids = id_list(self, DASHBOARD_ENTITY_IDS, id)?;
        assert(memory_detail_from_row(rv, detail));
        assert(first_answer(DASHBOARD_MEMORY@, seq![Bound::Integer(id)], first));
        Ok(detail)
    }

    /// Every entity of the default user, by name.
    pub fn dashboard_entities(&self) -> (r: Result<Vec<EntityListing>, DashboardError>)
        ensures
            r matches Ok(v) ==> forall|i: int| 0 <= i < v.len() ==> entity_listing_read(#[trigger] v@[i]),
            r matches Ok(v) ==> exists|rows: Seq<Vec<SqlValue>>|
                #[trigger] answered(DASHBOARD_ENTITIES@, Seq::<Bound>::empty(), rows) && entity_listing_list_of(rows, v@),
            r matches Err(e) ==> e == DashboardError::Internal && query_failed(DASHBOARD_ENTITIES@, Seq::<Bound>::empty()),
    {
        let params: Vec<SqlValue> = Vec::new();
        let ghost pb = bound_all(params@);
        assert(pb =~= Seq::<Bound>::empty());
        let mut rows = listing_rows(self, DASHBOARD_ENTITIES, params, 8)?;
        let ghost orig = rows@.reverse();
        let ghost total = rows@.len();
        let mut out: Vec<EntityListing> = Vec::new();
        assert(orig.take(0) =~= Seq::<Vec<SqlValue>>::empty());
        while rows.len() > 0
            invariant
                all_have_width(rows@, 8),
                rows.len() <= total,
                orig.len() == total,
                forall|j: int| 0 <= j < rows.len() ==> #[trigger] rows@[j] == orig[total - 1 - j],
                forall|i: int| 0 <= i < out.len() ==> entity_listing_read(#[trigger] out@[i]),
                entity_listing_list_of(orig.take(total - rows.len()), out@),
            decreases rows.len(),
        {
            let ghost before = rows@;
            let ghost done = out@;
            let ghost k = total - rows.len();
            let row = rows.pop().unwrap();
            assert(row == before[before.len() - 1]);
            assert(row == orig[k]);
            assert(forall|j: int| 0 <= j < rows.len() ==> #[trigger] rows@[j] == before[j]);
            assert(orig.take(k + 1).drop_last() =~= orig.take(k));
            assert(orig.take(k + 1).last() == row);
            let ghost rv = row@;
            match decode_entity_listing(row) {
                Some(x) => {
                    assert(entity_listing_from_row(rv, x));
                    out.push(x);
                    assert(out@.drop_last() =~= done);
                },
                None => {},
            }
        }
        assert(orig.take(total as int) =~= orig);
        assert(answered(DASHBOARD_ENTITIES@, Seq::<Bound>::empty(), orig));
        Ok(out)
    }

    /// Every relationship of the default user, with the names of its ends.
    pub fn dashboard_relationships(&self) -> (r: Result<Vec<RelationshipListing>, DashboardError>)
        ensures
            r matches Ok(v) ==> forall|i: int| 0 <= i < v.len() ==> relationship_listing_read(#[trigger] v@[i]),
            r matches Ok(v) ==> exists|rows: Seq<Vec<SqlValue>>|
                #[trigger] answered(DASHBOARD_RELATIONSHIPS@, Seq::<Bound>::empty(), rows) && relationship_listing_list_of(rows, v@),
            r matches Err(e) ==> e == DashboardError::Internal && query_failed(DASHBOARD_RELATIONSHIPS@, Seq::<Bound>::empty()),
    {
        let params: Vec<SqlValue> = Vec::new();
        let ghost pb = bound_all(params@);
        assert(pb =~= Seq::<Bound>::empty());
        let mut rows = listing_rows(self, DASHBOARD_RELATIONSHIPS, params, 8)?;
        let ghost orig = rows@.reverse();
        let ghost total = rows@.len();
        let mut out: Vec<RelationshipListing> = Vec::new();
        assert(orig.take(0) =~= Seq::<Vec<SqlValue>>::empty());
        while rows.len() > 0
            invariant
                all_have_width(rows@, 8),
                rows.len() <= total,
                orig.len() == total,
                forall|j: int| 0 <= j < rows.len() ==> #[trigger] rows@[j] == orig[total - 1 - j],
                forall|i: int| 0 <= i < out.len() ==> relationship_listing_read(#[trigger] out@[i]),
                relationship_listing_list_of(orig.take(total - rows.len()), out@),
            decreases rows.len(),
        {
            let ghost before = rows@;
            let ghost done = out@;
            let ghost k = total - rows.len();
            let row = rows.pop().unwrap();
            assert(row == before[before.len() - 1]);
            assert(row == orig[k]);
            assert(forall|j: int| 0 <= j < rows.len() ==> #[trigger] rows@[j] == before[j]);
            assert(orig.take(k + 1).drop_last() =~= orig.take(k));
            assert(orig.take(k + 1).last() == row);
            let ghost rv = row@;
            match decode_relationship_listing(row) {
                Some(x) => {
                    assert(relationship_listing_from_row(rv, x));
                    out.push(x);
                    assert(out@.drop_last() =~= done);
                },
                None => {},
            }
        }
        assert(orig.take(total as int) =~= orig);
        assert(answered(DASHBOARD_RELATIONSHIPS@, Seq::<Bound>::empty(), orig));
        Ok(out)
    }

    /// Every project of the default user, by name, with its memory count.
    pub fn dashboard_projects(&self) -> (r: Result<Vec<ProjectListing>, DashboardError>)
        ensures
            r matches Ok(v) ==> forall|i: int| 0 <= i < v.len() ==> project_listing_read(#[trigger] v@[i]),
            r matches Ok(v) ==> exists|rows: Seq<Vec<SqlValue>>|
                #[trigger] answered(DASHBOARD_PROJECTS@, Seq::<Bound>::empty(), rows) && project_listing_list_of(rows, v@),
            r matches Err(e) ==> e == DashboardError::Internal && query_failed(DASHBOARD_PROJECTS@, Seq::<Bound>::empty()),
    {
        let params: Vec<SqlValue> = Vec::new();
        let ghost pb = bound_all(params@);
        assert(pb =~= Seq::<Bound>::empty());
        let mut rows = listing_rows(self, DASHBOARD_PROJECTS, params, 8)?;
        let ghost orig = rows@.reverse();
        let ghost total = rows@.len();
        let mut out: Vec<ProjectListing> = Vec::new();
        assert(orig.take(0) =~= Seq::<Vec<SqlValue>>::empty());
        while rows.len() > 0
            invariant
                all_have_width(rows@, 8),
                rows.len() <= total,
                orig.len() == total,
                forall|j: int| 0 <= j < rows.len() ==> #[trigger] rows@[j] == orig[total - 1 - j],
                forall|i: int| 0 <= i < out.len() ==> project_listing_read(#[trigger] out@[i]),
                project_listing_list_of(orig.take(total - rows.len()), out@),
            decreases rows.len(),
        {
            let ghost before = rows@;
            let ghost done = out@;
            let ghost k = total - rows.len();
            let row = rows.pop().unwrap();
            assert(row == before[before.len() - 1]);
            assert(row == orig[k]);
            assert(forall|j: int| 0 <= j < rows.len() ==> #[trigger] rows@[j] == before[j]);
            assert(orig.take(k + 1).drop_last() =~= orig.take(k));
            assert(orig.take(k + 1).last() == row);
            let ghost rv = row@;
            match decode_project_listing(row) {
                Some(x) => {
                    assert(project_listing_from_row(rv, x));
                    out.push(x);
                    assert(out@.drop_last() =~= done);
                },
                None => {},
            }
        }
        assert(orig.take(total as int) =~= orig);
        assert(answered(DASHBOARD_PROJECTS@, Seq::<Bound>::empty(), orig));
        Ok(out)
    }

    /// Every document of the default user, most recently updated first.
    pub fn dashboard_documents(&self) -> (r: Result<Vec<DocumentListing>, DashboardError>)
        ensures
            r matches Ok(v) ==> forall|i: int| 0 <= i < v.len() ==> document_listing_read(#[trigger] v@[i]),
            r matches Ok(v) ==> exists|rows: Seq<Vec<SqlValue>>|
                #[trigger] answered(DASHBOARD_DOCUMENTS@, Seq::<Bound>::empty(), rows) && document_listing_list_of(rows, v@),
            r matches Err(e) ==> e == DashboardError::Internal && query_failed(DASHBOARD_DOCUMENTS@, Seq::<Bound>::empty()),
    {
        let params: Vec<SqlValue> = Vec::new();
        let ghost pb = bound_all(params@);
        assert(pb =~= Seq::<Bound>::empty());
        let mut rows = listing_rows(self, DASHBOARD_DOCUMENTS, params, 7)?;
        let ghost orig = rows@.reverse();
        let ghost total = rows@.len();
        let mut out: Vec<DocumentListing> = Vec::new();
        assert(orig.take(0) =~= Seq::<Vec<SqlValue>>::empty());
        while rows.len() > 0
            invariant
                all_have_width(rows@, 7),
                rows.len() <= total,
                orig.len() == total,
                forall|j: int| 0 <= j < rows.len() ==> #[trigger] rows@[j] == orig[total - 1 - j],
                forall|i: int| 0 <= i < out.len() ==> document_listing_read(#[trigger] out@[i]),
                document_listing_list_of(orig.take(total - rows.len()), out@),
            decreases rows.len(),
        {
            let ghost before = rows@;
            let ghost done = out@;
            let ghost k = total - rows.len();
            let row = rows.pop().unwrap();
            assert(row == before[before.len() - 1]);
            assert(row == orig[k]);
            assert(forall|j: int| 0 <= j < rows.len() ==> #[trigger] rows@[j] == before[j]);
            assert(orig.take(k + 1).drop_last() =~= orig.take(k));
            assert(orig.take(k + 1).last() == row);
            let ghost rv = row@;
            match decode_document_listing(row) {
                Some(x) => {
                    assert(document_listing_from_row(rv, x));
                    out.push(x);
                    assert(out@.drop_last() =~= done);
                },
                None => {},
            }
        }
        assert(orig.take(total as int) =~= orig);
        assert(answered(DASHBOARD_DOCUMENTS@, Seq::<Bound>::empty(), orig));
        Ok(out)
    }

    /// The memories matching the words of a dashboard search (see
    /// `dashboard_search_query`) that are live and the latest of their
    /// versions, best first, at most 20; none for a query without terms.
    pub fn dashboard_search(&self, q: &str) -> (r: Result<Vec<SearchHit>, DashboardError>)
        ensures
            plain_terms(words(q@)).len() == 0 ==> (r matches Ok(v) && v.len() == 0),
            r matches Ok(v) ==> forall|i: int| 0 <= i < v.len() ==> search_hit_read(#[trigger] v@[i]),
            plain_terms(words(q@)).len() > 0 ==> (r matches Ok(v) ==> exists|rows: Seq<Vec<SqlValue>>|
                #[trigger] answered(DASHBOARD_SEARCH@, seq![Bound::Text(join_or(plain_terms(words(q@))))], rows) && search_hit_list_of(rows, v@)),
            r matches Err(e) ==> e == DashboardError::Internal && query_failed(DASHBOARD_SEARCH@, seq![Bound::Text(join_or(plain_terms(words(q@))))]),
    {
        let fts_query = match dashboard_search_query(q) {
            Some(s) => s,
            None => { return Ok(Vec::new()); },
        };
        let params: Vec<SqlValue> = vec![SqlValue::Text(fts_query)];
        let ghost pb = bound_all(params@);
        assert(pb =~= seq![Bound::Text(join_or(plain_terms(words(q@))))]);
        let mut rows = listing_rows(self, DASHBOARD_SEARCH, params, 6)?;
        let ghost orig = rows@.reverse();
        let ghost total = rows@.len();
        let mut out: Vec<SearchHit> = Vec::new();
        assert(orig.take(0) =~= Seq::<Vec<SqlValue>>::empty());
        while rows.len() > 0
            invariant
                all_have_width(rows@, 6),
                rows.len() <= total,
                orig.len() == total,
                forall|j: int| 0 <= j < rows.len() ==> #[trigger] rows@[j] == orig[total - 1 - j],
                forall|i: int| 0 <= i < out.len() ==> search_hit_read(#[trigger] out@[i]),
                search_hit_list_of(orig.take(total - rows.len()), out@),
            decreases rows.len(),
        {
            let ghost before = rows@;
            let ghost done = out@;
            let ghost k = total - rows.len();
            let row = rows.pop().unwrap();
            assert(row == before[before.len() - 1]);
            assert(row == orig[k]);
            assert(forall|j: int| 0 <= j < rows.len() ==> #[trigger] rows@[j] == before[j]);
            assert(orig.take(k + 1).drop_last() =~= orig.take(k));
            assert(orig.take(k + 1).last() == row);
            let ghost rv = row@;
            match decode_hit(row) {
                Some(x) => {
                    assert(search_hit_from_row(rv, x));
                    out.push(x);
                    assert(out@.drop_last() =~= done);
                },
                None => {},
            }
        }
        assert(orig.take(total as int) =~= orig);
        assert(answered(DASHBOARD_SEARCH@, seq![Bound::Text(join_or(plain_terms(words(q@))))], orig));
        Ok(out)
    }
}

} // verus!
