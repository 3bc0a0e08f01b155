//! The records of the store and how they are read from result rows.

use vstd::prelude::*;
use crate::columns::{
    as_datetime, as_flag, as_i32, as_int, as_opt_datetime, as_opt_int, as_opt_json, as_opt_number,
    as_opt_string_list, as_opt_text, as_string_list, as_text, datetime_of, flag_of, i32_of, int_of,
    opt_datetime_of, opt_int_of, opt_json_of, opt_number_of, opt_string_list_of, opt_text_of,
    string_list_of, text_of, view_opt, view_opt_list,
};
use crate::sql::{Number, SqlValue, Timestamp};

verus! {

/// An atomic note: one concept, with its provenance, version chain and lifecycle flags.
#[derive(Debug)]
pub struct Memory {
    pub id: i64,
    pub user_id: String,
    pub title: String,
    pub content: String,
    pub context: String,
    pub keywords: Vec<String>,
    pub tags: Vec<String>,
    pub importance: i32,
    pub is_obsolete: bool,
    pub obsolete_reason: Option<String>,
    pub superseded_by: Option<i64>,
    pub obsoleted_at: Option<Timestamp>,
    pub source_repo: Option<String>,
    pub source_files: Option<Vec<String>>,
    pub source_url: Option<String>,
    pub confidence: Option<Number>,
    pub encoding_agent: Option<String>,
    pub encoding_version: Option<String>,
    pub version: i32,
    pub parent_memory_id: Option<i64>,
    pub is_latest: bool,
    pub relationship_type: Option<String>,
    pub forget_after: Option<Timestamp>,
    pub is_forgotten: bool,
    pub forgotten_at: Option<Timestamp>,
    pub memory_type: String,
    pub container_tag: Option<String>,
    pub created_at: Timestamp,
    pub updated_at: Timestamp,
}

/// Whether a row of 29 columns can be read as a memory.
pub open spec fn memory_row_valid(row: Seq<SqlValue>) -> bool {
    &&& row.len() == 29
    &&& int_of(row[0]) is Some
    &&& text_of(row[1]) is Some
    &&& text_of(row[2]) is Some
    &&& text_of(row[3]) is Some
    &&& text_of(row[4]) is Some
    &&& string_list_of(row[5]) is Some
    &&& string_list_of(row[6]) is Some
    &&& i32_of(row[7]) is Some
    &&& flag_of(row[8]) is Some
    &&& opt_text_of(row[9]) is Some
    &&& opt_int_of(row[10]) is Some
    &&& opt_datetime_of(row[11]) is Some
    &&& opt_text_of(row[12]) is Some
    &&& opt_string_list_of(row[13]) is Some
    &&& opt_text_of(row[14]) is Some
    &&& opt_number_of(row[15]) is Some
    &&& opt_text_of(row[16]) is Some
    &&& opt_text_of(row[17]) is Some
    &&& i32_of(row[18]) is Some
    &&& opt_int_of(row[19]) is Some
    &&& flag_of(row[20]) is Some
    &&& opt_text_of(row[21]) is Some
    &&& opt_datetime_of(row[22]) is Some
    &&& flag_of(row[23]) is Some
    &&& opt_datetime_of(row[24]) is Some
    &&& text_of(row[25]) is Some
    &&& opt_text_of(row[26]) is Some
    &&& datetime_of(row[27]) is Some
    &&& datetime_of(row[28]) is Some
}

/// `m` holds what the columns of `row` read as, field by field.
pub open spec fn memory_from_row(row: Seq<SqlValue>, x: Memory) -> bool {
    &&& x.id == int_of(row[0]).unwrap()
    &&& x.user_id@ == text_of(row[1]).unwrap()
    &&& x.title@ == text_of(row[2]).unwrap()
    &&& x.content@ == text_of(row[3]).unwrap()
    &&& x.context@ == text_of(row[4]).unwrap()
    &&& x.keywords.deep_view() == string_list_of(row[5]).unwrap()
    &&& x.tags.deep_view() == string_list_of(row[6]).unwrap()
    &&& x.importance == i32_of(row[7]).unwrap()
    &&& x.is_obsolete == flag_of(row[8]).unwrap()
    &&& view_opt(x.obsolete_reason) == opt_text_of(row[9]).unwrap()
    &&& x.superseded_by == opt_int_of(row[10]).unwrap()
    &&& x.obsoleted_at == opt_datetime_of(row[11]).unwrap()
    &&& view_opt(x.source_repo) == opt_text_of(row[12]).unwrap()
    &&& view_opt_list(x.source_files) == opt_string_list_of(row[13]).unwrap()
    &&& view_opt(x.source_url) == opt_text_of(row[14]).unwrap()
    &&& x.confidence == opt_number_of(row[15]).unwrap()
    &&& view_opt(x.encoding_agent) == opt_text_of(row[16]).unwrap()
    &&& view_opt(x.encoding_version) == opt_text_of(row[17]).unwrap()
    &&& x.version == i32_of(row[18]).unwrap()
    &&& x.parent_memory_id == opt_int_of(row[19]).unwrap()
    &&& x.is_latest == flag_of(row[20]).unwrap()
    &&& view_opt(x.relationship_type) == opt_text_of(row[21]).unwrap()
    &&& x.forget_after == opt_datetime_of(row[22]).unwrap()
    &&& x.is_forgotten == flag_of(row[23]).unwrap()
    &&& x.forgotten_at == opt_datetime_of(row[24]).unwrap()
    &&& x.memory_type@ == text_of(row[25]).unwrap()
    &&& view_opt(x.container_tag) == opt_text_of(row[26]).unwrap()
    &&& x.created_at == datetime_of(row[27]).unwrap()
    &&& x.updated_at == datetime_of(row[28]).unwrap()
}

/// `x` is what some row reads as.
pub open spec fn memory_read(x: Memory) -> bool {
    exists|row: Seq<SqlValue>| #[trigger] memory_from_row(row, x)
}

/// Reads a memory from the columns of a row, in the order the queries select them.
pub fn decode_memory(row: Vec<SqlValue>) -> (r: Option<Memory>)
    ensures
        r is Some <==> memory_row_valid(row@),
        r matches Some(x) ==> memory_from_row(row@, x),
{
    if row.len() != 29 {
        return None;
    }
    let ghost r0 = row@;
    let mut row = row;
    assert(row@ =~= r0.take(29));
    let updated_at = as_datetime(row.pop().unwrap());
    assert(row@ =~= r0.take(28));
    let updated_at = match updated_at { Some(v) => v, None => { return None; } };
    let created_at = as_datetime(row.pop().unwrap());
    assert(row@ =~= r0.take(27));
    let created_at = match created_at { Some(v) => v, None => { return None; } };
    let container_tag = as_opt_text(row.pop().unwrap());
    assert(row@ =~= r0.take(26));
    let container_tag = match container_tag { Some(v) => v, None => { return None; } };
    let memory_type = as_text(row.pop().unwrap());
    assert(row@ =~= r0.take(25));
    let memory_type = match memory_type { Some(v) => v, None => { return None; } };
    let forgotten_at = as_opt_datetime(row.pop().unwrap());
    assert(row@ =~= r0.take(24));
    let forgotten_at = match forgotten_at { Some(v) => v, None => { return None; } };
    let is_forgotten = as_flag(row.pop().unwrap());
    assert(row@ =~= r0.take(23));
    let is_forgotten = match is_forgotten { Some(v) => v, None => { return None; } };
    let forget_after = as_opt_datetime(row.pop().unwrap());
    assert(row@ =~= r0.take(22));
    let forget_after = match forget_after { Some(v) => v, None => { return None; } };
    let relationship_type = as_opt_text(row.pop().unwrap());
    assert(row@ =~= r0.take(21));
    let relationship_type = match relationship_type { Some(v) => v, None => { return None; } };
    let is_latest = as_flag(row.pop().unwrap());
    assert(row@ =~= r0.take(20));
    let is_latest = match is_latest { Some(v) => v, None => { return None; } };
    let parent_memory_id = as_opt_int(row.pop().unwrap());
    assert(row@ =~= r0.take(19));
    let parent_memory_id = match parent_memory_id { Some(v) => v, None => { return None; } };
    let version = as_i32(row.pop().unwrap());
    assert(row@ =~= r0.take(18));
    let version = match version { Some(v) => v, None => { return None; } };
    let encoding_version = as_opt_text(row.pop().unwrap());
    assert(row@ =~= r0.take(17));
    let encoding_version = match encoding_version { Some(v) => v, None => { return None; } };
    let encoding_agent = as_opt_text(row.pop().unwrap());
    assert(row@ =~= r0.take(16));
    let encoding_agent = match encoding_agent { Some(v) => v, None => { return None; } };
    let confidence = as_opt_number(row.pop().unwrap());
    assert(row@ =~= r0.take(15));
    let confidence = match confidence { Some(v) => v, None => { return None; } };
    let source_url = as_opt_text(row.pop().unwrap());
    assert(row@ =~= r0.take(14));
    let source_url = match source_url { Some(v) => v, None => { return None; } };
    let source_files = as_opt_string_list(row.pop().unwrap());
    assert(row@ =~= r0.take(13));
    let source_files = match source_files { Some(v) => v, None => { return None; } };
    let source_repo = as_opt_text(row.pop().unwrap());
    assert(row@ =~= r0.take(12));
    let source_repo = match source_repo { Some(v) => v, None => { return None; } };
    let obsoleted_at = as_opt_datetime(row.pop().unwrap());
    assert(row@ =~= r0.take(11));
    let obsoleted_at = match obsoleted_at { Some(v) => v, None => { return None; } };
    let superseded_by = as_opt_int(row.pop().unwrap());
    assert(row@ =~= r0.take(10));
    let superseded_by = match superseded_by { Some(v) => v, None => { return None; } };
    let obsolete_reason = as_opt_text(row.pop().unwrap());
    assert(row@ =~= r0.take(9));
    let obsolete_reason = match obsolete_reason { Some(v) => v, None => { return None; } };
    let is_obsolete = as_flag(row.pop().unwrap());
    assert(row@ =~= r0.take(8));
    let is_obsolete = match is_obsolete { Some(v) => v, None => { return None; } };
    let importance = as_i32(row.pop().unwrap());
    assert(row@ =~= r0.take(7));
    let importance = match importance { Some(v) => v, None => { return None; } };
    let tags = as_string_list(row.pop().unwrap());
    assert(row@ =~= r0.take(6));
    let tags = match tags { Some(v) => v, None => { return None; } };
    let keywords = as_string_list(row.pop().unwrap());
    assert(row@ =~= r0.take(5));
    let keywords = match keywords { Some(v) => v, None => { return None; } };
    let context = as_text(row.pop().unwrap());
    assert(row@ =~= r0.take(4));
    let context = match context { Some(v) => v, None => { return None; } };
    let content = as_text(row.pop().unwrap());
    assert(row@ =~= r0.take(3));
    let content = match content { Some(v) => v, None => { return None; } };
    let title = as_text(row.pop().unwrap());
    assert(row@ =~= r0.take(2));
    let title = match title { Some(v) => v, None => { return None; } };
    let user_id = as_text(row.pop().unwrap());
    assert(row@ =~= r0.take(1));
    let user_id = match user_id { Some(v) => v, None => { return None; } };
    let id = as_int(row.pop().unwrap());
    assert(row@ =~= r0.take(0));
    let id = match id { Some(v) => v, None => { return None; } };
    Some(Memory { id, user_id, title, content, context, keywords, tags, importance, is_obsolete, obsolete_reason, superseded_by, obsoleted_at, source_repo, source_files, source_url, confidence, encoding_agent, encoding_version, version, parent_memory_id, is_latest, relationship_type, forget_after, is_forgotten, forgotten_at, memory_type, container_tag, created_at, updated_at })
}

/// A node of the knowledge graph: a person, organisation, device, concept, ...
#[derive(Debug)]
pub struct Entity {
    pub id: i64,
    pub user_id: String,
    pub name: String,
    pub entity_type: String,
    pub custom_type: Option<String>,
    pub notes: Option<String>,
    pub tags: Vec<String>,
    pub aka: Vec<String>,
    pub created_at: Timestamp,
    pub updated_at: Timestamp,
}

/// Whether a row of 10 columns can be read as an entity.
pub open spec fn entity_row_valid(row: Seq<SqlValue>) -> bool {
    &&& row.len() == 10
    &&& int_of(row[0]) is Some
    &&& text_of(row[1]) is Some
    &&& text_of(row[2]) is Some
    &&& text_of(row[3]) is Some
    &&& opt_text_of(row[4]) is Some
    &&& opt_text_of(row[5]) is Some
    &&& string_list_of(row[6]) is Some
    &&& string_list_of(row[7]) is Some
    &&& datetime_of(row[8]) is Some
    &&& datetime_of(row[9]) is Some
}

/// `e` holds what the columns of `row` read as, field by field.
pub open spec fn entity_from_row(row: Seq<SqlValue>, x: Entity) -> bool {
    &&& x.id == int_of(row[0]).unwrap()
    &&& x.user_id@ == text_of(row[1]).unwrap()
    &&& x.name@ == text_of(row[2]).unwrap()
    &&& x.entity_type@ == text_of(row[3]).unwrap()
    &&& view_opt(x.custom_type) == opt_text_of(row[4]).unwrap()
    &&& view_opt(x.notes) == opt_text_of(row[5]).unwrap()
    &&& x.tags.deep_view() == string_list_of(row[6]).unwrap()
    &&& x.aka.deep_view() == string_list_of(row[7]).unwrap()
    &&& x.created_at == datetime_of(row[8]).unwrap()
    &&& x.updated_at == datetime_of(row[9]).unwrap()
}

/// `x` is what some row reads as.
pub open spec fn entity_read(x: Entity) -> bool {
    exists|row: Seq<SqlValue>| #[trigger] entity_from_row(row, x)
}

/// Reads an entity from the columns of a row, in the order the queries select them.
pub fn decode_entity(row: Vec<SqlValue>) -> (r: Option<Entity>)
    ensures
        r is Some <==> entity_row_valid(row@),
        r matches Some(x) ==> entity_from_row(row@, x),
{
    if row.len() != 10 {
        return None;
    }
    let ghost r0 = row@;
    let mut row = row;
    assert(row@ =~= r0.take(10));
    let updated_at = as_datetime(row.pop().unwrap());
    assert(row@ =~= r0.take(9));
    let updated_at = match updated_at { Some(v) => v, None => { return None; } };
    let created_at = as_datetime(row.pop().unwrap());
    assert(row@ =~= r0.take(8));
    let created_at = match created_at { Some(v) => v, None => { return None; } };
    let aka = as_string_list(row.pop().unwrap());
    assert(row@ =~= r0.take(7));
    let aka = match aka { Some(v) => v, None => { return None; } };
    let tags = as_string_list(row.pop().unwrap());
    assert(row@ =~= r0.take(6));
    let tags = match tags { Some(v) => v, None => { return None; } };
    let notes = as_opt_text(row.pop().unwrap());
    assert(row@ =~= r0.take(5));
    let notes = match notes { Some(v) => v, None => { return None; } };
    let custom_type = as_opt_text(row.pop().unwrap());
    assert(row@ =~= r0.take(4));
    let custom_type = match custom_type { Some(v) => v, None => { return None; } };
    let entity_type = as_text(row.pop().unwrap());
    assert(row@ =~= r0.take(3));
    let entity_type = match entity_type { Some(v) => v, None => { return None; } };
    let name = as_text(row.pop().unwrap());
    assert(row@ =~= r0.take(2));
    let name = match name { Some(v) => v, None => { return None; } };
    let user_id = as_text(row.pop().unwrap());
    assert(row@ =~= r0.take(1));
    let user_id = match user_id { Some(v) => v, None => { return None; } };
    let id = as_int(row.pop().unwrap());
    assert(row@ =~= r0.take(0));
    let id = match id { Some(v) => v, None => { return None; } };
    Some(Entity { id, user_id, name, entity_type, custom_type, notes, tags, aka, created_at, updated_at })
}

/// A typed, directed edge between two entities; its metadata is JSON text.
#[derive(Debug)]
pub struct EntityRelationship {
    pub id: i64,
    pub user_id: String,
    pub source_entity_id: i64,
    pub target_entity_id: i64,
    pub relationship_type: String,
    pub strength: Option<Number>,
    pub confidence: Option<Number>,
    pub relationship_metadata: Option<String>,
    pub created_at: Timestamp,
    pub updated_at: Timestamp,
}

/// Whether a row of 10 columns can be read as a relationship.
pub open spec fn relationship_row_valid(row: Seq<SqlValue>) -> bool {
    &&& row.len() == 10
    &&& int_of(row[0]) is Some
    &&& text_of(row[1]) is Some
    &&& int_of(row[2]) is Some
    &&& int_of(row[3]) is Some
    &&& text_of(row[4]) is Some
    &&& opt_number_of(row[5]) is Some
    &&& opt_number_of(row[6]) is Some
    &&& opt_json_of(row[7]) is Some
    &&& datetime_of(row[8]) is Some
    &&& datetime_of(row[9]) is Some
}

/// `r` holds what the columns of `row` read as, field by field.
pub open spec fn relationship_from_row(row: Seq<SqlValue>, x: EntityRelationship) -> bool {
    &&& x.id == int_of(row[0]).unwrap()
    &&& x.user_id@ == text_of(row[1]).unwrap()
    &&& x.source_entity_id == int_of(row[2]).unwrap()
    &&& x.target_entity_id == int_of(row[3]).unwrap()
    &&& x.relationship_type@ == text_of(row[4]).unwrap()
    &&& x.strength == opt_number_of(row[5]).unwrap()
    &&& x.confidence == opt_number_of(row[6]).unwrap()
    &&& view_opt(x.relationship_metadata) == opt_json_of(row[7]).unwrap()
    &&& x.created_at == datetime_of(row[8]).unwrap()
    &&& x.updated_at == datetime_of(row[9]).unwrap()
}

/// `x` is what some row reads as.
pub open spec fn relationship_read(x: EntityRelationship) -> bool {
    exists|row: Seq<SqlValue>| #[trigger] relationship_from_row(row, x)
}

/// Reads a relationship from the columns of a row, in the order the queries select them.
pub fn decode_relationship(row: Vec<SqlValue>) -> (r: Option<EntityRelationship>)
    ensures
        r is Some <==> relationship_row_valid(row@),
        r matches Some(x) ==> relationship_from_row(row@, x),
{
    if row.len() != 10 {
        return None;
    }
    let ghost r0 = row@;
    let mut row = row;
    assert(row@ =~= r0.take(10));
    let updated_at = as_datetime(row.pop().unwrap());
    assert(row@ =~= r0.take(9));
    let updated_at = match updated_at { Some(v) => v, None => { return None; } };
    let created_at = as_datetime(row.pop().unwrap());
    assert(row@ =~= r0.take(8));
    let created_at = match created_at { Some(v) => v, None => { return None; } };
    let relationship_metadata = as_opt_json(row.pop().unwrap());
    assert(row@ =~= r0.take(7));
    let relationship_metadata = match relationship_metadata { Some(v) => v, None => { return None; } };
    let confidence = as_opt_number(row.pop().unwrap());
    assert(row@ =~= r0.take(6));
    let confidence = match confidence { Some(v) => v, None => { return None; } };
    let strength = as_opt_number(row.pop().unwrap());
    assert(row@ =~= r0.take(5));
    let strength = match strength { Some(v) => v, None => { return None; } };
    let relationship_type = as_text(row.pop().unwrap());
    assert(row@ =~= r0.take(4));
    let relationship_type = match relationship_type { Some(v) => v, None => { return None; } };
    let target_entity_id = as_int(row.pop().unwrap());
    assert(row@ =~= r0.take(3));
    let target_entity_id = match target_entity_id { Some(v) => v, None => { return None; } };
    let source_entity_id = as_int(row.pop().unwrap());
    assert(row@ =~= r0.take(2));
    let source_entity_id = match source_entity_id { Some(v) => v, None => { return None; } };
    let user_id = as_text(row.pop().unwrap());
    assert(row@ =~= r0.take(1));
    let user_id = match user_id { Some(v) => v, None => { return None; } };
    let id = as_int(row.pop().unwrap());
    assert(row@ =~= r0.take(0));
    let id = match id { Some(v) => v, None => { return None; } };
    Some(EntityRelationship { id, user_id, source_entity_id, target_entity_id, relationship_type, strength, confidence, relationship_metadata, created_at, updated_at })
}

/// A container that organises memories, entities and artifacts.
#[derive(Debug)]
pub struct Project {
    pub id: i64,
    pub user_id: String,
    pub name: String,
    pub description: String,
    pub project_type: Option<String>,
    pub status: String,
    pub repo_name: Option<String>,
    pub notes: Option<String>,
    pub created_at: Timestamp,
    pub updated_at: Timestamp,
}

/// A project with the number of memories associated with it.
#[derive(Debug)]
pub struct ProjectWithCount {
    pub project: Project,
    pub memory_count: i64,
}

/// Whether a row of 10 columns can be read as a project.
pub open spec fn project_row_valid(row: Seq<SqlValue>) -> bool {
    &&& row.len() == 10
    &&& int_of(row[0]) is Some
    &&& text_of(row[1]) is Some
    &&& text_of(row[2]) is Some
    &&& text_of(row[3]) is Some
    &&& opt_text_of(row[4]) is Some
    &&& text_of(row[5]) is Some
    &&& opt_text_of(row[6]) is Some
    &&& opt_text_of(row[7]) is Some
    &&& datetime_of(row[8]) is Some
    &&& datetime_of(row[9]) is Some
}

/// `p` holds what the columns of `row` read as, field by field.
pub open spec fn project_from_row(row: Seq<SqlValue>, x: Project) -> bool {
    &&& x.id == int_of(row[0]).unwrap()
    &&& x.user_id@ == text_of(row[1]).unwrap()
    &&& x.name@ == text_of(row[2]).unwrap()
    &&& x.description@ == text_of(row[3]).unwrap()
    &&& view_opt(x.project_type) == opt_text_of(row[4]).unwrap()
    &&& x.status@ == text_of(row[5]).unwrap()
    &&& view_opt(x.repo_name) == opt_text_of(row[6]).unwrap()
    &&& view_opt(x.notes) == opt_text_of(row[7]).unwrap()
    &&& x.created_at == datetime_of(row[8]).unwrap()
    &&& x.updated_at == datetime_of(row[9]).unwrap()
}

/// `x` is what some row reads as.
pub open spec fn project_read(x: Project) -> bool {
    exists|row: Seq<SqlValue>| #[trigger] project_from_row(row, x)
}

/// Reads a project from the columns of a row, in the order the queries select them.
pub fn decode_project(row: Vec<SqlValue>) -> (r: Option<Project>)
    ensures
        r is Some <==> project_row_valid(row@),
        r matches Some(x) ==> project_from_row(row@, x),
{
    if row.len() != 10 {
        return None;
    }
    let ghost r0 = row@;
    let mut row = row;
    assert(row@ =~= r0.take(10));
    let updated_at = as_datetime(row.pop().unwrap());
    assert(row@ =~= r0.take(9));
    let updated_at = match updated_at { Some(v) => v, None => { return None; } };
    let created_at = as_datetime(row.pop().unwrap());
    assert(row@ =~= r0.take(8));
    let created_at = match created_at { Some(v) => v, None => { return None; } };
    let notes = as_opt_text(row.pop().unwrap());
    assert(row@ =~= r0.take(7));
    let notes = match notes { Some(v) => v, None => { return None; } };
    let repo_name = as_opt_text(row.pop().unwrap());
    assert(row@ =~= r0.take(6));
    let repo_name = match repo_name { Some(v) => v, None => { return None; } };
    let status = as_text(row.pop().unwrap());
    assert(row@ =~= r0.take(5));
    let status = match status { Some(v) => v, None => { return None; } };
    let project_type = as_opt_text(row.pop().unwrap());
    assert(row@ =~= r0.take(4));
    let project_type = match project_type { Some(v) => v, None => { return None; } };
    let description = as_text(row.pop().unwrap());
    assert(row@ =~= r0.take(3));
    let description = match description { Some(v) => v, None => { return None; } };
    let name = as_text(row.pop().unwrap());
    assert(row@ =~= r0.take(2));
    let name = match name { Some(v) => v, None => { return None; } };
    let user_id = as_text(row.pop().unwrap());
    assert(row@ =~= r0.take(1));
    let user_id = match user_id { Some(v) => v, None => { return None; } };
    let id = as_int(row.pop().unwrap());
    assert(row@ =~= r0.take(0));
    let id = match id { Some(v) => v, None => { return None; } };
    Some(Project { id, user_id, name, description, project_type, status, repo_name, notes, created_at, updated_at })
}

/// Long-form content, with its size in bytes.
#[derive(Debug)]
pub struct Document {
    pub id: i64,
    pub user_id: String,
    pub project_id: Option<i64>,
    pub title: String,
    pub description: String,
    pub content: String,
    pub document_type: Option<String>,
    pub filename: Option<String>,
    pub size_bytes: i64,
    pub tags: Vec<String>,
    pub created_at: Timestamp,
    pub updated_at: Timestamp,
}

/// Whether a row of 12 columns can be read as a document.
pub open spec fn document_row_valid(row: Seq<SqlValue>) -> bool {
    &&& row.len() == 12
    &&& int_of(row[0]) is Some
    &&& text_of(row[1]) is Some
    &&& opt_int_of(row[2]) is Some
    &&& text_of(row[3]) is Some
    &&& text_of(row[4]) is Some
    &&& text_of(row[5]) is Some
    &&& opt_text_of(row[6]) is Some
    &&& opt_text_of(row[7]) is Some
    &&& int_of(row[8]) is Some
    &&& string_list_of(row[9]) is Some
    &&& datetime_of(row[10]) is Some
    &&& datetime_of(row[11]) is Some
}

/// `d` holds what the columns of `row` read as, field by field.
pub open spec fn document_from_row(row: Seq<SqlValue>, x: Document) -> bool {
    &&& x.id == int_of(row[0]).unwrap()
    &&& x.user_id@ == text_of(row[1]).unwrap()
    &&& x.project_id == opt_int_of(row[2]).unwrap()
    &&& x.title@ == text_of(row[3]).unwrap()
    &&& x.description@ == text_of(row[4]).unwrap()
    &&& x.content@ == text_of(row[5]).unwrap()
    &&& view_opt(x.document_type) == opt_text_of(row[6]).unwrap()
    &&& view_opt(x.filename) == opt_text_of(row[7]).unwrap()
    &&& x.size_bytes == int_of(row[8]).unwrap()
    &&& x.tags.deep_view() == string_list_of(row[9]).unwrap()
    &&& x.created_at == datetime_of(row[10]).unwrap()
    &&& x.updated_at == datetime_of(row[11]).unwrap()
}

/// `x` is what some row reads as.
pub open spec fn document_read(x: Document) -> bool {
    exists|row: Seq<SqlValue>| #[trigger] document_from_row(row, x)
}

/// Reads a document from the columns of a row, in the order the queries select them.
pub fn decode_document(row: Vec<SqlValue>) -> (r: Option<Document>)
    ensures
        r is Some <==> document_row_valid(row@),
        r matches Some(x) ==> document_from_row(row@, x),
{
    if row.len() != 12 {
        return None;
    }
    let ghost r0 = row@;
    let mut row = row;
    assert(row@ =~= r0.take(12));
    let updated_at = as_datetime(row.pop().unwrap());
    assert(row@ =~= r0.take(11));
    let updated_at = match updated_at { Some(v) => v, None => { return None; } };
    let created_at = as_datetime(row.pop().unwrap());
    assert(row@ =~= r0.take(10));
    let created_at = match created_at { Some(v) => v, None => { return None; } };
    let tags = as_string_list(row.pop().unwrap());
    assert(row@ =~= r0.take(9));
    let tags = match tags { Some(v) => v, None => { return None; } };
    let size_bytes = as_int(row.pop().unwrap());
    assert(row@ =~= r0.take(8));
    let size_bytes = match size_bytes { Some(v) => v, None => { return None; } };
    let filename = as_opt_text(row.pop().unwrap());
    assert(row@ =~= r0.take(7));
    let filename = match filename { Some(v) => v, None => { return None; } };
    let document_type = as_opt_text(row.pop().unwrap());
    assert(row@ =~= r0.take(6));
    let document_type = match document_type { Some(v) => v, None => { return None; } };
    let content = as_text(row.pop().unwrap());
    assert(row@ =~= r0.take(5));
    let content = match content { Some(v) => v, None => { return None; } };
    let description = as_text(row.pop().unwrap());
    assert(row@ =~= r0.take(4));
    let description = match description { Some(v) => v, None => { return None; } };
    let title = as_text(row.pop().unwrap());
    assert(row@ =~= r0.take(3));
    let title = match title { Some(v) => v, None => { return None; } };
    let project_id = as_opt_int(row.pop().unwrap());
    assert(row@ =~= r0.take(2));
    let project_id = match project_id { Some(v) => v, None => { return None; } };
    let user_id = as_text(row.pop().unwrap());
    assert(row@ =~= r0.take(1));
    let user_id = match user_id { Some(v) => v, None => { return None; } };
    let id = as_int(row.pop().unwrap());
    assert(row@ =~= r0.take(0));
    let id = match id { Some(v) => v, None => { return None; } };
    Some(Document { id, user_id, project_id, title, description, content, document_type, filename, size_bytes, tags, created_at, updated_at })
}

/// A reusable code snippet and its language.
#[derive(Debug)]
pub struct CodeArtifact {
    pub id: i64,
    pub user_id: String,
    pub project_id: Option<i64>,
    pub title: String,
    pub description: String,
    pub code: String,
    pub language: String,
    pub tags: Vec<String>,
    pub created_at: Timestamp,
    pub updated_at: Timestamp,
}

/// Whether a row of 10 columns can be read as a code artifact.
pub open spec fn code_artifact_row_valid(row: Seq<SqlValue>) -> bool {
    &&& row.len() == 10
    &&& int_of(row[0]) is Some
    &&& text_of(row[1]) is Some
    &&& opt_int_of(row[2]) is Some
    &&& text_of(row[3]) is Some
    &&& text_of(row[4]) is Some
    &&& text_of(row[5]) is Some
    &&& text_of(row[6]) is Some
    &&& string_list_of(row[7]) is Some
    &&& datetime_of(row[8]) is Some
    &&& datetime_of(row[9]) is Some
}

/// `c` holds what the columns of `row` read as, field by field.
pub open spec fn code_artifact_from_row(row: Seq<SqlValue>, x: CodeArtifact) -> bool {
    &&& x.id == int_of(row[0]).unwrap()
    &&& x.user_id@ == text_of(row[1]).unwrap()
    &&& x.project_id == opt_int_of(row[2]).unwrap()
    &&& x.title@ == text_of(row[3]).unwrap()
    &&& x.description@ == text_of(row[4]).unwrap()
    &&& x.code@ == text_of(row[5]).unwrap()
    &&& x.language@ == text_of(row[6]).unwrap()
    &&& x.tags.deep_view() == string_list_of(row[7]).unwrap()
    &&& x.created_at == datetime_of(row[8]).unwrap()
    &&& x.updated_at == datetime_of(row[9]).unwrap()
}

/// `x` is what some row reads as.
pub open spec fn code_artifact_read(x: CodeArtifact) -> bool {
    exists|row: Seq<SqlValue>| #[trigger] code_artifact_from_row(row, x)
}

/// Reads a code artifact from the columns of a row, in the order the queries select them.
pub fn decode_code_artifact(row: Vec<SqlValue>) -> (r: Option<CodeArtifact>)
    ensures
        r is Some <==> code_artifact_row_valid(row@),
        r matches Some(x) ==> code_artifact_from_row(row@, x),
{
    if row.len() != 10 {
        return None;
    }
    let ghost r0 = row@;
    let mut row = row;
    assert(row@ =~= r0.take(10));
    let updated_at = as_datetime(row.pop().unwrap());
    assert(row@ =~= r0.take(9));
    let updated_at = match updated_at { Some(v) => v, None => { return None; } };
    let created_at = as_datetime(row.pop().unwrap());
    assert(row@ =~= r0.take(8));
    let created_at = match created_at { Some(v) => v, None => { return None; } };
    let tags = as_string_list(row.pop().unwrap());
    assert(row@ =~= r0.take(7));
    let tags = match tags { Some(v) => v, None => { return None; } };
    let language = as_text(row.pop().unwrap());
    assert(row@ =~= r0.take(6));
    let language = match language { Some(v) => v, None => { return None; } };
    let code = as_text(row.pop().unwrap());
    assert(row@ =~= r0.take(5));
    let code = match code { Some(v) => v, None => { return None; } };
    let description = as_text(row.pop().unwrap());
    assert(row@ =~= r0.take(4));
    let description = match description { Some(v) => v, None => { return None; } };
    let title = as_text(row.pop().unwrap());
    assert(row@ =~= r0.take(3));
    let title = match title { Some(v) => v, None => { return None; } };
    let project_id = as_opt_int(row.pop().unwrap());
    assert(row@ =~= r0.take(2));
    let project_id = match project_id { Some(v) => v, None => { return None; } };
    let user_id = as_text(row.pop().unwrap());
    assert(row@ =~= r0.take(1));
    let user_id = match user_id { Some(v) => v, None => { return None; } };
    let id = as_int(row.pop().unwrap());
    assert(row@ =~= r0.take(0));
    let id = match id { Some(v) => v, None => { return None; } };
    Some(CodeArtifact { id, user_id, project_id, title, description, code, language, tags, created_at, updated_at })
}

/// The local user.
#[derive(Debug)]
pub struct User {
    pub id: String,
    pub external_id: String,
    pub name: String,
    pub email: String,
    pub notes: Option<String>,
    pub created_at: Timestamp,
    pub updated_at: Timestamp,
}

/// Whether a row of 7 columns can be read as the user.
pub open spec fn user_row_valid(row: Seq<SqlValue>) -> bool {
    &&& row.len() == 7
    &&& text_of(row[0]) is Some
    &&& text_of(row[1]) is Some
    &&& text_of(row[2]) is Some
    &&& text_of(row[3]) is Some
    &&& opt_text_of(row[4]) is Some
    &&& datetime_of(row[5]) is Some
    &&& datetime_of(row[6]) is Some
}

/// `u` holds what the columns of `row` read as, field by field.
pub open spec fn user_from_row(row: Seq<SqlValue>, x: User) -> bool {
    &&& x.id@ == text_of(row[0]).unwrap()
    &&& x.external_id@ == text_of(row[1]).unwrap()
    &&& x.name@ == text_of(row[2]).unwrap()
    &&& x.email@ == text_of(row[3]).unwrap()
    &&& view_opt(x.notes) == opt_text_of(row[4]).unwrap()
    &&& x.created_at == datetime_of(row[5]).unwrap()
    &&& x.updated_at == datetime_of(row[6]).unwrap()
}

/// `x` is what some row reads as.
pub open spec fn user_read(x: User) -> bool {
    exists|row: Seq<SqlValue>| #[trigger] user_from_row(row, x)
}

/// Reads the user from the columns of a row, in the order the queries select them.
pub fn decode_user(row: Vec<SqlValue>) -> (r: Option<User>)
    ensures
        r is Some <==> user_row_valid(row@),
        r matches Some(x) ==> user_from_row(row@, x),
{
    if row.len() != 7 {
        return None;
    }
    let ghost r0 = row@;
    let mut row = row;
    assert(row@ =~= r0.take(7));
    let updated_at = as_datetime(row.pop().unwrap());
    assert(row@ =~= r0.take(6));
    let updated_at = match updated_at { Some(v) => v, None => { return None; } };
    let created_at = as_datetime(row.pop().unwrap());
    assert(row@ =~= r0.take(5));
    let created_at = match created_at { Some(v) => v, None => { return None; } };
    let notes = as_opt_text(row.pop().unwrap());
    assert(row@ =~= r0.take(4));
    let notes = match notes { Some(v) => v, None => { return None; } };
    let email = as_text(row.pop().unwrap());
    assert(row@ =~= r0.take(3));
    let email = match email { Some(v) => v, None => { return None; } };
    let name = as_text(row.pop().unwrap());
    assert(row@ =~= r0.take(2));
    let name = match name { Some(v) => v, None => { return None; } };
    let external_id = as_text(row.pop().unwrap());
    assert(row@ =~= r0.take(1));
    let external_id = match external_id { Some(v) => v, None => { return None; } };
    let id = as_text(row.pop().unwrap());
    assert(row@ =~= r0.take(0));
    let id = match id { Some(v) => v, None => { return None; } };
    Some(User { id, external_id, name, email, notes, created_at, updated_at })
}

/// Facts about the user gathered from memories: lasting ones and recent ones.
#[derive(Debug)]
pub struct UserProfile {
    pub id: i64,
    pub user_id: String,
    pub static_facts: Vec<String>,
    pub dynamic_facts: Vec<String>,
    pub generated_at: Timestamp,
    pub updated_at: Timestamp,
}

/// Whether a row of 6 columns can be read as a profile.
pub open spec fn profile_row_valid(row: Seq<SqlValue>) -> bool {
    &&& row.len() == 6
    &&& int_of(row[0]) is Some
    &&& text_of(row[1]) is Some
    &&& string_list_of(row[2]) is Some
    &&& string_list_of(row[3]) is Some
    &&& datetime_of(row[4]) is Some
    &&& datetime_of(row[5]) is Some
}

/// `p` holds what the columns of `row` read as, field by field.
pub open spec fn profile_from_row(row: Seq<SqlValue>, x: UserProfile) -> bool {
    &&& x.id == int_of(row[0]).unwrap()
    &&& x.user_id@ == text_of(row[1]).unwrap()
    &&& x.static_facts.deep_view() == string_list_of(row[2]).unwrap()
    &&& x.dynamic_facts.deep_view() == string_list_of(row[3]).unwrap()
    &&& x.generated_at == datetime_of(row[4]).unwrap()
    &&& x.updated_at == datetime_of(row[5]).unwrap()
}

/// Reads a profile from the columns of a row, in the order the queries select them.
pub fn decode_profile(row: Vec<SqlValue>) -> (r: Option<UserProfile>)
    ensures
        r is Some <==> profile_row_valid(row@),
        r matches Some(x) ==> profile_from_row(row@, x),
{
    if row.len() != 6 {
        return None;
    }
    let ghost r0 = row@;
    let mut row = row;
    assert(row@ =~= r0.take(6));
    let updated_at = as_datetime(row.pop().unwrap());
    assert(row@ =~= r0.take(5));
    let updated_at = match updated_at { Some(v) => v, None => { return None; } };
    let generated_at = as_datetime(row.pop().unwrap());
    assert(row@ =~= r0.take(4));
    let generated_at = match generated_at { Some(v) => v, None => { return None; } };
    let dynamic_facts = as_string_list(row.pop().unwrap());
    assert(row@ =~= r0.take(3));
    let dynamic_facts = match dynamic_facts { Some(v) => v, None => { return None; } };
    let static_facts = as_string_list(row.pop().unwrap());
    assert(row@ =~= r0.take(2));
    let static_facts = match static_facts { Some(v) => v, None => { return None; } };
    let user_id = as_text(row.pop().unwrap());
    assert(row@ =~= r0.take(1));
    let user_id = match user_id { Some(v) => v, None => { return None; } };
    let id = as_int(row.pop().unwrap());
    assert(row@ =~= r0.take(0));
    let id = match id { Some(v) => v, None => { return None; } };
    Some(UserProfile { id, user_id, static_facts, dynamic_facts, generated_at, updated_at })
}

/// A memory with the ids of everything it is linked or associated to.
#[derive(Debug)]
pub struct MemoryWithLinks {
    pub memory: Memory,
    pub linked_memory_ids: Vec<i64>,
    pub project_ids: Vec<i64>,
    pub entity_ids: Vec<i64>,
    pub document_ids: Vec<i64>,
    pub code_artifact_ids: Vec<i64>,
}

/// A memory reached through a link of a primary search result.
#[derive(Debug)]
pub struct LinkedMemoryEntry {
    pub memory: MemoryWithLinks,
    pub link_source_id: i64,
}

/// The answer to a search: the ranked memories, the memories linked to
/// them, and how much of the token budget they use.
#[derive(Debug)]
pub struct SearchResult {
    pub primary_memories: Vec<MemoryWithLinks>,
    pub linked_memories: Vec<LinkedMemoryEntry>,
    pub total_count: usize,
    pub token_count: usize,
    pub truncated: bool,
}

/// An entry of the activity log.
#[derive(Debug)]
pub struct ActivityLog {
    pub id: i64,
    pub user_id: String,
    pub entity_type: String,
    pub entity_id: i64,
    pub action: String,
    pub changes: Option<String>,
    pub snapshot: String,
    pub actor: String,
    pub actor_id: Option<String>,
    pub metadata: Option<String>,
    pub created_at: Timestamp,
}


/// The rows, in order, that `valid` accepts.
pub open spec fn rows_where(rows: Seq<Vec<SqlValue>>, valid: spec_fn(Seq<SqlValue>) -> bool) -> Seq<Seq<SqlValue>>
    decreases rows.len(),
{
    if rows.len() == 0 {
        seq![]
    } else if valid(rows.last()@) {
        rows_where(rows.drop_last(), valid).push(rows.last()@)
    } else {
        rows_where(rows.drop_last(), valid)
    }
}

/// `v` holds, in order, what each row of `rows` that can be read as such
/// reads as (see `entity_from_row`).
pub open spec fn entity_list_of(rows: Seq<Vec<SqlValue>>, v: Seq<Entity>) -> bool {
    let kept = rows_where(rows, |row: Seq<SqlValue>| entity_row_valid(row));
    v.len() == kept.len() && forall|i: int| 0 <= i < v.len() ==> entity_from_row(kept[i], #[trigger] v[i])
}

/// Reads every row that holds an entity, in order; rows that do not are left out.
pub fn decode_all_entities(rows: Vec<Vec<SqlValue>>) -> (r: Vec<Entity>)
    ensures
        entity_list_of(rows@, r@),
        r.len() == rows_where(rows@, |row: Seq<SqlValue>| entity_row_valid(row)).len(),
        forall|i: int| 0 <= i < r.len() ==>
            entity_from_row(rows_where(rows@, |row: Seq<SqlValue>| entity_row_valid(row))[i], #[trigger] r@[i]),
        forall|i: int| 0 <= i < r.len() ==> entity_read(#[trigger] r@[i]),
{
    let ghost all = rows@;
    let ghost valid = |row: Seq<SqlValue>| entity_row_valid(row);
    let n = rows.len();
    let mut pending = crate::search::reversed(rows);
    let mut out: Vec<Entity> = Vec::new();
    while pending.len() > 0
        invariant
            n == all.len(),
            pending@.len() <= n,
            pending@ == all.skip(n - pending@.len()).reverse(),
            valid == (|row: Seq<SqlValue>| entity_row_valid(row)),
            out.len() == rows_where(all.take(n - pending@.len()), valid).len(),
            forall|i: int| 0 <= i < out.len() ==>
                entity_from_row(rows_where(all.take(n - pending@.len()), valid)[i], #[trigger] out@[i]),
        decreases pending.len(),
    {
        let ghost k = n - pending@.len();
        let ghost before = out@;
        assert(all.take(k + 1).drop_last() =~= all.take(k));
        assert(all.take(k + 1).last() == all[k]);
        let row = pending.pop().unwrap();
        assert(row == all[k]);
        assert(pending@ =~= all.skip(k + 1).reverse());
        match decode_entity(row) {
            Some(x) => {
                out.push(x);
                assert forall|i: int| 0 <= i < out.len() implies
                    entity_from_row(rows_where(all.take(k + 1), valid)[i], #[trigger] out@[i]) by {
                    if i < before.len() {
                        assert(out@[i] == before[i]);
                    }
                }
            },
            None => {},
        }
    }
    assert(all.take(n as int) =~= all);
    assert forall|i: int| 0 <= i < out.len() implies entity_read(#[trigger] out@[i]) by {
        assert(entity_from_row(rows_where(all, valid)[i], out@[i]));
    }
    out
}

/// `v` holds, in order, what each row of `rows` that can be read as such
/// reads as (see `relationship_from_row`).
pub open spec fn relationship_list_of(rows: Seq<Vec<SqlValue>>, v: Seq<EntityRelationship>) -> bool {
    let kept = rows_where(rows, |row: Seq<SqlValue>| relationship_row_valid(row));
    v.len() == kept.len() && forall|i: int| 0 <= i < v.len() ==> relationship_from_row(kept[i], #[trigger] v[i])
}

/// Reads every row that holds a relationship, in order; rows that do not are left out.
pub fn decode_all_relationships(rows: Vec<Vec<SqlValue>>) -> (r: Vec<EntityRelationship>)
    ensures
        relationship_list_of(rows@, r@),
        r.len() == rows_where(rows@, |row: Seq<SqlValue>| relationship_row_valid(row)).len(),
        forall|i: int| 0 <= i < r.len() ==>
            relationship_from_row(rows_where(rows@, |row: Seq<SqlValue>| relationship_row_valid(row))[i], #[trigger] r@[i]),
        forall|i: int| 0 <= i < r.len() ==> relationship_read(#[trigger] r@[i]),
{
    let ghost all = rows@;
    let ghost valid = |row: Seq<SqlValue>| relationship_row_valid(row);
    let n = rows.len();
    let mut pending = crate::search::reversed(rows);
    let mut out: Vec<EntityRelationship> = Vec::new();
    while pending.len() > 0
        invariant
            n == all.len(),
            pending@.len() <= n,
            pending@ == all.skip(n - pending@.len()).reverse(),
            valid == (|row: Seq<SqlValue>| relationship_row_valid(row)),
            out.len() == rows_where(all.take(n - pending@.len()), valid).len(),
            forall|i: int| 0 <= i < out.len() ==>
                relationship_from_row(rows_where(all.take(n - pending@.len()), valid)[i], #[trigger] out@[i]),
        decreases pending.len(),
    {
        let ghost k = n - pending@.len();
        let ghost before = out@;
        assert(all.take(k + 1).drop_last() =~= all.take(k));
        assert(all.take(k + 1).last() == all[k]);
        let row = pending.pop().unwrap();
        assert(row == all[k]);
        assert(pending@ =~= all.skip(k + 1).reverse());
        match decode_relationship(row) {
            Some(x) => {
                out.push(x);
                assert forall|i: int| 0 <= i < out.len() implies
                    relationship_from_row(rows_where(all.take(k + 1), valid)[i], #[trigger] out@[i]) by {
                    if i < before.len() {
                        assert(out@[i] == before[i]);
                    }
                }
            },
            None => {},
        }
    }
    assert(all.take(n as int) =~= all);
    assert forall|i: int| 0 <= i < out.len() implies relationship_read(#[trigger] out@[i]) by {
        assert(relationship_from_row(rows_where(all, valid)[i], out@[i]));
    }
    out
}

/// `v` holds, in order, what each row of `rows` that can be read as such
/// reads as (see `project_from_row`).
pub open spec fn project_list_of(rows: Seq<Vec<SqlValue>>, v: Seq<Project>) -> bool {
    let kept = rows_where(rows, |row: Seq<SqlValue>| project_row_valid(row));
    v.len() == kept.len() && forall|i: int| 0 <= i < v.len() ==> project_from_row(kept[i], #[trigger] v[i])
}

/// Reads every row that holds a project, in order; rows that do not are left out.
pub fn decode_all_projects(rows: Vec<Vec<SqlValue>>) -> (r: Vec<Project>)
    ensures
        project_list_of(rows@, r@),
        r.len() == rows_where(rows@, |row: Seq<SqlValue>| project_row_valid(row)).len(),
        forall|i: int| 0 <= i < r.len() ==>
            project_from_row(rows_where(rows@, |row: Seq<SqlValue>| project_row_valid(row))[i], #[trigger] r@[i]),
        forall|i: int| 0 <= i < r.len() ==> project_read(#[trigger] r@[i]),
{
    let ghost all = rows@;
    let ghost valid = |row: Seq<SqlValue>| project_row_valid(row);
    let n = rows.len();
    let mut pending = crate::search::reversed(rows);
    let mut out: Vec<Project> = Vec::new();
    while pending.len() > 0
        invariant
            n == all.len(),
            pending@.len() <= n,
            pending@ == all.skip(n - pending@.len()).reverse(),
            valid == (|row: Seq<SqlValue>| project_row_valid(row)),
            out.len() == rows_where(all.take(n - pending@.len()), valid).len(),
            forall|i: int| 0 <= i < out.len() ==>
                project_from_row(rows_where(all.take(n - pending@.len()), valid)[i], #[trigger] out@[i]),
        decreases pending.len(),
    {
        let ghost k = n - pending@.len();
        let ghost before = out@;
        assert(all.take(k + 1).drop_last() =~= all.take(k));
        assert(all.take(k + 1).last() == all[k]);
        let row = pending.pop().unwrap();
        assert(row == all[k]);
        assert(pending@ =~= all.skip(k + 1).reverse());
        match decode_project(row) {
            Some(x) => {
                out.push(x);
                assert forall|i: int| 0 <= i < out.len() implies
                    project_from_row(rows_where(all.take(k + 1), valid)[i], #[trigger] out@[i]) by {
                    if i < before.len() {
                        assert(out@[i] == before[i]);
                    }
                }
            },
            None => {},
        }
    }
    assert(all.take(n as int) =~= all);
    assert forall|i: int| 0 <= i < out.len() implies project_read(#[trigger] out@[i]) by {
        assert(project_from_row(rows_where(all, valid)[i], out@[i]));
    }
    out
}

/// `v` holds, in order, what each row of `rows` that can be read as such
/// reads as (see `document_from_row`).
pub open spec fn document_list_of(rows: Seq<Vec<SqlValue>>, v: Seq<Document>) -> bool {
    let kept = rows_where(rows, |row: Seq<SqlValue>| document_row_valid(row));
    v.len() == kept.len() && forall|i: int| 0 <= i < v.len() ==> document_from_row(kept[i], #[trigger] v[i])
}

/// Reads every row that holds a document, in order; rows that do not are left out.
pub fn decode_all_documents(rows: Vec<Vec<SqlValue>>) -> (r: Vec<Document>)
    ensures
        document_list_of(rows@, r@),
        r.len() == rows_where(rows@, |row: Seq<SqlValue>| document_row_valid(row)).len(),
        forall|i: int| 0 <= i < r.len() ==>
            document_from_row(rows_where(rows@, |row: Seq<SqlValue>| document_row_valid(row))[i], #[trigger] r@[i]),
        forall|i: int| 0 <= i < r.len() ==> document_read(#[trigger] r@[i]),
{
    let ghost all = rows@;
    let ghost valid = |row: Seq<SqlValue>| document_row_valid(row);
    let n = rows.len();
    let mut pending = crate::search::reversed(rows);
    let mut out: Vec<Document> = Vec::new();
    while pending.len() > 0
        invariant
            n == all.len(),
            pending@.len() <= n,
            pending@ == all.skip(n - pending@.len()).reverse(),
            valid == (|row: Seq<SqlValue>| document_row_valid(row)),
            out.len() == rows_where(all.take(n - pending@.len()), valid).len(),
            forall|i: int| 0 <= i < out.len() ==>
                document_from_row(rows_where(all.take(n - pending@.len()), valid)[i], #[trigger] out@[i]),
        decreases pending.len(),
    {
        let ghost k = n - pending@.len();
        let ghost before = out@;
        assert(all.take(k + 1).drop_last() =~= all.take(k));
        assert(all.take(k + 1).last() == all[k]);
        let row = pending.pop().unwrap();
        assert(row == all[k]);
        assert(pending@ =~= all.skip(k + 1).reverse());
        match decode_document(row) {
            Some(x) => {
                out.push(x);
                assert forall|i: int| 0 <= i < out.len() implies
                    document_from_row(rows_where(all.take(k + 1), valid)[i], #[trigger] out@[i]) by {
                    if i < before.len() {
                        assert(out@[i] == before[i]);
                    }
                }
            },
            None => {},
        }
    }
    assert(all.take(n as int) =~= all);
    assert forall|i: int| 0 <= i < out.len() implies document_read(#[trigger] out@[i]) by {
        assert(document_from_row(rows_where(all, valid)[i], out@[i]));
    }
    out
}

/// `v` holds, in order, what each row of `rows` that can be read as such
/// reads as (see `code_artifact_from_row`).
pub open spec fn code_artifact_list_of(rows: Seq<Vec<SqlValue>>, v: Seq<CodeArtifact>) -> bool {
    let kept = rows_where(rows, |row: Seq<SqlValue>| code_artifact_row_valid(row));
    v.len() == kept.len() && forall|i: int| 0 <= i < v.len() ==> code_artifact_from_row(kept[i], #[trigger] v[i])
}

/// Reads every row that holds a code artifact, in order; rows that do not are left out.
pub fn decode_all_code_artifacts(rows: Vec<Vec<SqlValue>>) -> (r: Vec<CodeArtifact>)
    ensures
        code_artifact_list_of(rows@, r@),
        r.len() == rows_where(rows@, |row: Seq<SqlValue>| code_artifact_row_valid(row)).len(),
        forall|i: int| 0 <= i < r.len() ==>
            code_artifact_from_row(rows_where(rows@, |row: Seq<SqlValue>| code_artifact_row_valid(row))[i], #[trigger] r@[i]),
        forall|i: int| 0 <= i < r.len() ==> code_artifact_read(#[trigger] r@[i]),
{
    let ghost all = rows@;
    let ghost valid = |row: Seq<SqlValue>| code_artifact_row_valid(row);
    let n = rows.len();
    let mut pending = crate::search::reversed(rows);
    let mut out: Vec<CodeArtifact> = Vec::new();
    while pending.len() > 0
        invariant
            n == all.len(),
            pending@.len() <= n,
            pending@ == all.skip(n - pending@.len()).reverse(),
            valid == (|row: Seq<SqlValue>| code_artifact_row_valid(row)),
            out.len() == rows_where(all.take(n - pending@.len()), valid).len(),
            forall|i: int| 0 <= i < out.len() ==>
                code_artifact_from_row(rows_where(all.take(n - pending@.len()), valid)[i], #[trigger] out@[i]),
        decreases pending.len(),
    {
        let ghost k = n - pending@.len();
        let ghost before = out@;
        assert(all.take(k + 1).drop_last() =~= all.take(k));
        assert(all.take(k + 1).last() == all[k]);
        let row = pending.pop().unwrap();
        assert(row == all[k]);
        assert(pending@ =~= all.skip(k + 1).reverse());
        match decode_code_artifact(row) {
            Some(x) => {
                out.push(x);
                assert forall|i: int| 0 <= i < out.len() implies
                    code_artifact_from_row(rows_where(all.take(k + 1), valid)[i], #[trigger] out@[i]) by {
                    if i < before.len() {
                        assert(out@[i] == before[i]);
                    }
                }
            },
            None => {},
        }
    }
    assert(all.take(n as int) =~= all);
    assert forall|i: int| 0 <= i < out.len() implies code_artifact_read(#[trigger] out@[i]) by {
        assert(code_artifact_from_row(rows_where(all, valid)[i], out@[i]));
    }
    out
}

} // verus!
