//! Entities, their associations, and the typed relationships between them.

use vstd::prelude::*;
use crate::columns::{int_of, opt_number_of, opt_text_of, string_list_of, text_of, view_opt};
use crate::params::{CreateEntityParams, CreateRelationshipParams, UpdateEntityParams, UpdateRelationshipParams};
use crate::records::{
    decode_all_entities, decode_all_relationships, entity_list_of, relationship_list_of, entity_row_valid, relationship_row_valid, decode_entity, decode_relationship, entity_from_row,
    entity_read, relationship_from_row, relationship_read, Entity, EntityRelationship,
};
use crate::memory::{now_value, opt_string_value, ids_of_rows};
use crate::search::{any_shared, shares_i64};
use crate::activity::{activity_write, view_opt_str};
use crate::dashboard::ids_answered;
use crate::sql::{json_encode_strings, json_string_list_text, number_value, sql_datetime_text, DbError, RecordKind, SqlValue, Timestamp};
use crate::statements::{
    assoc_sql, distinct_names, insert_sql, more_names, name_list, select_from, insert_statement, inserts_value, lemma_insert_binds, lemma_insert_sql_two,
    add_if, clock_text, col_if, given_list, given_text, list_if_ok, number_if, run_update, text_if, update_write, val_if, views,
};
use crate::store::{inserted_rowid, answered, bound_all, first_answer, default_user, query_failed, opt_number_bound, opt_string_bound, Bound, Database, Write};
use crate::text::{join_or, join_with_or, keep_chars, kept, quote, quoted, split_words, str_equal, words};

verus! {

/// The columns an update of an entity sets besides `updated_at`, in order.
pub open spec fn entity_update_cols(p: UpdateEntityParams) -> Seq<Seq<char>> {
    col_if(p.name is Some, "name"@) + col_if(p.entity_type is Some, "entity_type"@)
        + col_if(p.custom_type is Some, "custom_type"@) + col_if(p.notes is Some, "notes"@)
        + col_if(p.tags is Some, "tags"@) + col_if(p.aka is Some, "aka"@)
}

/// The values an update of an entity binds for its columns (see
/// `entity_update_cols`), in order, given those bound for its lists.
pub open spec fn entity_update_vals(p: UpdateEntityParams, tags_b: Seq<Bound>, aka_b: Seq<Bound>) -> Seq<Bound> {
    text_if(p.name) + text_if(p.entity_type) + text_if(p.custom_type) + text_if(p.notes) + tags_b + aka_b
}

/// `vals` are the values an update of an entity binds: each given field's
/// new value, in the order of `entity_update_cols` (see `list_if_ok`).
pub open spec fn entity_update_bound(p: UpdateEntityParams, vals: Seq<Bound>) -> bool {
    exists|tags_b: Seq<Bound>, aka_b: Seq<Bound>|
        list_if_ok(p.tags, tags_b) && list_if_ok(p.aka, aka_b)
        && vals == #[trigger] entity_update_vals(p, tags_b, aka_b)
}

pub fn entity_update_columns(p: &UpdateEntityParams) -> (r: (Vec<&'static str>, Vec<SqlValue>))
    ensures
        r.0.len() == r.1.len(),
        views(r.0@) == entity_update_cols(*p),
        r.0.len() <= 6,
        entity_update_bound(*p, bound_all(r.1@)),
{
    let mut cols: Vec<&'static str> = Vec::new();
    let mut vals: Vec<SqlValue> = Vec::new();
    assert(views(cols@) =~= Seq::<Seq<char>>::empty());
    assert(bound_all(vals@) =~= Seq::<Bound>::empty());
    let name_v = given_text(&p.name);
    add_if(&mut cols, &mut vals, "name", name_v);
    assert(bound_all(vals@) =~= text_if(p.name));
    let ghost mut acc = text_if(p.name);
    let entity_type_v = given_text(&p.entity_type);
    add_if(&mut cols, &mut vals, "entity_type", entity_type_v);
    proof { acc = acc + text_if(p.entity_type); }
    let custom_type_v = given_text(&p.custom_type);
    add_if(&mut cols, &mut vals, "custom_type", custom_type_v);
    proof { acc = acc + text_if(p.custom_type); }
    let notes_v = given_text(&p.notes);
    add_if(&mut cols, &mut vals, "notes", notes_v);
    proof { acc = acc + text_if(p.notes); }
    let tags_v = given_list(&p.tags);
    let ghost tags_b = val_if(tags_v);
    add_if(&mut cols, &mut vals, "tags", tags_v);
    proof { acc = acc + tags_b; }
    let aka_v = given_list(&p.aka);
    let ghost aka_b = val_if(aka_v);
    add_if(&mut cols, &mut vals, "aka", aka_v);
    proof { acc = acc + aka_b; }
    assert(views(cols@) =~= entity_update_cols(*p));
    assert(bound_all(vals@) == acc);
    assert(entity_update_vals(*p, tags_b, aka_b) == acc);
    (cols, vals)
}

/// The columns an update of a relationship sets besides `updated_at`.
pub open spec fn relationship_update_cols(p: UpdateRelationshipParams) -> Seq<Seq<char>> {
    col_if(p.relationship_type is Some, "relationship_type"@) + col_if(p.strength is Some, "strength"@)
        + col_if(p.confidence is Some, "confidence"@) + col_if(p.metadata is Some, "relationship_metadata"@)
}

/// The values an update of a relationship binds for its columns (see
/// `relationship_update_cols`): each given field's new value, in order.
pub open spec fn relationship_update_vals(p: UpdateRelationshipParams) -> Seq<Bound> {
    text_if(p.relationship_type) + number_if(p.strength) + number_if(p.confidence) + text_if(p.metadata)
}

/// `vals` are the values an update of a relationship binds (see `relationship_update_vals`).
pub open spec fn relationship_update_bound(p: UpdateRelationshipParams, vals: Seq<Bound>) -> bool {
    vals == relationship_update_vals(p)
}

pub fn relationship_update_columns(p: &UpdateRelationshipParams) -> (r: (Vec<&'static str>, Vec<SqlValue>))
    ensures
        r.0.len() == r.1.len(),
        views(r.0@) == relationship_update_cols(*p),
        r.0.len() <= 4,
        relationship_update_bound(*p, bound_all(r.1@)),
{
    let mut cols: Vec<&'static str> = Vec::new();
    let mut vals: Vec<SqlValue> = Vec::new();
    assert(views(cols@) =~= Seq::<Seq<char>>::empty());
    assert(bound_all(vals@) =~= Seq::<Bound>::empty());
    let relationship_type_v = given_text(&p.relationship_type);
    add_if(&mut cols, &mut vals, "relationship_type", relationship_type_v);
    assert(bound_all(vals@) =~= text_if(p.relationship_type));
    let ghost mut acc = text_if(p.relationship_type);
    let strength_v = match &p.strength { Some(v) => Some(number_value(v)), None => None };
    assert(val_if(strength_v) == number_if(p.strength));
    add_if(&mut cols, &mut vals, "strength", strength_v);
    proof { acc = acc + number_if(p.strength); }
    let confidence_v = match &p.confidence { Some(v) => Some(number_value(v)), None => None };
    assert(val_if(confidence_v) == number_if(p.confidence));
    add_if(&mut cols, &mut vals, "confidence", confidence_v);
    proof { acc = acc + number_if(p.confidence); }
    let relationship_metadata_v = given_text(&p.metadata);
    add_if(&mut cols, &mut vals, "relationship_metadata", relationship_metadata_v);
    proof { acc = acc + text_if(p.metadata); }
    assert(views(cols@) =~= relationship_update_cols(*p));
    assert(bound_all(vals@) == acc);
    assert(relationship_update_vals(*p) == acc);
    (cols, vals)
}

/// The terms of an entity search: every word of the query cleaned to its
/// alphanumeric characters and quoted (empty ones too).
pub open spec fn entity_terms(ws: Seq<Seq<char>>) -> Seq<Seq<char>>
    decreases ws.len(),
{
    if ws.len() == 0 {
        seq![]
    } else {
        entity_terms(ws.drop_last()).push(quoted(kept(ws.last(), false)))
    }
}

/// The FTS5 query of an entity search: its terms joined by ` OR `.
pub fn entity_search_query(query: &str) -> (r: String)
    ensures
        r@ == join_or(entity_terms(words(query@))),
{
    let ws = split_words(query);
    let mut terms: Vec<String> = Vec::new();
    let n = ws.len();
    let mut i: usize = 0;
    while i < n
        invariant
            n == ws.len(),
            i <= n,
            terms.deep_view() == entity_terms(ws.deep_view().take(i as int)),
        decreases n - i,
    {
        let ghost wv = ws.deep_view();
        assert(wv.take(i + 1).drop_last() =~= wv.take(i as int));
        assert(wv.take(i + 1).last() == ws[i as int]@);
        let clean = keep_chars(ws[i].as_str(), false);
        let ghost before = terms.deep_view();
        terms.push(quote(clean.as_str()));
        assert(terms.deep_view() =~= before.push(quoted(clean@)));
        i = i + 1;
    }
    assert(ws.deep_view().take(n as int) =~= ws.deep_view());
    join_with_or(&terms)
}

/// Which relationships of an entity are asked for.
pub enum Direction {
    Outgoing,
    Incoming,
    Both,
}

/// `outgoing` and `incoming` name one direction; anything else means both.
pub fn direction_of(direction: &str) -> (r: Direction)
    ensures
        direction@ == "outgoing"@ ==> r is Outgoing,
        direction@ == "incoming"@ && direction@ != "outgoing"@ ==> r is Incoming,
        direction@ != "outgoing"@ && direction@ != "incoming"@ ==> r is Both,
{
    if str_equal(direction, "outgoing") {
        Direction::Outgoing
    } else if str_equal(direction, "incoming") {
        Direction::Incoming
    } else {
        Direction::Both
    }
}

/// The columns of a new entity's row, in the order their values are bound.
pub open spec fn entity_insert_columns() -> Seq<Seq<char>> {
    seq![
        "user_id"@, "name"@, "entity_type"@, "custom_type"@, "notes"@, "tags"@, "aka"@,
        "created_at"@, "updated_at"@,
    ]
}

pub const ENTITY_DELETE: &'static str = "DELETE FROM entities WHERE id = ?1";

pub const ENTITY_MEMORY_INSERT: &'static str = "INSERT OR IGNORE INTO memory_entity_association (memory_id, entity_id) VALUES (?1, ?2)";

pub const ENTITY_MEMORY_DELETE: &'static str = "DELETE FROM memory_entity_association WHERE memory_id = ?1 AND entity_id = ?2";

pub const ENTITY_PROJECT_INSERT: &'static str = "INSERT OR IGNORE INTO entity_project_association (entity_id, project_id) VALUES (?1, ?2)";

pub const ENTITY_PROJECT_DELETE: &'static str = "DELETE FROM entity_project_association WHERE entity_id = ?1 AND project_id = ?2";

/// The association of the entity `entity_id` with the memory `memory_id`.
pub open spec fn entity_memory_write(entity_id: i64, memory_id: i64) -> Write {
    (ENTITY_MEMORY_INSERT@, seq![Bound::Integer(memory_id), Bound::Integer(entity_id)])
}

/// The association of the entity `entity_id` with the project `project_id`.
pub open spec fn entity_project_write(entity_id: i64, project_id: i64) -> Write {
    (ENTITY_PROJECT_INSERT@, seq![Bound::Integer(entity_id), Bound::Integer(project_id)])
}

/// `ENTITY_MEMORY_INSERT` is the insert of `memory_id` and `entity_id` into
/// `memory_entity_association`.
proof fn lemma_entity_memory_insert_text()
    ensures
        ENTITY_MEMORY_INSERT@ == insert_sql("INSERT OR IGNORE"@, "memory_entity_association"@, seq!["memory_id"@, "entity_id"@]),
{
    lemma_insert_sql_two("INSERT OR IGNORE"@, "memory_entity_association"@, "memory_id"@, "entity_id"@);
    reveal_strlit("INSERT OR IGNORE INTO memory_entity_association (memory_id, entity_id) VALUES (?1, ?2)");
    reveal_strlit("INSERT OR IGNORE");
    reveal_strlit(" INTO ");
    reveal_strlit("memory_entity_association");
    reveal_strlit(" (");
    reveal_strlit("memory_id");
    reveal_strlit(", ");
    reveal_strlit("entity_id");
    reveal_strlit(") VALUES (?1, ?2)");
    assert(ENTITY_MEMORY_INSERT@ =~= insert_sql("INSERT OR IGNORE"@, "memory_entity_association"@, seq!["memory_id"@, "entity_id"@]));
}

/// `ENTITY_PROJECT_INSERT` is the insert of `entity_id` and `project_id`
/// into `entity_project_association`.
proof fn lemma_entity_project_insert_text()
    ensures
        ENTITY_PROJECT_INSERT@ == insert_sql("INSERT OR IGNORE"@, "entity_project_association"@, seq!["entity_id"@, "project_id"@]),
{
    lemma_insert_sql_two("INSERT OR IGNORE"@, "entity_project_association"@, "entity_id"@, "project_id"@);
    reveal_strlit("INSERT OR IGNORE INTO entity_project_association (entity_id, project_id) VALUES (?1, ?2)");
    reveal_strlit("INSERT OR IGNORE");
    reveal_strlit(" INTO ");
    reveal_strlit("entity_project_association");
    reveal_strlit(" (");
    reveal_strlit("entity_id");
    reveal_strlit(", ");
    reveal_strlit("project_id");
    reveal_strlit(") VALUES (?1, ?2)");
    assert(ENTITY_PROJECT_INSERT@ =~= insert_sql("INSERT OR IGNORE"@, "entity_project_association"@, seq!["entity_id"@, "project_id"@]));
}

/// Associating an entity keeps each id in its column: `link_entity_memory`
/// binds the entity to `entity_id` and the memory to `memory_id` of
/// `memory_entity_association`; `link_entity_project` binds the entity to
/// `entity_id` and the project to `project_id` of
/// `entity_project_association`.
pub proof fn lemma_entity_link_columns(entity_id: i64, memory_id: i64, project_id: i64)
    ensures
        inserts_value(entity_memory_write(entity_id, memory_id), "INSERT OR IGNORE"@, "memory_entity_association"@, "entity_id"@, Bound::Integer(entity_id)),
        inserts_value(entity_memory_write(entity_id, memory_id), "INSERT OR IGNORE"@, "memory_entity_association"@, "memory_id"@, Bound::Integer(memory_id)),
        inserts_value(entity_project_write(entity_id, project_id), "INSERT OR IGNORE"@, "entity_project_association"@, "entity_id"@, Bound::Integer(entity_id)),
        inserts_value(entity_project_write(entity_id, project_id), "INSERT OR IGNORE"@, "entity_project_association"@, "project_id"@, Bound::Integer(project_id)),
{
    lemma_entity_memory_insert_text();
    lemma_entity_project_insert_text();
    reveal_strlit("memory_id");
    reveal_strlit("entity_id");
    reveal_strlit("project_id");
    let mem_cols = seq!["memory_id"@, "entity_id"@];
    let proj_cols = seq!["entity_id"@, "project_id"@];
    assert(mem_cols[0][0] != mem_cols[1][0]);
    assert(proj_cols[0][0] != proj_cols[1][0]);
    assert(distinct_names(mem_cols));
    assert(distinct_names(proj_cols));
    let wm = entity_memory_write(entity_id, memory_id);
    let wp = entity_project_write(entity_id, project_id);
    lemma_insert_binds(wm, "INSERT OR IGNORE"@, "memory_entity_association"@, mem_cols, 0);
    lemma_insert_binds(wm, "INSERT OR IGNORE"@, "memory_entity_association"@, mem_cols, 1);
    lemma_insert_binds(wp, "INSERT OR IGNORE"@, "entity_project_association"@, proj_cols, 0);
    lemma_insert_binds(wp, "INSERT OR IGNORE"@, "entity_project_association"@, proj_cols, 1);
}

/// The columns of a new relationship's row, in the order their values are
/// bound.
pub open spec fn relationship_insert_columns() -> Seq<Seq<char>> {
    seq![
        "user_id"@, "source_entity_id"@, "target_entity_id"@, "relationship_type"@, "strength"@,
        "confidence"@, "relationship_metadata"@, "created_at"@, "updated_at"@,
    ]
}

pub const RELATIONSHIP_DELETE: &'static str = "DELETE FROM entity_relationships WHERE id = ?1";

/// The row of a new entity, created at the time `t`.
pub open spec fn entity_insert_write(p: CreateEntityParams, t: Timestamp) -> Write {
    (insert_sql("INSERT"@, "entities"@, entity_insert_columns()), seq![
        Bound::Text(default_user()),
        Bound::Text(p.name@),
        Bound::Text(p.entity_type@),
        opt_string_bound(p.custom_type),
        opt_string_bound(p.notes),
        Bound::Text(json_string_list_text(p.tags.deep_view())),
        Bound::Text(json_string_list_text(p.aka.deep_view())),
        Bound::Text(clock_text(t)),
        Bound::Text(clock_text(t)),
    ])
}

/// The row `create_entity` inserts takes each field in the column of that
/// name: its statement is an insert into `entities` that binds the default
/// user to `user_id`, the name to `name`, the type to `entity_type`, the
/// custom type to `custom_type`, the notes to `notes`, the JSON of the tags
/// to `tags` and of the other names to `aka`.
#[verifier::rlimit(40)]
pub proof fn lemma_entity_insert_fields(p: CreateEntityParams, t: Timestamp)
    ensures
        ({
            let w = entity_insert_write(p, t);
            let (verb, table) = ("INSERT"@, "entities"@);
            &&& inserts_value(w, verb, table, "user_id"@, Bound::Text(default_user()))
            &&& inserts_value(w, verb, table, "name"@, Bound::Text(p.name@))
            &&& inserts_value(w, verb, table, "entity_type"@, Bound::Text(p.entity_type@))
            &&& inserts_value(w, verb, table, "custom_type"@, opt_string_bound(p.custom_type))
            &&& inserts_value(w, verb, table, "notes"@, opt_string_bound(p.notes))
            &&& inserts_value(w, verb, table, "tags"@, Bound::Text(json_string_list_text(p.tags.deep_view())))
            &&& inserts_value(w, verb, table, "aka"@, Bound::Text(json_string_list_text(p.aka.deep_view())))
        }),
{
    let w = entity_insert_write(p, t);
    let cols = entity_insert_columns();
    reveal_strlit("user_id");
    reveal_strlit("name");
    reveal_strlit("entity_type");
    reveal_strlit("custom_type");
    reveal_strlit("notes");
    reveal_strlit("tags");
    reveal_strlit("aka");
    reveal_strlit("created_at");
    reveal_strlit("updated_at");
    assert forall|i: int, j: int| 0 <= i < cols.len() && 0 <= j < cols.len() && i != j implies cols[i] != cols[j] by {
        if cols[i] == cols[j] {
            assert(cols[i].len() == cols[j].len());
            assert(cols[i][0] == cols[j][0]);
            assert(cols[i][1] == cols[j][1]);
        }
    }
    lemma_insert_binds(w, "INSERT"@, "entities"@, cols, 0);
    lemma_insert_binds(w, "INSERT"@, "entities"@, cols, 1);
    lemma_insert_binds(w, "INSERT"@, "entities"@, cols, 2);
    lemma_insert_binds(w, "INSERT"@, "entities"@, cols, 3);
    lemma_insert_binds(w, "INSERT"@, "entities"@, cols, 4);
    lemma_insert_binds(w, "INSERT"@, "entities"@, cols, 5);
    lemma_insert_binds(w, "INSERT"@, "entities"@, cols, 6);
}

/// The row of a new relationship, created at the time `t`.
pub open spec fn relationship_insert_write(p: CreateRelationshipParams, t: Timestamp) -> Write {
    (insert_sql("INSERT"@, "entity_relationships"@, relationship_insert_columns()), seq![
        Bound::Text(default_user()),
        Bound::Integer(p.source_entity_id),
        Bound::Integer(p.target_entity_id),
        Bound::Text(p.relationship_type@),
        opt_number_bound(p.strength),
        opt_number_bound(p.confidence),
        opt_string_bound(p.metadata),
        Bound::Text(clock_text(t)),
        Bound::Text(clock_text(t)),
    ])
}

/// The row `create_relationship` inserts takes each field in the column of
/// that name: its statement is an insert into `entity_relationships` that
/// binds the default user to `user_id`, the source entity to
/// `source_entity_id`, the target entity to `target_entity_id`, the type to
/// `relationship_type`, the strength to `strength`, the confidence to
/// `confidence` and the metadata to `relationship_metadata`.
#[verifier::rlimit(40)]
pub proof fn lemma_relationship_insert_fields(p: CreateRelationshipParams, t: Timestamp)
    ensures
        ({
            let w = relationship_insert_write(p, t);
            let (verb, table) = ("INSERT"@, "entity_relationships"@);
            &&& inserts_value(w, verb, table, "user_id"@, Bound::Text(default_user()))
            &&& inserts_value(w, verb, table, "source_entity_id"@, Bound::Integer(p.source_entity_id))
            &&& inserts_value(w, verb, table, "target_entity_id"@, Bound::Integer(p.target_entity_id))
            &&& inserts_value(w, verb, table, "relationship_type"@, Bound::Text(p.relationship_type@))
            &&& inserts_value(w, verb, table, "strength"@, opt_number_bound(p.strength))
            &&& inserts_value(w, verb, table, "confidence"@, opt_number_bound(p.confidence))
            &&& inserts_value(w, verb, table, "relationship_metadata"@, opt_string_bound(p.metadata))
        }),
{
    let w = relationship_insert_write(p, t);
    let cols = relationship_insert_columns();
    reveal_strlit("user_id");
    reveal_strlit("source_entity_id");
    reveal_strlit("target_entity_id");
    reveal_strlit("relationship_type");
    reveal_strlit("strength");
    reveal_strlit("confidence");
    reveal_strlit("relationship_metadata");
    reveal_strlit("created_at");
    reveal_strlit("updated_at");
    assert forall|i: int, j: int| 0 <= i < cols.len() && 0 <= j < cols.len() && i != j implies cols[i] != cols[j] by {
        if cols[i] == cols[j] {
            assert(cols[i].len() == cols[j].len());
            assert(cols[i][0] == cols[j][0]);
            assert(cols[i][1] == cols[j][1]);
        }
    }
    lemma_insert_binds(w, "INSERT"@, "entity_relationships"@, cols, 0);
    lemma_insert_binds(w, "INSERT"@, "entity_relationships"@, cols, 1);
    lemma_insert_binds(w, "INSERT"@, "entity_relationships"@, cols, 2);
    lemma_insert_binds(w, "INSERT"@, "entity_relationships"@, cols, 3);
    lemma_insert_binds(w, "INSERT"@, "entity_relationships"@, cols, 4);
    lemma_insert_binds(w, "INSERT"@, "entity_relationships"@, cols, 5);
    lemma_insert_binds(w, "INSERT"@, "entity_relationships"@, cols, 6);
}

pub const ENTITIES_ALL: &'static str = "SELECT id, user_id, name, entity_type, custom_type, notes, tags, aka, created_at, updated_at FROM entities WHERE 1=1 ORDER BY name";

pub const ENTITIES_OF_TYPE: &'static str = "SELECT id, user_id, name, entity_type, custom_type, notes, tags, aka, created_at, updated_at FROM entities WHERE 1=1 AND entity_type = ?1 ORDER BY name";

pub const ENTITY_SEARCH: &'static str = "SELECT e.id, e.user_id, e.name, e.entity_type, e.custom_type, e.notes, e.tags, e.aka, e.created_at, e.updated_at
             FROM entities_fts fts
             JOIN entities e ON e.id = fts.rowid
             WHERE entities_fts MATCH ?1
             ORDER BY bm25(entities_fts)
             LIMIT 20";

pub const RELATIONSHIPS_OUTGOING: &'static str = "SELECT id, user_id, source_entity_id, target_entity_id, relationship_type, strength, confidence, relationship_metadata, created_at, updated_at FROM entity_relationships WHERE source_entity_id = ?1";

pub const RELATIONSHIPS_INCOMING: &'static str = "SELECT id, user_id, source_entity_id, target_entity_id, relationship_type, strength, confidence, relationship_metadata, created_at, updated_at FROM entity_relationships WHERE target_entity_id = ?1";

pub const RELATIONSHIPS_BOTH: &'static str = "SELECT id, user_id, source_entity_id, target_entity_id, relationship_type, strength, confidence, relationship_metadata, created_at, updated_at FROM entity_relationships WHERE source_entity_id = ?1 OR target_entity_id = ?1";

/// The query of an entity's relationships in a direction (see `direction_of`).
pub open spec fn relationships_query(direction: Seq<char>) -> Seq<char> {
    if direction == "outgoing"@ {
        RELATIONSHIPS_OUTGOING@
    } else if direction == "incoming"@ {
        RELATIONSHIPS_INCOMING@
    } else {
        RELATIONSHIPS_BOTH@
    }
}

/// The columns every query of relationships reads, in order (see
/// `relationship_from_row`).
pub open spec fn relationship_row_columns() -> Seq<Seq<char>> {
    seq!["id"@, "user_id"@, "source_entity_id"@, "target_entity_id"@, "relationship_type"@, "strength"@, "confidence"@, "relationship_metadata"@, "created_at"@, "updated_at"@]
}

/// The names of a relationship's columns, joined.
proof fn lemma_relationship_names()
    ensures
        name_list(relationship_row_columns()) == "id, user_id, source_entity_id, target_entity_id, relationship_type, strength, confidence, relationship_metadata, created_at, updated_at"@,
{
    let c = relationship_row_columns();
    assert(c.skip(1)[0] == c[1]);
    assert(c.skip(2)[0] == c[2]);
    assert(c.skip(3)[0] == c[3]);
    assert(c.skip(4)[0] == c[4]);
    assert(c.skip(5)[0] == c[5]);
    assert(c.skip(6)[0] == c[6]);
    assert(c.skip(7)[0] == c[7]);
    assert(c.skip(8)[0] == c[8]);
    assert(c.skip(9)[0] == c[9]);
    assert(c.skip(10) =~= Seq::<Seq<char>>::empty());
    assert(more_names(c.skip(10)) =~= Seq::<char>::empty());
    assert(c.skip(9).drop_first() =~= c.skip(10));
    assert(more_names(c.skip(9)) =~= ", "@ + c[9] + more_names(c.skip(10)));
    assert(c.skip(8).drop_first() =~= c.skip(9));
    assert(more_names(c.skip(8)) =~= ", "@ + c[8] + more_names(c.skip(9)));
    assert(c.skip(7).drop_first() =~= c.skip(8));
    assert(more_names(c.skip(7)) =~= ", "@ + c[7] + more_names(c.skip(8)));
    assert(c.skip(6).drop_first() =~= c.skip(7));
    assert(more_names(c.skip(6)) =~= ", "@ + c[6] + more_names(c.skip(7)));
    assert(c.skip(5).drop_first() =~= c.skip(6));
    assert(more_names(c.skip(5)) =~= ", "@ + c[5] + more_names(c.skip(6)));
    assert(c.skip(4).drop_first() =~= c.skip(5));
    assert(more_names(c.skip(4)) =~= ", "@ + c[4] + more_names(c.skip(5)));
    assert(c.skip(3).drop_first() =~= c.skip(4));
    assert(more_names(c.skip(3)) =~= ", "@ + c[3] + more_names(c.skip(4)));
    assert(c.skip(2).drop_first() =~= c.skip(3));
    assert(more_names(c.skip(2)) =~= ", "@ + c[2] + more_names(c.skip(3)));
    assert(c.skip(1).drop_first() =~= c.skip(2));
    assert(more_names(c.skip(1)) =~= ", "@ + c[1] + more_names(c.skip(2)));
    assert(c.drop_first() =~= c.skip(1));
    reveal_strlit("id");
    reveal_strlit("user_id");
    reveal_strlit("source_entity_id");
    reveal_strlit("target_entity_id");
    reveal_strlit("relationship_type");
    reveal_strlit("strength");
    reveal_strlit("confidence");
    reveal_strlit("relationship_metadata");
    reveal_strlit("created_at");
    reveal_strlit("updated_at");
    reveal_strlit(", ");
    reveal_strlit("id, user_id, source_entity_id, target_entity_id, relationship_type, strength, confidence, relationship_metadata, created_at, updated_at");
    assert(name_list(c) =~= "id, user_id, source_entity_id, target_entity_id, relationship_type, strength, confidence, relationship_metadata, created_at, updated_at"@);
}

/// The queries of relationships read `relationship_row_columns`: by id, or
/// those whose source is the entity (`outgoing`), whose target is the entity
/// (`incoming`), or either (any other direction).
pub proof fn lemma_relationship_queries(direction: Seq<char>)
    ensures
        RELATIONSHIP_BY_ID@ == select_from(relationship_row_columns(), "entity_relationships WHERE id = ?1"@),
        relationships_query(direction) == select_from(relationship_row_columns(),
            if direction == "outgoing"@ {
                "entity_relationships WHERE source_entity_id = ?1"@
            } else if direction == "incoming"@ {
                "entity_relationships WHERE target_entity_id = ?1"@
            } else {
                "entity_relationships WHERE source_entity_id = ?1 OR target_entity_id = ?1"@
            }),
{
    lemma_relationship_names();
    reveal_strlit("SELECT ");
    reveal_strlit(" FROM ");
    reveal_strlit("id, user_id, source_entity_id, target_entity_id, relationship_type, strength, confidence, relationship_metadata, created_at, updated_at");
    reveal_strlit("entity_relationships WHERE source_entity_id = ?1");
    reveal_strlit("SELECT id, user_id, source_entity_id, target_entity_id, relationship_type, strength, confidence, relationship_metadata, created_at, updated_at FROM entity_relationships WHERE source_entity_id = ?1");
    assert(RELATIONSHIPS_OUTGOING@ =~= select_from(relationship_row_columns(), "entity_relationships WHERE source_entity_id = ?1"@));
    reveal_strlit("entity_relationships WHERE target_entity_id = ?1");
    reveal_strlit("SELECT id, user_id, source_entity_id, target_entity_id, relationship_type, strength, confidence, relationship_metadata, created_at, updated_at FROM entity_relationships WHERE target_entity_id = ?1");
    assert(RELATIONSHIPS_INCOMING@ =~= select_from(relationship_row_columns(), "entity_relationships WHERE target_entity_id = ?1"@));
    reveal_strlit("entity_relationships WHERE source_entity_id = ?1 OR target_entity_id = ?1");
    reveal_strlit("SELECT id, user_id, source_entity_id, target_entity_id, relationship_type, strength, confidence, relationship_metadata, created_at, updated_at FROM entity_relationships WHERE source_entity_id = ?1 OR target_entity_id = ?1");
    assert(RELATIONSHIPS_BOTH@ =~= select_from(relationship_row_columns(), "entity_relationships WHERE source_entity_id = ?1 OR target_entity_id = ?1"@));
    reveal_strlit("entity_relationships WHERE id = ?1");
    reveal_strlit("SELECT id, user_id, source_entity_id, target_entity_id, relationship_type, strength, confidence, relationship_metadata, created_at, updated_at FROM entity_relationships WHERE id = ?1");
    assert(RELATIONSHIP_BY_ID@ =~= select_from(relationship_row_columns(), "entity_relationships WHERE id = ?1"@));
}

/// A relationship read from a row of `relationship_row_columns` takes each
/// field from the column of that name: the source entity from
/// `source_entity_id`, the target entity from `target_entity_id`, the type
/// from `relationship_type`, the strength from `strength`, the confidence
/// from `confidence`.
pub proof fn lemma_relationship_row_columns(row: Seq<SqlValue>, x: EntityRelationship)
    requires
        relationship_row_valid(row),
        relationship_from_row(row, x),
    ensures
        distinct_names(relationship_row_columns()),
        forall|i: int| 0 <= i < 10 && #[trigger] relationship_row_columns()[i] == "source_entity_id"@
            ==> int_of(row[i]) == Some(x.source_entity_id),
        forall|i: int| 0 <= i < 10 && #[trigger] relationship_row_columns()[i] == "target_entity_id"@
            ==> int_of(row[i]) == Some(x.target_entity_id),
        forall|i: int| 0 <= i < 10 && #[trigger] relationship_row_columns()[i] == "relationship_type"@
            ==> text_of(row[i]) == Some(x.relationship_type@),
        forall|i: int| 0 <= i < 10 && #[trigger] relationship_row_columns()[i] == "strength"@
            ==> opt_number_of(row[i]) == Some(x.strength),
        forall|i: int| 0 <= i < 10 && #[trigger] relationship_row_columns()[i] == "confidence"@
            ==> opt_number_of(row[i]) == Some(x.confidence),
{
    let c = relationship_row_columns();
    reveal_strlit("id");
    reveal_strlit("user_id");
    reveal_strlit("source_entity_id");
    reveal_strlit("target_entity_id");
    reveal_strlit("relationship_type");
    reveal_strlit("strength");
    reveal_strlit("confidence");
    reveal_strlit("relationship_metadata");
    reveal_strlit("created_at");
    reveal_strlit("updated_at");
    assert forall|a: int, b: int| 0 <= a < c.len() && 0 <= b < c.len() && a != b implies c[a] != c[b] by {
        if c[a] == c[b] {
            assert(c[a].len() == c[b].len());
            assert(c[a][0] == c[b][0]);
            assert(c[a][1] == c[b][1]);
            assert(c[a][c[a].len() - 1] == c[b][c[b].len() - 1]);
        }
    }
}

/// The query listing entities, of a type when one is given, and its values.
pub open spec fn entities_query(entity_type: Option<Seq<char>>) -> (Seq<char>, Seq<Bound>) {
    match entity_type {
        Some(t) => (ENTITIES_OF_TYPE@, seq![Bound::Text(t)]),
        None => (ENTITIES_ALL@, Seq::<Bound>::empty()),
    }
}

/// The query of the projects of an entity.
pub open spec fn entity_projects_sql() -> Seq<char> {
    assoc_sql("entity_project_association"@, "entity_id"@, "project_id"@)
}

/// `links` are the projects SQLite answered for entity `id`, or none when
/// that query failed.
pub open spec fn entity_links(id: i64, links: Seq<i64>) -> bool {
    ||| ids_answered(entity_projects_sql(), id, links)
    ||| query_failed(entity_projects_sql(), seq![Bound::Integer(id)]) && links.len() == 0
}

/// `v` is the listing of entities: `all` are the entities SQLite answered
/// (`rows`) to the query of their type; with project ids given, only those
/// whose projects (`links`, as answered) share one with them are kept.
pub open spec fn entities_listed(
    entity_type: Option<Seq<char>>,
    project_ids: Seq<i64>,
    rows: Seq<Vec<SqlValue>>,
    all: Seq<Entity>,
    links: Seq<Seq<i64>>,
    v: Seq<Entity>,
) -> bool {
    &&& answered(entities_query(entity_type).0, entities_query(entity_type).1, rows)
    &&& entity_list_of(rows, all)
    &&& project_ids.len() == 0 ==> v == all
    &&& project_ids.len() > 0 ==> {
        &&& links.len() == all.len()
        &&& forall|i: int| 0 <= i < all.len() ==> #[trigger] entity_links(all[i].id, links[i])
        &&& v == in_projects(all, links, project_ids)
    }
}

/// `v` is a listing of entities as `entities_listed` describes it, for
/// some answers of SQLite.
pub open spec fn entities_answer(entity_type: Option<Seq<char>>, project_ids: Seq<i64>, v: Seq<Entity>) -> bool {
    exists|rows: Seq<Vec<SqlValue>>, all: Seq<Entity>, links: Seq<Seq<i64>>|
        #[trigger] entities_listed(entity_type, project_ids, rows, all, links, v)
}

/// The id lists of each entity's projects, as sequences.
pub open spec fn links_view(links: Seq<Vec<i64>>) -> Seq<Seq<i64>> {
    links.map_values(|v: Vec<i64>| v@)
}

/// The entities, in order, whose projects (`links`, entity by entity)
/// share one with `project_ids`.
pub open spec fn in_projects(entities: Seq<Entity>, links: Seq<Seq<i64>>, project_ids: Seq<i64>) -> Seq<Entity>
    decreases entities.len(),
{
    if entities.len() == 0 {
        Seq::empty()
    } else {
        let n = entities.len() - 1;
        let rest = in_projects(entities.take(n), links, project_ids);
        if any_shared(project_ids, links[n]) { rest.push(entities[n]) } else { rest }
    }
}

/// What `in_projects` keeps is among the entities it was given.
proof fn lemma_in_projects_read(entities: Seq<Entity>, links: Seq<Seq<i64>>, project_ids: Seq<i64>)
    requires
        forall|i: int| 0 <= i < entities.len() ==> entity_read(#[trigger] entities[i]),
    ensures
        forall|i: int| 0 <= i < in_projects(entities, links, project_ids).len()
            ==> entity_read(#[trigger] in_projects(entities, links, project_ids)[i]),
    decreases entities.len(),
{
    if entities.len() > 0 {
        let n = entities.len() - 1;
        assert forall|i: int| 0 <= i < entities.take(n).len() implies entity_read(#[trigger] entities.take(n)[i]) by {
            assert(entities.take(n)[i] == entities[i]);
        }
        lemma_in_projects_read(entities.take(n), links, project_ids);
        let rest = in_projects(entities.take(n), links, project_ids);
        let all = in_projects(entities, links, project_ids);
        assert forall|i: int| 0 <= i < all.len() implies entity_read(#[trigger] all[i]) by {
            if i < rest.len() {
                assert(all[i] == rest[i]);
            } else {
                assert(all[i] == entities[n]);
            }
        }
    }
}

/// Keeps the entities, in order, whose projects share one with
/// `project_ids`; `links[i]` are the projects of entity `i`.
pub fn keep_in_projects(entities: Vec<Entity>, links: &Vec<Vec<i64>>, project_ids: &Vec<i64>) -> (r: Vec<Entity>)
    requires
        links.len() == entities.len(),
    ensures
        r@ == in_projects(entities@, links_view(links@), project_ids@),
{
    let ghost all = entities@;
    let n: usize = entities.len();
    let mut rest = crate::search::reversed(entities);
    let mut kept: Vec<Entity> = Vec::new();
    let mut i: usize = 0;
    assert(all.take(0) =~= Seq::<Entity>::empty());
    while i < n
        invariant
            n == all.len(),
            n == links.len(),
            i <= n,
            rest.len() + i == n,
            forall|j: int| 0 <= j < rest.len() ==> #[trigger] rest@[j] == all[n - 1 - j],
            kept@ == in_projects(all.take(i as int), links_view(links@), project_ids@),
        decreases n - i,
    {
        let ghost before = rest@;
        let e = rest.pop().unwrap();
        assert(e == all[i as int]);
        assert(forall|j: int| 0 <= j < rest.len() ==> #[trigger] rest@[j] == before[j]);
        assert(all.take(i + 1).take(i as int) =~= all.take(i as int));
        assert(all.take(i + 1)[i as int] == e);
        assert(links_view(links@)[i as int] == links@[i as int]@);
        if shares_i64(project_ids, &links[i]) {
            kept.push(e);
        }
        i = i + 1;
    }
    assert(all.take(n as int) =~= all);
    kept
}

pub const ENTITY_BY_ID: &'static str = "SELECT id, user_id, name, entity_type, custom_type, notes, tags, aka, created_at, updated_at FROM entities WHERE id = ?1";

/// The columns a entity is read with, in order (see `entity_from_row`).
pub open spec fn entity_row_columns() -> Seq<Seq<char>> {
    seq!["id"@, "user_id"@, "name"@, "entity_type"@, "custom_type"@, "notes"@, "tags"@, "aka"@, "created_at"@, "updated_at"@]
}

/// `ENTITY_BY_ID` reads `entity_row_columns` of the entity with the id.
#[verifier::rlimit(40)]
pub proof fn lemma_entity_by_id_text()
    ensures
        ENTITY_BY_ID@ == select_from(entity_row_columns(), "entities WHERE id = ?1"@),
{
    let c = entity_row_columns();
    assert(c.skip(1)[0] == c[1]);
    assert(c.skip(2)[0] == c[2]);
    assert(c.skip(3)[0] == c[3]);
    assert(c.skip(4)[0] == c[4]);
    assert(c.skip(5)[0] == c[5]);
    assert(c.skip(6)[0] == c[6]);
    assert(c.skip(7)[0] == c[7]);
    assert(c.skip(8)[0] == c[8]);
    assert(c.skip(9)[0] == c[9]);
    assert(c.skip(10) =~= Seq::<Seq<char>>::empty());
    assert(more_names(c.skip(10)) =~= Seq::<char>::empty());
    assert(c.skip(9).drop_first() =~= c.skip(10));
    assert(more_names(c.skip(9)) =~= ", "@ + c[9] + more_names(c.skip(10)));
    assert(c.skip(8).drop_first() =~= c.skip(9));
    assert(more_names(c.skip(8)) =~= ", "@ + c[8] + more_names(c.skip(9)));
    assert(c.skip(7).drop_first() =~= c.skip(8));
    assert(more_names(c.skip(7)) =~= ", "@ + c[7] + more_names(c.skip(8)));
    assert(c.skip(6).drop_first() =~= c.skip(7));
    assert(more_names(c.skip(6)) =~= ", "@ + c[6] + more_names(c.skip(7)));
    assert(c.skip(5).drop_first() =~= c.skip(6));
    assert(more_names(c.skip(5)) =~= ", "@ + c[5] + more_names(c.skip(6)));
    assert(c.skip(4).drop_first() =~= c.skip(5));
    assert(more_names(c.skip(4)) =~= ", "@ + c[4] + more_names(c.skip(5)));
    assert(c.skip(3).drop_first() =~= c.skip(4));
    assert(more_names(c.skip(3)) =~= ", "@ + c[3] + more_names(c.skip(4)));
    assert(c.skip(2).drop_first() =~= c.skip(3));
    assert(more_names(c.skip(2)) =~= ", "@ + c[2] + more_names(c.skip(3)));
    assert(c.skip(1).drop_first() =~= c.skip(2));
    assert(more_names(c.skip(1)) =~= ", "@ + c[1] + more_names(c.skip(2)));
    assert(c.drop_first() =~= c.skip(1));
    reveal_strlit("id");
    reveal_strlit("user_id");
    reveal_strlit("name");
    reveal_strlit("entity_type");
    reveal_strlit("custom_type");
    reveal_strlit("notes");
    reveal_strlit("tags");
    reveal_strlit("aka");
    reveal_strlit("created_at");
    reveal_strlit("updated_at");
    reveal_strlit(", ");
    reveal_strlit("id, user_id, name, entity_type, custom_type, notes, tags, aka, created_at, updated_at");
    assert(name_list(c) =~= "id, user_id, name, entity_type, custom_type, notes, tags, aka, created_at, updated_at"@);
    reveal_strlit("SELECT ");
    reveal_strlit(" FROM ");
    reveal_strlit("entities WHERE id = ?1");
    reveal_strlit("SELECT id, user_id, name, entity_type, custom_type, notes, tags, aka, created_at, updated_at FROM entities WHERE id = ?1");
    assert(ENTITY_BY_ID@ =~= select_from(c, "entities WHERE id = ?1"@));
}

/// A entity read from a row of `entity_row_columns` takes each field
/// from the column of that name: its name from `name`, its type from `entity_type`, its custom type from `custom_type`, its notes from `notes`, its tags from `tags`, its other names from `aka`.
#[verifier::rlimit(40)]
pub proof fn lemma_entity_row_columns(row: Seq<SqlValue>, x: Entity)
    requires
        entity_row_valid(row),
        entity_from_row(row, x),
    ensures
        distinct_names(entity_row_columns()),
        forall|i: int| 0 <= i < 10 && #[trigger] entity_row_columns()[i] == "name"@
            ==> text_of(row[i]) == Some(x.name@),
        forall|i: int| 0 <= i < 10 && #[trigger] entity_row_columns()[i] == "entity_type"@
            ==> text_of(row[i]) == Some(x.entity_type@),
        forall|i: int| 0 <= i < 10 && #[trigger] entity_row_columns()[i] == "custom_type"@
            ==> opt_text_of(row[i]) == Some(view_opt(x.custom_type)),
        forall|i: int| 0 <= i < 10 && #[trigger] entity_row_columns()[i] == "notes"@
            ==> opt_text_of(row[i]) == Some(view_opt(x.notes)),
        forall|i: int| 0 <= i < 10 && #[trigger] entity_row_columns()[i] == "tags"@
            ==> string_list_of(row[i]) == Some(x.tags.deep_view()),
        forall|i: int| 0 <= i < 10 && #[trigger] entity_row_columns()[i] == "aka"@
            ==> string_list_of(row[i]) == Some(x.aka.deep_view()),
{
    let c = entity_row_columns();
    reveal_strlit("id");
    reveal_strlit("user_id");
    reveal_strlit("name");
    reveal_strlit("entity_type");
    reveal_strlit("custom_type");
    reveal_strlit("notes");
    reveal_strlit("tags");
    reveal_strlit("aka");
    reveal_strlit("created_at");
    reveal_strlit("updated_at");
    assert forall|a: int, b: int| 0 <= a < c.len() && 0 <= b < c.len() && a != b implies c[a] != c[b] by {
        if c[a] == c[b] {
            assert(c[a].len() == c[b].len());
            assert(c[a][0] == c[b][0]);
            assert(c[a][1] == c[b][1]);
            assert(c[a][2] == c[b][2]);
            assert(c[a][c[a].len() - 1] == c[b][c[b].len() - 1]);
            assert(c[a][c[a].len() - 2] == c[b][c[b].len() - 2]);
        }
    }
}

/// `x` is the entity with that id: what the first row SQLite answered
/// for it reads as.
pub open spec fn entity_loaded(id: i64, x: Entity) -> bool {
    exists|row: Vec<SqlValue>| #[trigger] first_answer(ENTITY_BY_ID@, seq![Bound::Integer(id)], Some(row))
        && entity_row_valid(row@) && entity_from_row(row@, x)
}

/// No entity with that id can be read: SQLite answered no row for
/// it, or a row that does not read as one.
pub open spec fn entity_missing(id: i64) -> bool {
    exists|first: Option<Vec<SqlValue>>| #[trigger] first_answer(ENTITY_BY_ID@, seq![Bound::Integer(id)], first)
        && (first matches Some(row) ==> !entity_row_valid(row@))
}

pub const RELATIONSHIP_BY_ID: &'static str = "SELECT id, user_id, source_entity_id, target_entity_id, relationship_type, strength, confidence, relationship_metadata, created_at, updated_at FROM entity_relationships WHERE id = ?1";

/// `x` is the relationship with that id: what the first row SQLite answered
/// for it reads as.
pub open spec fn relationship_loaded(id: i64, x: EntityRelationship) -> bool {
    exists|row: Vec<SqlValue>| #[trigger] first_answer(RELATIONSHIP_BY_ID@, seq![Bound::Integer(id)], Some(row))
        && relationship_row_valid(row@) && relationship_from_row(row@, x)
}

/// No relationship with that id can be read: SQLite answered no row for
/// it, or a row that does not read as one.
pub open spec fn relationship_missing(id: i64) -> bool {
    exists|first: Option<Vec<SqlValue>>| #[trigger] first_answer(RELATIONSHIP_BY_ID@, seq![Bound::Integer(id)], first)
        && (first matches Some(row) ==> !relationship_row_valid(row@))
}

impl Database {
    /// Creates an entity owned by the default user and logs it.
    pub fn create_entity(&mut self, p: &CreateEntityParams) -> (r: Result<Entity, DbError>)
        ensures
            r matches Ok(x) ==> exists|t: Timestamp, id: i64| final(self).log() == old(self).log() + seq![
                #[trigger] entity_insert_write(*p, t),
                #[trigger] activity_write("entity"@, id, "create"@, None),
            ] && entity_loaded(id, x) && inserted_rowid(old(self).log().push(entity_insert_write(*p, t)), id),
            r matches Ok(x) ==> entity_read(x),
            r matches Err(e) ==> (e is Sqlite || e is InvalidTimestamp || e is NotFound),
            r matches Err(DbError::InvalidTimestamp) ==> final(self).log() == old(self).log(),
            r matches Err(e) ==> (e is InvalidTimestamp || exists|t: Timestamp| {
                ||| !(e is NotFound) && final(self).log() == old(self).log() + seq![#[trigger] entity_insert_write(*p, t)]
                ||| exists|id: i64| final(self).log() == old(self).log() + seq![
                        entity_insert_write(*p, t),
                        #[trigger] activity_write("entity"@, id, "create"@, None),
                    ] && inserted_rowid(old(self).log().push(entity_insert_write(*p, t)), id)
                    && (e is NotFound ==> entity_missing(id))
            }),
    {
        let (now, now_v) = now_value()?;
        let now_v2 = match &now_v { SqlValue::Text(t) => SqlValue::Text(t.clone()), _ => SqlValue::Null };
        let tags_json = match json_encode_strings(&p.tags) { Ok(s) => s, Err(e) => { return Err(DbError::Json(e)); } };
        let aka_json = match json_encode_strings(&p.aka) { Ok(s) => s, Err(e) => { return Err(DbError::Json(e)); } };
        let params = vec![
            SqlValue::Text(Database::default_user_id()),
            SqlValue::Text(p.name.clone()),
            SqlValue::Text(p.entity_type.clone()),
            opt_string_value(&p.custom_type),
            opt_string_value(&p.notes),
            SqlValue::Text(tags_json),
            SqlValue::Text(aka_json),
            now_v,
            now_v2,
        ];
        assert(bound_all(params@) =~= entity_insert_write(*p, now).1);
        let columns: Vec<&'static str> = vec![
            "user_id", "name", "entity_type", "custom_type", "notes", "tags", "aka",
            "created_at", "updated_at",
        ];
        assert(views(columns@) =~= entity_insert_columns());
        let insert = insert_statement("INSERT", "entities", &columns);
        if let Err(e) = self.execute(insert.as_str(), params) {
            assert(self.log() =~= old(self).log() + seq![entity_insert_write(*p, now)]);
            return Err(e);
        }
        let id = self.last_insert_rowid();
        let logged = self.log_activity("entity", id, "create", None);
        assert(self.log() =~= old(self).log() + seq![
            entity_insert_write(*p, now),
            activity_write("entity"@, id, "create"@, None),
        ]);
        if let Err(e) = logged {
            return Err(e);
        }
        self.get_entity_inner(id)
    }

    /// An entity by id.
    pub fn get_entity(&self, entity_id: i64) -> (r: Result<Entity, DbError>)
        ensures
            r matches Ok(x) ==> entity_read(x),
            r matches Err(e) ==> e == DbError::NotFound(RecordKind::Entity, entity_id),
            r matches Ok(x) ==> entity_loaded(entity_id, x),
            r matches Err(DbError::NotFound(_, _)) ==> entity_missing(entity_id),
    {
        self.get_entity_inner(entity_id)
    }

    fn get_entity_inner(&self, entity_id: i64) -> (r: Result<Entity, DbError>)
        ensures
            r matches Ok(x) ==> entity_read(x),
            r matches Ok(x) ==> entity_loaded(entity_id, x),
            r is Err ==> entity_missing(entity_id),
            r matches Err(e) ==> e == DbError::NotFound(RecordKind::Entity, entity_id),
    {
        let params: Vec<SqlValue> = vec![SqlValue::Integer(entity_id)];
        assert(bound_all(params@) =~= seq![Bound::Integer(entity_id)]);
        let row = self.query_first(ENTITY_BY_ID, params, 10);
        let ghost first = row;
        assert(first_answer(ENTITY_BY_ID@, seq![Bound::Integer(entity_id)], first));
        match row {
            Some(r) => {
                let ghost read = r@;
                match decode_entity(r) {
                    Some(e) => {
                        assert(entity_from_row(read, e));
                        Ok(e)
                    },
                    None => Err(DbError::NotFound(RecordKind::Entity, entity_id)),
                }
            },
            None => Err(DbError::NotFound(RecordKind::Entity, entity_id)),
        }
    }

    /// The entities, by name, of the given type if one is given; with
    /// project ids given, only entities linked to one of those projects.
    pub fn list_entities(&self, project_ids: &Vec<i64>, entity_type: Option<&str>) -> (r: Result<Vec<Entity>, DbError>)
        ensures
            r matches Ok(v) ==> forall|i: int| 0 <= i < v.len() ==> entity_read(#[trigger] v@[i]),
            r matches Ok(v) ==> entities_answer(view_opt_str(entity_type), project_ids@, v@),
            r is Err ==> r->Err_0 is Sqlite && query_failed(entities_query(view_opt_str(entity_type)).0, entities_query(view_opt_str(entity_type)).1),
    {
        let ghost q = entities_query(view_opt_str(entity_type));
        let rows = match entity_type {
            Some(et) => {
                let params: Vec<SqlValue> = vec![SqlValue::Text(et.to_owned())];
                assert(bound_all(params@) =~= q.1);
                self.query_ok_rows(ENTITIES_OF_TYPE, params, 10)?
            },
            None => {
                let params: Vec<SqlValue> = Vec::new();
                assert(bound_all(params@) =~= q.1);
                self.query_ok_rows(ENTITIES_ALL, params, 10)?
            },
        };
        let ghost rv = rows@;
        let entities = decode_all_entities(rows);
        if project_ids.len() == 0 {
            assert(entities_listed(view_opt_str(entity_type), project_ids@, rv, entities@, Seq::empty(), entities@));
            assert(entities_answer(view_opt_str(entity_type), project_ids@, entities@));
            return Ok(entities);
        }
        let mut links: Vec<Vec<i64>> = Vec::new();
        let mut i: usize = 0;
        while i < entities.len()
            invariant
                i <= entities.len(),
                links.len() == i,
                forall|j: int| 0 <= j < i ==> #[trigger] entity_links(entities@[j].id, links@[j]@),
            decreases entities.len() - i,
        {
            let pids = match self.get_assoc_ids_inner("entity_project_association", "entity_id", "project_id", entities[i].id) {
                Ok(v) => v,
                Err(_) => Vec::new(),
            };
            assert(entity_links(entities@[i as int].id, pids@));
            links.push(pids);
            i = i + 1;
        }
        let ghost all = entities@;
        let ghost lv = links_view(links@);
        let kept = keep_in_projects(entities, &links, project_ids);
        proof {
            lemma_in_projects_read(all, links_view(links@), project_ids@);
            assert forall|j: int| 0 <= j < all.len() implies #[trigger] entity_links(all[j].id, lv[j]) by {
                assert(lv[j] == links@[j]@);
            }
            assert(entities_listed(view_opt_str(entity_type), project_ids@, rv, all, lv, kept@));
            assert(entities_answer(view_opt_str(entity_type), project_ids@, kept@));
        }
        Ok(kept)
    }

    /// The entities whose name, notes or aliases match the words of a query
    /// (see `entity_search_query`), best first, at most 20; none for a
    /// query without words.
    pub fn search_entities(&self, query: &str) -> (r: Result<Vec<Entity>, DbError>)
        ensures
            r matches Ok(v) ==> forall|i: int| 0 <= i < v.len() ==> entity_read(#[trigger] v@[i]),
            words(query@).len() == 0 ==> (r matches Ok(v) && v.len() == 0),
            join_or(entity_terms(words(query@))).len() == 0 ==> (r matches Ok(v) && v.len() == 0),
            join_or(entity_terms(words(query@))).len() > 0 ==> (r matches Ok(v) ==> exists|rows: Seq<Vec<SqlValue>>|
                #[trigger] answered(ENTITY_SEARCH@, seq![Bound::Text(join_or(entity_terms(words(query@))))], rows)
                && entity_list_of(rows, v@)),
            r is Err ==> r->Err_0 is Sqlite && query_failed(ENTITY_SEARCH@, seq![Bound::Text(join_or(entity_terms(words(query@))))]),
    {
        let fts_query = entity_search_query(query);
        if fts_query.as_str().unicode_len() == 0 {
            return Ok(Vec::new());
        }
        let params: Vec<SqlValue> = vec![SqlValue::Text(fts_query)];
        assert(bound_all(params@) =~= seq![Bound::Text(join_or(entity_terms(words(query@))))]);
        let rows = self.query_ok_rows(ENTITY_SEARCH, params, 10)?;
        let ghost rv = rows@;
        let v = decode_all_entities(rows);
        assert(answered(ENTITY_SEARCH@, seq![Bound::Text(join_or(entity_terms(words(query@))))], rv));
        Ok(v)
    }

    /// Sets the given fields of an entity (see `entity_update_cols`), logs
    /// the update and returns the entity.
    pub fn update_entity(&mut self, p: &UpdateEntityParams) -> (r: Result<Entity, DbError>)
        ensures
            (r is Ok || r matches Err(DbError::NotFound(_, _))) ==> exists|t: Timestamp, vals: Seq<Bound>|
                entity_update_bound(*p, vals) && final(self).log() == old(self).log() + seq![
                #[trigger] update_write("entities"@, entity_update_cols(*p), t, vals, p.entity_id),
                activity_write("entity"@, p.entity_id, "update"@, None),
            ],
            r matches Err(DbError::Sqlite(_)) ==> exists|t: Timestamp, vals: Seq<Bound>| entity_update_bound(*p, vals) && (
                final(self).log() == old(self).log() + seq![#[trigger] update_write("entities"@, entity_update_cols(*p), t, vals, p.entity_id)]
                || final(self).log() == old(self).log() + seq![
                    update_write("entities"@, entity_update_cols(*p), t, vals, p.entity_id),
                    activity_write("entity"@, p.entity_id, "update"@, None),
                ]),
            r matches Err(DbError::InvalidTimestamp) ==> final(self).log() == old(self).log(),
            r matches Ok(x) ==> entity_read(x),
            r matches Err(e) ==> (e is Sqlite || e is InvalidTimestamp
                || e == DbError::NotFound(RecordKind::Entity, p.entity_id)),
            r matches Ok(x) ==> entity_loaded(p.entity_id, x),
            r matches Err(DbError::NotFound(_, _)) ==> entity_missing(p.entity_id),
    {
        let ghost start = self.log();
        let (cols, vals) = entity_update_columns(p);
        let ghost vb = bound_all(vals@);
        let ran = run_update(self, "entities", &cols, vals, p.entity_id);
        if let Err(e) = ran {
            proof {
                if !(e is InvalidTimestamp) {
                    let t = choose|t: Timestamp| sql_datetime_text(t) is Some
                        && self.log() == start.push(update_write("entities"@, views(cols@), t, vb, p.entity_id));
                    assert(self.log() =~= start + seq![update_write("entities"@, entity_update_cols(*p), t, vb, p.entity_id)]);
                }
            }
            return Err(e);
        }
        let ghost t = choose|t: Timestamp| sql_datetime_text(t) is Some
            && self.log() == start.push(update_write("entities"@, views(cols@), t, vb, p.entity_id));
        let logged = self.log_activity("entity", p.entity_id, "update", None);
        assert(self.log() =~= start + seq![
            update_write("entities"@, entity_update_cols(*p), t, vb, p.entity_id),
            activity_write("entity"@, p.entity_id, "update"@, None),
        ]);
        if let Err(e) = logged {
            return Err(e);
        }
        self.get_entity_inner(p.entity_id)
    }

    /// Deletes an entity with its relationships and associations.
    pub fn delete_entity(&mut self, entity_id: i64) -> (r: Result<(), DbError>)
        ensures
            r is Ok ==> final(self).log() == old(self).log() + seq![
                activity_write("entity"@, entity_id, "delete"@, None),
                (ENTITY_DELETE@, seq![Bound::Integer(entity_id)]),
            ],
            r is Err ==> r->Err_0 is Sqlite,
            r is Err ==> final(self).log() == old(self).log() + seq![activity_write("entity"@, entity_id, "delete"@, None)]
                || final(self).log() == old(self).log() + seq![
                    activity_write("entity"@, entity_id, "delete"@, None),
                    (ENTITY_DELETE@, seq![Bound::Integer(entity_id)]),
                ],
    {
        if let Err(e) = self.log_activity_inner("entity", entity_id, "delete", None) {
            assert(self.log() =~= old(self).log() + seq![activity_write("entity"@, entity_id, "delete"@, None)]);
            return Err(e);
        }
        let params = vec![SqlValue::Integer(entity_id)];
        assert(bound_all(params@) =~= seq![Bound::Integer(entity_id)]);
        let done = self.execute(ENTITY_DELETE, params);
        assert(self.log() =~= old(self).log() + seq![
            activity_write("entity"@, entity_id, "delete"@, None),
            (ENTITY_DELETE@, seq![Bound::Integer(entity_id)]),
        ]);
        if let Err(e) = done {
            return Err(e);
        }
        Ok(())
    }

    /// Associates an entity with a memory.
    pub fn link_entity_memory(&mut self, entity_id: i64, memory_id: i64) -> (r: Result<(), DbError>)
        ensures
            final(self).log() == old(self).log().push(entity_memory_write(entity_id, memory_id)),
            r is Err ==> r->Err_0 is Sqlite,
    {
        let params = vec![SqlValue::Integer(memory_id), SqlValue::Integer(entity_id)];
        assert(bound_all(params@) =~= seq![Bound::Integer(memory_id), Bound::Integer(entity_id)]);
        self.execute(ENTITY_MEMORY_INSERT, params)?;
        Ok(())
    }

    /// Removes the association of an entity with a memory.
    pub fn unlink_entity_memory(&mut self, entity_id: i64, memory_id: i64) -> (r: Result<(), DbError>)
        ensures
            final(self).log() == old(self).log().push((ENTITY_MEMORY_DELETE@, seq![Bound::Integer(memory_id), Bound::Integer(entity_id)])),
            r is Err ==> r->Err_0 is Sqlite,
    {
        let params = vec![SqlValue::Integer(memory_id), SqlValue::Integer(entity_id)];
        assert(bound_all(params@) =~= seq![Bound::Integer(memory_id), Bound::Integer(entity_id)]);
        self.execute(ENTITY_MEMORY_DELETE, params)?;
        Ok(())
    }

    /// Associates an entity with a project.
    pub fn link_entity_project(&mut self, entity_id: i64, project_id: i64) -> (r: Result<(), DbError>)
        ensures
            final(self).log() == old(self).log().push(entity_project_write(entity_id, project_id)),
            r is Err ==> r->Err_0 is Sqlite,
    {
        let params = vec![SqlValue::Integer(entity_id), SqlValue::Integer(project_id)];
        assert(bound_all(params@) =~= seq![Bound::Integer(entity_id), Bound::Integer(project_id)]);
        self.execute(ENTITY_PROJECT_INSERT, params)?;
        Ok(())
    }

    /// Removes the association of an entity with a project.
    pub fn unlink_entity_project(&mut self, entity_id: i64, project_id: i64) -> (r: Result<(), DbError>)
        ensures
            final(self).log() == old(self).log().push((ENTITY_PROJECT_DELETE@, seq![Bound::Integer(entity_id), Bound::Integer(project_id)])),
            r is Err ==> r->Err_0 is Sqlite,
    {
        let params = vec![SqlValue::Integer(entity_id), SqlValue::Integer(project_id)];
        assert(bound_all(params@) =~= seq![Bound::Integer(entity_id), Bound::Integer(project_id)]);
        self.execute(ENTITY_PROJECT_DELETE, params)?;
        Ok(())
    }

    /// The ids of the memories associated with an entity.
    pub fn get_entity_memories(&self, entity_id: i64) -> (r: Result<Vec<i64>, DbError>)
        ensures
            r matches Ok(ids) ==> ids_answered(assoc_sql("memory_entity_association"@, "entity_id"@, "memory_id"@), entity_id, ids@),
            r is Err ==> r->Err_0 is Sqlite && query_failed(assoc_sql("memory_entity_association"@, "entity_id"@, "memory_id"@), seq![Bound::Integer(entity_id)]),
    {
        self.get_assoc_ids_inner("memory_entity_association", "entity_id", "memory_id", entity_id)
    }

    /// Creates a directed relationship of a type between two entities.
    pub fn create_relationship(&mut self, p: &CreateRelationshipParams) -> (r: Result<EntityRelationship, DbError>)
        ensures
            r matches Ok(x) ==> exists|t: Timestamp, id: i64| final(self).log() == old(self).log().push(
                #[trigger] relationship_insert_write(*p, t))
                && #[trigger] relationship_loaded(id, x)
                && inserted_rowid(old(self).log().push(relationship_insert_write(*p, t)), id),
            r matches Ok(x) ==> relationship_read(x),
            r matches Err(e) ==> (e is Sqlite || e is InvalidTimestamp || e is NotFound),
            r matches Err(DbError::InvalidTimestamp) ==> final(self).log() == old(self).log(),
            r matches Err(e) ==> (e is InvalidTimestamp || exists|t: Timestamp|
                final(self).log() == old(self).log().push(#[trigger] relationship_insert_write(*p, t))),
            r matches Err(DbError::NotFound(_, id)) ==> relationship_missing(id) && exists|t: Timestamp|
                inserted_rowid(old(self).log().push(#[trigger] relationship_insert_write(*p, t)), id),
    {
        let (now, now_v) = now_value()?;
        let now_v2 = match &now_v { SqlValue::Text(t) => SqlValue::Text(t.clone()), _ => SqlValue::Null };
        let params = vec![
            SqlValue::Text(Database::default_user_id()),
            SqlValue::Integer(p.source_entity_id),
            SqlValue::Integer(p.target_entity_id),
            SqlValue::Text(p.relationship_type.clone()),
            match &p.strength { Some(v) => number_value(v), None => SqlValue::Null },
            match &p.confidence { Some(v) => number_value(v), None => SqlValue::Null },
            opt_string_value(&p.metadata),
            now_v,
            now_v2,
        ];
        assert(bound_all(params@) =~= relationship_insert_write(*p, now).1);
        let columns: Vec<&'static str> = vec![
            "user_id", "source_entity_id", "target_entity_id", "relationship_type", "strength",
            "confidence", "relationship_metadata", "created_at", "updated_at",
        ];
        assert(views(columns@) =~= relationship_insert_columns());
        let insert = insert_statement("INSERT", "entity_relationships", &columns);
        let inserted = self.execute(insert.as_str(), params);
        assert(self.log() == old(self).log().push(relationship_insert_write(*p, now)));
        if let Err(e) = inserted {
            return Err(e);
        }
        let id = self.last_insert_rowid();
        self.get_relationship_inner(id)
    }

    fn get_relationship_inner(&self, rel_id: i64) -> (r: Result<EntityRelationship, DbError>)
        ensures
            r matches Ok(x) ==> relationship_read(x),
            r matches Ok(x) ==> relationship_loaded(rel_id, x),
            r is Err ==> relationship_missing(rel_id),
            r matches Err(e) ==> e == DbError::NotFound(RecordKind::Relationship, rel_id),
    {
        let params: Vec<SqlValue> = vec![SqlValue::Integer(rel_id)];
        assert(bound_all(params@) =~= seq![Bound::Integer(rel_id)]);
        let row = self.query_first(RELATIONSHIP_BY_ID, params, 10);
        let ghost first = row;
        assert(first_answer(RELATIONSHIP_BY_ID@, seq![Bound::Integer(rel_id)], first));
        match row {
            Some(r) => {
                let ghost read = r@;
                match decode_relationship(r) {
                    Some(x) => {
                        assert(relationship_from_row(read, x));
                        Ok(x)
                    },
                    None => Err(DbError::NotFound(RecordKind::Relationship, rel_id)),
                }
            },
            None => Err(DbError::NotFound(RecordKind::Relationship, rel_id)),
        }
    }

    /// The relationships of an entity: those leaving it (`outgoing`), those
    /// reaching it (`incoming`), or both (any other direction).
    pub fn get_relationships(&self, entity_id: i64, direction: &str) -> (r: Result<Vec<EntityRelationship>, DbError>)
        ensures
            r matches Ok(v) ==> forall|i: int| 0 <= i < v.len() ==> relationship_read(#[trigger] v@[i]),
            r matches Ok(v) ==> exists|rows: Seq<Vec<SqlValue>>|
                #[trigger] answered(relationships_query(direction@), seq![Bound::Integer(entity_id)], rows)
                && relationship_list_of(rows, v@),
            r is Err ==> r->Err_0 is Sqlite && query_failed(relationships_query(direction@), seq![Bound::Integer(entity_id)]),
    {
        let sql = match direction_of(direction) {
            Direction::Outgoing => RELATIONSHIPS_OUTGOING,
            Direction::Incoming => RELATIONSHIPS_INCOMING,
            Direction::Both => RELATIONSHIPS_BOTH,
        };
        assert(sql@ == relationships_query(direction@));
        let params: Vec<SqlValue> = vec![SqlValue::Integer(entity_id)];
        assert(bound_all(params@) =~= seq![Bound::Integer(entity_id)]);
        let rows = self.query_ok_rows(sql, params, 10)?;
        let ghost rv = rows@;
        let v = decode_all_relationships(rows);
        assert(answered(relationships_query(direction@), seq![Bound::Integer(entity_id)], rv));
        Ok(v)
    }

    /// Sets the given fields of a relationship (see
    /// `relationship_update_cols`) and returns it.
    pub fn update_relationship(&mut self, p: &UpdateRelationshipParams) -> (r: Result<EntityRelationship, DbError>)
        ensures
            !(r matches Err(DbError::InvalidTimestamp)) ==> exists|t: Timestamp, vals: Seq<Bound>|
                relationship_update_bound(*p, vals) && final(self).log() == old(self).log() + seq![
                #[trigger] update_write("entity_relationships"@, relationship_update_cols(*p), t, vals, p.relationship_id),
            ],
            r matches Err(DbError::InvalidTimestamp) ==> final(self).log() == old(self).log(),
            r matches Ok(x) ==> relationship_read(x),
            r matches Err(e) ==> (e is Sqlite || e is InvalidTimestamp
                || e == DbError::NotFound(RecordKind::Relationship, p.relationship_id)),
            r matches Ok(x) ==> relationship_loaded(p.relationship_id, x),
            r matches Err(DbError::NotFound(_, _)) ==> relationship_missing(p.relationship_id),
    {
        let ghost start = self.log();
        let (cols, vals) = relationship_update_columns(p);
        let ghost vb = bound_all(vals@);
        let ran = run_update(self, "entity_relationships", &cols, vals, p.relationship_id);
        proof {
            if !(ran matches Err(DbError::InvalidTimestamp)) {
                let t = choose|t: Timestamp| sql_datetime_text(t) is Some
                    && self.log() == start.push(update_write("entity_relationships"@, views(cols@), t, vb, p.relationship_id));
                assert(self.log() =~= start + seq![
                    update_write("entity_relationships"@, relationship_update_cols(*p), t, vb, p.relationship_id),
                ]);
            }
        }
        if let Err(e) = ran {
            return Err(e);
        }
        self.get_relationship_inner(p.relationship_id)
    }

    /// Deletes a relationship.
    pub fn delete_relationship(&mut self, rel_id: i64) -> (r: Result<(), DbError>)
        ensures
            final(self).log() == old(self).log().push((RELATIONSHIP_DELETE@, seq![Bound::Integer(rel_id)])),
            r is Err ==> r->Err_0 is Sqlite,
    {
        let params = vec![SqlValue::Integer(rel_id)];
        assert(bound_all(params@) =~= seq![Bound::Integer(rel_id)]);
        self.execute(RELATIONSHIP_DELETE, params)?;
        Ok(())
    }
}

} // verus!
